//! Lists of entries that stand for a map: every key occurs once.

use vstd::prelude::*;

verus! {

/// Something that holds a value under a key.
pub trait Entry: Sized {
    type Key;

    type Value;

    spec fn key(&self) -> Self::Key;

    spec fn value(&self) -> Self::Value;
}

/// The map a list of entries stands for.
pub open spec fn table<E: Entry>(entries: Seq<E>) -> Map<E::Key, E::Value>
    decreases entries.len(),
{
    if entries.len() == 0 {
        Map::empty()
    } else {
        table(entries.drop_last()).insert(entries.last().key(), entries.last().value())
    }
}

/// Whether no key occurs twice.
pub open spec fn distinct<E: Entry>(entries: Seq<E>) -> bool {
    forall|i: int, j: int|
        0 <= i < j < entries.len() ==> (#[trigger] entries[i]).key() != (
        #[trigger] entries[j]).key()
}

/// The map holds every entry under its key, and nothing else.
pub proof fn lemma_table<E: Entry>(entries: Seq<E>)
    requires
        distinct(entries),
    ensures
        table(entries).dom().finite(),
        table(entries).dom().len() == entries.len(),
        forall|i: int|
            0 <= i < entries.len() ==> table(entries).contains_key((#[trigger] entries[i]).key())
                && table(entries)[entries[i].key()] == entries[i].value(),
        forall|key: E::Key| #[trigger]
            table(entries).contains_key(key) ==> exists|i: int|
                0 <= i < entries.len() && (#[trigger] entries[i]).key() == key,
    decreases entries.len(),
{
    if entries.len() > 0 {
        let rest = entries.drop_last();
        let last = entries.last();
        assert(distinct(rest)) by {
            assert forall|i: int, j: int| 0 <= i < j < rest.len() implies (#[trigger] rest[i]).key()
                != (#[trigger] rest[j]).key() by {
                assert(rest[i] == entries[i] && rest[j] == entries[j]);
            }
        }
        lemma_table(rest);
        assert(!table(rest).contains_key(last.key())) by {
            if table(rest).contains_key(last.key()) {
                let i = choose|i: int| 0 <= i < rest.len() && (#[trigger] rest[i]).key() == last.key();
                assert(entries[i] == rest[i]);
                assert(entries[entries.len() - 1] == last);
            }
        }
        assert forall|i: int| 0 <= i < entries.len() implies table(entries).contains_key(
            (#[trigger] entries[i]).key(),
        ) && table(entries)[entries[i].key()] == entries[i].value() by {
            if i < rest.len() {
                assert(rest[i] == entries[i]);
                assert(entries[entries.len() - 1] == last);
            }
        }
        assert forall|key: E::Key| #[trigger] table(entries).contains_key(key) implies exists|i: int|
            0 <= i < entries.len() && (#[trigger] entries[i]).key() == key by {
            if key == last.key() {
                assert(entries[entries.len() - 1].key() == key);
            } else {
                assert(table(rest).contains_key(key));
                let i = choose|i: int| 0 <= i < rest.len() && (#[trigger] rest[i]).key() == key;
                assert(entries[i] == rest[i]);
            }
        }
    }
}

/// Taking an entry out takes its key out.
pub proof fn lemma_table_remove<E: Entry>(entries: Seq<E>, at: int)
    requires
        distinct(entries),
        0 <= at < entries.len(),
    ensures
        distinct(entries.remove(at)),
        table(entries.remove(at)) == table(entries).remove(entries[at].key()),
{
    let shorter = entries.remove(at);
    assert(distinct(shorter)) by {
        assert forall|i: int, j: int| 0 <= i < j < shorter.len() implies (
        #[trigger] shorter[i]).key() != (#[trigger] shorter[j]).key() by {
            let a = if i < at { i } else { i + 1 };
            let b = if j < at { j } else { j + 1 };
            assert(shorter[i] == entries[a] && shorter[j] == entries[b]);
        }
    }
    lemma_table(entries);
    lemma_table(shorter);
    let left = table(shorter);
    let right = table(entries).remove(entries[at].key());
    assert forall|key: E::Key| left.contains_key(key) implies right.contains_key(key) && left[key]
        == right[key] by {
        let i = choose|i: int| 0 <= i < shorter.len() && (#[trigger] shorter[i]).key() == key;
        let a = if i < at { i } else { i + 1 };
        assert(shorter[i] == entries[a]);
        assert(entries[a].key() != entries[at].key()) by {
            if a < at {
                assert(entries[a].key() != entries[at].key());
            } else {
                assert(entries[at].key() != entries[a].key());
            }
        }
    }
    assert forall|key: E::Key| right.contains_key(key) implies left.contains_key(key) by {
        let i = choose|i: int| 0 <= i < entries.len() && (#[trigger] entries[i]).key() == key;
        let a = if i < at { i } else { i - 1 };
        assert(i != at);
        assert(shorter[a] == entries[i]);
    }
    assert(left =~= right);
}

/// Replacing an entry by one of the same key replaces its value.
pub proof fn lemma_table_update<E: Entry>(entries: Seq<E>, at: int, next: E)
    requires
        distinct(entries),
        0 <= at < entries.len(),
        next.key() == entries[at].key(),
    ensures
        distinct(entries.update(at, next)),
        table(entries.update(at, next)) == table(entries).insert(next.key(), next.value()),
{
    let updated = entries.update(at, next);
    assert forall|i: int, j: int| 0 <= i < j < updated.len() implies (#[trigger] updated[i]).key()
        != (#[trigger] updated[j]).key() by {
        assert(entries[i].key() != entries[j].key());
    }
    lemma_table(entries);
    lemma_table(updated);
    let left = table(updated);
    let right = table(entries).insert(next.key(), next.value());
    assert forall|key: E::Key| left.contains_key(key) implies right.contains_key(key) && left[key]
        == right[key] by {
        let i = choose|i: int| 0 <= i < updated.len() && (#[trigger] updated[i]).key() == key;
        assert(entries[i].key() == key);
        if i != at {
            assert(entries[i].key() != entries[at].key()) by {
                if i < at {
                    assert(entries[i].key() != entries[at].key());
                } else {
                    assert(entries[at].key() != entries[i].key());
                }
            }
        }
    }
    assert forall|key: E::Key| right.contains_key(key) implies left.contains_key(key) by {
        if key == next.key() {
            assert(updated[at].key() == key);
        } else {
            let i = choose|i: int| 0 <= i < entries.len() && (#[trigger] entries[i]).key() == key;
            assert(updated[i].key() == key);
        }
    }
    assert(left =~= right);
}

/// Adding an entry of a new key adds its value.
pub proof fn lemma_table_push<E: Entry>(entries: Seq<E>, next: E)
    requires
        distinct(entries),
        !table(entries).contains_key(next.key()),
    ensures
        distinct(entries.push(next)),
        table(entries.push(next)) == table(entries).insert(next.key(), next.value()),
{
    let after = entries.push(next);
    lemma_table(entries);
    assert(after.drop_last() =~= entries);
    assert forall|i: int, j: int| 0 <= i < j < after.len() implies (#[trigger] after[i]).key() != (
    #[trigger] after[j]).key() by {
        assert(after[i] == entries[i]);
        if j < entries.len() {
            assert(after[j] == entries[j]);
        } else {
            assert(table(entries).contains_key(entries[i].key()));
        }
    }
}

} // verus!
