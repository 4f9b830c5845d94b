//! The frame baselines of one pane, keyed by subscriber.

use vstd::prelude::*;

use crate::delta::{BaselineView, FrameBaseline};
use crate::frame::MAX_SUBSCRIBERS;
use crate::table::{self, Entry};
use crate::text;

verus! {

struct Subscription {
    name: String,
    baseline: FrameBaseline,
}

/// Baselines of one pane keyed by subscriber, capped at `MAX_SUBSCRIBERS` by least recent use.
pub struct FrameSubscribers {
    tick: u64,
    subscriptions: Vec<Subscription>,
}

impl Entry for Subscription {
    type Key = Seq<char>;

    type Value = BaselineView;

    closed spec fn key(&self) -> Seq<char> {
        self.name@
    }

    closed spec fn value(&self) -> BaselineView {
        self.baseline@
    }
}

/// The subscriber whose baseline was used least recently.
pub open spec fn oldest(baselines: Map<Seq<char>, BaselineView>) -> Seq<char> {
    choose|name: Seq<char>| #[trigger]
        baselines.contains_key(name) && forall|other: Seq<char>| #[trigger]
            baselines.contains_key(other) ==> baselines[name].last_used
                <= baselines[other].last_used
}

/// The table after `name` received `baseline` as use number `tick`.
pub open spec fn recorded(
    baselines: Map<Seq<char>, BaselineView>,
    tick: u64,
    name: Seq<char>,
    baseline: BaselineView,
) -> Map<Seq<char>, BaselineView> {
    let kept = if baselines.contains_key(name) || baselines.dom().len() < MAX_SUBSCRIBERS {
        baselines
    } else {
        baselines.remove(oldest(baselines))
    };
    kept.insert(name, BaselineView { last_used: tick, ..baseline })
}

/// What holds of every table: at most `MAX_SUBSCRIBERS` baselines, each with a use number of its
/// own that is not after the latest.
pub open spec fn orderly(baselines: Map<Seq<char>, BaselineView>, tick: u64) -> bool {
    &&& baselines.dom().finite()
    &&& baselines.dom().len() <= MAX_SUBSCRIBERS
    &&& forall|name: Seq<char>| #[trigger]
        baselines.contains_key(name) ==> baselines[name].last_used <= tick
    &&& forall|a: Seq<char>, b: Seq<char>| #[trigger]
        baselines.contains_key(a) && #[trigger] baselines.contains_key(b) && a != b
            ==> baselines[a].last_used != baselines[b].last_used
}

impl View for FrameSubscribers {
    type V = Map<Seq<char>, BaselineView>;

    closed spec fn view(&self) -> Map<Seq<char>, BaselineView> {
        table::table(self.subscriptions@)
    }
}

impl FrameSubscribers {
    /// The number of the latest use.
    pub closed spec fn tick(&self) -> u64 {
        self.tick
    }

    /// Whether the table is in order.
    pub closed spec fn wf(&self) -> bool {
        &&& table::distinct(self.subscriptions@)
        &&& orderly(self@, self.tick())
    }

    fn position(&self, subscriber: &str) -> (at: Option<usize>)
        requires
            self.wf(),
        ensures
            at is Some == self@.contains_key(subscriber@),
            at matches Some(i) ==> i < self.subscriptions@.len()
                && self.subscriptions@[i as int].name@ == subscriber@,
    {
        proof {
            table::lemma_table(self.subscriptions@);
        }
        let mut i: usize = 0;
        while i < self.subscriptions.len()
            invariant
                self.wf(),
                i <= self.subscriptions@.len(),
                forall|j: int| 0 <= j < i ==> (#[trigger] self.subscriptions@[j]).key() != subscriber@,
            decreases self.subscriptions@.len() - i,
        {
            if text::same_text(self.subscriptions[i].name.as_str(), subscriber) {
                proof {
                    table::lemma_table(self.subscriptions@);
                }
                return Some(i);
            }
            i = i + 1;
        }
        None
    }

    fn least_recent(&self) -> (at: usize)
        requires
            self.wf(),
            self.subscriptions@.len() > 0,
        ensures
            at < self.subscriptions@.len(),
            self.subscriptions@[at as int].name@ == oldest(self@),
    {
        let mut at: usize = 0;
        let mut i: usize = 1;
        while i < self.subscriptions.len()
            invariant
                self.subscriptions@.len() > 0,
                at < i <= self.subscriptions@.len(),
                forall|j: int|
                    0 <= j < i ==> self.subscriptions@[at as int].baseline@.last_used <= (
                    #[trigger] self.subscriptions@[j]).baseline@.last_used,
            decreases self.subscriptions@.len() - i,
        {
            if self.subscriptions[i].baseline.last_used
                < self.subscriptions[at].baseline.last_used {
                at = i;
            }
            i = i + 1;
        }
        proof {
            table::lemma_table(self.subscriptions@);
            let found = self.subscriptions@[at as int].name@;
            assert(self@.contains_key(found));
            assert forall|other: Seq<char>| #[trigger]
                self@.contains_key(other) implies self@[found].last_used
                <= self@[other].last_used by {
                let j = choose|j: int|
                    0 <= j < self.subscriptions@.len() && (
                    #[trigger] self.subscriptions@[j]).key() == other;
                assert(self.subscriptions@[at as int].baseline@.last_used
                    <= self.subscriptions@[j].baseline@.last_used);
            }
            let chosen = oldest(self@);
            assert(self@.contains_key(chosen));
            assert(self@[chosen].last_used <= self@[found].last_used);
            assert(self@[found].last_used <= self@[chosen].last_used);
        }
        at
    }

    /// The baseline kept for `subscriber`.
    pub fn baseline(&self, subscriber: &str) -> (kept: Option<&FrameBaseline>)
        requires
            self.wf(),
        ensures
            kept is Some == self@.contains_key(subscriber@),
            kept matches Some(baseline) ==> baseline@ == self@[subscriber@],
    {
        match self.position(subscriber) {
            Some(i) => {
                proof {
                    table::lemma_table(self.subscriptions@);
                }
                Some(&self.subscriptions[i].baseline)
            },
            None => None,
        }
    }

    /// Whether another use can be numbered.
    pub fn can_record(&self) -> (yes: bool)
        ensures
            yes == (self.tick() < u64::MAX),
    {
        self.tick < u64::MAX
    }

    /// Keeps `baseline` for `subscriber` as the latest use. A new subscriber takes the place of
    /// the least recently used one when the table is full.
    pub fn record(&mut self, subscriber: &str, baseline: FrameBaseline)
        requires
            old(self).wf(),
            old(self).tick() < u64::MAX,
        ensures
            final(self).wf(),
            final(self).tick() == old(self).tick() + 1,
            final(self)@ == recorded(old(self)@, final(self).tick(), subscriber@, baseline@),
    {
        let mut baseline = baseline;
        baseline.last_used = self.tick + 1;
        let ghost before = self.subscriptions@;
        proof {
            table::lemma_table(before);
            lemma_recorded_is_orderly(
                self@,
                (self.tick() + 1) as u64,
                subscriber@,
                baseline@,
            );
        }
        let next = Subscription { name: String::from_str(subscriber), baseline };
        match self.position(subscriber) {
            Some(i) => {
                proof {
                    table::lemma_table_update(before, i as int, next);
                }
                self.subscriptions.set(i, next);
            },
            None => {
                if self.subscriptions.len() >= MAX_SUBSCRIBERS {
                    let at: usize = self.least_recent();
                    proof {
                        table::lemma_table_remove(before, at as int);
                    }
                    self.subscriptions.remove(at);
                }
                proof {
                    table::lemma_table_push(self.subscriptions@, next);
                }
                self.subscriptions.push(next);
            },
        }
        self.tick = self.tick + 1;
    }

    /// How many baselines are kept.
    pub fn len(&self) -> (n: usize)
        requires
            self.wf(),
        ensures
            n == self@.dom().len(),
    {
        proof {
            table::lemma_table(self.subscriptions@);
        }
        self.subscriptions.len()
    }

    /// Whether no baseline is kept.
    pub fn is_empty(&self) -> (empty: bool)
        requires
            self.wf(),
        ensures
            empty == (self@.dom().len() == 0),
    {
        self.len() == 0
    }
}

impl Default for FrameSubscribers {
    fn default() -> (table: Self)
        ensures
            table.wf(),
            table@ == Map::<Seq<char>, BaselineView>::empty(),
            table.tick() == 0,
    {
        FrameSubscribers { tick: 0, subscriptions: Vec::new() }
    }
}

proof fn lemma_recorded_is_orderly(
    baselines: Map<Seq<char>, BaselineView>,
    tick: u64,
    name: Seq<char>,
    baseline: BaselineView,
)
    requires
        tick > 0,
        orderly(baselines, (tick - 1) as u64),
    ensures
        orderly(recorded(baselines, tick, name, baseline), tick),
{
    let after = recorded(baselines, tick, name, baseline);
    if !baselines.contains_key(name) && baselines.dom().len() >= MAX_SUBSCRIBERS {
        let gone = oldest(baselines);
        lemma_oldest(baselines);
        assert(after.dom() =~= baselines.dom().remove(gone).insert(name));
    } else {
        assert(after.dom() =~= baselines.dom().insert(name));
    }
    assert forall|a: Seq<char>, b: Seq<char>| #[trigger]
        after.contains_key(a) && #[trigger] after.contains_key(b) && a
            != b implies after[a].last_used != after[b].last_used by {
        if a != name {
            assert(baselines.contains_key(a));
        }
        if b != name {
            assert(baselines.contains_key(b));
        }
    }
    assert forall|other: Seq<char>| #[trigger] after.contains_key(other) implies after[other].last_used
        <= tick by {
        if other != name {
            assert(baselines.contains_key(other));
        }
    }
}

proof fn lemma_least_used(
    baselines: Map<Seq<char>, BaselineView>,
    names: Set<Seq<char>>,
) -> (least: Seq<char>)
    requires
        names.finite(),
        names.len() > 0,
        names.subset_of(baselines.dom()),
    ensures
        names.contains(least),
        forall|other: Seq<char>| #[trigger]
            names.contains(other) ==> baselines[least].last_used <= baselines[other].last_used,
    decreases names.len(),
{
    let one = names.choose();
    let rest = names.remove(one);
    if rest.len() == 0 {
        assert forall|other: Seq<char>| #[trigger] names.contains(other) implies other == one by {
            if other != one {
                assert(rest.contains(other));
            }
        }
        one
    } else {
        let least = lemma_least_used(baselines, rest);
        assert forall|other: Seq<char>| #[trigger] names.contains(other) && other
            != one implies baselines[least].last_used <= baselines[other].last_used by {
            assert(rest.contains(other));
        }
        if baselines[one].last_used < baselines[least].last_used {
            one
        } else {
            least
        }
    }
}

proof fn lemma_oldest(baselines: Map<Seq<char>, BaselineView>)
    requires
        baselines.dom().finite(),
        baselines.dom().len() > 0,
    ensures
        baselines.contains_key(oldest(baselines)),
        forall|other: Seq<char>| #[trigger]
            baselines.contains_key(other) ==> baselines[oldest(baselines)].last_used
                <= baselines[other].last_used,
{
    let least = lemma_least_used(baselines, baselines.dom());
    assert(baselines.contains_key(least));
    assert forall|other: Seq<char>| #[trigger]
        baselines.contains_key(other) implies baselines[least].last_used
        <= baselines[other].last_used by {
        assert(baselines.dom().contains(other));
    }
}

/// A table never holds more than `MAX_SUBSCRIBERS` baselines; the latest subscriber is always
/// held, with its baseline; any other subscriber keeps its baseline, unless the table was full,
/// the latest subscriber is new and the other one was used less recently than all the rest.
pub proof fn law_least_recent_subscriber_leaves(
    baselines: Map<Seq<char>, BaselineView>,
    tick: u64,
    name: Seq<char>,
    baseline: BaselineView,
    other: Seq<char>,
)
    requires
        tick > 0,
        orderly(baselines, (tick - 1) as u64),
        baselines.contains_key(other),
        other != name,
    ensures
        recorded(baselines, tick, name, baseline).dom().len() <= MAX_SUBSCRIBERS,
        recorded(baselines, tick, name, baseline).contains_key(name),
        recorded(baselines, tick, name, baseline)[name] == (BaselineView {
            last_used: tick,
            ..baseline
        }),
        recorded(baselines, tick, name, baseline).contains_key(other) <==> !(
        !baselines.contains_key(name) && baselines.dom().len() == MAX_SUBSCRIBERS && forall|
            third: Seq<char>,
        | #[trigger]
            baselines.contains_key(third) ==> baselines[other].last_used
                <= baselines[third].last_used),
        recorded(baselines, tick, name, baseline).contains_key(other) ==> recorded(
            baselines,
            tick,
            name,
            baseline,
        )[other] == baselines[other],
{
    lemma_recorded_is_orderly(baselines, tick, name, baseline);
    if !baselines.contains_key(name) && baselines.dom().len() >= MAX_SUBSCRIBERS {
        lemma_oldest(baselines);
        let gone = oldest(baselines);
        if other != gone {
            assert(baselines[gone].last_used <= baselines[other].last_used);
            assert(baselines[gone].last_used != baselines[other].last_used);
        }
    }
}

/// A table in order is orderly, so that the laws of orderly tables hold of it.
pub proof fn law_table_is_orderly(table: &FrameSubscribers)
    requires
        table.wf(),
    ensures
        orderly(table@, table.tick()),
{
}

/// The table that a series of uses makes of an empty one. Each use names a subscriber and the
/// baseline it received; they are numbered from one.
pub open spec fn after_uses(uses: Seq<(Seq<char>, BaselineView)>) -> Map<Seq<char>, BaselineView>
    decreases uses.len(),
{
    if uses.len() == 0 {
        Map::empty()
    } else {
        recorded(after_uses(uses.drop_last()), uses.len() as u64, uses.last().0, uses.last().1)
    }
}

/// The subscribers that a series of uses names.
pub open spec fn names_in(uses: Seq<(Seq<char>, BaselineView)>) -> Set<Seq<char>>
    decreases uses.len(),
{
    if uses.len() == 0 {
        Set::empty()
    } else {
        names_in(uses.drop_last()).insert(uses.last().0)
    }
}

/// However it was used, a table holds as many baselines as it was given different names, but no more
/// than `MAX_SUBSCRIBERS`; while there are fewer, no subscriber has been left out.
pub proof fn law_table_counts_its_names(uses: Seq<(Seq<char>, BaselineView)>)
    requires
        uses.len() <= u64::MAX,
    ensures
        names_in(uses).finite(),
        after_uses(uses).dom().len() == if names_in(uses).len() < MAX_SUBSCRIBERS {
            names_in(uses).len()
        } else {
            MAX_SUBSCRIBERS as nat
        },
        names_in(uses).len() <= MAX_SUBSCRIBERS ==> after_uses(uses).dom() == names_in(uses),
        after_uses(uses).dom().subset_of(names_in(uses)),
        orderly(after_uses(uses), uses.len() as u64),
    decreases uses.len(),
{
    if uses.len() > 0 {
        let earlier = uses.drop_last();
        law_table_counts_its_names(earlier);
        let before = after_uses(earlier);
        let (name, baseline) = uses.last();
        let after = after_uses(uses);
        lemma_recorded_is_orderly(before, uses.len() as u64, name, baseline);
        if !before.contains_key(name) && before.dom().len() >= MAX_SUBSCRIBERS {
            let gone = oldest(before);
            lemma_oldest(before);
            assert(after.dom() =~= before.dom().remove(gone).insert(name));
            if names_in(earlier).contains(name) {
                assert(names_in(uses) =~= names_in(earlier));
                assert(names_in(earlier).len() > MAX_SUBSCRIBERS);
            }
        } else {
            assert(after.dom() =~= before.dom().insert(name));
            if before.contains_key(name) {
                assert(after.dom() =~= before.dom());
                assert(names_in(uses) =~= names_in(earlier));
            }
        }
    } else {
        assert(after_uses(uses).dom() =~= Set::empty());
    }
}

} // verus!
