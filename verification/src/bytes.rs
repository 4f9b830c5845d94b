//! Big-endian integers.

use vstd::prelude::*;

verus! {

/// The last `count` bytes of `n`, most significant first.
pub open spec fn big_endian(n: nat, count: nat) -> Seq<u8>
    decreases count,
{
    if count == 0 {
        Seq::empty()
    } else {
        big_endian(n / 256, (count - 1) as nat).push((n % 256) as u8)
    }
}

/// The number that bytes spell, most significant first.
pub open spec fn number(bytes: Seq<u8>) -> nat
    decreases bytes.len(),
{
    if bytes.len() == 0 {
        0
    } else {
        number(bytes.drop_last()) * 256 + bytes.last() as nat
    }
}

/// The number spelled by the `count` bytes from `at` on.
pub open spec fn number_at(bytes: Seq<u8>, at: int, count: int) -> nat {
    number(bytes.subrange(at, at + count))
}

/// Eight bytes are as long as a `u64` takes, and spell it back.
pub proof fn lemma_u64_reads_back(n: u64)
    ensures
        big_endian(n as nat, 8).len() == 8,
        number(big_endian(n as nat, 8)) == n,
{
    reveal_with_fuel(bound, 9);
    lemma_reads_back(n as nat, 8);
}

/// One more than the largest number of `count` bytes.
pub open spec fn bound(count: nat) -> nat
    decreases count,
{
    if count == 0 {
        1
    } else {
        bound((count - 1) as nat) * 256
    }
}

pub proof fn lemma_reads_back(n: nat, count: nat)
    requires
        n < bound(count),
    ensures
        big_endian(n, count).len() == count,
        number(big_endian(n, count)) == n,
    decreases count,
{
    if count > 0 {
        lemma_reads_back(n / 256, (count - 1) as nat);
        let rest = big_endian(n / 256, (count - 1) as nat);
        let all = big_endian(n, count);
        assert(all.drop_last() =~= rest);
    }
}

proof fn lemma_number_bound(bytes: Seq<u8>)
    ensures
        number(bytes) < bound(bytes.len()),
    decreases bytes.len(),
{
    if bytes.len() > 0 {
        lemma_number_bound(bytes.drop_last());
    }
}

/// Appends the eight bytes of `n`.
pub fn push_u64(output: &mut Vec<u8>, n: u64)
    ensures
        final(output)@ == old(output)@ + big_endian(n as nat, 8),
{
    let mut reversed: Vec<u8> = Vec::new();
    let mut rest: u64 = n;
    let mut i: usize = 0;
    proof {
        lemma_u64_reads_back(n);
    }
    assert(big_endian(n as nat, 8) =~= big_endian(rest as nat, 8) + reversed@.reverse());
    while i < 8
        invariant
            i <= 8,
            reversed@.len() == i,
            big_endian(n as nat, 8) == big_endian(rest as nat, (8 - i) as nat) + reversed@.reverse(),
        decreases 8 - i,
    {
        let ghost before = reversed@;
        let byte: u8 = (rest % 256) as u8;
        reversed.push(byte);
        assert(reversed@.reverse() =~= seq![byte] + before.reverse());
        assert(big_endian(rest as nat, (8 - i) as nat) == big_endian(
            rest as nat / 256,
            (8 - i - 1) as nat,
        ).push(byte));
        assert(big_endian(n as nat, 8) =~= big_endian(rest as nat / 256, (8 - i - 1) as nat)
            + reversed@.reverse());
        rest = rest / 256;
        i = i + 1;
    }
    let ghost all = reversed@.reverse();
    assert(big_endian(n as nat, 8) =~= all);
    let ghost start = output@;
    while i > 0
        invariant
            i <= 8,
            reversed@.len() == 8,
            all == reversed@.reverse(),
            output@ == start + all.take(8 - i),
        decreases i,
    {
        i = i - 1;
        output.push(reversed[i as usize]);
        assert(all.take(8 - i) =~= all.take(8 - i - 1).push(reversed@[i as int]));
    }
    assert(all.take(8) =~= all);
}

fn read(bytes: &[u8], at: usize, count: usize) -> (n: u64)
    requires
        count <= 8,
        at + count <= bytes@.len(),
    ensures
        n == number_at(bytes@, at as int, count as int),
        n < bound(count as nat),
{
    let ghost all = bytes@.subrange(at as int, at + count);
    let end: usize = bytes.len();
    let mut n: u64 = 0;
    let mut i: usize = 0;
    assert(all.take(0) =~= Seq::<u8>::empty());
    while i < count
        invariant
            i <= count <= 8,
            at + count <= end,
            end == bytes@.len(),
            all == bytes@.subrange(at as int, at + count),
            n == number(all.take(i as int)),
        decreases count - i,
    {
        proof {
            lemma_number_bound(all.take(i as int));
            reveal_with_fuel(bound, 8);
            assert(all.take(i + 1).drop_last() =~= all.take(i as int));
        }
        n = n * 256 + bytes[at + i] as u64;
        i = i + 1;
    }
    proof {
        assert(all.take(i as int) =~= all);
        lemma_number_bound(all);
    }
    n
}

/// The `u64` spelled by the eight bytes from `at` on.
pub fn u64_at(bytes: &[u8], at: usize) -> (n: u64)
    requires
        at + 8 <= bytes@.len(),
    ensures
        n == number_at(bytes@, at as int, 8),
{
    read(bytes, at, 8)
}

/// The `u32` spelled by the four bytes from `at` on.
pub fn u32_at(bytes: &[u8], at: usize) -> (n: u32)
    requires
        at + 4 <= bytes@.len(),
    ensures
        n == number_at(bytes@, at as int, 4),
{
    let n: u64 = read(bytes, at, 4);
    proof {
        reveal_with_fuel(bound, 5);
    }
    n as u32
}

/// The `u16` spelled by the two bytes from `at` on.
pub fn u16_at(bytes: &[u8], at: usize) -> (n: u16)
    requires
        at + 2 <= bytes@.len(),
    ensures
        n == number_at(bytes@, at as int, 2),
{
    let n: u64 = read(bytes, at, 2);
    proof {
        reveal_with_fuel(bound, 3);
    }
    n as u16
}

/// The signed number whose two's complement an unsigned 32-bit number is.
pub open spec fn two_complement(n: nat) -> int {
    if n < 0x8000_0000 {
        n as int
    } else {
        n - 0x1_0000_0000
    }
}

/// The `i32` spelled in two's complement by the four bytes from `at` on.
pub fn i32_at(bytes: &[u8], at: usize) -> (n: i32)
    requires
        at + 4 <= bytes@.len(),
    ensures
        n == two_complement(number_at(bytes@, at as int, 4)),
{
    let n: u32 = u32_at(bytes, at);
    if n < 0x8000_0000 {
        n as i32
    } else {
        (n as i64 - 0x1_0000_0000) as i32
    }
}

} // verus!
