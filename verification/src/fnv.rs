//! FNV-1a over 64 bits.

use vstd::prelude::*;

verus! {

pub const OFFSET: u64 = 0xcbf2_9ce4_8422_2325;

pub const PRIME: u64 = 0x0000_0100_0000_01b3;

/// One FNV-1a step.
pub open spec fn step(hash: u64, byte: u8) -> u64 {
    (hash ^ (byte as u64)).wrapping_mul(PRIME)
}

/// FNV-1a continued over `bytes` from `hash`.
pub open spec fn fold(hash: u64, bytes: Seq<u8>) -> u64
    decreases bytes.len(),
{
    if bytes.len() == 0 {
        hash
    } else {
        step(fold(hash, bytes.drop_last()), bytes.last())
    }
}

/// A running FNV-1a hash.
pub struct Fnv {
    hash: u64,
    fed: Ghost<Seq<u8>>,
}

impl Fnv {
    /// The bytes fed so far.
    pub closed spec fn fed(self) -> Seq<u8> {
        self.fed@
    }

    /// The hash is that of the bytes fed so far.
    pub closed spec fn wf(self) -> bool {
        self.hash == fold(OFFSET, self.fed@)
    }

    pub fn new() -> (fnv: Self)
        ensures
            fnv.wf(),
            fnv.fed() == Seq::<u8>::empty(),
    {
        Fnv { hash: OFFSET, fed: Ghost(Seq::empty()) }
    }

    /// Feeds one byte.
    pub fn byte(&mut self, byte: u8)
        requires
            old(self).wf(),
        ensures
            final(self).wf(),
            final(self).fed() == old(self).fed().push(byte),
    {
        self.hash = (self.hash ^ (byte as u64)).wrapping_mul(PRIME);
        proof {
            self.fed@ = self.fed@.push(byte);
            assert(self.fed@.drop_last() =~= old(self).fed@);
        }
    }

    /// Feeds every byte in order.
    pub fn bytes(&mut self, bytes: &[u8])
        requires
            old(self).wf(),
        ensures
            final(self).wf(),
            final(self).fed() == old(self).fed() + bytes@,
    {
        let mut i: usize = 0;
        assert(self.fed() =~= old(self).fed() + bytes@.take(0));
        while i < bytes.len()
            invariant
                self.wf(),
                i <= bytes@.len(),
                self.fed() == old(self).fed() + bytes@.take(i as int),
            decreases bytes@.len() - i,
        {
            self.byte(bytes[i]);
            assert(self.fed() =~= old(self).fed() + bytes@.take(i + 1));
            i = i + 1;
        }
        assert(bytes@.take(i as int) =~= bytes@);
    }

    /// The hash of everything fed so far.
    pub fn value(&self) -> (hash: u64)
        requires
            self.wf(),
        ensures
            hash == fold(OFFSET, self.fed()),
    {
        self.hash
    }

    /// Feeds a 16-bit value, low byte first.
    pub fn u16_le(&mut self, value: u16)
        requires
            old(self).wf(),
        ensures
            final(self).wf(),
            final(self).fed() == old(self).fed() + le16(value),
    {
        self.byte((value % 256) as u8);
        self.byte((value / 256) as u8);
        assert(self.fed() =~= old(self).fed() + le16(value));
    }

    /// Feeds a 32-bit value, low byte first.
    pub fn u32_le(&mut self, value: u32)
        requires
            old(self).wf(),
        ensures
            final(self).wf(),
            final(self).fed() == old(self).fed() + le32(value),
    {
        self.byte((value % 256) as u8);
        self.byte((value / 256 % 256) as u8);
        self.byte((value / 65536 % 256) as u8);
        self.byte((value / 16777216) as u8);
        assert(self.fed() =~= old(self).fed() + le32(value));
    }
}

/// The two bytes of a 16-bit value, low byte first.
pub open spec fn le16(value: u16) -> Seq<u8> {
    seq![(value % 256) as u8, (value / 256) as u8]
}

/// The four bytes of a 32-bit value, low byte first.
pub open spec fn le32(value: u32) -> Seq<u8> {
    seq![
        (value % 256) as u8,
        (value / 256 % 256) as u8,
        (value / 65536 % 256) as u8,
        (value / 16777216) as u8,
    ]
}

} // verus!
