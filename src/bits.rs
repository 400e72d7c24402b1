use vstd::prelude::*;

verus! {

/// The mask of slot `index` within its byte.
pub open spec fn mask(index: u64) -> u8 {
    1u8 << ((index % 8) as u8)
}

/// Whether slot `index` is marked in `bits`.
pub open spec fn bit_set(bits: Seq<u8>, index: u64) -> bool {
    bits[(index / 8) as int] & mask(index) != 0
}

/// `bits` with slot `index` marked.
pub open spec fn set_bit(bits: Seq<u8>, index: u64) -> Seq<u8> {
    bits.update((index / 8) as int, bits[(index / 8) as int] | mask(index))
}

/// Whether `index` addresses a byte of `bits`.
pub open spec fn in_range(bits: Seq<u8>, index: u64) -> bool {
    (index / 8) < bits.len()
}

/// A bit vector over a borrowed byte region: slot `i` is bit `i % 8` of byte `i / 8`.
pub struct Bits<'a>(pub &'a mut [u8]);

impl<'a> Bits<'a> {
    pub open spec fn view(&self) -> Seq<u8> {
        self.0@
    }

    pub fn get(&self, index: u64) -> (r: bool)
        requires
            in_range(self@, index),
        ensures
            r == bit_set(self@, index),
    {
        let byte = self.0[(index / 8) as usize];
        (byte & (1u8 << ((index % 8) as u8))) != 0
    }

    pub fn set(&mut self, index: u64)
        requires
            in_range(old(self)@, index),
        ensures
            final(self)@ == set_bit(old(self)@, index),
            final(final(self).0)@ == final(old(self).0)@,
    {
        let i = (index / 8) as usize;
        let byte = self.0[i];
        self.0[i] = byte | (1u8 << ((index % 8) as u8));
    }
}

/// Marking a slot marks it, and leaves every other slot as it was.
pub proof fn lemma_set_bit(bits: Seq<u8>, index: u64, other: u64)
    requires
        in_range(bits, index),
        in_range(bits, other),
    ensures
        set_bit(bits, index).len() == bits.len(),
        bit_set(set_bit(bits, index), index),
        other != index ==> bit_set(set_bit(bits, index), other) == bit_set(bits, other),
{
    let b = bits[(index / 8) as int];
    let k = (index % 8) as u8;
    assert((b | (1u8 << k)) & (1u8 << k) != 0) by (bit_vector)
        requires k < 8;
    if other != index && other / 8 == index / 8 {
        let j = (other % 8) as u8;
        assert(j != k);
        assert(((b | (1u8 << k)) & (1u8 << j) != 0) == (b & (1u8 << j) != 0)) by (bit_vector)
            requires k < 8, j < 8, j != k;
    }
}

} // verus!
