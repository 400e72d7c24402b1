use crate::bits::{bit_set, in_range, set_bit, Bits};
use crate::error::{Error, ProgramError};
use crate::layout::{
    bitset_len, bitset_len_spec, header_authority, header_capacity, header_claimed, le_bytes,
    read_u64, space_spec, write_u64, PunchcardHeader, AUTHORITY_LEN,
    CAPACITY_OFFSET, CLAIMED_OFFSET, PUNCHCARD_HEADER_LEN,
};
use vstd::prelude::*;

verus! {

/// What reading `s` as a punchcard finds: `Ok` when the buffer holds a whole
/// header, a bitset of exactly `ceil(capacity / 8)` bytes and `claimed <= capacity`.
pub open spec fn check_card(s: Seq<u8>) -> Result<(), ProgramError> {
    if s.len() < PUNCHCARD_HEADER_LEN {
        Err(ProgramError::InvalidAccountData)
    } else {
        match bitset_len_spec(header_capacity(s)) {
            None => Err(ProgramError::InvalidAccountData),
            Some(n) => if s.len() - PUNCHCARD_HEADER_LEN != n {
                Err(ProgramError::InvalidAccountData)
            } else if header_claimed(s) > header_capacity(s) {
                Err(ProgramError::InvalidAccountData)
            } else {
                Ok(())
            },
        }
    }
}

/// A validated view of one punchcard buffer: its header bytes and, after them,
/// its bitset, borrowed as two disjoint regions.
pub struct Punchcard<'a> {
    pub header: &'a mut [u8],
    pub bits: Bits<'a>,
}

impl<'a> Punchcard<'a> {
    pub open spec fn authority_of(&self) -> Seq<u8> {
        header_authority(self.header@)
    }

    pub open spec fn capacity_of(&self) -> u64 {
        header_capacity(self.header@)
    }

    pub open spec fn claimed_of(&self) -> u64 {
        header_claimed(self.header@)
    }

    /// The header is whole and the bitset holds one bit for each slot.
    pub open spec fn wf(&self) -> bool {
        &&& self.header@.len() == PUNCHCARD_HEADER_LEN
        &&& bitset_len_spec(self.capacity_of()) == Some(self.bits@.len() as usize)
    }

    /// Bytes needed for a punchcard of `capacity` slots, or `None` where that
    /// size is not representable.
    pub fn space(capacity: u64) -> (r: Option<usize>)
        ensures
            r == space_spec(capacity),
    {
        match bitset_len(capacity) {
            Some(bits_len) => PUNCHCARD_HEADER_LEN.checked_add(bits_len),
            None => None,
        }
    }

    /// Splits `data` into its header and the bytes after it.
    pub fn split(data: &'a mut [u8]) -> (r: Result<(&'a mut [u8], &'a mut [u8]), ProgramError>)
        ensures
            r is Err <==> old(data)@.len() < PUNCHCARD_HEADER_LEN,
            r is Err ==> r == Err::<(&mut [u8], &mut [u8]), ProgramError>(
                ProgramError::InvalidAccountData,
            ) && final(data)@ == old(data)@,
            r is Ok ==> r->Ok_0.0@ == old(data)@.subrange(0, PUNCHCARD_HEADER_LEN as int),
            r is Ok ==> r->Ok_0.1@ == old(data)@.subrange(
                PUNCHCARD_HEADER_LEN as int,
                old(data)@.len() as int,
            ),
            r is Ok ==> final(data)@ == final(r->Ok_0.0)@ + final(r->Ok_0.1)@,
    {
        if data.len() < PUNCHCARD_HEADER_LEN {
            return Err(ProgramError::InvalidAccountData);
        }
        Ok(data.split_at_mut(PUNCHCARD_HEADER_LEN))
    }

    /// Reads `data` as a punchcard, checking every structural rule.
    pub fn from_bytes(data: &'a mut [u8]) -> (r: Result<Self, ProgramError>)
        ensures
            r is Ok <==> check_card(old(data)@) is Ok,
            r is Err ==> check_card(old(data)@) == Err::<(), ProgramError>(r->Err_0),
            r is Err ==> final(data)@ == old(data)@,
            r is Ok ==> r->Ok_0.wf(),
            r is Ok ==> r->Ok_0.header@ == old(data)@.subrange(0, PUNCHCARD_HEADER_LEN as int),
            r is Ok ==> r->Ok_0.bits@ == old(data)@.subrange(
                PUNCHCARD_HEADER_LEN as int,
                old(data)@.len() as int,
            ),
            r is Ok ==> final(data)@ == final(r->Ok_0.header)@ + final(r->Ok_0.bits.0)@,
    {
        let ghost d = data@;
        let (header, bits) = match Self::split(data) {
            Ok(parts) => parts,
            Err(e) => return Err(e),
        };
        let capacity = read_u64(header, CAPACITY_OFFSET);
        assert(capacity == header_capacity(d));
        let expected_bits_len = match bitset_len(capacity) {
            Some(n) => n,
            None => return Err(ProgramError::InvalidAccountData),
        };
        if bits.len() != expected_bits_len {
            return Err(ProgramError::InvalidAccountData);
        }
        let claimed = read_u64(header, CLAIMED_OFFSET);
        assert(claimed == header_claimed(d));
        if claimed > capacity {
            return Err(ProgramError::InvalidAccountData);
        }
        Ok(Punchcard { header, bits: Bits(bits) })
    }

    pub fn capacity(&self) -> (r: u64)
        requires
            self.wf(),
        ensures
            r == self.capacity_of(),
    {
        read_u64(self.header, CAPACITY_OFFSET)
    }

    pub fn claimed(&self) -> (r: u64)
        requires
            self.wf(),
        ensures
            r == self.claimed_of(),
    {
        read_u64(self.header, CLAIMED_OFFSET)
    }

    /// Whether the recorded authority is `key`.
    pub fn is_authority(&self, key: &[u8; 32]) -> (r: bool)
        requires
            self.wf(),
        ensures
            r == (self.authority_of() == key@),
    {
        let mut k: usize = 0;
        while k < AUTHORITY_LEN
            invariant
                k <= AUTHORITY_LEN,
                self.header@.len() == PUNCHCARD_HEADER_LEN,
                key@.len() == AUTHORITY_LEN,
                forall|j: int| 0 <= j < k ==> self.header@[j] == key@[j],
            decreases AUTHORITY_LEN - k,
        {
            if self.header[k] != key[k] {
                assert(self.authority_of()[k as int] != key@[k as int]);
                return false;
            }
            k = k + 1;
        }
        assert(self.authority_of() =~= key@);
        true
    }

    /// The header as plain values.
    pub fn header(&self) -> (r: PunchcardHeader)
        requires
            self.wf(),
        ensures
            r.authority@ == self.authority_of(),
            r.capacity == self.capacity_of(),
            r.claimed == self.claimed_of(),
    {
        let mut authority = [0u8; 32];
        let mut k: usize = 0;
        while k < AUTHORITY_LEN
            invariant
                k <= AUTHORITY_LEN,
                self.header@.len() == PUNCHCARD_HEADER_LEN,
                authority@.len() == AUTHORITY_LEN,
                forall|j: int| 0 <= j < k ==> authority@[j] == self.header@[j],
            decreases AUTHORITY_LEN - k,
        {
            authority[k] = self.header[k];
            k = k + 1;
        }
        assert(authority@ =~= self.authority_of());
        PunchcardHeader {
            authority,
            capacity: read_u64(self.header, CAPACITY_OFFSET),
            claimed: read_u64(self.header, CLAIMED_OFFSET),
        }
    }

    /// Claims slot `index`: fails with `AlreadyClaimed` and changes nothing when
    /// the slot is taken, else marks it and adds one to the claimed count.
    pub fn claim(&mut self, index: u64) -> (r: Result<(), ProgramError>)
        requires
            old(self).wf(),
            index < old(self).capacity_of(),
            old(self).claimed_of() < u64::MAX,
        ensures
            final(final(self).header)@ == final(old(self).header)@,
            final(final(self).bits.0)@ == final(old(self).bits.0)@,
            final(self).wf(),
            in_range(old(self).bits@, index),
            bit_set(old(self).bits@, index) ==> r == Err::<(), ProgramError>(
                Error::AlreadyClaimed.program_error(),
            ),
            bit_set(old(self).bits@, index) ==> final(self).header@ == old(self).header@,
            bit_set(old(self).bits@, index) ==> final(self).bits@ == old(self).bits@,
            !bit_set(old(self).bits@, index) ==> r is Ok,
            !bit_set(old(self).bits@, index) ==> final(self).bits@ == set_bit(
                old(self).bits@,
                index,
            ),
            !bit_set(old(self).bits@, index) ==> final(self).header@ == old(
                self,
            ).header@.subrange(0, CLAIMED_OFFSET as int) + le_bytes(
                (old(self).claimed_of() + 1) as u64,
            ),
    {
        if self.bits.get(index) {
            return Err(Error::AlreadyClaimed.into_program_error());
        }
        self.bits.set(index);
        let claimed = read_u64(self.header, CLAIMED_OFFSET);
        write_u64(self.header, CLAIMED_OFFSET, claimed + 1);
        proof {
            let h = self.header@;
            let h0 = old(self).header@;
            assert(h =~= h0.subrange(0, CLAIMED_OFFSET as int) + le_bytes((claimed + 1) as u64));
            assert forall|j: int| 32 <= j < 40 implies h[j] == h0[j] by {}
            assert(header_capacity(h) == header_capacity(h0));
        }
        Ok(())
    }
}

} // verus!
