//! Properties that relate the operations of the library to one another.
use crate::bits::{bit_set, lemma_set_bit, set_bit};
use crate::card::check_card;
use crate::error::{Error, ProgramError};
use crate::layout::{
    bitset_len_spec, ceil_bytes, header_authority, header_bytes, header_capacity, header_claimed,
    le_bytes, lemma_header_round_trip, lemma_le_bytes_of_read, space_spec, AUTHORITY_LEN,
    CLAIMED_OFFSET, PUNCHCARD_HEADER_LEN,
};
use crate::program::{claim_outcome, run_claims};
use vstd::prelude::*;

verus! {

/// The size of a punchcard is the header plus `ceil(capacity / 8)` bytes whenever
/// that sum is representable, and an overflow indication otherwise, never a
/// wrapped value.
pub proof fn space_is_header_plus_bitset(capacity: u64)
    ensures
        capacity + 7 <= usize::MAX ==> space_spec(capacity) == Some(
            (PUNCHCARD_HEADER_LEN + ceil_bytes(capacity as nat)) as usize,
        ),
        capacity + 7 <= usize::MAX ==> PUNCHCARD_HEADER_LEN + ceil_bytes(capacity as nat)
            <= usize::MAX,
        capacity + 7 > usize::MAX ==> space_spec(capacity) is None,
{
}

/// A buffer reads as a punchcard exactly when its length is the size that its
/// recorded capacity calls for and its claimed count does not exceed that capacity.
pub proof fn from_bytes_accepts_exactly(s: Seq<u8>)
    requires
        s.len() <= usize::MAX,
    ensures
        check_card(s) is Ok <==> (s.len() >= PUNCHCARD_HEADER_LEN && space_spec(header_capacity(s))
            == Some(s.len() as usize) && header_claimed(s) <= header_capacity(s)),
        check_card(s) is Err ==> check_card(s) == Err::<(), ProgramError>(
            ProgramError::InvalidAccountData,
        ),
{
}

/// Claiming a slot a second time fails with `AlreadyClaimed`, and the second
/// attempt leaves the bitset and the claimed count as the first one left them.
pub proof fn second_claim_fails(bits: Seq<u8>, claimed: u64, capacity: u64, index: u64)
    requires
        bits.len() <= usize::MAX,
        bitset_len_spec(capacity) == Some(bits.len() as usize),
        index < capacity,
        claimed <= capacity,
        !bit_set(bits, index),
    ensures
        run_claims(bits, claimed, capacity, seq![index]) == (
            None::<ProgramError>,
            set_bit(bits, index),
            (claimed + 1) as u64,
        ),
        run_claims(bits, claimed, capacity, seq![index, index]) == (
            Some(Error::AlreadyClaimed.program_error()),
            set_bit(bits, index),
            (claimed + 1) as u64,
        ),
{
    lemma_set_bit(bits, index, index);
    assert(seq![index].drop_first() =~= Seq::<u64>::empty());
    assert(seq![index, index].drop_first() =~= seq![index]);
    reveal_with_fuel(run_claims, 2);
}

/// A batch run in two parts runs the first part and then, unless that failed,
/// the second part from the bitset and count that the first part left.
pub proof fn run_claims_append(
    bits: Seq<u8>,
    claimed: u64,
    capacity: u64,
    first: Seq<u64>,
    second: Seq<u64>,
)
    ensures
        run_claims(bits, claimed, capacity, first + second) == ({
            let r = run_claims(bits, claimed, capacity, first);
            if r.0 is Some {
                r
            } else {
                run_claims(r.1, r.2, capacity, second)
            }
        }),
    decreases first.len(),
{
    if first.len() == 0 {
        assert(first + second =~= second);
    } else {
        assert((first + second)[0] == first[0]);
        assert((first + second).drop_first() =~= first.drop_first() + second);
        let i = first[0];
        if !(i >= capacity || claimed == u64::MAX || bit_set(bits, i)) {
            run_claims_append(
                set_bit(bits, i),
                (claimed + 1) as u64,
                capacity,
                first.drop_first(),
                second,
            );
        }
    }
}

/// Wherever it stands in a batch, a claim of a slot at or past the capacity
/// that the earlier claims reach fails the batch with `IndexOutOfBounds`, with
/// the bitset and count as those earlier claims left them.
pub proof fn out_of_bounds_in_batch_fails(
    bits: Seq<u8>,
    claimed: u64,
    capacity: u64,
    before: Seq<u64>,
    index: u64,
    after: Seq<u64>,
)
    requires
        index >= capacity,
        run_claims(bits, claimed, capacity, before).0 is None,
    ensures
        run_claims(bits, claimed, capacity, before + seq![index] + after) == (
            Some(Error::IndexOutOfBounds.program_error()),
            run_claims(bits, claimed, capacity, before).1,
            run_claims(bits, claimed, capacity, before).2,
        ),
{
    let rest = seq![index] + after;
    assert(before + seq![index] + after =~= before + rest);
    run_claims_append(bits, claimed, capacity, before, rest);
    assert(rest[0] == index);
}

/// A claim of a slot at or past the capacity fails with `IndexOutOfBounds` and
/// leaves the record's bytes as they were.
pub proof fn out_of_bounds_claim_fails(data: Seq<u8>, index: u64)
    requires
        check_card(data) is Ok,
        index >= header_capacity(data),
    ensures
        claim_outcome(true, true, header_authority(data), data, seq![index]) == (
            Err::<bool, ProgramError>(Error::IndexOutOfBounds.program_error()),
            data,
        ),
{
    lemma_le_bytes_of_read(data, CLAIMED_OFFSET as int);
    let bits = data.subrange(PUNCHCARD_HEADER_LEN as int, data.len() as int);
    assert(data.subrange(0, CLAIMED_OFFSET as int) + le_bytes(header_claimed(data)) + bits
        =~= data);
}

/// A claim made by anyone but the recorded authority fails with
/// `InvalidAuthority` and leaves the record's bytes as they were.
pub proof fn wrong_authority_fails(data: Seq<u8>, signer: Seq<u8>, indices: Seq<u64>)
    requires
        check_card(data) is Ok,
        header_authority(data) != signer,
    ensures
        claim_outcome(true, true, signer, data, indices) == (
            Err::<bool, ProgramError>(Error::InvalidAuthority.program_error()),
            data,
        ),
{
}

/// A record created for `capacity` slots in a buffer of the size that
/// `capacity` calls for reads back as a punchcard with that capacity, no slot
/// claimed and a bitset of `ceil(capacity / 8)` zero bytes.
pub proof fn created_card_is_valid(authority: Seq<u8>, capacity: u64)
    requires
        authority.len() == AUTHORITY_LEN,
        space_spec(capacity) is Some,
    ensures
        ({
            let n = space_spec(capacity)->Some_0;
            let data = header_bytes(authority, capacity, 0) + Seq::new(
                (n - PUNCHCARD_HEADER_LEN) as nat,
                |j: int| 0u8,
            );
            &&& check_card(data) is Ok
            &&& header_authority(data) == authority
            &&& header_capacity(data) == capacity
            &&& header_claimed(data) == 0
            &&& data.len() - PUNCHCARD_HEADER_LEN == ceil_bytes(capacity as nat)
        }),
{
    let n = space_spec(capacity)->Some_0;
    let h = header_bytes(authority, capacity, 0);
    let data = h + Seq::new((n - PUNCHCARD_HEADER_LEN) as nat, |j: int| 0u8);
    lemma_header_round_trip(authority, capacity, 0);
    assert(data.subrange(0, AUTHORITY_LEN as int) =~= h.subrange(0, AUTHORITY_LEN as int));
    assert forall|j: int| 0 <= j < PUNCHCARD_HEADER_LEN implies data[j] == h[j] by {}
    assert(header_capacity(data) == header_capacity(h));
    assert(header_claimed(data) == header_claimed(h));
}

} // verus!
