use crate::bits::{bit_set, set_bit};
use crate::card::{check_card, Punchcard};
use crate::error::{Error, ProgramError};
use crate::layout::{
    header_authority, header_bytes, header_capacity, header_claimed, le_bytes,
    lemma_le_bytes_of_read, lemma_read_after, space_spec, write_u64, AUTHORITY_LEN,
    CAPACITY_OFFSET, CLAIMED_OFFSET, PUNCHCARD_HEADER_LEN,
};
use vstd::prelude::*;

verus! {

/// The two operations a punchcard accepts.
pub enum Instruction {
    Create { capacity: u64 },
    Claim { indices: Vec<u64> },
}

/// Claims `indices` left to right on a bitset with `claimed` slots taken out of
/// `capacity`: the first failure, if any, with the bitset and count reached by then.
/// A count that could not grow any further marks the record as inconsistent.
pub open spec fn run_claims(bits: Seq<u8>, claimed: u64, capacity: u64, indices: Seq<u64>) -> (
    Option<ProgramError>,
    Seq<u8>,
    u64,
)
    decreases indices.len(),
{
    if indices.len() == 0 {
        (None, bits, claimed)
    } else {
        let i = indices[0];
        if i >= capacity {
            (Some(Error::IndexOutOfBounds.program_error()), bits, claimed)
        } else if claimed == u64::MAX {
            (Some(ProgramError::InvalidAccountData), bits, claimed)
        } else if bit_set(bits, i) {
            (Some(Error::AlreadyClaimed.program_error()), bits, claimed)
        } else {
            run_claims(set_bit(bits, i), (claimed + 1) as u64, capacity, indices.drop_first())
        }
    }
}

/// What a claim request does to the record bytes `data`: the result (`Ok(true)`
/// when every slot is now claimed and the record is to be closed) and the bytes
/// after it. On an error the host discards the bytes.
pub open spec fn claim_outcome(
    signed: bool,
    owned: bool,
    signer: Seq<u8>,
    data: Seq<u8>,
    indices: Seq<u64>,
) -> (Result<bool, ProgramError>, Seq<u8>) {
    if !signed {
        (Err(ProgramError::MissingRequiredSignature), data)
    } else if !owned {
        (Err(ProgramError::IncorrectProgramId), data)
    } else {
        match check_card(data) {
            Err(e) => (Err(e), data),
            Ok(_) => if header_authority(data) != signer {
                (Err(Error::InvalidAuthority.program_error()), data)
            } else {
                let capacity = header_capacity(data);
                let run = run_claims(
                    data.subrange(PUNCHCARD_HEADER_LEN as int, data.len() as int),
                    header_claimed(data),
                    capacity,
                    indices,
                );
                let after = data.subrange(0, CLAIMED_OFFSET as int) + le_bytes(run.2) + run.1;
                match run.0 {
                    Some(e) => (Err(e), after),
                    None => (Ok(run.2 == capacity), after),
                }
            },
        }
    }
}

/// The size to allocate for a new punchcard of `capacity` slots.
pub fn create_space(capacity: u64) -> (r: Result<usize, ProgramError>)
    ensures
        r == (match space_spec(capacity) {
            Some(n) => Ok(n),
            None => Err(Error::InvalidCapacity.program_error()),
        }),
{
    match Punchcard::space(capacity) {
        Some(n) => Ok(n),
        None => Err(Error::InvalidCapacity.into_program_error()),
    }
}

/// Writes a fresh punchcard into newly allocated `data`: `authority`,
/// `capacity`, no slot claimed, and every bitset byte zero.
pub fn initialize(data: &mut [u8], authority: &[u8; 32], capacity: u64) -> (r: Result<
    (),
    ProgramError,
>)
    ensures
        r is Err <==> old(data)@.len() < PUNCHCARD_HEADER_LEN,
        r is Err ==> r == Err::<(), ProgramError>(ProgramError::InvalidAccountData),
        r is Err ==> final(data)@ == old(data)@,
        r is Ok ==> final(data)@ == header_bytes(authority@, capacity, 0) + Seq::new(
            (old(data)@.len() - PUNCHCARD_HEADER_LEN) as nat,
            |j: int| 0u8,
        ),
{
    let ghost len = data@.len();
    let (header, bits) = match Punchcard::split(data) {
        Ok(parts) => parts,
        Err(e) => return Err(e),
    };
    let mut k: usize = 0;
    while k < AUTHORITY_LEN
        invariant
            k <= AUTHORITY_LEN,
            header@.len() == PUNCHCARD_HEADER_LEN,
            authority@.len() == AUTHORITY_LEN,
            forall|j: int| 0 <= j < k ==> header@[j] == authority@[j],
        decreases AUTHORITY_LEN - k,
    {
        header[k] = authority[k];
        k = k + 1;
    }
    write_u64(header, CAPACITY_OFFSET, capacity);
    write_u64(header, CLAIMED_OFFSET, 0);
    assert(header@ =~= header_bytes(authority@, capacity, 0));
    let n = bits.len();
    let mut k: usize = 0;
    while k < n
        invariant
            k <= n,
            bits@.len() == n,
            forall|j: int| 0 <= j < k ==> bits@[j] == 0u8,
        decreases n - k,
    {
        bits[k] = 0;
        k = k + 1;
    }
    assert(bits@ =~= Seq::new((len - PUNCHCARD_HEADER_LEN) as nat, |j: int| 0u8));
    Ok(())
}

/// Applies a claim request to the record bytes `data`, on behalf of `signer`.
/// `signed` tells whether `signer` signed the request and `owned` whether the
/// record belongs to this program. `Ok(true)` asks the caller to close the record.
pub fn claim(signed: bool, owned: bool, signer: &[u8; 32], data: &mut [u8], indices: &[u64]) -> (r:
    Result<bool, ProgramError>)
    ensures
        (r, final(data)@) == claim_outcome(signed, owned, signer@, old(data)@, indices@),
{
    if !signed {
        return Err(ProgramError::MissingRequiredSignature);
    }
    if !owned {
        return Err(ProgramError::IncorrectProgramId);
    }
    let ghost d = data@;
    let ghost fd = final(data)@;
    let mut card = match Punchcard::from_bytes(data) {
        Ok(card) => card,
        Err(e) => return Err(e),
    };
    proof {
        assert(card.authority_of() =~= header_authority(d));
        assert(card.capacity_of() == header_capacity(d));
        assert(card.claimed_of() == header_claimed(d));
    }
    if !card.is_authority(signer) {
        proof {
            assert(has_resolved(card));
            assert(card.header@ == final(card.header)@);
            assert(card.bits.0@ == final(card.bits.0)@);
            assert(card.header@ + card.bits@ =~= d);
        }
        return Err(Error::InvalidAuthority.into_program_error());
    }
    let capacity = card.capacity();
    let ghost bits0 = card.bits@;
    let ghost claimed0 = card.claimed_of();
    let n = indices.len();
    let mut k: usize = 0;
    proof {
        assert(indices@.subrange(0, n as int) =~= indices@);
        lemma_le_bytes_of_read(d, CLAIMED_OFFSET as int);
        assert(card.header@ =~= d.subrange(0, CLAIMED_OFFSET as int) + le_bytes(claimed0));
    }
    let mut failure: Option<ProgramError> = None;
    while k < n && failure.is_none()
        invariant
            k <= n,
            n == indices@.len(),
            card.wf(),
            capacity == card.capacity_of(),
            capacity == header_capacity(d),
            d.len() >= PUNCHCARD_HEADER_LEN,
            signed && owned,
            d == old(data)@,
            check_card(d) is Ok,
            header_authority(d) == signer@,
            bits0 == d.subrange(PUNCHCARD_HEADER_LEN as int, d.len() as int),
            claimed0 == header_claimed(d),
            card.header@ == d.subrange(0, CLAIMED_OFFSET as int) + le_bytes(card.claimed_of()),
            failure is None ==> run_claims(
                card.bits@,
                card.claimed_of(),
                capacity,
                indices@.subrange(k as int, n as int),
            ) == run_claims(bits0, claimed0, capacity, indices@),
            failure is Some ==> run_claims(bits0, claimed0, capacity, indices@) == (
                failure,
                card.bits@,
                card.claimed_of(),
            ),
            fd == final(card.header)@ + final(card.bits.0)@,
        decreases n - k,
    {
        let i = indices[k];
        proof {
            assert(indices@.subrange(k as int, n as int)[0] == i);
            assert(indices@.subrange(k as int, n as int).drop_first() =~= indices@.subrange(
                k + 1,
                n as int,
            ));
        }
        if i >= capacity {
            failure = Some(Error::IndexOutOfBounds.into_program_error());
        } else if card.claimed() == u64::MAX {
            failure = Some(ProgramError::InvalidAccountData);
        } else {
            let ghost c = card.claimed_of();
            let ghost h0 = card.header@;
            match card.claim(i) {
                Ok(()) => {
                    proof {
                        let prefix = d.subrange(0, CLAIMED_OFFSET as int);
                        assert(h0.subrange(0, CLAIMED_OFFSET as int) =~= prefix);
                        lemma_read_after(prefix, (c + 1) as u64);
                    }
                },
                Err(e) => {
                    failure = Some(e);
                },
            }
        }
        k = k + 1;
    }
    let full = card.claimed() == capacity;
    proof {
        if failure is None {
            assert(indices@.subrange(k as int, n as int) =~= Seq::<u64>::empty());
        }
        assert(has_resolved(card));
        assert(card.header@ == final(card.header)@);
        assert(card.bits.0@ == final(card.bits.0)@);
        assert(card.header@ + card.bits@ =~= d.subrange(0, CLAIMED_OFFSET as int) + le_bytes(
            card.claimed_of(),
        ) + card.bits@);
    }
    match failure {
        Some(e) => Err(e),
        None => Ok(full),
    }
}

} // verus!
