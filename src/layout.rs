use vstd::prelude::*;

verus! {

/// Bytes taken by the header: a 32-byte authority, then the capacity and the
/// claimed count as little-endian `u64`s.
pub const PUNCHCARD_HEADER_LEN: usize = 48;

pub const AUTHORITY_LEN: usize = 32;

pub const CAPACITY_OFFSET: usize = 32;

pub const CLAIMED_OFFSET: usize = 40;

/// The header of a punchcard as plain values.
#[derive(Clone, Copy, Debug, PartialEq, Eq)]
pub struct PunchcardHeader {
    pub authority: [u8; 32],
    pub capacity: u64,
    pub claimed: u64,
}

/// `ceil(capacity / 8)`: the number of bytes that hold one bit per slot.
pub open spec fn ceil_bytes(capacity: nat) -> nat {
    (capacity + 7) / 8
}

/// The bitset length for `capacity`, when `capacity + 7` fits in a `usize`.
pub open spec fn bitset_len_spec(capacity: u64) -> Option<usize> {
    if capacity + 7 <= usize::MAX {
        Some(ceil_bytes(capacity as nat) as usize)
    } else {
        None
    }
}

/// The total size of a punchcard of `capacity` slots, when it is representable.
pub open spec fn space_spec(capacity: u64) -> Option<usize> {
    match bitset_len_spec(capacity) {
        Some(n) => if PUNCHCARD_HEADER_LEN + n <= usize::MAX {
            Some((PUNCHCARD_HEADER_LEN + n) as usize)
        } else {
            None
        },
        None => None,
    }
}

/// The little-endian `u64` in `s[at .. at + 8]`.
pub open spec fn le_u64(s: Seq<u8>, at: int) -> u64 {
    (s[at] as u64) | ((s[at + 1] as u64) << 8u64) | ((s[at + 2] as u64) << 16u64) | ((s[at
        + 3] as u64) << 24u64) | ((s[at + 4] as u64) << 32u64) | ((s[at + 5] as u64) << 40u64)
        | ((s[at + 6] as u64) << 48u64) | ((s[at + 7] as u64) << 56u64)
}

/// The eight little-endian bytes of `v`.
pub open spec fn le_bytes(v: u64) -> Seq<u8> {
    seq![
        v as u8,
        (v >> 8u64) as u8,
        (v >> 16u64) as u8,
        (v >> 24u64) as u8,
        (v >> 32u64) as u8,
        (v >> 40u64) as u8,
        (v >> 48u64) as u8,
        (v >> 56u64) as u8,
    ]
}

pub open spec fn header_authority(s: Seq<u8>) -> Seq<u8> {
    s.subrange(0, AUTHORITY_LEN as int)
}

pub open spec fn header_capacity(s: Seq<u8>) -> u64 {
    le_u64(s, CAPACITY_OFFSET as int)
}

pub open spec fn header_claimed(s: Seq<u8>) -> u64 {
    le_u64(s, CLAIMED_OFFSET as int)
}

/// The header bytes that hold `authority`, `capacity` and `claimed`.
pub open spec fn header_bytes(authority: Seq<u8>, capacity: u64, claimed: u64) -> Seq<u8> {
    authority + le_bytes(capacity) + le_bytes(claimed)
}

pub proof fn lemma_le_round_trip(v: u64)
    ensures
        le_u64(le_bytes(v), 0) == v,
{
    let b = le_bytes(v);
    assert(((v as u8) as u64) | ((((v >> 8u64) as u8) as u64) << 8u64) | ((((v >> 16u64) as u8)
        as u64) << 16u64) | ((((v >> 24u64) as u8) as u64) << 24u64) | ((((v >> 32u64) as u8)
        as u64) << 32u64) | ((((v >> 40u64) as u8) as u64) << 40u64) | ((((v >> 48u64) as u8)
        as u64) << 48u64) | ((((v >> 56u64) as u8) as u64) << 56u64) == v) by (bit_vector);
}

pub proof fn lemma_le_bytes_of_read(s: Seq<u8>, at: int)
    requires
        0 <= at,
        at + 8 <= s.len(),
    ensures
        le_bytes(le_u64(s, at)) == s.subrange(at, at + 8),
{
    let b0 = s[at];
    let b1 = s[at + 1];
    let b2 = s[at + 2];
    let b3 = s[at + 3];
    let b4 = s[at + 4];
    let b5 = s[at + 5];
    let b6 = s[at + 6];
    let b7 = s[at + 7];
    let v = le_u64(s, at);
    assert(v as u8 == b0 && (v >> 8u64) as u8 == b1 && (v >> 16u64) as u8 == b2 && (v >> 24u64)
        as u8 == b3 && (v >> 32u64) as u8 == b4 && (v >> 40u64) as u8 == b5 && (v >> 48u64) as u8
        == b6 && (v >> 56u64) as u8 == b7) by (bit_vector)
        requires
            v == (b0 as u64) | ((b1 as u64) << 8u64) | ((b2 as u64) << 16u64) | ((b3 as u64)
                << 24u64) | ((b4 as u64) << 32u64) | ((b5 as u64) << 40u64) | ((b6 as u64)
                << 48u64) | ((b7 as u64) << 56u64),
    ;
    assert(le_bytes(v) =~= s.subrange(at, at + 8));
}

/// Reading back a value written after a prefix of `at` bytes gives the value.
pub proof fn lemma_read_after(prefix: Seq<u8>, v: u64)
    ensures
        le_u64(prefix + le_bytes(v), prefix.len() as int) == v,
{
    let s = prefix + le_bytes(v);
    let at = prefix.len() as int;
    lemma_le_round_trip(v);
    assert forall|j: int| 0 <= j < 8 implies s[at + j] == le_bytes(v)[j] by {}
    assert(le_u64(s, at) == le_u64(le_bytes(v), 0));
}

/// The fields of a header laid out by [`header_bytes`] read back unchanged.
pub proof fn lemma_header_round_trip(authority: Seq<u8>, capacity: u64, claimed: u64)
    requires
        authority.len() == AUTHORITY_LEN,
    ensures
        header_bytes(authority, capacity, claimed).len() == PUNCHCARD_HEADER_LEN,
        header_authority(header_bytes(authority, capacity, claimed)) == authority,
        header_capacity(header_bytes(authority, capacity, claimed)) == capacity,
        header_claimed(header_bytes(authority, capacity, claimed)) == claimed,
{
    let h = header_bytes(authority, capacity, claimed);
    lemma_le_round_trip(capacity);
    lemma_le_round_trip(claimed);
    assert(h.subrange(0, 32) =~= authority);
    assert(le_u64(h, 32) == le_u64(le_bytes(capacity), 0));
    assert(le_u64(h, 40) == le_u64(le_bytes(claimed), 0));
}

/// Reads the little-endian `u64` at `at`.
pub fn read_u64(s: &[u8], at: usize) -> (r: u64)
    requires
        at + 8 <= s@.len(),
    ensures
        r == le_u64(s@, at as int),
{
    (s[at] as u64) | ((s[at + 1] as u64) << 8u64) | ((s[at + 2] as u64) << 16u64) | ((s[at
        + 3] as u64) << 24u64) | ((s[at + 4] as u64) << 32u64) | ((s[at + 5] as u64) << 40u64)
        | ((s[at + 6] as u64) << 48u64) | ((s[at + 7] as u64) << 56u64)
}

/// Writes `v` as eight little-endian bytes at `at`.
pub fn write_u64(s: &mut [u8], at: usize, v: u64)
    requires
        at + 8 <= old(s)@.len(),
    ensures
        final(s)@ == old(s)@.subrange(0, at as int) + le_bytes(v) + old(s)@.subrange(
            at + 8,
            old(s)@.len() as int,
        ),
{
    s[at] = v as u8;
    s[at + 1] = (v >> 8u64) as u8;
    s[at + 2] = (v >> 16u64) as u8;
    s[at + 3] = (v >> 24u64) as u8;
    s[at + 4] = (v >> 32u64) as u8;
    s[at + 5] = (v >> 40u64) as u8;
    s[at + 6] = (v >> 48u64) as u8;
    s[at + 7] = (v >> 56u64) as u8;
    assert(s@ =~= old(s)@.subrange(0, at as int) + le_bytes(v) + old(s)@.subrange(
        at + 8,
        old(s)@.len() as int,
    ));
}

/// `ceil(capacity / 8)`, or `None` where `capacity + 7` does not fit in a `usize`.
pub fn bitset_len(capacity: u64) -> (r: Option<usize>)
    ensures
        r == bitset_len_spec(capacity),
{
    let max = usize::MAX as u64;
    if capacity > max || max - capacity < 7 {
        return None;
    }
    let c = capacity as usize;
    Some((c + 7) / 8)
}

} // verus!
