use punchcard::{
    bitset_len, claim, create_space, initialize, Bits, Error, ProgramError, Punchcard,
    PUNCHCARD_HEADER_LEN,
};

const PAYER: [u8; 32] = [7u8; 32];

fn create(authority: &[u8; 32], capacity: u64) -> Vec<u8> {
    let space = create_space(capacity).unwrap();
    let mut data = vec![0xAAu8; space];
    initialize(&mut data, authority, capacity).unwrap();
    data
}

fn read(data: &[u8]) -> ([u8; 32], u64, u64, Vec<u8>) {
    let mut authority = [0u8; 32];
    authority.copy_from_slice(&data[0..32]);
    let capacity = u64::from_le_bytes(data[32..40].try_into().unwrap());
    let claimed = u64::from_le_bytes(data[40..48].try_into().unwrap());
    (authority, capacity, claimed, data[48..].to_vec())
}

fn header_bytes(capacity: u64, claimed: u64, bits_len: usize) -> Vec<u8> {
    let mut data = vec![0u8; PUNCHCARD_HEADER_LEN + bits_len];
    data[32..40].copy_from_slice(&capacity.to_le_bytes());
    data[40..48].copy_from_slice(&claimed.to_le_bytes());
    data
}

#[test]
fn space_rejects_overflowing_capacities() {
    assert_eq!(Punchcard::space(u64::MAX), None);
    assert_eq!(Punchcard::space(u64::MAX - 1), None);
    assert_eq!(Punchcard::space(u64::MAX - 6), None);
    assert!(Punchcard::space(u64::MAX - 7).is_some());
}

#[test]
fn from_bytes_rejects_mismatched_bitset_length() {
    let mut data = header_bytes(0, 0, 1);
    assert!(matches!(
        Punchcard::from_bytes(&mut data),
        Err(ProgramError::InvalidAccountData)
    ));
}

#[test]
fn from_bytes_rejects_claimed_greater_than_capacity() {
    let mut data = header_bytes(0, 1, 0);
    assert!(matches!(
        Punchcard::from_bytes(&mut data),
        Err(ProgramError::InvalidAccountData)
    ));
}

#[test]
fn test_create_punchcard() {
    let data = create(&PAYER, 16);
    let (authority, capacity, claimed, bits) = read(&data);
    assert_eq!(authority, PAYER);
    assert_eq!(capacity, 16);
    assert_eq!(claimed, 0);
    assert_eq!(bits.len(), 2);
    assert!(bits.iter().all(|&b| b == 0));
}

#[test]
fn test_claim_single_index() {
    let mut data = create(&PAYER, 16);
    assert_eq!(claim(true, true, &PAYER, &mut data, &[5]), Ok(false));
    let (_, _, claimed, bits) = read(&data);
    assert_eq!(claimed, 1);
    assert_eq!(bits[0] & (1 << 5), 1 << 5);
}

#[test]
fn test_claim_multiple_indices() {
    let mut data = create(&PAYER, 16);
    assert_eq!(claim(true, true, &PAYER, &mut data, &[0, 3, 7, 12]), Ok(false));
    let (_, _, claimed, bits) = read(&data);
    assert_eq!(claimed, 4);
    assert_eq!(bits[0] & (1 << 0), 1 << 0);
    assert_eq!(bits[0] & (1 << 3), 1 << 3);
    assert_eq!(bits[0] & (1 << 7), 1 << 7);
    assert_eq!(bits[1] & (1 << 4), 1 << 4);
}

#[test]
fn test_claim_already_claimed_fails() {
    let mut data = create(&PAYER, 16);
    assert_eq!(claim(true, true, &PAYER, &mut data, &[5]), Ok(false));
    let before = data.clone();
    assert_eq!(
        claim(true, true, &PAYER, &mut data, &[5]),
        Err(ProgramError::Custom(2))
    );
    assert_eq!(read(&data).2, 1);
    assert_eq!(data, before);
}

#[test]
fn test_claim_out_of_bounds_fails() {
    let mut data = create(&PAYER, 16);
    let before = data.clone();
    assert_eq!(
        claim(true, true, &PAYER, &mut data, &[16]),
        Err(ProgramError::Custom(1))
    );
    assert_eq!(data, before);
}

#[test]
fn test_claim_wrong_authority_fails() {
    let mut data = create(&PAYER, 16);
    let before = data.clone();
    let wrong = [9u8; 32];
    assert_eq!(
        claim(true, true, &wrong, &mut data, &[5]),
        Err(ProgramError::Custom(0))
    );
    assert_eq!(data, before);
}

#[test]
fn test_claim_all_closes_account() {
    let mut data = create(&PAYER, 4);
    assert_eq!(claim(true, true, &PAYER, &mut data, &[0, 1, 2]), Ok(false));
    let mut data = create(&PAYER, 4);
    assert_eq!(claim(true, true, &PAYER, &mut data, &[0, 1, 2, 3]), Ok(true));
    let (_, capacity, claimed, bits) = read(&data);
    assert_eq!(claimed, capacity);
    assert_eq!(bits, vec![0b0000_1111]);
}

#[test]
fn test_various_capacities() {
    for capacity in [1, 7, 8, 9, 15, 16, 17, 64, 100] {
        let data = create(&PAYER, capacity);
        let (_, cap, claimed, bits) = read(&data);
        assert_eq!(cap, capacity);
        assert_eq!(claimed, 0);
        assert_eq!(bits.len(), ((capacity + 7) / 8) as usize);
    }
}

#[test]
fn space_is_header_plus_ceiling() {
    assert_eq!(Punchcard::space(0), Some(48));
    assert_eq!(Punchcard::space(1), Some(49));
    assert_eq!(Punchcard::space(8), Some(49));
    assert_eq!(Punchcard::space(9), Some(50));
    assert_eq!(Punchcard::space(100), Some(61));
    assert_eq!(Punchcard::space(u64::MAX - 7), Some(48 + (u64::MAX as usize - 7 + 7) / 8));
}

#[test]
fn bitset_len_rounds_up() {
    assert_eq!(bitset_len(0), Some(0));
    assert_eq!(bitset_len(15), Some(2));
    assert_eq!(bitset_len(16), Some(2));
    assert_eq!(bitset_len(17), Some(3));
    assert_eq!(bitset_len(u64::MAX - 6), None);
}

#[test]
fn create_space_reports_invalid_capacity() {
    assert_eq!(create_space(u64::MAX), Err(ProgramError::Custom(3)));
    assert_eq!(create_space(16), Ok(50));
}

#[test]
fn from_bytes_rejects_short_buffer() {
    let mut data = vec![0u8; PUNCHCARD_HEADER_LEN - 1];
    assert_eq!(
        Punchcard::from_bytes(&mut data).err(),
        Some(ProgramError::InvalidAccountData)
    );
}

#[test]
fn from_bytes_rejects_oversized_bitset_and_unrepresentable_capacity() {
    let mut data = header_bytes(16, 0, 3);
    assert_eq!(
        Punchcard::from_bytes(&mut data).err(),
        Some(ProgramError::InvalidAccountData)
    );
    let mut data = header_bytes(u64::MAX, 0, 0);
    assert_eq!(
        Punchcard::from_bytes(&mut data).err(),
        Some(ProgramError::InvalidAccountData)
    );
    let mut data = header_bytes(u64::MAX - 1, u64::MAX, 0);
    assert_eq!(
        Punchcard::from_bytes(&mut data).err(),
        Some(ProgramError::InvalidAccountData)
    );
}

#[test]
fn from_bytes_reads_the_header() {
    let mut data = create(&PAYER, 20);
    let card = Punchcard::from_bytes(&mut data).unwrap();
    let header = card.header();
    assert_eq!(header.authority, PAYER);
    assert_eq!(header.capacity, 20);
    assert_eq!(header.claimed, 0);
    assert_eq!(card.capacity(), 20);
    assert_eq!(card.claimed(), 0);
    assert!(card.is_authority(&PAYER));
    assert!(!card.is_authority(&[0u8; 32]));
}

#[test]
fn punchcard_claim_marks_slot_once() {
    let mut data = create(&PAYER, 16);
    {
        let mut card = Punchcard::from_bytes(&mut data).unwrap();
        assert_eq!(card.claim(9), Ok(()));
        assert_eq!(card.claimed(), 1);
        assert!(card.bits.get(9));
        assert!(!card.bits.get(8));
        assert_eq!(card.claim(9), Err(Error::AlreadyClaimed.into_program_error()));
        assert_eq!(card.claimed(), 1);
    }
    let (_, _, claimed, bits) = read(&data);
    assert_eq!(claimed, 1);
    assert_eq!(bits, vec![0, 0b0000_0010]);
}

#[test]
fn bits_get_and_set() {
    let mut bytes = vec![0u8; 2];
    let mut bits = Bits(&mut bytes);
    bits.set(0);
    bits.set(11);
    bits.set(11);
    assert!(bits.get(0));
    assert!(bits.get(11));
    assert!(!bits.get(1));
    assert!(!bits.get(10));
    assert_eq!(bytes, vec![0b0000_0001, 0b0000_1000]);
}

#[test]
fn claim_checks_signature_and_owner_first() {
    let mut data = create(&PAYER, 8);
    assert_eq!(
        claim(false, true, &PAYER, &mut data, &[1]),
        Err(ProgramError::MissingRequiredSignature)
    );
    assert_eq!(
        claim(true, false, &PAYER, &mut data, &[1]),
        Err(ProgramError::IncorrectProgramId)
    );
    let mut short = vec![0u8; 10];
    assert_eq!(
        claim(true, true, &PAYER, &mut short, &[1]),
        Err(ProgramError::InvalidAccountData)
    );
}

#[test]
fn claim_batch_stops_at_first_failure() {
    let mut data = create(&PAYER, 8);
    assert_eq!(
        claim(true, true, &PAYER, &mut data, &[1, 2, 1, 9]),
        Err(ProgramError::Custom(2))
    );
    let (_, _, claimed, bits) = read(&data);
    assert_eq!(claimed, 2);
    assert_eq!(bits, vec![0b0000_0110]);
}

#[test]
fn initialize_rejects_short_buffer() {
    let mut data = vec![1u8; 47];
    assert_eq!(
        initialize(&mut data, &PAYER, 0),
        Err(ProgramError::InvalidAccountData)
    );
    assert_eq!(data, vec![1u8; 47]);
}

#[test]
fn error_codes() {
    assert_eq!(Error::InvalidAuthority.code(), 0);
    assert_eq!(Error::IndexOutOfBounds.code(), 1);
    assert_eq!(Error::AlreadyClaimed.code(), 2);
    assert_eq!(Error::InvalidCapacity.into_program_error(), ProgramError::Custom(3));
}

#[test]
fn claim_batch_out_of_bounds_after_claims() {
    let mut data = create(&PAYER, 8);
    assert_eq!(
        claim(true, true, &PAYER, &mut data, &[0, 4, 8, 1]),
        Err(ProgramError::Custom(1))
    );
    let (_, _, claimed, bits) = read(&data);
    assert_eq!(claimed, 2);
    assert_eq!(bits, vec![0b0001_0001]);
}
