use anchor_lang::solana_program::pubkey::Pubkey;
use forj::address::event_address;
use forj::errors::ErrorCode;
use forj::registry::Registry;

const PROGRAM: [u8; 32] = [3u8; 32];
const ISSUER: [u8; 32] = [5u8; 32];

fn create(reg: &mut Registry, issuer: [u8; 32], nonce: u64, bit_map: Vec<u8>) -> Result<(), ErrorCode> {
    reg.init_event(
        issuer,
        nonce,
        String::from("batch"),
        100,
        (bit_map.len() * 8) as u32,
        bit_map,
        [0u8; 32],
        String::from("meta"),
        String::from("template"),
        String::from("proof"),
        1_650_000_000,
    )
}

#[test]
fn event_address_matches_program_derived_address() {
    let (expected, bump) = Pubkey::find_program_address(
        &[b"event", &ISSUER, &7u64.to_le_bytes()],
        &Pubkey::new_from_array(PROGRAM),
    );
    assert_eq!(event_address(&PROGRAM, &ISSUER, 7), Some((expected.to_bytes(), bump)));
    assert_ne!(expected.to_bytes(), ISSUER);
    assert_ne!(expected.to_bytes(), PROGRAM);
}

#[test]
fn event_address_depends_on_issuer_and_nonce() {
    let a = event_address(&PROGRAM, &ISSUER, 7);
    assert_eq!(a, event_address(&PROGRAM, &ISSUER, 7));
    assert_ne!(a, event_address(&PROGRAM, &ISSUER, 8));
    assert_ne!(a, event_address(&PROGRAM, &[6u8; 32], 7));
    assert_ne!(a, event_address(&[4u8; 32], &ISSUER, 7));
}

#[test]
fn create_stores_record_at_derived_address() {
    let mut reg = Registry::new(PROGRAM);
    assert_eq!(create(&mut reg, ISSUER, 7, vec![0, 0]), Ok(()));
    let (key, bump) = event_address(&PROGRAM, &ISSUER, 7).unwrap();
    assert_eq!(reg.addresses, vec![key]);
    let e = reg.lookup(&ISSUER, 7).unwrap();
    assert_eq!(e.bump, bump);
    assert_eq!(e.issued_cert, 0);
    assert_eq!(e.remaning_certs, 16);
    assert_eq!(e.issued_timestamp, 1_650_000_000);
}

#[test]
fn second_create_for_same_pair_collides() {
    let mut reg = Registry::new(PROGRAM);
    assert_eq!(create(&mut reg, ISSUER, 7, vec![0, 0]), Ok(()));
    assert_eq!(reg.claim(ISSUER, 7, 3), Ok(()));
    assert_eq!(create(&mut reg, ISSUER, 7, vec![0xff]), Err(ErrorCode::AddressCollision));
    assert_eq!(reg.events.len(), 1);
    let e = reg.lookup(&ISSUER, 7).unwrap();
    assert_eq!(e.bit_map, vec![0x08, 0x00]);
    assert_eq!(e.issued_cert, 1);
}

#[test]
fn other_nonce_or_issuer_gets_its_own_record() {
    let mut reg = Registry::new(PROGRAM);
    assert_eq!(create(&mut reg, ISSUER, 7, vec![0]), Ok(()));
    assert_eq!(create(&mut reg, ISSUER, 8, vec![0]), Ok(()));
    assert_eq!(create(&mut reg, [6u8; 32], 7, vec![0]), Ok(()));
    assert_eq!(reg.events.len(), 3);
    assert_eq!(reg.claim(ISSUER, 8, 1), Ok(()));
    assert_eq!(reg.lookup(&ISSUER, 8).unwrap().bit_map, vec![0x02]);
    assert_eq!(reg.lookup(&ISSUER, 7).unwrap().bit_map, vec![0x00]);
    assert_eq!(reg.lookup(&[6u8; 32], 7).unwrap().bit_map, vec![0x00]);
}

#[test]
fn lookup_of_missing_record_is_not_found() {
    let mut reg = Registry::new(PROGRAM);
    assert!(matches!(reg.lookup(&ISSUER, 7), Err(ErrorCode::NotFound)));
    assert_eq!(create(&mut reg, ISSUER, 7, vec![0]), Ok(()));
    assert!(matches!(reg.lookup(&ISSUER, 9), Err(ErrorCode::NotFound)));
}

#[test]
fn claim_on_missing_record_is_not_found() {
    let mut reg = Registry::new(PROGRAM);
    assert_eq!(reg.claim(ISSUER, 7, 0), Err(ErrorCode::NotFound));
}

#[test]
fn claim_past_bitmap_is_out_of_range() {
    let mut reg = Registry::new(PROGRAM);
    assert_eq!(create(&mut reg, ISSUER, 7, vec![0, 0]), Ok(()));
    assert_eq!(reg.claim(ISSUER, 7, 16), Err(ErrorCode::IndexOutOfRange));
    assert_eq!(reg.claim(ISSUER, 7, u32::MAX), Err(ErrorCode::IndexOutOfRange));
    let e = reg.lookup(&ISSUER, 7).unwrap();
    assert_eq!(e.bit_map, vec![0, 0]);
    assert_eq!(e.issued_cert, 0);
}

#[test]
fn end_to_end_scenario() {
    let mut reg = Registry::new(PROGRAM);
    assert_eq!(create(&mut reg, ISSUER, 7, vec![0x00, 0x00]), Ok(()));
    assert_eq!(reg.lookup(&ISSUER, 7).unwrap().issued_cert, 0);
    assert_eq!(reg.lookup(&ISSUER, 7).unwrap().batch_size, 16);

    assert_eq!(reg.claim(ISSUER, 7, 3), Ok(()));
    assert_eq!(reg.lookup(&ISSUER, 7).unwrap().bit_map, vec![0x08, 0x00]);
    assert_eq!(reg.lookup(&ISSUER, 7).unwrap().issued_cert, 1);

    assert_eq!(reg.claim(ISSUER, 7, 3), Err(ErrorCode::AlreadyClaimed));
    assert_eq!(reg.lookup(&ISSUER, 7).unwrap().bit_map, vec![0x08, 0x00]);
    assert_eq!(reg.lookup(&ISSUER, 7).unwrap().issued_cert, 1);

    assert_eq!(reg.claim(ISSUER, 7, 12), Ok(()));
    assert_eq!(reg.lookup(&ISSUER, 7).unwrap().bit_map, vec![0x08, 0x10]);
    assert_eq!(reg.lookup(&ISSUER, 7).unwrap().issued_cert, 2);
}

#[test]
fn overflow_through_registry_leaves_bit_set() {
    let mut reg = Registry::new(PROGRAM);
    assert_eq!(create(&mut reg, ISSUER, 7, vec![0x00]), Ok(()));
    reg.events[0].issued_cert = u64::MAX;
    assert_eq!(reg.claim(ISSUER, 7, 6), Err(ErrorCode::MathOverflow));
    let e = reg.lookup(&ISSUER, 7).unwrap();
    assert_eq!(e.bit_map, vec![0x40]);
    assert_eq!(e.issued_cert, u64::MAX);
}
