use ticket_sale::error::EventError;
use ticket_sale::state::{Event, EVENT_LEN};

fn padded_name(s: &str) -> String {
    let mut n = String::from(s);
    while n.len() < 32 {
        n.push('\0');
    }
    n
}

fn sample() -> Event {
    Event {
        is_initialized: true,
        initializer_pubkey: [7u8; 32],
        tickets_issued: 5,
        max_tickets: 0x0102030405060708,
        name: padded_name("Concert"),
        mint_account: [9u8; 32],
    }
}

#[test]
fn round_trip_keeps_every_field() {
    let e = sample();
    let bytes = e.to_bytes();
    assert_eq!(bytes.len(), EVENT_LEN);
    let d = Event::unpack_from_slice(&bytes).unwrap();
    assert!(d.is_initialized());
    assert_eq!(d.initializer_pubkey, [7u8; 32]);
    assert_eq!(d.tickets_issued, 5);
    assert_eq!(d.max_tickets, 0x0102030405060708);
    assert_eq!(d.name, padded_name("Concert"));
    assert_eq!(d.mint_account, [9u8; 32]);
}

#[test]
fn round_trip_of_multibyte_name() {
    let mut e = sample();
    e.name = padded_name("Fête à Zürich");
    let d = Event::unpack_from_slice(&e.to_bytes()).unwrap();
    assert_eq!(d.name, e.name);
}

#[test]
fn layout_is_fixed() {
    let bytes = sample().to_bytes();
    assert_eq!(bytes[0], 1);
    assert_eq!(&bytes[1..33], &[7u8; 32][..]);
    assert_eq!(&bytes[33..41], &[5, 0, 0, 0, 0, 0, 0, 0][..]);
    assert_eq!(&bytes[41..49], &[8, 7, 6, 5, 4, 3, 2, 1][..]);
    assert_eq!(&bytes[49..56], b"Concert");
    assert!(bytes[56..81].iter().all(|b| *b == 0));
    assert_eq!(&bytes[81..113], &[9u8; 32][..]);
}

#[test]
fn short_name_is_padded_with_zeros() {
    let mut e = sample();
    e.name = String::from("Gig");
    e.is_initialized = false;
    let bytes = e.to_bytes();
    assert_eq!(bytes[0], 0);
    assert_eq!(&bytes[49..52], b"Gig");
    assert!(bytes[52..81].iter().all(|b| *b == 0));
    let d = Event::unpack_from_slice(&bytes).unwrap();
    assert_eq!(d.name, padded_name("Gig"));
}

#[test]
fn pack_into_slice_overwrites_slot() {
    let mut slot = vec![0xAAu8; EVENT_LEN];
    sample().pack_into_slice(&mut slot);
    assert_eq!(slot, sample().to_bytes());
}

#[test]
fn zero_record_with_flag_set() {
    let mut bytes = vec![0u8; EVENT_LEN];
    bytes[0] = 0x01;
    let d = Event::unpack_from_slice(&bytes).unwrap();
    assert!(d.is_initialized);
    assert_eq!(d.initializer_pubkey, [0u8; 32]);
    assert_eq!(d.mint_account, [0u8; 32]);
    assert_eq!(d.tickets_issued, 0);
    assert_eq!(d.max_tickets, 0);
    assert_eq!(d.name, "\0".repeat(32));
}

#[test]
fn all_zero_record_is_uninitialized() {
    let d = Event::unpack_from_slice(&vec![0u8; EVENT_LEN]).unwrap();
    assert!(!d.is_initialized());
}

#[test]
fn bad_flag_is_rejected() {
    let mut bytes = vec![0u8; EVENT_LEN];
    bytes[0] = 2;
    assert!(matches!(Event::unpack_from_slice(&bytes), Err(EventError::InvalidFlag)));
}

#[test]
fn bad_name_is_rejected() {
    let mut bytes = vec![0u8; EVENT_LEN];
    bytes[49] = 0xFF;
    assert!(matches!(Event::unpack_from_slice(&bytes), Err(EventError::InvalidName)));
}

#[test]
fn wrong_length_is_rejected() {
    assert!(matches!(Event::unpack_from_slice(&vec![0u8; 112]), Err(EventError::InvalidLength)));
    assert!(matches!(Event::unpack_from_slice(&vec![0u8; 114]), Err(EventError::InvalidLength)));
    assert!(matches!(Event::unpack_from_slice(&[]), Err(EventError::InvalidLength)));
}
