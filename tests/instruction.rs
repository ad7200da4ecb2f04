use ticket_sale::error::EventError;
use ticket_sale::instruction::EventInstruction;

fn create_bytes(name: &[u8], max_tickets: u64) -> Vec<u8> {
    let mut v = vec![0u8];
    let mut n = name.to_vec();
    n.resize(32, 0);
    v.extend_from_slice(&n);
    v.extend_from_slice(&max_tickets.to_le_bytes());
    v
}

#[test]
fn empty_buffer_is_truncated() {
    assert!(matches!(EventInstruction::unpack(&[]), Err(EventError::Truncated)));
}

#[test]
fn short_create_payload_is_truncated() {
    let full = create_bytes(b"Concert", 2);
    for len in 1..full.len() {
        assert!(matches!(EventInstruction::unpack(&full[..len]), Err(EventError::Truncated)));
    }
}

#[test]
fn create_event_is_decoded() {
    match EventInstruction::unpack(&create_bytes(b"Concert", 0x0A0B)) {
        Ok(EventInstruction::CreateEvent { max_tickets, name }) => {
            assert_eq!(max_tickets, 0x0A0B);
            assert_eq!(name.len(), 32);
            assert!(name.starts_with("Concert"));
            assert!(name[7..].chars().all(|c| c == '\0'));
        }
        _ => panic!("expected CreateEvent"),
    }
}

#[test]
fn create_event_ignores_trailing_bytes() {
    let mut data = create_bytes(b"Show", 3);
    data.extend_from_slice(&[1, 2, 3]);
    match EventInstruction::unpack(&data) {
        Ok(EventInstruction::CreateEvent { max_tickets, .. }) => assert_eq!(max_tickets, 3),
        _ => panic!("expected CreateEvent"),
    }
}

#[test]
fn create_event_with_invalid_name() {
    let mut data = create_bytes(b"", 3);
    data[1] = 0xC3;
    assert!(matches!(EventInstruction::unpack(&data), Err(EventError::InvalidName)));
}

#[test]
fn purchase_ticket_is_decoded() {
    assert!(matches!(EventInstruction::unpack(&[1]), Ok(EventInstruction::PurchaseTicket)));
    assert!(matches!(
        EventInstruction::unpack(&[1, 5, 6, 7]),
        Ok(EventInstruction::PurchaseTicket)
    ));
}

#[test]
fn unknown_tag_is_rejected() {
    assert!(matches!(EventInstruction::unpack(&[2]), Err(EventError::UnknownTag)));
    assert!(matches!(EventInstruction::unpack(&[255, 0, 0]), Err(EventError::UnknownTag)));
}
