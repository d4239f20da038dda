use registry_ticket_manager::RegistryTicket;
use registry_ticket_manager::TicketBit;
use registry_ticket_manager::TicketU16;
use registry_ticket_manager::TicketU32;
use registry_ticket_manager::TicketU8;
use registry_ticket_manager::TicketUsize;

#[test]
fn u8_round_trip_and_bounds() {
    for i in [0usize, 1, 7, 255] {
        let t = TicketU8::from_index(i).unwrap();
        assert_eq!(t.to_index(), i);
    }
    assert!(TicketU8::from_index(256).is_none());
    assert!(TicketU8::from_index(usize::MAX).is_none());
}

#[test]
fn u16_round_trip_and_bounds() {
    for i in [0usize, 1, 300, 65535] {
        let t = TicketU16::from_index(i).unwrap();
        assert_eq!(t.to_index(), i);
    }
    assert!(TicketU16::from_index(65536).is_none());
}

#[test]
fn u32_round_trip_and_bounds() {
    for i in [0usize, 1, 70000, u32::MAX as usize] {
        let t = TicketU32::from_index(i).unwrap();
        assert_eq!(t.to_index(), i);
    }
    assert!(TicketU32::from_index(u32::MAX as usize + 1).is_none());
}

#[test]
fn usize_round_trip() {
    for i in [0usize, 1, 70000, usize::MAX] {
        let t = TicketUsize::from_index(i).unwrap();
        assert_eq!(t.to_index(), i);
    }
}

#[test]
fn bit_round_trip_and_bounds() {
    let zero = TicketBit::from_index(0).unwrap();
    let one = TicketBit::from_index(1).unwrap();
    assert_eq!(zero.to_index(), 0);
    assert_eq!(one.to_index(), 1);
    assert_ne!(zero, one);
    assert!(TicketBit::from_index(2).is_none());
    assert!(TicketBit::from_index(3).is_none());
}

#[test]
fn from_index_is_deterministic() {
    assert_eq!(TicketU16::from_index(42), TicketU16::from_index(42));
    assert_eq!(TicketU8::from_index(7), TicketU8::from_index(7));
    assert_eq!(TicketBit::from_index(1), TicketBit::from_index(1));
}
