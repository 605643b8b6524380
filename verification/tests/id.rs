use n2k::{Id, Priority, GLOBAL_ADDRESS};

#[test]
fn id_new_destination() {
    struct TestCase {
        id: u32,
        prio: Priority,
        pgn: u32,
        src: u8,
        dst: u8,
    }
    let test_cases = [
        TestCase { id: 0x18eafc00, prio: Priority::Priority6, pgn: 59904, src: 0, dst: 252 },
        TestCase {
            id: 0x1cecff3d,
            prio: Priority::Priority7,
            pgn: 60416,
            src: 61,
            dst: GLOBAL_ADDRESS,
        },
        TestCase { id: 0xcfe6cee, prio: Priority::Priority3, pgn: 65132, src: 238, dst: 255 },
    ];
    for i in &test_cases {
        let id: u32 = Id::new(i.prio, i.pgn, i.src, i.dst).expect("Invalid parameter").value();
        assert_eq!(id, i.id)
    }
}

#[test]
fn id_priority() {
    struct TestCase {
        id: u32,
        prio: Priority,
    }
    let test_cases = [
        TestCase { id: 0x18eafc00, prio: Priority::Priority6 },
        TestCase { id: 0x1cecff3d, prio: Priority::Priority7 },
        TestCase { id: 0xcfe6cee, prio: Priority::Priority3 },
    ];
    for i in &test_cases {
        let id = Id::try_from(i.id).expect("Invalid CanID");
        assert_eq!(id.priority(), i.prio)
    }
}

#[test]
fn id_pgn() {
    struct TestCase {
        id: u32,
        pgn: u32,
    }
    let test_cases = [
        TestCase { id: 0x18eafc00, pgn: 59904 },
        TestCase { id: 0x1cecff3d, pgn: 60416 },
        TestCase { id: 0xcfe6cee, pgn: 65132 },
    ];
    for i in &test_cases {
        let id = Id::try_from(i.id).expect("Invalid CanID");
        assert_eq!(id.pgn(), i.pgn)
    }
}

#[test]
fn id_source() {
    struct TestCase {
        id: u32,
        src: u8,
    }
    let test_cases = [
        TestCase { id: 0x18eafc00, src: 0 },
        TestCase { id: 0x1cecff3d, src: 61 },
        TestCase { id: 0xcfe6cee, src: 238 },
    ];
    for i in &test_cases {
        let id = Id::try_from(i.id).expect("Invalid CanID");
        assert_eq!(id.source(), i.src)
    }
}

#[test]
fn id_destination() {
    struct TestCase {
        id: u32,
        dst: u8,
    }
    let test_cases = [
        TestCase { id: 0x18eafc00, dst: 252 },
        TestCase { id: 0x1cecff3d, dst: 255 },
        TestCase { id: 0xcfe6cee, dst: 255 },
    ];
    for i in &test_cases {
        let id = Id::try_from(i.id).expect("Invalid CanID");
        assert_eq!(id.destination(), i.dst)
    }
}

#[test]
fn id_round_trips_pdu1() {
    // 126208 is a PDU1 group: the destination must survive the round trip.
    let id = Id::new(Priority::Priority5, 126208, 0x15, 0x20).unwrap();
    assert_eq!(id.priority(), Priority::Priority5);
    assert_eq!(id.pgn(), 126208);
    assert_eq!(id.source(), 0x15);
    assert_eq!(id.destination(), 0x20);
}

#[test]
fn id_value_round_trips() {
    // Any 29-bit value survives try_from unchanged.
    for v in [0u32, 1, 0x18eafc00, 0x1cecff3d, 0x1fffffff] {
        assert_eq!(Id::try_from(v).unwrap().value(), v);
    }
}

#[test]
fn id_rejects_high_bits() {
    assert!(matches!(Id::try_from(0x2000_0000), Err(n2k::IdError::InvalidId)));
    assert!(matches!(Id::try_from(0xffff_ffff), Err(n2k::IdError::InvalidId)));
}

#[test]
fn id_rejects_addressed_broadcast_group() {
    // A PDU2 group cannot be sent to a single destination.
    assert!(matches!(
        Id::new(Priority::Priority3, 65132, 1, 0x20),
        Err(n2k::IdError::CanNotSendToDestination)
    ));
}
