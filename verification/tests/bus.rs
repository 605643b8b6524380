use n2k::bus::BusError;
use n2k::hal::{NbError, ReceivedFrame, Receiver, Transmitter};
use n2k::{Bus, CanFrame, Id, Message, PgnRegistry, Priority, GLOBAL_ADDRESS};

struct MockCan {
    pub frames: Vec<CanFrame>,
}

impl MockCan {
    pub fn new() -> Self {
        MockCan { frames: Vec::new() }
    }
}

impl Transmitter for MockCan {
    type Error = ();

    fn transmit(&mut self, frame: &CanFrame) -> Result<Option<CanFrame>, NbError<()>> {
        self.frames.push(frame.clone());
        Ok(None)
    }
}

struct EmptyCan {}

impl Receiver for EmptyCan {
    type Error = u8;

    fn receive(&mut self) -> Result<ReceivedFrame, NbError<u8>> {
        Err(NbError::WouldBlock)
    }
}

struct TestRegistry;

const FAST_PGN: u32 = 130820;

impl PgnRegistry for TestRegistry {
    type Message = (u32, Vec<u8>);
    type Error = u8;

    fn is_fast_packet(pgn: u32) -> bool {
        pgn == FAST_PGN
    }

    fn build_message(pgn: u32, data: &[u8]) -> Result<Self::Message, Self::Error> {
        if pgn == 61184 {
            Err(7)
        } else {
            Ok((pgn, data.to_vec()))
        }
    }
}

#[test]
fn bus_send() {
    struct TestCase {
        payload: Vec<u8>,
    }
    let test_cases = [
        TestCase { payload: vec![1, 2, 3, 4, 5, 6, 7] },
        TestCase { payload: vec![1, 2, 3, 4, 5, 6, 7, 8, 9, 10, 11, 12, 13, 14, 15, 16, 17] },
    ];
    for i in &test_cases {
        let can = MockCan::new();
        let mut bus: Bus<MockCan, TestRegistry> = Bus::new(can);
        let id = Id::new(Priority::Priority0, 12345, 123, GLOBAL_ADDRESS).unwrap();
        let message = Message::new(id, &i.payload).unwrap();

        bus.send(&message).unwrap();

        let data = &i.payload;
        if data.len() <= 8 {
            // Single packet
        } else {
            // Multipacket
            for b in 0..data.len() {
                let frame = (b / 7) + 1;
                let index = b - ((frame - 1) * 7) + 1;
                assert_eq!(bus.can().frames[frame].data().unwrap()[index], data[b])
            }
        }
    }
}

#[test]
fn bus_send_single_frame_carries_payload() {
    let can = MockCan::new();
    let mut bus: Bus<MockCan, TestRegistry> = Bus::new(can);
    let id = Id::new(Priority::Priority1, 59904, 9, GLOBAL_ADDRESS).unwrap();
    let message = Message::new(id, &[10, 20, 30]).unwrap();
    bus.send(&message).unwrap();
    assert_eq!(bus.can().frames.len(), 1);
    assert_eq!(bus.can().frames[0].data().unwrap(), &[10, 20, 30]);
    assert_eq!(bus.can().frames[0].id().value(), id.value());
}

#[test]
fn bus_send_broadcast_announce_layout() {
    // A 17-byte payload goes out as one announce frame and 3 data frames.
    let can = MockCan::new();
    let mut bus: Bus<MockCan, TestRegistry> = Bus::new(can);
    let id = Id::new(Priority::Priority0, 12345, 123, GLOBAL_ADDRESS).unwrap();
    let payload: Vec<u8> = (1..=17).collect();
    let message = Message::new(id, &payload).unwrap();
    bus.send(&message).unwrap();

    let frames = &bus.can().frames;
    assert_eq!(frames.len(), 4);
    // TP_BAM: control byte, size (lo, hi), packet count, reserved, PGN bytes
    // 12345 has a PDU1 format byte, so its low byte is no part of the
    // decoded PGN (0x3000): the announce carries that decoded number.
    assert_eq!(frames[0].data().unwrap(), &[0x40, 17, 0, 3, 0xff, 0x00, 0x30, 0x00]);
    assert_eq!(frames[0].id().pgn(), 60416);
    assert_eq!(frames[0].id().destination(), 0xff);
    // TP_DT frames carry 1-based sequence numbers and 0xff padding
    assert_eq!(frames[1].data().unwrap(), &[1, 1, 2, 3, 4, 5, 6, 7]);
    assert_eq!(frames[2].data().unwrap(), &[2, 8, 9, 10, 11, 12, 13, 14]);
    assert_eq!(frames[3].data().unwrap(), &[3, 15, 16, 17, 0xff, 0xff, 0xff, 0xff]);
    assert_eq!(frames[1].id().pgn(), 60160);
}

fn fast_id(src: u8) -> u32 {
    Id::new(Priority::Priority3, FAST_PGN, src, GLOBAL_ADDRESS).unwrap().value()
}

fn frame(id: u32, data: &[u8]) -> ReceivedFrame {
    ReceivedFrame { extended_id: Some(id), data: Some(data.to_vec()) }
}

#[test]
fn bus_receive_would_block_is_quiet() {
    let mut bus: Bus<EmptyCan, TestRegistry> = Bus::new(EmptyCan {});
    assert!(matches!(bus.receive(), Ok(None)));
}

struct BrokenCan {}

impl Receiver for BrokenCan {
    type Error = u8;

    fn receive(&mut self) -> Result<ReceivedFrame, NbError<u8>> {
        Err(NbError::Other(42))
    }
}

#[test]
fn bus_receive_surfaces_transport_error() {
    let mut bus: Bus<BrokenCan, TestRegistry> = Bus::new(BrokenCan {});
    assert!(matches!(bus.receive(), Err(BusError::CanError(42))));
}

struct OneFrameCan {
    sent: bool,
}

impl Receiver for OneFrameCan {
    type Error = u8;

    fn receive(&mut self) -> Result<ReceivedFrame, NbError<u8>> {
        if self.sent {
            Err(NbError::WouldBlock)
        } else {
            self.sent = true;
            let id = Id::new(Priority::Priority6, 59904, 2, GLOBAL_ADDRESS).unwrap().value();
            Ok(ReceivedFrame { extended_id: Some(id), data: Some(vec![5, 6, 7]) })
        }
    }
}

#[test]
fn bus_receive_delivers_single_frame_message() {
    let mut bus: Bus<OneFrameCan, TestRegistry> = Bus::new(OneFrameCan { sent: false });
    match bus.receive() {
        Ok(Some((pgn, data))) => {
            assert_eq!(pgn, 59904);
            assert_eq!(data, vec![5, 6, 7]);
        },
        other => panic!("expected a message, got {:?}", other.map(|_| ())),
    }
    assert!(matches!(bus.receive(), Ok(None)));
}

#[test]
fn bus_reassembles_fast_packet() {
    // A 10-byte fast packet: a header with 6 payload bytes, then one
    // continuation with the 4 remaining bytes and padding.
    let mut bus: Bus<EmptyCan, TestRegistry> = Bus::new(EmptyCan {});
    let id = fast_id(0x3d);
    let r = bus.process_frame(&frame(id, &[0x00, 10, 1, 2, 3, 4, 5, 6]));
    assert!(matches!(r, Ok(None)));
    let r = bus.process_frame(&frame(id, &[0x01, 7, 8, 9, 10, 0xff, 0xff, 0xff]));
    match r {
        Ok(Some((pgn, data))) => {
            assert_eq!(pgn, FAST_PGN);
            assert_eq!(data, vec![1, 2, 3, 4, 5, 6, 7, 8, 9, 10]);
        },
        other => panic!("expected a completed message, got {:?}", other.map(|_| ())),
    }
}

#[test]
fn bus_evicts_out_of_sequence_fast_packet() {
    let mut bus: Bus<EmptyCan, TestRegistry> = Bus::new(EmptyCan {});
    let id = fast_id(0x11);
    assert!(matches!(bus.process_frame(&frame(id, &[0x00, 10, 1, 2, 3, 4, 5, 6])), Ok(None)));
    // Index 2 is out of sequence: the entry is evicted without an error.
    assert!(matches!(
        bus.process_frame(&frame(id, &[0x02, 7, 8, 9, 10, 0xff, 0xff, 0xff])),
        Ok(None)
    ));
    // The follow-up in-sequence frame now has no entry to extend.
    assert!(matches!(
        bus.process_frame(&frame(id, &[0x01, 7, 8, 9, 10, 0xff, 0xff, 0xff])),
        Ok(None)
    ));
}

#[test]
fn bus_single_frame_dispatch() {
    let mut bus: Bus<EmptyCan, TestRegistry> = Bus::new(EmptyCan {});
    let id = Id::new(Priority::Priority6, 59904, 2, GLOBAL_ADDRESS).unwrap().value();
    match bus.process_frame(&frame(id, &[0xaa, 0xbb])) {
        Ok(Some((pgn, data))) => {
            assert_eq!(pgn, 59904);
            assert_eq!(data, vec![0xaa, 0xbb]);
        },
        other => panic!("expected a message, got {:?}", other.map(|_| ())),
    }
}

#[test]
fn bus_surfaces_registry_error() {
    let mut bus: Bus<EmptyCan, TestRegistry> = Bus::new(EmptyCan {});
    let id = Id::new(Priority::Priority6, 61184, 2, GLOBAL_ADDRESS).unwrap().value();
    assert!(matches!(bus.process_frame(&frame(id, &[1])), Err(BusError::PgnError(7))));
}

#[test]
fn bus_rejects_malformed_frames() {
    let mut bus: Bus<EmptyCan, TestRegistry> = Bus::new(EmptyCan {});
    assert!(matches!(
        bus.process_frame(&ReceivedFrame { extended_id: None, data: None }),
        Err(BusError::NoExtendedId)
    ));
    assert!(matches!(
        bus.process_frame(&ReceivedFrame { extended_id: Some(0xe000_0000), data: None }),
        Err(BusError::InvalidId(n2k::IdError::InvalidId))
    ));
    let id = Id::new(Priority::Priority6, 59904, 2, GLOBAL_ADDRESS).unwrap().value();
    assert!(matches!(
        bus.process_frame(&ReceivedFrame { extended_id: Some(id), data: None }),
        Err(BusError::NoData)
    ));
}

#[test]
fn bus_runs_out_of_fast_packet_memory() {
    let mut bus: Bus<EmptyCan, TestRegistry> = Bus::new(EmptyCan {});
    // 16 distinct reassemblies fill the cache; the 17th is refused.
    for src in 0..16u8 {
        let id = fast_id(src);
        assert!(matches!(bus.process_frame(&frame(id, &[0x00, 100, 0, 0, 0, 0, 0, 0])), Ok(None)));
    }
    let id = fast_id(16);
    assert!(matches!(
        bus.process_frame(&frame(id, &[0x00, 100, 0, 0, 0, 0, 0, 0])),
        Err(BusError::OutOfFastPacketMemory)
    ));
    // A header for a known reassembly still replaces it.
    let id = fast_id(3);
    assert!(matches!(bus.process_frame(&frame(id, &[0x00, 100, 9, 9, 9, 9, 9, 9])), Ok(None)));
}
