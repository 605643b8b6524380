use n2k::{CanFrame, Id, Message};

#[test]
fn message_wraps_payload() {
    let id = Id::try_from(0x18eafc00).unwrap();
    let payload = [1u8, 2, 3];
    let m = Message::new(id, &payload).unwrap();
    assert_eq!(m.id().value(), 0x18eafc00);
    assert_eq!(m.data(), &[1, 2, 3]);
}

#[test]
fn message_rejects_long_payload() {
    let id = Id::try_from(0x18eafc00).unwrap();
    let payload = [0u8; 256];
    assert!(matches!(Message::new(id, &payload), Err(n2k::message::MessageError::Max255Bytes)));
}

#[test]
fn frame_pads_and_cuts() {
    let id = Id::try_from(0x18eafc00).unwrap();
    let frame = CanFrame::new(id, &[9, 8, 7]);
    assert!(frame.is_data_frame());
    assert!(!frame.is_remote_frame());
    assert_eq!(frame.data().unwrap(), &[9, 8, 7]);
    assert_eq!(frame.id().value(), 0x18eafc00);
}

#[test]
fn product_holds_fields() {
    let p = n2k::Product::new(1, 2, "model", "soft", "ver", "serial", 3, 4);
    assert_eq!(p.n2k(), 1);
    assert_eq!(p.code(), 2);
    assert_eq!(p.model(), "model");
    assert_eq!(p.software(), "soft");
    assert_eq!(p.version(), "ver");
    assert_eq!(p.serial(), "serial");
    assert_eq!(p.certification(), 3);
    assert_eq!(p.load(), 4);
}
