use n2k::fast_packet::{FastPacketCache, FastPacketError};

#[test]
fn reassembly_in_sequence() {
    let mut cache = FastPacketCache::new(10);
    assert!(!cache.is_complete());
    assert!(cache.complete_data().is_none());
    assert_eq!(cache.extend(0, &[1, 2, 3, 4, 5, 6]), Ok(false));
    assert_eq!(cache.extend(1, &[7, 8, 9, 10, 0xff, 0xff, 0xff]), Ok(true));
    assert!(cache.is_complete());
    // The excess padding of the final frame is cut at the declared size.
    assert_eq!(cache.complete_data().unwrap(), &[1, 2, 3, 4, 5, 6, 7, 8, 9, 10]);
}

#[test]
fn reassembly_rejects_out_of_sequence() {
    let mut cache = FastPacketCache::new(20);
    assert_eq!(cache.extend(0, &[1, 2, 3, 4, 5, 6]), Ok(false));
    assert_eq!(
        cache.extend(2, &[7, 8, 9, 10, 11, 12, 13]),
        Err(FastPacketError::UnexpectedFrameIndex { index: 2, expected: 1 })
    );
    // The entry itself is untouched; the next in-sequence frame still fits.
    assert_eq!(cache.extend(1, &[7, 8, 9, 10, 11, 12, 13]), Ok(false));
}

#[test]
fn reassembly_rejects_repeated_header() {
    let mut cache = FastPacketCache::new(20);
    assert_eq!(cache.extend(0, &[1, 2, 3, 4, 5, 6]), Ok(false));
    assert_eq!(
        cache.extend(0, &[1, 2, 3, 4, 5, 6]),
        Err(FastPacketError::UnexpectedFrameIndex { index: 0, expected: 1 })
    );
}

#[test]
fn reassembly_rejects_overfull_buffer() {
    let mut cache = FastPacketCache::new(255);
    assert_eq!(cache.extend(0, &[0u8; 250]), Ok(false));
    assert_eq!(
        cache.extend(1, &[0u8; 10]),
        Err(FastPacketError::PacketTooBig { actual: 260, expected: 255 })
    );
}
