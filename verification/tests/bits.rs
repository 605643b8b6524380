use bitvec::field::BitField;
use bitvec::order::Lsb0;
use bitvec::view::BitView;

use n2k::bits::load_be_bits;

/// What a bit-slice library reads at the same range: a view with
/// least-significant-first bit numbering inside each byte, loaded with the
/// first touched element as the most significant chunk.
fn reference_load(bytes: &[u8], off: usize, len: usize) -> u64 {
    bytes.view_bits::<Lsb0>()[off..off + len].load_be::<u64>()
}

#[test]
fn whole_bytes() {
    let raw = [0xab, 0xcd, 0xef, 0x01];
    assert_eq!(load_be_bits(&raw, 0, 8), 0xab);
    assert_eq!(load_be_bits(&raw, 8, 8), 0xcd);
    assert_eq!(load_be_bits(&raw, 0, 16), 0xabcd);
    assert_eq!(load_be_bits(&raw, 0, 32), 0xabcdef01);
}

#[test]
fn sub_byte_fields() {
    let raw = [0b1011_0110];
    assert_eq!(load_be_bits(&raw, 0, 3), 0b110);
    assert_eq!(load_be_bits(&raw, 3, 3), 0b110);
    assert_eq!(load_be_bits(&raw, 6, 2), 0b10);
    assert_eq!(load_be_bits(&raw, 0, 1), 0);
    assert_eq!(load_be_bits(&raw, 1, 1), 1);
}

#[test]
fn matches_bit_slice_library() {
    let raw = [0x3d, 0xa2, 0x5b, 0xf0, 0x11, 0xc7, 0x08, 0x99];
    let cases: &[(usize, usize)] = &[
        (0, 1),
        (0, 8),
        (0, 16),
        (3, 5),
        (4, 16),
        (5, 3),
        (7, 9),
        (8, 24),
        (10, 30),
        (12, 4),
        (13, 51),
        (21, 21),
        (0, 64),
    ];
    for &(off, len) in cases {
        assert_eq!(
            load_be_bits(&raw, off, len),
            reference_load(&raw, off, len),
            "bit range {}..{}",
            off,
            off + len
        );
    }
}
