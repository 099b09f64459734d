use fricgan::VLQ;

// Value 0 encodes to exactly one byte 0x00; 127 to one byte 0x7F; 128 to
// the two bytes 0x80, 0x01.
#[test]
fn test_vlq_boundary() {
    let mut sink = [0xAAu8; 4];
    let zero: u32 = 0;
    assert_eq!(zero.vlq_write(&mut sink[..]), 1);
    assert_eq!(sink[0], 0x00);
    assert_eq!(sink[1], 0xAA);

    let small: u32 = 127;
    assert_eq!(small.vlq_write(&mut sink[..]), 1);
    assert_eq!(sink[0], 0x7F);
    assert_eq!(sink[1], 0xAA);

    let two: u32 = 128;
    assert_eq!(two.vlq_write(&mut sink[..]), 2);
    assert_eq!(sink[0], 0x80);
    assert_eq!(sink[1], 0x01);
    assert_eq!(sink[2], 0xAA);
}

#[test]
fn test_vlq_u32_round_trip() {
    let values: [u32; 9] = [0, 1, 127, 128, 300, 16383, 16384, 0x12345678, u32::MAX];
    for &v in values.iter() {
        let mut sink = [0u8; 5];
        let written = v.vlq_write(&mut sink[..]);
        let mut back: u32 = 0;
        let consumed = back.vlq_read(&sink[..]);
        assert_eq!(back, v);
        assert_eq!(consumed, written);
    }
}

#[test]
fn test_vlq_u64_round_trip() {
    let values: [u64; 8] = [
        0,
        127,
        128,
        16384,
        0x12345678,
        0x1_0000_0000,
        0x0123_4567_89AB_CDEF,
        u64::MAX,
    ];
    for &v in values.iter() {
        let mut sink = [0u8; 10];
        let written = v.vlq_write(&mut sink[..]);
        let mut back: u64 = 0;
        let consumed = back.vlq_read(&sink[..]);
        assert_eq!(back, v);
        assert_eq!(consumed, written);
    }
}

// Canonical minimality: the byte count is exactly
// max(1, ceil(bits_used(v) / 7)).
#[test]
fn test_vlq_minimal_lengths() {
    let cases: [(u64, usize); 10] = [
        (0, 1),
        (1, 1),
        (127, 1),
        (128, 2),
        (16383, 2),
        (16384, 3),
        (0x1F_FFFF, 3),
        (u32::MAX as u64, 5),
        (0xFFFF_FFFF_FFFF_FFFF, 10),
        (0x7FFF_FFFF_FFFF_FFFF, 9),
    ];
    for &(v, expect) in cases.iter() {
        let mut sink = [0u8; 10];
        assert_eq!(v.vlq_write(&mut sink[..]), expect);
        if v <= u32::MAX as u64 {
            let v32: u32 = v as u32;
            assert_eq!(v32.vlq_write(&mut sink[..]), expect);
        }
    }
}

// The decoder does not reject redundant continuation bytes below the
// ceiling: it accepts them silently.
#[test]
fn test_vlq_non_canonical_accepted() {
    let source: [u8; 2] = [0x80, 0x00];
    let mut v: u32 = 0;
    assert_eq!(v.vlq_read(&source[..]), 2);
    assert_eq!(v, 0);

    let source2: [u8; 3] = [0xFF, 0x80, 0x00];
    let mut w: u32 = 0;
    assert_eq!(w.vlq_read(&source2[..]), 3);
    assert_eq!(w, 127);
}

// The bit ceiling bounds the decoder on input whose continuation flags
// never clear: five bytes for 32-bit values, eleven for 64-bit values.
#[test]
fn test_vlq_ceiling() {
    let endless: [u8; 12] = [0xFF; 12];

    let mut v: u32 = 0;
    assert_eq!(v.vlq_read(&endless[..]), 5);
    assert_eq!(v, u32::MAX);

    let mut w: u64 = 0;
    assert_eq!(w.vlq_read(&endless[..]), 11);
    assert_eq!(w, u64::MAX);
}
