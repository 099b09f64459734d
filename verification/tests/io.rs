use fricgan::IO;

#[test]
fn test_io_u8() {
    let mut data: [u8; 4] = [0, 1, 2, 3];
    let mut test: u8 = 5u8;

    // read
    assert_eq!(test.fio_read(&data[..]), 1);
    assert_eq!(test, data[0]);
    assert_eq!(test.fio_read(&data[1..]), 1);
    assert_eq!(test, data[1]);

    // write
    test = 0xFFu8;
    assert_eq!(test.fio_write(&mut data[..]), 1);
    assert_eq!(test, 0xFF);
    assert_eq!(data[0], 0xFF);
    test = 0xF0u8;
    assert_eq!(test.fio_write(&mut data[1..]), 1);
    assert_eq!(test, 0xF0);
    assert_eq!(data[1], 0xF0);
}

#[test]
fn test_io_i8() {
    let mut data: [u8; 4] = [0, 1, 2, 3];
    let mut test: i8 = 5i8;

    // read
    assert_eq!(test.fio_read(&data[..]), 1);
    assert_eq!(test, data[0] as i8);
    assert_eq!(test.fio_read(&data[1..]), 1);
    assert_eq!(test, data[1] as i8);

    // write
    test = 0x7Fi8;
    assert_eq!(test.fio_write(&mut data[..]), 1);
    assert_eq!(test, 0x7F);
    assert_eq!(data[0] as i8, 0x7F);
    test = 0x70i8;
    assert_eq!(test.fio_write(&mut data[1..]), 1);
    assert_eq!(test, 0x70);
    assert_eq!(data[1] as i8, 0x70);
}

#[test]
fn test_io_u16() {
    let mut data: [u8; 8] = [0x00, 0x01, 0x02, 0x03, 0x04, 0x05, 0x06, 0x07];
    let mut test: u16 = 0x7654u16;

    // read
    assert_eq!(test.fio_read(&data[..]), 2);
    assert_eq!(test, data[0] as u16 + ((data[1] as u16) << 8));

    // write
    assert_eq!(test.fio_write(&mut data[2..]), 2);
    assert_eq!(data[0], data[2]);
    assert_eq!(data[1], data[3]);
}

#[test]
fn test_io_i16() {
    let mut data: [u8; 8] = [0x00, 0x01, 0x02, 0x03, 0x04, 0x05, 0x06, 0x07];
    let mut test: i16 = 0x7654i16;

    // read
    assert_eq!(test.fio_read(&data[..]), 2);
    assert_eq!(test, data[0] as i16 + ((data[1] as i16) << 8));

    // write
    assert_eq!(test.fio_write(&mut data[2..]), 2);
    assert_eq!(data[0], data[2]);
    assert_eq!(data[1], data[3]);
}

#[test]
fn test_io_u32() {
    let mut data: [u8; 8] = [0x00, 0x01, 0x02, 0x03, 0x04, 0x05, 0x06, 0x07];
    let mut test: u32 = 0x76543210u32;

    // read
    assert_eq!(test.fio_read(&data[..]), 4);
    assert_eq!(
        test,
        data[0] as u32 + ((data[1] as u32) << 8) + ((data[2] as u32) << 16)
            + ((data[3] as u32) << 24)
    );

    // write
    assert_eq!(test.fio_write(&mut data[4..]), 4);
    assert_eq!(data[0], data[4]);
    assert_eq!(data[1], data[5]);
    assert_eq!(data[2], data[6]);
    assert_eq!(data[3], data[7]);
}

#[test]
fn test_io_i32() {
    let mut data: [u8; 8] = [0x00, 0x01, 0x02, 0x03, 0x04, 0x05, 0x06, 0x07];
    let mut test: i32 = 0x76543210i32;

    // read
    assert_eq!(test.fio_read(&data[..]), 4);
    assert_eq!(
        test,
        data[0] as i32 + ((data[1] as i32) << 8) + ((data[2] as i32) << 16)
            + ((data[3] as i32) << 24)
    );

    // write
    assert_eq!(test.fio_write(&mut data[4..]), 4);
    assert_eq!(data[0], data[4]);
    assert_eq!(data[1], data[5]);
    assert_eq!(data[2], data[6]);
    assert_eq!(data[3], data[7]);
}

#[test]
fn test_io_u64() {
    let mut data: [u8; 16] = [
        0x00, 0x01, 0x02, 0x03, 0x04, 0x05, 0x06, 0x07, 0x07, 0x06, 0x05, 0x04, 0x03, 0x02, 0x01,
        0x00,
    ];
    let mut test: u64 = 0x7654321076543210u64;

    // read
    assert_eq!(test.fio_read(&data[..]), 8);
    assert_eq!(
        test,
        data[0] as u64 + ((data[1] as u64) << 8) + ((data[2] as u64) << 16)
            + ((data[3] as u64) << 24) + ((data[4] as u64) << 32) + ((data[5] as u64) << 40)
            + ((data[6] as u64) << 48) + ((data[7] as u64) << 56)
    );

    // write
    assert_eq!(test.fio_write(&mut data[8..]), 8);
    assert_eq!(data[0], data[8]);
    assert_eq!(data[1], data[9]);
    assert_eq!(data[2], data[10]);
    assert_eq!(data[3], data[11]);
    assert_eq!(data[4], data[12]);
    assert_eq!(data[5], data[13]);
    assert_eq!(data[6], data[14]);
    assert_eq!(data[7], data[15]);
}

#[test]
fn test_io_i64() {
    let mut data: [u8; 16] = [
        0x00, 0x01, 0x02, 0x03, 0x04, 0x05, 0x06, 0x07, 0x07, 0x06, 0x05, 0x04, 0x03, 0x02, 0x01,
        0x00,
    ];
    let mut test: i64 = 0x7654321076543210i64;

    // read
    assert_eq!(test.fio_read(&data[..]), 8);
    assert_eq!(
        test,
        data[0] as i64 + ((data[1] as i64) << 8) + ((data[2] as i64) << 16)
            + ((data[3] as i64) << 24) + ((data[4] as i64) << 32) + ((data[5] as i64) << 40)
            + ((data[6] as i64) << 48) + ((data[7] as i64) << 56)
    );

    // write
    assert_eq!(test.fio_write(&mut data[8..]), 8);
    assert_eq!(data[0], data[8]);
    assert_eq!(data[1], data[9]);
    assert_eq!(data[2], data[10]);
    assert_eq!(data[3], data[11]);
    assert_eq!(data[4], data[12]);
    assert_eq!(data[5], data[13]);
    assert_eq!(data[6], data[14]);
    assert_eq!(data[7], data[15]);
}

// The fixed-width codec's byte image is little-endian for every width:
// each encoded byte pattern is checked against one built by hand.
#[test]
fn test_io_byte_patterns() {
    let mut b2 = [0u8; 2];
    let mut v16: u16 = 0xA1B2;
    assert_eq!(v16.fio_write(&mut b2[..]), 2);
    assert_eq!(b2, [0xB2, 0xA1]);

    let mut b4 = [0u8; 4];
    let mut v32: u32 = 0xA1B2C3D4;
    assert_eq!(v32.fio_write(&mut b4[..]), 4);
    assert_eq!(b4, [0xD4, 0xC3, 0xB2, 0xA1]);

    let mut b8 = [0u8; 8];
    let mut v64: u64 = 0x0102030405060708;
    assert_eq!(v64.fio_write(&mut b8[..]), 8);
    assert_eq!(b8, [0x08, 0x07, 0x06, 0x05, 0x04, 0x03, 0x02, 0x01]);

    let mut i1: i8 = -2;
    let mut one = [0u8; 1];
    assert_eq!(i1.fio_write(&mut one[..]), 1);
    assert_eq!(one, [0xFE]);
}

// A sink of exactly the value's width is filled completely, with nothing
// left over, and negative values survive the round trip.
#[test]
fn test_io_exact_sink_round_trip() {
    let mut sink = [0u8; 4];
    let mut v: i32 = -123456789;
    assert_eq!(v.fio_write(&mut sink[..]), sink.len());
    let mut back: i32 = 0;
    assert_eq!(back.fio_read(&sink[..]), sink.len());
    assert_eq!(back, -123456789);

    let mut sink8 = [0u8; 8];
    let mut w: i64 = i64::MIN;
    assert_eq!(w.fio_write(&mut sink8[..]), sink8.len());
    let mut back64: i64 = 0;
    assert_eq!(back64.fio_read(&sink8[..]), sink8.len());
    assert_eq!(back64, i64::MIN);
}
