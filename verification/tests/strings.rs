use fricgan::FricganString;
use fricgan::VLQ;
use fricgan::VLQString;

#[test]
fn test_io_string() {
    let mut a: Vec<u8> = b"This is a sample string to be written out and then restored".to_vec();

    let mut b: Vec<u8> = Vec::new();

    let mut v = vec![0u8; a.len() + 4];
    println!("a len: {}", a.len());
    println!("b len: {}", b.len());
    println!("v len: {}", v.len());

    let mut l = a.fio_string_write::<u32>(&mut v[..]);

    assert_eq!(l, a.len() + 4);

    for i in 0..a.len() {
        assert_eq!(a[i], v[i + 4]);
    }

    l = b.fio_string_read::<u32>(&v[..]);
    assert_eq!(l, a.len() + 4);

    for i in 0..b.len() {
        assert_eq!(b[i], v[i + 4]);
    }

    println!(
        "a: {}\nb: {}",
        String::from_utf8(a.clone()).unwrap(),
        String::from_utf8(b.clone()).unwrap()
    );
}

#[test]
fn test_vlq_string() {
    let mut a: Vec<u8> = b"This is a sample string to be written out and then restored".to_vec();

    let mut b: Vec<u8> = Vec::new();

    let mut v = vec![0u8; a.len() + 4];
    println!("a len: {}", a.len());
    println!("b len: {}", b.len());
    println!("v len: {}", v.len());

    let mut l = a.vlq_string_write::<u32>(&mut v[..]);

    // The offset is the length field's own encoded width: the decoder
    // reports how many bytes the field took.
    let mut u: u32 = 0;

    // o is for offset.
    let o = u.vlq_read(&v[..]);
    assert_eq!(u as usize, a.len());
    assert_eq!(o, 1);

    assert_eq!(l, a.len() + o);

    for i in 0..a.len() {
        assert_eq!(a[i], v[i + o]);
    }

    l = b.vlq_string_read::<u32>(&v[..]);
    assert_eq!(l, a.len() + o);

    for i in 0..b.len() {
        assert_eq!(b[i], v[i + o]);
    }

    println!(
        "a: {}\nb: {}",
        String::from_utf8(a.clone()).unwrap(),
        String::from_utf8(b.clone()).unwrap()
    );
}

// An empty payload frames to the length field alone.
#[test]
fn test_string_empty() {
    let mut a: Vec<u8> = Vec::new();
    let mut v = [0xAAu8; 8];

    assert_eq!(a.fio_string_write::<u32>(&mut v[..]), 4);
    assert_eq!(&v[0..4], &[0, 0, 0, 0]);
    assert_eq!(v[4], 0xAA);

    let mut b: Vec<u8> = b"x".to_vec();
    assert_eq!(b.fio_string_read::<u32>(&v[..]), 4);
    assert_eq!(b.len(), 0);

    assert_eq!(a.vlq_string_write::<u32>(&mut v[..]), 1);
    assert_eq!(v[0], 0);
    let mut c: Vec<u8> = b"y".to_vec();
    assert_eq!(c.vlq_string_read::<u32>(&v[..]), 1);
    assert_eq!(c.len(), 0);
}

// For payloads of 128 bytes or more the VLQ length field grows to two
// bytes, and the payload offset must track that width.
#[test]
fn test_vlq_string_long() {
    let mut a: Vec<u8> = vec![0x5A; 200];
    let mut v = vec![0u8; 200 + 2];

    let l = a.vlq_string_write::<u32>(&mut v[..]);
    assert_eq!(l, 202);
    assert_eq!(v[0], 0xC8);
    assert_eq!(v[1], 0x01);
    assert_eq!(v[2], 0x5A);

    let mut b: Vec<u8> = Vec::new();
    assert_eq!(b.vlq_string_read::<u32>(&v[..]), 202);
    assert_eq!(b, a);
}

// The framing works the same through a 64-bit length type.
#[test]
fn test_string_u64_length() {
    let mut a: Vec<u8> = b"payload".to_vec();
    let mut v = vec![0u8; 7 + 8];

    let l = a.fio_string_write::<u64>(&mut v[..]);
    assert_eq!(l, 7 + 8);
    assert_eq!(&v[0..8], &[7, 0, 0, 0, 0, 0, 0, 0]);

    let mut b: Vec<u8> = Vec::new();
    assert_eq!(b.fio_string_read::<u64>(&v[..]), 7 + 8);
    assert_eq!(b, a);

    let mut w = vec![0u8; 8];
    let l2 = a.vlq_string_write::<u64>(&mut w[..]);
    assert_eq!(l2, 8);
    assert_eq!(w[0], 7);

    let mut c: Vec<u8> = Vec::new();
    assert_eq!(c.vlq_string_read::<u64>(&w[..]), 8);
    assert_eq!(c, a);
}
