//! Length-prefixed framing for raw-byte containers.
//!
//! A framed payload is a length field immediately followed by exactly that
//! many raw payload bytes.  Two variants share one shape and differ only
//! in the length representation: [`FricganString`] encodes the length as a
//! fixed-width scalar through the [`IO`](crate::io::IO) codec, and
//! [`VLQString`] encodes it as a VLQ quantity through the
//! [`VLQ`](crate::vlq::VLQ) codec, whose own encoded width — not a fixed
//! offset — tells the reader where the payload starts.
//!
//! The reference realization is `Vec<u8>`, the raw-byte container whose
//! contents this codec can state exactly; a reader resizes its backing
//! storage to exactly the decoded payload length before the copy, the one
//! allocation point in the whole system.

use crate::unsigned::FioUnsigned;
use crate::vlq::lemma_vlq_enc_len;
use crate::vlq::lemma_vlq_enc_round_trip;
use crate::vlq::lemma_vlq_len_le;
use crate::vlq::vlq_enc;
use crate::vlq::vlq_len;
use crate::vlq::vlq_read_ok;
use crate::vlq::vlq_scan_len;
use crate::vlq::vlq_scan_value;
use vstd::arithmetic::div_mod::lemma_small_mod;
use vstd::prelude::*;
use vstd::slice::*;

verus! {

/// FricganString defines the string interface of `fio_string_read` and
/// `fio_string_write`: length-prefixed framing whose length field is a
/// fixed-width unsigned scalar of the caller's choosing.
pub trait FricganString: View<V = Seq<u8>> {
    /// Reads a framed value: decodes the fixed-width length field at
    /// offset zero of `source`, then takes exactly that many payload
    /// bytes from right behind it.
    ///
    /// The return value is the number of bytes read: the field's width
    /// plus the payload length.
    fn fio_string_read<V: FioUnsigned>(&mut self, source: &[u8]) -> (n: usize)
        requires
            V::spec_fio_width() <= source@.len(),
            V::spec_fio_width() + V::spec_fio_value(
                source@.subrange(0, V::spec_fio_width() as int),
            ) <= source@.len(),
        ensures
            n == V::spec_fio_width() + V::spec_fio_value(
                source@.subrange(0, V::spec_fio_width() as int),
            ),
            final(self)@ == source@.subrange(V::spec_fio_width() as int, n as int),
    ;

    /// Writes the underlying bytes to `sink`, prefixed with their count
    /// as a fixed-width unsigned scalar.
    ///
    /// The return value is the number of bytes written: the field's
    /// width plus the payload length.
    fn fio_string_write<V: FioUnsigned>(&mut self, sink: &mut [u8]) -> (n: usize)
        requires
            old(self)@.len() as nat <= V::spec_max(),
            V::spec_fio_width() + old(self)@.len() <= old(sink)@.len(),
        ensures
            n == V::spec_fio_width() + old(self)@.len(),
            final(self)@ == old(self)@,
            final(sink)@ == V::spec_fio_bytes(old(self)@.len() as nat) + old(self)@ + old(
                sink,
            )@.subrange(n as int, old(sink)@.len() as int),
    ;
}

/// VLQString is the same framing with a VLQ-encoded length field: the
/// field is as many bytes as the payload length needs, so the payload
/// offset follows from the field's own encoded width.
pub trait VLQString: View<V = Seq<u8>> {
    /// Reads a framed value: decodes the VLQ length field at offset zero
    /// of `source`, then takes exactly the decoded number of payload
    /// bytes from right behind the field's own encoded width.
    ///
    /// The return value is the number of bytes read.
    fn vlq_string_read<V: FioUnsigned>(&mut self, source: &[u8]) -> (n: usize)
        requires
            vlq_read_ok(source@, V::vlq_cap()),
            vlq_scan_len(source@, V::vlq_cap()) + vlq_scan_value(source@, V::vlq_cap()) % (
            V::spec_max() + 1) <= source@.len(),
        ensures
            n == vlq_scan_len(source@, V::vlq_cap()) + vlq_scan_value(source@, V::vlq_cap()) % (
            V::spec_max() + 1),
            final(self)@ == source@.subrange(vlq_scan_len(source@, V::vlq_cap()) as int, n as int),
    ;

    /// Writes the underlying bytes to `sink`, prefixed with their count
    /// as a VLQ quantity.
    ///
    /// The return value is the number of bytes written.
    fn vlq_string_write<V: FioUnsigned>(&mut self, sink: &mut [u8]) -> (n: usize)
        requires
            old(self)@.len() as nat <= V::spec_max(),
            vlq_len(old(self)@.len() as nat) + old(self)@.len() <= old(sink)@.len(),
        ensures
            n == vlq_len(old(self)@.len() as nat) + old(self)@.len(),
            final(self)@ == old(self)@,
            final(sink)@ == vlq_enc(old(self)@.len() as nat) + old(self)@ + old(sink)@.subrange(
                n as int,
                old(sink)@.len() as int,
            ),
    ;
}

/// Copies `self[0..len]` into `sink[at..at + len]`, leaving everything
/// else in `sink` as it was.
fn copy_payload(payload: &Vec<u8>, sink: &mut [u8], at: usize)
    requires
        at + payload@.len() <= old(sink)@.len(),
    ensures
        final(sink)@.len() == old(sink)@.len(),
        forall|j: int| 0 <= j < at ==> final(sink)@[j] == old(sink)@[j],
        forall|j: int|
            at <= j < at + payload@.len() ==> final(sink)@[j] == payload@[j - at],
        forall|j: int|
            at + payload@.len() <= j < old(sink)@.len() ==> final(sink)@[j] == old(sink)@[j],
{
    let total = sink.len();
    let len = payload.len();
    let mut i: usize = 0;
    while i < len
        invariant
            i <= len,
            len == payload@.len(),
            at + len <= total,
            total == sink@.len(),
            sink@.len() == old(sink)@.len(),
            forall|j: int| 0 <= j < at ==> sink@[j] == old(sink)@[j],
            forall|j: int| at <= j < at + i ==> sink@[j] == payload@[j - at],
            forall|j: int| at + i <= j < sink@.len() ==> sink@[j] == old(sink)@[j],
        decreases len - i,
    {
        sink[at + i] = payload[i];
        i += 1;
    }
}

/// Replaces `self`'s contents with `source[at..at + len]`, resizing the
/// backing storage to exactly `len` bytes.
fn take_payload(payload: &mut Vec<u8>, source: &[u8], at: usize, len: usize)
    requires
        at + len <= source@.len(),
    ensures
        final(payload)@ == source@.subrange(at as int, (at + len) as int),
{
    let total = source.len();
    payload.clear();
    let mut i: usize = 0;
    while i < len
        invariant
            i <= len,
            at + len <= total,
            total == source@.len(),
            payload@.len() == i,
            forall|j: int| 0 <= j < i ==> payload@[j] == source@[at + j],
        decreases len - i,
    {
        payload.push(*slice_index_get(source, at + i));
        i += 1;
    }
    proof {
        assert(payload@ =~= source@.subrange(at as int, (at + len) as int));
    }
}

impl FricganString for Vec<u8> {
    fn fio_string_read<V: FioUnsigned>(&mut self, source: &[u8]) -> (n: usize) {
        let total = source.len();
        let mut length: V = V::from_usize(0);
        proof {
            length.lemma_fio_unsigned();
        }
        let w = length.fio_read(source);
        proof {
            length.lemma_fio_decode_value(source@.subrange(0, w as int));
        }
        let len = length.to_usize();
        take_payload(self, source, w, len);
        w + len
    }

    fn fio_string_write<V: FioUnsigned>(&mut self, sink: &mut [u8]) -> (n: usize) {
        let total = sink.len();
        let mut length: V = V::from_usize(self.len());
        proof {
            length.lemma_fio_unsigned();
            V::lemma_fio_bytes_value(self@.len() as nat);
        }
        let w = length.fio_write(sink);
        copy_payload(self, sink, w);
        proof {
            let h = V::spec_fio_bytes(old(self)@.len() as nat);
            assert(forall|j: int| 0 <= j < w ==> sink@[j] == h[j]);
            assert(sink@ =~= h + old(self)@ + old(sink)@.subrange(
                (w + self@.len()) as int,
                old(sink)@.len() as int,
            ));
        }
        w + self.len()
    }
}

impl VLQString for Vec<u8> {
    fn vlq_string_read<V: FioUnsigned>(&mut self, source: &[u8]) -> (n: usize) {
        let total = source.len();
        let mut length: V = V::from_usize(0);
        let w = length.vlq_read(source);
        proof {
            length.lemma_vlq_decode_value(source@);
        }
        let len = length.to_usize();
        take_payload(self, source, w, len);
        w + len
    }

    fn vlq_string_write<V: FioUnsigned>(&mut self, sink: &mut [u8]) -> (n: usize) {
        let total = sink.len();
        let mut length: V = V::from_usize(self.len());
        proof {
            length.lemma_fio_unsigned();
            lemma_vlq_enc_len(self@.len() as nat);
        }
        let w = length.vlq_write(sink);
        copy_payload(self, sink, w);
        proof {
            let h = vlq_enc(old(self)@.len() as nat);
            assert(forall|j: int| 0 <= j < w ==> sink@[j] == h[j]);
            assert(sink@ =~= h + old(self)@ + old(sink)@.subrange(
                (w + self@.len()) as int,
                old(sink)@.len() as int,
            ));
        }
        w + self.len()
    }
}

/// Framing round trip, fixed-width length: the buffer the writer
/// produces for a payload — length image, payload, then whatever tail —
/// carries a length field that decodes back to the payload's byte count,
/// with the payload itself intact right behind it, so reading the buffer
/// back yields the payload exactly.
pub proof fn lemma_fio_string_round_trip<V: FioUnsigned>(payload: Seq<u8>, tail: Seq<u8>)
    requires
        payload.len() as nat <= V::spec_max(),
    ensures
        ({
            let buf = V::spec_fio_bytes(payload.len() as nat) + payload + tail;
            let w = V::spec_fio_width() as int;
            &&& buf.subrange(0, w) == V::spec_fio_bytes(payload.len() as nat)
            &&& V::spec_fio_value(buf.subrange(0, w)) == payload.len() as nat
            &&& buf.subrange(w, w + payload.len() as int) == payload
        }),
{
    V::lemma_fio_bytes_value(payload.len() as nat);
    let buf = V::spec_fio_bytes(payload.len() as nat) + payload + tail;
    let w = V::spec_fio_width() as int;
    assert(buf.subrange(0, w) =~= V::spec_fio_bytes(payload.len() as nat));
    assert(buf.subrange(w, w + payload.len() as int) =~= payload);
}

/// Framing round trip, VLQ length: the buffer the writer produces for a
/// payload begins with a readable VLQ quantity of exactly the encoded
/// width the writer spent, decoding back to the payload's byte count,
/// with the payload itself intact right behind it — for payloads of 128
/// bytes or more that width is two bytes or larger, and the payload
/// offset tracks it.
pub proof fn lemma_vlq_string_round_trip<V: FioUnsigned>(payload: Seq<u8>, tail: Seq<u8>)
    requires
        payload.len() as nat <= V::spec_max(),
    ensures
        ({
            let buf = vlq_enc(payload.len() as nat) + payload + tail;
            let w = vlq_len(payload.len() as nat) as int;
            &&& vlq_read_ok(buf, V::vlq_cap())
            &&& vlq_scan_len(buf, V::vlq_cap()) == vlq_len(payload.len() as nat)
            &&& vlq_scan_value(buf, V::vlq_cap()) % (V::spec_max() + 1) == payload.len() as nat
            &&& buf.subrange(w, w + payload.len() as int) == payload
        }),
{
    let len = payload.len() as nat;
    V::lemma_vlq_ceiling();
    lemma_vlq_len_le(len, V::vlq_cap());
    lemma_vlq_enc_len(len);
    let buf = vlq_enc(len) + payload + tail;
    let w = vlq_len(len) as int;
    assert(buf =~= vlq_enc(len) + (payload + tail));
    lemma_vlq_enc_round_trip(len, payload + tail, V::vlq_cap());
    lemma_small_mod(len, V::spec_max() + 1);
    assert(buf.subrange(w, w + payload.len() as int) =~= payload);
}

} // verus!
