//! Fixed-width byte input/output.
//!
//! [`IO`] is the interface of the byte-buffer primitive and of the
//! fixed-width scalar codec.  The implementation on `[u8]` copies raw bytes
//! and is the foundation every other layer delegates to; the implementations
//! on the integer types transcode a scalar to and from its little-endian
//! byte image, assembled explicitly so the layout is the same on every host.
//!
//! The prefix `fio` is for fricgan-input-output, and is used to prevent
//! name collisions.

use vstd::bytes::*;
use vstd::prelude::*;
use vstd::slice::*;

verus! {

/// IO is a simple input/output that operates on bytes: a value is written
/// to, or read from, offset zero of a caller-supplied buffer, and the
/// number of bytes transferred is returned.
///
/// The caller guarantees sizing: both operations require at least
/// [`fio_width`](IO::fio_width) bytes in the peer buffer, and that
/// precondition is verified at every call site.
pub trait IO {
    /// The number of bytes one transcode of `self` moves.
    spec fn fio_width(&self) -> nat;

    /// The byte image `self` encodes to: exactly
    /// [`fio_width`](IO::fio_width) bytes.
    spec fn fio_bytes(&self) -> Seq<u8>;

    /// Holds when `self` is the value that decoding the bytes `s` yields.
    spec fn fio_decodes(&self, s: Seq<u8>) -> bool;

    /// The byte image is as wide as advertised, and decoding a value's own
    /// image yields that value back.
    proof fn lemma_fio_image(&self)
        ensures
            self.fio_bytes().len() == self.fio_width(),
            self.fio_decodes(self.fio_bytes()),
    ;

    /// Round trip: a value decoded from `self`'s byte image carries the
    /// same byte image, and hence the same width, as `self`.
    proof fn lemma_fio_round_trip(&self, decoded: &Self)
        requires
            decoded.fio_decodes(self.fio_bytes()),
        ensures
            decoded.fio_bytes() == self.fio_bytes(),
            decoded.fio_width() == self.fio_width(),
    ;

    /// Writes `self`'s byte image to offset zero of `sink`, leaving the
    /// bytes past the image untouched.
    ///
    /// The return value is always the number of bytes written.
    fn fio_write(&mut self, sink: &mut [u8]) -> (n: usize)
        requires
            old(self).fio_width() <= old(sink)@.len(),
        ensures
            n == old(self).fio_width(),
            final(self).fio_bytes() == old(self).fio_bytes(),
            final(self).fio_width() == old(self).fio_width(),
            final(sink)@ == old(self).fio_bytes() + old(sink)@.subrange(
                old(self).fio_width() as int,
                old(sink)@.len() as int,
            ),
    ;

    /// Reads `self` back from offset zero of `source`.
    ///
    /// The return value is always the number of bytes read.
    fn fio_read(&mut self, source: &[u8]) -> (n: usize)
        requires
            old(self).fio_width() <= source@.len(),
        ensures
            n == old(self).fio_width(),
            final(self).fio_width() == old(self).fio_width(),
            final(self).fio_decodes(source@.subrange(0, old(self).fio_width() as int)),
    ;
}

// The [u8] implementation is the byte-buffer primitive: a bounds-checked
// element-wise copy between offset zero of two buffers.  It centralises the
// sizing precondition the scalar codecs rely on.
impl IO for [u8] {
    open spec fn fio_width(&self) -> nat {
        self@.len()
    }

    open spec fn fio_bytes(&self) -> Seq<u8> {
        self@
    }

    open spec fn fio_decodes(&self, s: Seq<u8>) -> bool {
        self@ == s
    }

    proof fn lemma_fio_image(&self) {
    }

    proof fn lemma_fio_round_trip(&self, decoded: &Self) {
    }

    fn fio_write(&mut self, sink: &mut [u8]) -> (n: usize)
        ensures
            final(sink)@ == old(self)@ + old(sink)@.subrange(
                old(self)@.len() as int,
                old(sink)@.len() as int,
            ),
    {
        let w = self.len();
        let mut i: usize = 0;
        while i < w
            invariant
                i <= w,
                w == self@.len(),
                self@ == old(self)@,
                w <= sink@.len(),
                sink@.len() == old(sink)@.len(),
                forall|j: int| 0 <= j < i ==> sink@[j] == self@[j],
                forall|j: int| i <= j < sink@.len() ==> sink@[j] == old(sink)@[j],
            decreases w - i,
        {
            sink[i] = self[i];
            i += 1;
        }
        proof {
            assert(sink@ =~= old(self)@ + old(sink)@.subrange(
                w as int,
                old(sink)@.len() as int,
            ));
        }
        w
    }

    fn fio_read(&mut self, source: &[u8]) -> (n: usize)
        ensures
            final(self)@ == source@.subrange(0, old(self)@.len() as int),
    {
        let w = self.len();
        let mut i: usize = 0;
        while i < w
            invariant
                i <= w,
                w == self@.len(),
                w <= source@.len(),
                forall|j: int| 0 <= j < i ==> self@[j] == source@[j],
            decreases w - i,
        {
            let b = *slice_index_get(source, i);
            self[i] = b;
            i += 1;
        }
        proof {
            assert(self@ =~= source@.subrange(0, w as int));
        }
        w
    }
}

// 1-byte integers are a direct single-byte assignment rather than going
// through the buffer primitive.
impl IO for u8 {
    open spec fn fio_width(&self) -> nat {
        1
    }

    open spec fn fio_bytes(&self) -> Seq<u8> {
        seq![*self]
    }

    open spec fn fio_decodes(&self, s: Seq<u8>) -> bool {
        s.len() == 1 && *self == s[0]
    }

    proof fn lemma_fio_image(&self) {
    }

    proof fn lemma_fio_round_trip(&self, decoded: &Self) {
        assert(decoded.fio_bytes() =~= self.fio_bytes());
    }

    fn fio_write(&mut self, sink: &mut [u8]) -> (n: usize)
        ensures
            final(sink)@[0] == *old(self),
    {
        sink[0] = *self;
        proof {
            assert(sink@ =~= self.fio_bytes() + old(sink)@.subrange(
                1,
                old(sink)@.len() as int,
            ));
        }
        1
    }

    fn fio_read(&mut self, source: &[u8]) -> (n: usize)
        ensures
            *final(self) == source@[0],
    {
        *self = *slice_index_get(source, 0);
        1
    }
}

impl IO for i8 {
    open spec fn fio_width(&self) -> nat {
        1
    }

    open spec fn fio_bytes(&self) -> Seq<u8> {
        seq![*self as u8]
    }

    open spec fn fio_decodes(&self, s: Seq<u8>) -> bool {
        s.len() == 1 && *self == s[0] as i8
    }

    proof fn lemma_fio_image(&self) {
        let v = *self;
        assert((v as u8) as i8 == v) by (bit_vector);
    }

    proof fn lemma_fio_round_trip(&self, decoded: &Self) {
        let v = *self;
        assert((v as u8) as i8 == v) by (bit_vector);
        assert(decoded.fio_bytes() =~= self.fio_bytes());
    }

    fn fio_write(&mut self, sink: &mut [u8]) -> (n: usize)
        ensures
            final(sink)@[0] == *old(self) as u8,
    {
        sink[0] = *self as u8;
        proof {
            assert(sink@ =~= self.fio_bytes() + old(sink)@.subrange(
                1,
                old(sink)@.len() as int,
            ));
        }
        1
    }

    fn fio_read(&mut self, source: &[u8]) -> (n: usize)
        ensures
            *final(self) == source@[0] as i8,
    {
        *self = *slice_index_get(source, 0) as i8;
        1
    }
}

impl IO for u16 {
    open spec fn fio_width(&self) -> nat {
        2
    }

    open spec fn fio_bytes(&self) -> Seq<u8> {
        spec_u16_to_le_bytes(*self)
    }

    open spec fn fio_decodes(&self, s: Seq<u8>) -> bool {
        s.len() == 2 && *self == spec_u16_from_le_bytes(s)
    }

    proof fn lemma_fio_image(&self) {
        lemma_auto_spec_u16_to_from_le_bytes();
    }

    proof fn lemma_fio_round_trip(&self, decoded: &Self) {
        lemma_auto_spec_u16_to_from_le_bytes();
    }

    fn fio_write(&mut self, sink: &mut [u8]) -> (n: usize)
        ensures
            final(sink)@ == spec_u16_to_le_bytes(*old(self)) + old(sink)@.subrange(
                2,
                old(sink)@.len() as int,
            ),
    {
        let mut bytes = u16_to_le_bytes(*self);
        proof {
            lemma_auto_spec_u16_to_from_le_bytes();
        }
        bytes.as_mut_slice().fio_write(sink)
    }

    fn fio_read(&mut self, source: &[u8]) -> (n: usize)
        ensures
            *final(self) == spec_u16_from_le_bytes(source@.subrange(0, 2)),
    {
        *self = u16_from_le_bytes(slice_subrange(source, 0, 2));
        2
    }
}

impl IO for i16 {
    open spec fn fio_width(&self) -> nat {
        2
    }

    open spec fn fio_bytes(&self) -> Seq<u8> {
        spec_u16_to_le_bytes(*self as u16)
    }

    open spec fn fio_decodes(&self, s: Seq<u8>) -> bool {
        s.len() == 2 && *self == spec_u16_from_le_bytes(s) as i16
    }

    proof fn lemma_fio_image(&self) {
        lemma_auto_spec_u16_to_from_le_bytes();
        let v = *self;
        assert((v as u16) as i16 == v) by (bit_vector);
    }

    proof fn lemma_fio_round_trip(&self, decoded: &Self) {
        lemma_auto_spec_u16_to_from_le_bytes();
        let v = *self;
        assert((v as u16) as i16 == v) by (bit_vector);
    }

    fn fio_write(&mut self, sink: &mut [u8]) -> (n: usize)
        ensures
            final(sink)@ == spec_u16_to_le_bytes(*old(self) as u16) + old(sink)@.subrange(
                2,
                old(sink)@.len() as int,
            ),
    {
        let mut bytes = u16_to_le_bytes(*self as u16);
        proof {
            lemma_auto_spec_u16_to_from_le_bytes();
        }
        bytes.as_mut_slice().fio_write(sink)
    }

    fn fio_read(&mut self, source: &[u8]) -> (n: usize)
        ensures
            *final(self) == spec_u16_from_le_bytes(source@.subrange(0, 2)) as i16,
    {
        *self = u16_from_le_bytes(slice_subrange(source, 0, 2)) as i16;
        2
    }
}

impl IO for u32 {
    open spec fn fio_width(&self) -> nat {
        4
    }

    open spec fn fio_bytes(&self) -> Seq<u8> {
        spec_u32_to_le_bytes(*self)
    }

    open spec fn fio_decodes(&self, s: Seq<u8>) -> bool {
        s.len() == 4 && *self == spec_u32_from_le_bytes(s)
    }

    proof fn lemma_fio_image(&self) {
        lemma_auto_spec_u32_to_from_le_bytes();
    }

    proof fn lemma_fio_round_trip(&self, decoded: &Self) {
        lemma_auto_spec_u32_to_from_le_bytes();
    }

    fn fio_write(&mut self, sink: &mut [u8]) -> (n: usize)
        ensures
            final(sink)@ == spec_u32_to_le_bytes(*old(self)) + old(sink)@.subrange(
                4,
                old(sink)@.len() as int,
            ),
    {
        let mut bytes = u32_to_le_bytes(*self);
        proof {
            lemma_auto_spec_u32_to_from_le_bytes();
        }
        bytes.as_mut_slice().fio_write(sink)
    }

    fn fio_read(&mut self, source: &[u8]) -> (n: usize)
        ensures
            *final(self) == spec_u32_from_le_bytes(source@.subrange(0, 4)),
    {
        *self = u32_from_le_bytes(slice_subrange(source, 0, 4));
        4
    }
}

impl IO for i32 {
    open spec fn fio_width(&self) -> nat {
        4
    }

    open spec fn fio_bytes(&self) -> Seq<u8> {
        spec_u32_to_le_bytes(*self as u32)
    }

    open spec fn fio_decodes(&self, s: Seq<u8>) -> bool {
        s.len() == 4 && *self == spec_u32_from_le_bytes(s) as i32
    }

    proof fn lemma_fio_image(&self) {
        lemma_auto_spec_u32_to_from_le_bytes();
        let v = *self;
        assert((v as u32) as i32 == v) by (bit_vector);
    }

    proof fn lemma_fio_round_trip(&self, decoded: &Self) {
        lemma_auto_spec_u32_to_from_le_bytes();
        let v = *self;
        assert((v as u32) as i32 == v) by (bit_vector);
    }

    fn fio_write(&mut self, sink: &mut [u8]) -> (n: usize)
        ensures
            final(sink)@ == spec_u32_to_le_bytes(*old(self) as u32) + old(sink)@.subrange(
                4,
                old(sink)@.len() as int,
            ),
    {
        let mut bytes = u32_to_le_bytes(*self as u32);
        proof {
            lemma_auto_spec_u32_to_from_le_bytes();
        }
        bytes.as_mut_slice().fio_write(sink)
    }

    fn fio_read(&mut self, source: &[u8]) -> (n: usize)
        ensures
            *final(self) == spec_u32_from_le_bytes(source@.subrange(0, 4)) as i32,
    {
        *self = u32_from_le_bytes(slice_subrange(source, 0, 4)) as i32;
        4
    }
}

impl IO for u64 {
    open spec fn fio_width(&self) -> nat {
        8
    }

    open spec fn fio_bytes(&self) -> Seq<u8> {
        spec_u64_to_le_bytes(*self)
    }

    open spec fn fio_decodes(&self, s: Seq<u8>) -> bool {
        s.len() == 8 && *self == spec_u64_from_le_bytes(s)
    }

    proof fn lemma_fio_image(&self) {
        lemma_auto_spec_u64_to_from_le_bytes();
    }

    proof fn lemma_fio_round_trip(&self, decoded: &Self) {
        lemma_auto_spec_u64_to_from_le_bytes();
    }

    fn fio_write(&mut self, sink: &mut [u8]) -> (n: usize)
        ensures
            final(sink)@ == spec_u64_to_le_bytes(*old(self)) + old(sink)@.subrange(
                8,
                old(sink)@.len() as int,
            ),
    {
        let mut bytes = u64_to_le_bytes(*self);
        proof {
            lemma_auto_spec_u64_to_from_le_bytes();
        }
        bytes.as_mut_slice().fio_write(sink)
    }

    fn fio_read(&mut self, source: &[u8]) -> (n: usize)
        ensures
            *final(self) == spec_u64_from_le_bytes(source@.subrange(0, 8)),
    {
        *self = u64_from_le_bytes(slice_subrange(source, 0, 8));
        8
    }
}

impl IO for i64 {
    open spec fn fio_width(&self) -> nat {
        8
    }

    open spec fn fio_bytes(&self) -> Seq<u8> {
        spec_u64_to_le_bytes(*self as u64)
    }

    open spec fn fio_decodes(&self, s: Seq<u8>) -> bool {
        s.len() == 8 && *self == spec_u64_from_le_bytes(s) as i64
    }

    proof fn lemma_fio_image(&self) {
        lemma_auto_spec_u64_to_from_le_bytes();
        let v = *self;
        assert((v as u64) as i64 == v) by (bit_vector);
    }

    proof fn lemma_fio_round_trip(&self, decoded: &Self) {
        lemma_auto_spec_u64_to_from_le_bytes();
        let v = *self;
        assert((v as u64) as i64 == v) by (bit_vector);
    }

    fn fio_write(&mut self, sink: &mut [u8]) -> (n: usize)
        ensures
            final(sink)@ == spec_u64_to_le_bytes(*old(self) as u64) + old(sink)@.subrange(
                8,
                old(sink)@.len() as int,
            ),
    {
        let mut bytes = u64_to_le_bytes(*self as u64);
        proof {
            lemma_auto_spec_u64_to_from_le_bytes();
        }
        bytes.as_mut_slice().fio_write(sink)
    }

    fn fio_read(&mut self, source: &[u8]) -> (n: usize)
        ensures
            *final(self) == spec_u64_from_le_bytes(source@.subrange(0, 8)) as i64,
    {
        *self = u64_from_le_bytes(slice_subrange(source, 0, 8)) as i64;
        8
    }
}

/// Round trip at the value level: a `u8` decoded from the byte image of a
/// `u8` is that value.
pub proof fn lemma_u8_fio_value_round_trip(v: u8, decoded: u8)
    requires
        decoded.fio_decodes(v.fio_bytes()),
    ensures
        decoded == v,
{
}

/// Round trip at the value level for `i8`.
pub proof fn lemma_i8_fio_value_round_trip(v: i8, decoded: i8)
    requires
        decoded.fio_decodes(v.fio_bytes()),
    ensures
        decoded == v,
{
    assert((v as u8) as i8 == v) by (bit_vector);
}

/// Round trip at the value level for `u16`.
pub proof fn lemma_u16_fio_value_round_trip(v: u16, decoded: u16)
    requires
        decoded.fio_decodes(v.fio_bytes()),
    ensures
        decoded == v,
{
    lemma_auto_spec_u16_to_from_le_bytes();
}

/// Round trip at the value level for `i16`.
pub proof fn lemma_i16_fio_value_round_trip(v: i16, decoded: i16)
    requires
        decoded.fio_decodes(v.fio_bytes()),
    ensures
        decoded == v,
{
    lemma_auto_spec_u16_to_from_le_bytes();
    assert((v as u16) as i16 == v) by (bit_vector);
}

/// Round trip at the value level for `u32`.
pub proof fn lemma_u32_fio_value_round_trip(v: u32, decoded: u32)
    requires
        decoded.fio_decodes(v.fio_bytes()),
    ensures
        decoded == v,
{
    lemma_auto_spec_u32_to_from_le_bytes();
}

/// Round trip at the value level for `i32`.
pub proof fn lemma_i32_fio_value_round_trip(v: i32, decoded: i32)
    requires
        decoded.fio_decodes(v.fio_bytes()),
    ensures
        decoded == v,
{
    lemma_auto_spec_u32_to_from_le_bytes();
    assert((v as u32) as i32 == v) by (bit_vector);
}

/// Round trip at the value level for `u64`.
pub proof fn lemma_u64_fio_value_round_trip(v: u64, decoded: u64)
    requires
        decoded.fio_decodes(v.fio_bytes()),
    ensures
        decoded == v,
{
    lemma_auto_spec_u64_to_from_le_bytes();
}

/// Round trip at the value level for `i64`.
pub proof fn lemma_i64_fio_value_round_trip(v: i64, decoded: i64)
    requires
        decoded.fio_decodes(v.fio_bytes()),
    ensures
        decoded == v,
{
    lemma_auto_spec_u64_to_from_le_bytes();
    assert((v as u64) as i64 == v) by (bit_vector);
}

} // verus!
