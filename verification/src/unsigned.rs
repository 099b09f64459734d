//! Unsigned length values.
//!
//! The framing layer prefixes a payload with its byte count, encoded
//! through a caller-chosen unsigned integer type.  [`FioUnsigned`] is what
//! that choice must offer: conversions to and from `usize`, and the link
//! between a value's numeric meaning and its two byte encodings, the
//! fixed-width image of the [`IO`] codec and the canonical image of the
//! [`VLQ`] codec.  `u32` and `u64`, which carry both codecs, are the two
//! length types this library admits.

use crate::io::IO;
use crate::vlq::VLQ;
use crate::vlq::pow128;
use crate::vlq::vlq_enc;
use crate::vlq::vlq_scan_value;
use vstd::bytes::*;
use vstd::prelude::*;

verus! {

/// An unsigned integer type fit to carry a length field.
pub trait FioUnsigned: IO + VLQ + Copy + Sized {
    /// The numeric value of `self`.
    spec fn spec_value(&self) -> nat;

    /// The largest value `Self` holds.
    spec fn spec_max() -> nat;

    /// The fixed-width byte image of the value `n`.
    spec fn spec_fio_bytes(n: nat) -> Seq<u8>;

    /// The value a fixed-width byte image `s` decodes to.
    spec fn spec_fio_value(s: Seq<u8>) -> nat;

    /// The width of every fixed-width image of `Self`.
    spec fn spec_fio_width() -> nat;

    /// A value's byte encodings are those of its numeric value.
    proof fn lemma_fio_unsigned(&self)
        ensures
            self.spec_value() <= Self::spec_max(),
            self.fio_bytes() == Self::spec_fio_bytes(self.spec_value()),
            self.fio_width() == Self::spec_fio_width(),
            self.vlq_bytes() == vlq_enc(self.spec_value()),
    ;

    /// Every admissible value encodes, as a VLQ quantity, within the
    /// decoder's byte ceiling.
    proof fn lemma_vlq_ceiling()
        ensures
            1 <= Self::vlq_cap(),
            Self::spec_max() < pow128(Self::vlq_cap()),
    ;

    /// Fixed-width encode then decode is the identity on values.
    proof fn lemma_fio_bytes_value(n: nat)
        requires
            n <= Self::spec_max(),
        ensures
            Self::spec_fio_bytes(n).len() == Self::spec_fio_width(),
            Self::spec_fio_value(Self::spec_fio_bytes(n)) == n,
    ;

    /// What a value decoded from a fixed-width image means numerically.
    proof fn lemma_fio_decode_value(&self, s: Seq<u8>)
        requires
            self.fio_decodes(s),
        ensures
            self.spec_value() == Self::spec_fio_value(s),
            Self::spec_fio_value(s) <= Self::spec_max(),
    ;

    /// What a value decoded from a VLQ quantity means numerically: the
    /// accumulated payload bits, reduced to `Self`'s range.
    proof fn lemma_vlq_decode_value(&self, s: Seq<u8>)
        requires
            self.vlq_decodes(s),
        ensures
            self.spec_value() == vlq_scan_value(s, Self::vlq_cap()) % (Self::spec_max() + 1),
    ;

    /// Converts a length to `Self`.
    fn from_usize(n: usize) -> (v: Self)
        requires
            n as nat <= Self::spec_max(),
        ensures
            v.spec_value() == n as nat,
    ;

    /// Converts `self` back to a length.
    fn to_usize(&self) -> (n: usize)
        requires
            self.spec_value() <= usize::MAX as nat,
        ensures
            n as nat == self.spec_value(),
    ;
}

impl FioUnsigned for u32 {
    open spec fn spec_value(&self) -> nat {
        *self as nat
    }

    open spec fn spec_max() -> nat {
        u32::MAX as nat
    }

    open spec fn spec_fio_bytes(n: nat) -> Seq<u8> {
        spec_u32_to_le_bytes(n as u32)
    }

    open spec fn spec_fio_value(s: Seq<u8>) -> nat {
        spec_u32_from_le_bytes(s) as nat
    }

    open spec fn spec_fio_width() -> nat {
        4
    }

    proof fn lemma_fio_unsigned(&self) {
    }

    proof fn lemma_vlq_ceiling() {
        crate::vlq::lemma_pow128_values();
    }

    proof fn lemma_fio_bytes_value(n: nat) {
        lemma_auto_spec_u32_to_from_le_bytes();
        assert(spec_u32_to_le_bytes(n as u32).len() == 4);
        assert(spec_u32_from_le_bytes(spec_u32_to_le_bytes(n as u32)) == n as u32);
        assert((n as u32) as nat == n);
    }

    proof fn lemma_fio_decode_value(&self, s: Seq<u8>) {
    }

    proof fn lemma_vlq_decode_value(&self, s: Seq<u8>) {
    }

    fn from_usize(n: usize) -> (v: Self) {
        n as u32
    }

    fn to_usize(&self) -> (n: usize) {
        *self as usize
    }
}

impl FioUnsigned for u64 {
    open spec fn spec_value(&self) -> nat {
        *self as nat
    }

    open spec fn spec_max() -> nat {
        u64::MAX as nat
    }

    open spec fn spec_fio_bytes(n: nat) -> Seq<u8> {
        spec_u64_to_le_bytes(n as u64)
    }

    open spec fn spec_fio_value(s: Seq<u8>) -> nat {
        spec_u64_from_le_bytes(s) as nat
    }

    open spec fn spec_fio_width() -> nat {
        8
    }

    proof fn lemma_fio_unsigned(&self) {
    }

    proof fn lemma_vlq_ceiling() {
        crate::vlq::lemma_pow128_values();
    }

    proof fn lemma_fio_bytes_value(n: nat) {
        lemma_auto_spec_u64_to_from_le_bytes();
        assert(spec_u64_to_le_bytes(n as u64).len() == 8);
        assert(spec_u64_from_le_bytes(spec_u64_to_le_bytes(n as u64)) == n as u64);
        assert((n as u64) as nat == n);
    }

    proof fn lemma_fio_decode_value(&self, s: Seq<u8>) {
    }

    proof fn lemma_vlq_decode_value(&self, s: Seq<u8>) {
    }

    fn from_usize(n: usize) -> (v: Self) {
        n as u64
    }

    fn to_usize(&self) -> (n: usize) {
        *self as usize
    }
}

} // verus!
