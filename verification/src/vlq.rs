//! Variable Length Quantity (numeric only).
//!
//! A VLQ integer is one or more bytes, each carrying seven payload bits in
//! its low bits and a continuation flag in its high bit (set means more
//! bytes follow).  The encoder is canonical-minimal: it stops as soon as
//! the remaining magnitude fits in seven bits, so no value is ever written
//! with a redundant trailing byte.  The decoder stops at the first byte
//! whose continuation flag is clear, or once a fixed byte ceiling is
//! reached, which bounds its cost even on input that never terminates; it
//! accepts redundant continuation bytes below the ceiling rather than
//! rejecting them.

use vstd::arithmetic::div_mod::lemma_div_denominator;
use vstd::arithmetic::div_mod::lemma_div_is_ordered;
use vstd::arithmetic::div_mod::lemma_div_plus_one;
use vstd::arithmetic::div_mod::lemma_fundamental_div_mod;
use vstd::arithmetic::div_mod::lemma_small_mod;
use vstd::arithmetic::power2::lemma2_to64;
use vstd::arithmetic::power2::lemma_pow2_unfold;
use vstd::arithmetic::power2::pow2;
use vstd::prelude::*;
use vstd::slice::*;

verus! {

/// The canonical VLQ encoding of `v`: seven bits per byte, low bits first,
/// continuation flag on every byte but the last.
pub open spec fn vlq_enc(v: nat) -> Seq<u8>
    decreases v,
{
    if v < 128 {
        seq![v as u8]
    } else {
        seq![(v % 128 + 128) as u8] + vlq_enc(v / 128)
    }
}

/// The number of bytes in the canonical VLQ encoding of `v`.
pub open spec fn vlq_len(v: nat) -> nat
    decreases v,
{
    if v < 128 {
        1
    } else {
        1 + vlq_len(v / 128)
    }
}

/// Holds when `s` begins with a readable VLQ quantity for a decoder that
/// consumes at most `cap` bytes: a byte with a clear continuation flag, or
/// the ceiling itself, comes before `s` runs out.
pub open spec fn vlq_read_ok(s: Seq<u8>, cap: nat) -> bool
    decreases cap,
{
    s.len() >= 1 && (cap <= 1 || s[0] < 128 || vlq_read_ok(s.drop_first(), (cap - 1) as nat))
}

/// The number of bytes a decoder with byte ceiling `cap` consumes from `s`:
/// everything up to and including the first byte with a clear continuation
/// flag, but never more than `cap` bytes.
pub open spec fn vlq_scan_len(s: Seq<u8>, cap: nat) -> nat
    decreases cap,
{
    if s.len() == 0 || cap <= 1 || s[0] < 128 {
        1
    } else {
        1 + vlq_scan_len(s.drop_first(), (cap - 1) as nat)
    }
}

/// The quantity a decoder with byte ceiling `cap` accumulates from `s`:
/// the seven payload bits of each consumed byte, low bits first.
pub open spec fn vlq_scan_value(s: Seq<u8>, cap: nat) -> nat
    decreases cap,
{
    if s.len() == 0 {
        0
    } else if cap <= 1 || s[0] < 128 {
        (s[0] % 128) as nat
    } else {
        (s[0] % 128) as nat + 128 * vlq_scan_value(s.drop_first(), (cap - 1) as nat)
    }
}

/// `128^k`, the weight of the `k`-th VLQ payload group.
pub open spec fn pow128(k: nat) -> nat
    decreases k,
{
    if k == 0 {
        1
    } else {
        128 * pow128((k - 1) as nat)
    }
}

pub proof fn lemma_pow128_pos(k: nat)
    ensures
        pow128(k) >= 1,
    decreases k,
{
    if k > 0 {
        lemma_pow128_pos((k - 1) as nat);
    }
}

pub proof fn lemma_pow128_mono(a: nat, b: nat)
    requires
        a <= b,
    ensures
        pow128(a) <= pow128(b),
    decreases b,
{
    if a < b {
        lemma_pow128_mono(a, (b - 1) as nat);
        lemma_pow128_pos((b - 1) as nat);
    }
}

pub proof fn lemma_pow128_values()
    ensures
        pow128(5) == 0x8_0000_0000,
        pow128(10) == 0x40_0000_0000_0000_0000,
        pow128(11) == 0x2000_0000_0000_0000_0000,
{
    assert(pow128(0) == 1);
    assert(pow128(1) == 128);
    assert(pow128(2) == 0x4000);
    assert(pow128(3) == 0x20_0000);
    assert(pow128(4) == 0x1000_0000);
    assert(pow128(5) == 0x8_0000_0000);
    assert(pow128(6) == 0x400_0000_0000);
    assert(pow128(7) == 0x2_0000_0000_0000);
    assert(pow128(8) == 0x100_0000_0000_0000);
    assert(pow128(9) == 0x8000_0000_0000_0000);
    assert(pow128(10) == 0x40_0000_0000_0000_0000);
    assert(pow128(11) == 0x2000_0000_0000_0000_0000);
}

/// The canonical encoding is as long as [`vlq_len`] says.
pub proof fn lemma_vlq_enc_len(v: nat)
    ensures
        vlq_enc(v).len() == vlq_len(v),
    decreases v,
{
    if v >= 128 {
        lemma_vlq_enc_len(v / 128);
    }
}

/// Every value below `128^k` encodes in at most `k` bytes.
pub proof fn lemma_vlq_len_le(v: nat, k: nat)
    requires
        k >= 1,
        v < pow128(k),
    ensures
        vlq_len(v) <= k,
    decreases k,
{
    if v >= 128 {
        assert(pow128(k) == 128 * pow128((k - 1) as nat));
        assert(v / 128 < pow128((k - 1) as nat)) by (nonlinear_arith)
            requires
                v < 128 * pow128((k - 1) as nat),
        ;
        lemma_vlq_len_le(v / 128, (k - 1) as nat);
    }
}

/// Writes the canonical VLQ encoding of `v` at offset zero of `sink` and
/// returns the number of bytes written.
fn vlq_write_raw(v: u64, sink: &mut [u8]) -> (n: usize)
    requires
        vlq_len(v as nat) <= old(sink)@.len(),
    ensures
        n == vlq_len(v as nat),
        final(sink)@ == vlq_enc(v as nat) + old(sink)@.subrange(n as int, old(sink)@.len() as int),
{
    let ghost total: nat = v as nat;
    let mut remainder: u64 = v;
    let mut i: usize = 0;
    proof {
        assert(vlq_enc(total) =~= sink@.subrange(0, 0) + vlq_enc(total));
    }
    while remainder >= 128
        invariant
            sink@.len() == old(sink)@.len(),
            vlq_len(total) <= sink@.len(),
            i + vlq_len(remainder as nat) == vlq_len(total),
            vlq_enc(total) == sink@.subrange(0, i as int) + vlq_enc(remainder as nat),
            forall|j: int| i <= j < sink@.len() ==> sink@[j] == old(sink)@[j],
        decreases remainder,
    {
        let ghost pre = sink@;
        let ghost rem: nat = remainder as nat;
        let b: u8 = (remainder % 128) as u8 + 128;
        sink[i] = b;
        proof {
            assert(vlq_enc(rem) == seq![(rem % 128 + 128) as u8] + vlq_enc(rem / 128));
            assert(b == (rem % 128 + 128) as u8);
            assert(sink@.subrange(0, (i + 1) as int) =~= pre.subrange(0, i as int) + seq![b]);
            assert(vlq_enc(total) =~= sink@.subrange(0, (i + 1) as int) + vlq_enc(rem / 128));
        }
        remainder = remainder / 128;
        i += 1;
    }
    let b: u8 = remainder as u8;
    sink[i] = b;
    proof {
        assert(vlq_enc(remainder as nat) =~= seq![b]);
        assert(sink@ =~= vlq_enc(total) + old(sink)@.subrange(
            (i + 1) as int,
            old(sink)@.len() as int,
        ));
    }
    i + 1
}

/// Reads one VLQ quantity from offset zero of `source` with byte ceiling
/// `cap`, returning the number of bytes consumed and the accumulated
/// quantity, whose low bits the callers truncate to their own width.
fn vlq_read_raw(source: &[u8], cap: usize) -> (r: (usize, u128))
    requires
        1 <= cap <= 11,
        vlq_read_ok(source@, cap as nat),
    ensures
        r.0 == vlq_scan_len(source@, cap as nat),
        1 <= r.0 <= cap,
        r.0 <= source@.len(),
        r.1 as nat == vlq_scan_value(source@, cap as nat),
{
    let ghost s = source@;
    let ghost c = cap as nat;
    let mut acc: u128 = 0;
    let mut mul: u128 = 1;
    let mut i: usize = 0;
    proof {
        assert(s.skip(0) =~= s);
    }
    while i < cap
        invariant_except_break
            i <= cap,
            1 <= cap <= 11,
            s == source@,
            c == cap as nat,
            mul as nat == pow128(i as nat),
            acc < mul,
            i < cap ==> vlq_read_ok(s.skip(i as int), (c - i) as nat),
            i < cap ==> vlq_scan_len(s, c) == i + vlq_scan_len(s.skip(i as int), (c - i) as nat),
            i < cap ==> vlq_scan_value(s, c) == acc as nat + mul as nat * vlq_scan_value(
                s.skip(i as int),
                (c - i) as nat,
            ),
            i < cap ==> i < s.len(),
            i == cap ==> vlq_scan_len(s, c) == c && vlq_scan_value(s, c) == acc as nat,
            i <= s.len(),
        ensures
            1 <= i <= cap,
            i <= s.len(),
            vlq_scan_len(s, c) == i,
            vlq_scan_value(s, c) == acc as nat,
        decreases cap - i,
    {
        let ghost suffix = s.skip(i as int);
        let ghost rest: nat = (c - i) as nat;
        let b: u8 = *slice_index_get(source, i);
        proof {
            assert(suffix[0] == s[i as int]);
            assert(b & 127 == b % 128) by (bit_vector);
            assert((b & 128 == 0) <==> b < 128) by (bit_vector);
            lemma_pow128_values();
            lemma_pow128_mono(i as nat, 10);
            assert((b & 127) as nat * mul as nat <= 127 * mul as nat) by (nonlinear_arith)
                requires
                    (b & 127) as nat <= 127,
            ;
        }
        let ghost m: nat = mul as nat;
        let ghost p: nat = (b % 128) as nat;
        acc = acc + (b & 127) as u128 * mul;
        i = i + 1;
        if (b & 128) == 0 {
            proof {
                assert(vlq_scan_len(suffix, rest) == 1);
                assert(vlq_scan_value(suffix, rest) == p);
            }
            break;
        }
        proof {
            assert(suffix[0] >= 128);
            if i == cap {
                assert(rest == 1);
                assert(vlq_scan_len(suffix, rest) == 1);
                assert(vlq_scan_value(suffix, rest) == p);
            } else {
                assert(suffix.drop_first() =~= s.skip(i as int));
                let q = vlq_scan_value(s.skip(i as int), (c - i) as nat);
                assert(vlq_read_ok(s.skip(i as int), (c - i) as nat));
                assert(vlq_scan_len(suffix, rest) == 1 + vlq_scan_len(
                    s.skip(i as int),
                    (c - i) as nat,
                ));
                assert(vlq_scan_value(suffix, rest) == p + 128 * q);
                assert(m * (p + 128 * q) == m * p + (m * 128) * q) by (nonlinear_arith);
            }
            assert(pow128(i as nat) == 128 * pow128((i - 1) as nat));
        }
        mul = mul * 128;
    }
    (i, acc)
}

/// Round trip: a decoder whose ceiling admits the canonical encoding of
/// `v` consumes exactly that encoding from any buffer that begins with it,
/// whatever follows, and accumulates `v` back.
pub proof fn lemma_vlq_enc_round_trip(v: nat, tail: Seq<u8>, cap: nat)
    requires
        vlq_len(v) <= cap,
    ensures
        vlq_read_ok(vlq_enc(v) + tail, cap),
        vlq_scan_len(vlq_enc(v) + tail, cap) == vlq_len(v),
        vlq_scan_value(vlq_enc(v) + tail, cap) == v,
    decreases v,
{
    let s = vlq_enc(v) + tail;
    if v < 128 {
        assert(s[0] == v as u8);
    } else {
        assert(s[0] == (v % 128 + 128) as u8);
        assert(s[0] >= 128 && s[0] % 128 == v % 128);
        assert(s.drop_first() =~= vlq_enc(v / 128) + tail);
        lemma_vlq_enc_round_trip(v / 128, tail, (cap - 1) as nat);
        lemma_fundamental_div_mod(v as int, 128);
    }
}

/// The number of bits needed to hold `v`: the index of its highest set
/// bit, plus one; zero for zero.
pub open spec fn bits_used(v: nat) -> nat
    decreases v,
{
    if v == 0 {
        0
    } else {
        1 + bits_used(v / 2)
    }
}

proof fn lemma_bits_used_le(v: nat, k: nat)
    requires
        v < pow2(k),
    ensures
        bits_used(v) <= k,
    decreases k,
{
    if v > 0 {
        lemma2_to64();
        assert(k > 0) by {
            if k == 0 {
                assert(pow2(0) == 1);
            }
        }
        lemma_pow2_unfold(k);
        let q = pow2((k - 1) as nat);
        assert(v / 2 < q) by (nonlinear_arith)
            requires
                v < 2 * q,
                q >= 0,
        ;
        lemma_bits_used_le(v / 2, (k - 1) as nat);
    }
}

proof fn lemma_bits_used_ge(v: nat, k: nat)
    requires
        v >= pow2(k),
    ensures
        bits_used(v) >= k + 1,
    decreases k,
{
    vstd::arithmetic::power2::lemma_pow2_pos(k);
    if k > 0 {
        lemma_pow2_unfold(k);
        let q = pow2((k - 1) as nat);
        assert(v / 2 >= q) by (nonlinear_arith)
            requires
                v >= 2 * q,
                q >= 0,
        ;
        vstd::arithmetic::power2::lemma_pow2_pos((k - 1) as nat);
        lemma_bits_used_ge(v / 2, (k - 1) as nat);
    }
}

/// Dividing by 128 peels exactly seven bits off.
proof fn lemma_bits_used_step(v: nat)
    requires
        v >= 128,
    ensures
        bits_used(v) == 7 + bits_used(v / 128),
{
    lemma_div_is_ordered(128, v as int, 2);
    lemma_div_denominator(v as int, 2, 2);
    lemma_div_is_ordered(128, v as int, 4);
    lemma_div_denominator(v as int, 4, 2);
    lemma_div_is_ordered(128, v as int, 8);
    lemma_div_denominator(v as int, 8, 2);
    lemma_div_is_ordered(128, v as int, 16);
    lemma_div_denominator(v as int, 16, 2);
    lemma_div_is_ordered(128, v as int, 32);
    lemma_div_denominator(v as int, 32, 2);
    lemma_div_is_ordered(128, v as int, 64);
    lemma_div_denominator(v as int, 64, 2);
    assert(bits_used(v) == 1 + bits_used(v / 2));
    assert(bits_used(v / 2) == 1 + bits_used(v / 4));
    assert(bits_used(v / 4) == 1 + bits_used(v / 8));
    assert(bits_used(v / 8) == 1 + bits_used(v / 16));
    assert(bits_used(v / 16) == 1 + bits_used(v / 32));
    assert(bits_used(v / 32) == 1 + bits_used(v / 64));
    assert(bits_used(v / 64) == 1 + bits_used(v / 128));
}

/// Canonical minimality: the encoding of `v` holds exactly
/// `max(1, ceil(bits_used(v) / 7))` bytes, so no byte is ever spent that
/// contributes no needed payload bits.
pub proof fn lemma_vlq_minimal(v: nat)
    ensures
        vlq_len(v) as int == vstd::math::max(1, ((bits_used(v) + 6) / 7) as int),
    decreases v,
{
    lemma2_to64();
    if v < 128 {
        if v > 0 {
            lemma_bits_used_le(v, 7);
            lemma_bits_used_ge(v, 0);
            let b = bits_used(v);
            assert((b + 6) / 7 == 1) by {
                lemma_div_is_ordered(7, (b + 6) as int, 7);
                lemma_div_is_ordered((b + 6) as int, 13, 7);
            }
        }
    } else {
        lemma_vlq_minimal(v / 128);
        lemma_bits_used_step(v);
        let b = bits_used(v / 128);
        assert(b >= 1) by {
            lemma_div_is_ordered(128, v as int, 128);
            lemma_bits_used_ge(v / 128, 0);
        }
        assert((b + 6) / 7 >= 1) by {
            lemma_div_is_ordered(7, (b + 6) as int, 7);
        }
        assert((b + 13) / 7 == 1 + (b + 6) / 7) by {
            lemma_div_plus_one((b + 6) as int, 7);
        }
    }
}

/// VLQ is Variable Length Quantity, which, in this context, provides
/// vlq read/write of the underlying value at offset zero of a
/// caller-supplied buffer.
pub trait VLQ {
    /// The canonical encoding of `self`, as [`vlq_write`](VLQ::vlq_write)
    /// emits it.
    spec fn vlq_bytes(&self) -> Seq<u8>;

    /// The byte ceiling of [`vlq_read`](VLQ::vlq_read): the decoder never
    /// consumes more bytes than this, however the input continues.
    spec fn vlq_cap() -> nat;

    /// Holds when `self` is the quantity that decoding the buffer `s`
    /// yields: the accumulated payload bits, truncated to `Self`'s width.
    spec fn vlq_decodes(&self, s: Seq<u8>) -> bool;

    /// A value's encoding is never empty and never beyond the ceiling.
    proof fn lemma_vlq_image(&self)
        ensures
            1 <= self.vlq_bytes().len() <= Self::vlq_cap(),
    ;

    /// Round trip: decoding a buffer that begins with `self`'s encoding
    /// yields `self` back, and consumes exactly the encoding, whatever
    /// follows it.
    proof fn lemma_vlq_round_trip(&self, decoded: &Self, tail: Seq<u8>)
        requires
            decoded.vlq_decodes(self.vlq_bytes() + tail),
        ensures
            decoded == self,
            vlq_read_ok(self.vlq_bytes() + tail, Self::vlq_cap()),
            vlq_scan_len(self.vlq_bytes() + tail, Self::vlq_cap()) == self.vlq_bytes().len(),
    ;

    /// Writes bytes to a byte buffer.
    /// This shall write to offset zero (`0`).
    ///
    /// The return value shall always be the number of bytes written.
    fn vlq_write(&self, sink: &mut [u8]) -> (n: usize)
        requires
            self.vlq_bytes().len() <= old(sink)@.len(),
        ensures
            n == self.vlq_bytes().len(),
            final(sink)@ == self.vlq_bytes() + old(sink)@.subrange(
                n as int,
                old(sink)@.len() as int,
            ),
    ;

    /// Reads bytes from a byte buffer.
    ///
    /// This shall read from offset zero (`0`).
    ///
    /// The return value shall always be the number of bytes read.
    fn vlq_read(&mut self, source: &[u8]) -> (n: usize)
        requires
            vlq_read_ok(source@, Self::vlq_cap()),
        ensures
            n == vlq_scan_len(source@, Self::vlq_cap()),
            1 <= n <= Self::vlq_cap(),
            n <= source@.len(),
            final(self).vlq_decodes(source@),
    ;
}

impl VLQ for u32 {
    open spec fn vlq_bytes(&self) -> Seq<u8> {
        vlq_enc(*self as nat)
    }

    open spec fn vlq_cap() -> nat {
        5
    }

    open spec fn vlq_decodes(&self, s: Seq<u8>) -> bool {
        *self as nat == vlq_scan_value(s, 5) % 0x1_0000_0000
    }

    proof fn lemma_vlq_image(&self) {
        lemma_vlq_enc_len(*self as nat);
        lemma_pow128_values();
        lemma_vlq_len_le(*self as nat, 5);
    }

    proof fn lemma_vlq_round_trip(&self, decoded: &Self, tail: Seq<u8>) {
        let v = *self as nat;
        lemma_pow128_values();
        lemma_vlq_len_le(v, 5);
        lemma_vlq_enc_len(v);
        lemma_vlq_enc_round_trip(v, tail, 5);
        lemma_small_mod(v, 0x1_0000_0000);
    }

    fn vlq_write(&self, sink: &mut [u8]) -> (n: usize)
        ensures
            n == vlq_len(*self as nat),
            final(sink)@ == vlq_enc(*self as nat) + old(sink)@.subrange(
                n as int,
                old(sink)@.len() as int,
            ),
    {
        proof {
            lemma_vlq_enc_len(*self as nat);
        }
        vlq_write_raw(*self as u64, sink)
    }

    fn vlq_read(&mut self, source: &[u8]) -> (n: usize)
        ensures
            *final(self) as nat == vlq_scan_value(source@, 5) % 0x1_0000_0000,
    {
        let r = vlq_read_raw(source, 5);
        *self = (r.1 % 0x1_0000_0000) as u32;
        r.0
    }
}

impl VLQ for u64 {
    open spec fn vlq_bytes(&self) -> Seq<u8> {
        vlq_enc(*self as nat)
    }

    open spec fn vlq_cap() -> nat {
        11
    }

    open spec fn vlq_decodes(&self, s: Seq<u8>) -> bool {
        *self as nat == vlq_scan_value(s, 11) % 0x1_0000_0000_0000_0000
    }

    proof fn lemma_vlq_image(&self) {
        lemma_vlq_enc_len(*self as nat);
        lemma_pow128_values();
        lemma_vlq_len_le(*self as nat, 10);
    }

    proof fn lemma_vlq_round_trip(&self, decoded: &Self, tail: Seq<u8>) {
        let v = *self as nat;
        lemma_pow128_values();
        lemma_vlq_len_le(v, 10);
        lemma_vlq_enc_len(v);
        lemma_vlq_enc_round_trip(v, tail, 11);
        lemma_small_mod(v, 0x1_0000_0000_0000_0000);
    }

    fn vlq_write(&self, sink: &mut [u8]) -> (n: usize)
        ensures
            n == vlq_len(*self as nat),
            final(sink)@ == vlq_enc(*self as nat) + old(sink)@.subrange(
                n as int,
                old(sink)@.len() as int,
            ),
    {
        proof {
            lemma_vlq_enc_len(*self as nat);
        }
        vlq_write_raw(*self, sink)
    }

    fn vlq_read(&mut self, source: &[u8]) -> (n: usize)
        ensures
            *final(self) as nat == vlq_scan_value(source@, 11) % 0x1_0000_0000_0000_0000,
    {
        let r = vlq_read_raw(source, 11);
        *self = (r.1 % 0x1_0000_0000_0000_0000) as u64;
        r.0
    }
}

} // verus!
