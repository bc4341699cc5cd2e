//! Shift-and-mask arithmetic on a 64-bit container.
//!
//! A slot occupies the bit range `[offset, offset + width)`, bit 0 being the
//! least significant. Every fact about such ranges that the codec proofs need
//! is stated here once.
use vstd::prelude::*;

verus! {

/// The integer whose lowest `width` bits are set and no others.
pub open spec fn low_mask(width: u64) -> u64 {
    if width >= 64 {
        0xffff_ffff_ffff_ffffu64
    } else {
        ((1u64 << width) - 1) as u64
    }
}

/// The content of the bit range `[offset, offset + width)` of `raw`.
pub open spec fn extract(raw: u64, offset: u64, width: u64) -> u64 {
    if width == 0 || offset >= 64 {
        0
    } else {
        (raw >> offset) & low_mask(width)
    }
}

/// `value`, cut to `width` bits and moved to bit `offset`.
pub open spec fn place(value: u64, offset: u64, width: u64) -> u64 {
    if width == 0 || offset >= 64 {
        0
    } else {
        (value & low_mask(width)) << offset
    }
}

/// Whether `raw` has no bit set at position `top` or above.
pub open spec fn below(raw: u64, top: u64) -> bool {
    top >= 64 || raw >> top == 0
}

/// Computes [`low_mask`].
pub fn mask_of(width: u64) -> (m: u64)
    ensures
        m == low_mask(width),
{
    if width >= 64 {
        0xffff_ffff_ffff_ffffu64
    } else {
        let one: u64 = 1;
        assert((1u64 << width) >= 1) by (bit_vector)
            requires
                width < 64,
        ;
        (one << width) - 1
    }
}

/// Computes [`extract`].
pub fn extract_bits(raw: u64, offset: u64, width: u64) -> (v: u64)
    ensures
        v == extract(raw, offset, width),
{
    if width == 0 || offset >= 64 {
        0
    } else {
        (raw >> offset) & mask_of(width)
    }
}

/// Computes [`place`].
pub fn place_bits(value: u64, offset: u64, width: u64) -> (v: u64)
    ensures
        v == place(value, offset, width),
{
    if width == 0 || offset >= 64 {
        0
    } else {
        (value & mask_of(width)) << offset
    }
}

/// Writing a slot directly above everything written so far: the slot reads back
/// as written, and nothing reaches beyond its upper end.
pub proof fn lemma_place_on_top(acc: u64, value: u64, offset: u64, width: u64)
    requires
        offset + width <= 64,
        below(acc, offset),
    ensures
        extract(acc | place(value, offset, width), offset, width) == value & low_mask(width),
        below(acc | place(value, offset, width), (offset + width) as u64),
{
    let m = low_mask(width);
    if width == 0 {
        assert(acc | 0 == acc) by (bit_vector);
        assert(m == 0) by (bit_vector)
            requires
                m == ((1u64 << 0u64) - 1) as u64,
        ;
        assert(value & 0 == 0) by (bit_vector);
    } else if width >= 64 {
        assert(acc == 0) by (bit_vector)
            requires
                acc >> 0u64 == 0,
        ;
        assert(((0u64 | ((value & m) << 0u64)) >> 0u64) & m == value & m) by (bit_vector);
    } else {
        let top = (offset + width) as u64;
        assert(((acc | ((value & m) << offset)) >> offset) & m == value & m) by (bit_vector)
            requires
                width < 64,
                offset + width <= 64,
                acc >> offset == 0,
                m == ((1u64 << width) - 1) as u64,
        ;
        assert(top < 64 ==> (acc | ((value & m) << offset)) >> top == 0) by (bit_vector)
            requires
                width < 64,
                offset < 64,
                top == offset + width,
                acc >> offset == 0,
                m == ((1u64 << width) - 1) as u64,
        ;
    }
}

/// Writing a slot above `[offset, offset + width)` leaves that range as it was.
pub proof fn lemma_place_above(acc: u64, value: u64, at: u64, span: u64, offset: u64, width: u64)
    requires
        offset + width <= at,
        at + span <= 64,
    ensures
        extract(acc | place(value, at, span), offset, width) == extract(acc, offset, width),
{
    let m = low_mask(width);
    let n = low_mask(span);
    if span == 0 || at >= 64 {
        assert(acc | 0 == acc) by (bit_vector);
    } else if width == 0 || offset >= 64 {
    } else {
        assert(((acc | ((value & n) << at)) >> offset) & m == (acc >> offset) & m) by (bit_vector)
            requires
                offset + width <= at,
                at < 64,
                0 < width < 64,
                m == ((1u64 << width) - 1) as u64,
        ;
    }
}

/// A container with nothing above `top` reads as zero in any range from `top`
/// up.
pub proof fn lemma_extract_above(acc: u64, top: u64, offset: u64, width: u64)
    requires
        below(acc, top),
        top <= offset,
    ensures
        extract(acc, offset, width) == 0,
{
    if width == 0 || offset >= 64 {
    } else {
        let m = low_mask(width);
        assert((acc >> offset) & m == 0) by (bit_vector)
            requires
                top <= offset,
                offset < 64,
                acc >> top == 0,
        ;
    }
}

/// A container with nothing at or above `top` has nothing at or above any
/// higher position.
pub proof fn lemma_below_widens(raw: u64, top: u64, higher: u64)
    requires
        below(raw, top),
        top <= higher,
    ensures
        below(raw, higher),
{
    if higher < 64 {
        assert(raw >> higher == 0) by (bit_vector)
            requires
                raw >> top == 0,
                top <= higher,
                higher < 64,
        ;
    }
}

/// An integer that fits in `width` bits is not changed by cutting it to `width`
/// bits.
pub proof fn lemma_mask_keeps_small(x: u64, width: u64)
    requires
        x <= low_mask(width),
    ensures
        x & low_mask(width) == x,
{
    let m = low_mask(width);
    if width >= 64 {
        assert(x & 0xffff_ffff_ffff_ffffu64 == x) by (bit_vector);
    } else {
        assert(x & m == x) by (bit_vector)
            requires
                width < 64,
                m == ((1u64 << width) - 1) as u64,
                x <= m,
        ;
    }
}

/// The masks of the slot widths up to a byte.
pub proof fn lemma_low_mask_values()
    ensures
        low_mask(0) == 0,
        low_mask(1) == 1,
        low_mask(2) == 3,
        low_mask(3) == 7,
        low_mask(4) == 15,
        low_mask(5) == 31,
        low_mask(6) == 63,
        low_mask(7) == 127,
        low_mask(8) == 255,
{
    assert(((1u64 << 0u64) - 1) as u64 == 0) by (bit_vector);
    assert(((1u64 << 1u64) - 1) as u64 == 1) by (bit_vector);
    assert(((1u64 << 2u64) - 1) as u64 == 3) by (bit_vector);
    assert(((1u64 << 3u64) - 1) as u64 == 7) by (bit_vector);
    assert(((1u64 << 4u64) - 1) as u64 == 15) by (bit_vector);
    assert(((1u64 << 5u64) - 1) as u64 == 31) by (bit_vector);
    assert(((1u64 << 6u64) - 1) as u64 == 63) by (bit_vector);
    assert(((1u64 << 7u64) - 1) as u64 == 127) by (bit_vector);
    assert(((1u64 << 8u64) - 1) as u64 == 255) by (bit_vector);
}

} // verus!
