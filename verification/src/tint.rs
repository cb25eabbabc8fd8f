use vstd::prelude::*;
use vstd::arithmetic::div_mod::{lemma_div_is_ordered, lemma_div_multiples_vanish};

verus! {

/// An 8-bit RGB color.
#[derive(Clone, Copy, PartialEq, Eq, Structural, Debug)]
pub struct Rgb {
    pub r: u8,
    pub g: u8,
    pub b: u8,
}

/// Red channel of the fully lit background, shown when no cell is captured.
pub const START_R: u8 = 0xF7;

/// Green channel of the fully lit background.
pub const START_G: u8 = 0xC5;

/// Blue channel of the fully lit background.
pub const START_B: u8 = 0x9F;

/// Red channel of the fully dark background, shown when every cell is captured.
pub const END_R: u8 = 0x2A;

/// Green channel of the fully dark background.
pub const END_G: u8 = 0x32;

/// Blue channel of the fully dark background.
pub const END_B: u8 = 0x4B;

/// Linear interpolation of one color channel at the capture ratio
/// `captured / total`, truncated to a whole channel value: the convex
/// combination `(a * (total - captured) + b * captured) / total`, rounded
/// down.
pub open spec fn spec_lerp_channel(a: int, b: int, captured: int, total: int) -> int
    recommends
        0 <= captured <= total,
        0 < total,
{
    (a * (total - captured) + b * captured) / total
}

/// Interpolates one 8-bit channel between `a` (ratio zero) and `b`
/// (ratio one) at the ratio `captured / total`, truncating.
pub fn lerp_channel(a: u8, b: u8, captured: u32, total: u32) -> (r: u8)
    requires
        0 < total,
        captured <= total,
    ensures
        r == spec_lerp_channel(a as int, b as int, captured as int, total as int),
        r <= 255,
{
    let rest: u64 = (total - captured) as u64;
    proof {
        assert(a as u64 * rest <= 255 * 0x1_0000_0000u64 && a as u64 * rest >= 0)
            by (nonlinear_arith)
            requires
                0 <= a as u64 <= 255,
                0 <= rest <= 0x1_0000_0000u64,
        ;
        assert(b as u64 * captured as u64 <= 255 * 0x1_0000_0000u64 && b as u64 * captured as u64
            >= 0) by (nonlinear_arith)
            requires
                0 <= b as u64 <= 255,
                0 <= captured as u64 <= 0x1_0000_0000u64,
        ;
    }
    let numerator: u64 = a as u64 * rest + b as u64 * captured as u64;
    let q: u64 = numerator / total as u64;
    proof {
        lemma_lerp_channel_between(a as int, b as int, captured as int, total as int);
        assert(q == spec_lerp_channel(a as int, b as int, captured as int, total as int));
        assert(q <= 255);
    }
    q as u8
}

/// The truncated interpolation stays between the two endpoint channel
/// values: the background tint can never leave the band the two colors
/// span.
pub proof fn lemma_lerp_channel_between(a: int, b: int, captured: int, total: int)
    requires
        0 <= a,
        0 <= b,
        0 <= captured <= total,
        0 < total,
    ensures
        spec_lerp_channel(a, b, captured, total) >= if a <= b {
            a
        } else {
            b
        },
        spec_lerp_channel(a, b, captured, total) <= if a <= b {
            b
        } else {
            a
        },
{
    let lo = if a <= b {
        a
    } else {
        b
    };
    let hi = if a <= b {
        b
    } else {
        a
    };
    let numerator = a * (total - captured) + b * captured;
    assert(lo * total <= numerator <= hi * total) by (nonlinear_arith)
        requires
            0 <= captured <= total,
            0 <= lo <= a <= hi,
            lo <= b <= hi,
            numerator == a * (total - captured) + b * captured,
    ;
    lemma_div_is_ordered(lo * total, numerator, total);
    lemma_div_is_ordered(numerator, hi * total, total);
    lemma_div_multiples_vanish(lo, total);
    lemma_div_multiples_vanish(hi, total);
    assert(total * lo == lo * total) by (nonlinear_arith);
    assert(total * hi == hi * total) by (nonlinear_arith);
}

/// The background tint for a capture ratio of `captured / total`: each
/// channel interpolated from the lit start color toward the dark end
/// color, truncating.
pub fn tint(captured: u32, total: u32) -> (c: Rgb)
    requires
        0 < total,
        captured <= total,
    ensures
        c.r == spec_lerp_channel(START_R as int, END_R as int, captured as int, total as int),
        c.g == spec_lerp_channel(START_G as int, END_G as int, captured as int, total as int),
        c.b == spec_lerp_channel(START_B as int, END_B as int, captured as int, total as int),
{
    Rgb {
        r: lerp_channel(START_R, END_R, captured, total),
        g: lerp_channel(START_G, END_G, captured, total),
        b: lerp_channel(START_B, END_B, captured, total),
    }
}

} // verus!
