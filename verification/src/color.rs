//! RGBA colors with fixed-point channels: `FP_ONE` is full intensity,
//! `0` is none. An all-zero color (zero alpha) marks "no tint" on a vertex.

use vstd::prelude::*;

verus! {

use crate::fixed::{FP_ONE, fp_mul, lemma_fp_mul_le, spec_fp_mul};

/// Fixed-point products do not depend on factor order.
proof fn lemma_fp_mul_comm_all(k: int, r: int, g: int, b: int, a: int)
    ensures
        spec_fp_mul(k, r) == spec_fp_mul(r, k),
        spec_fp_mul(k, g) == spec_fp_mul(g, k),
        spec_fp_mul(k, b) == spec_fp_mul(b, k),
        spec_fp_mul(k, a) == spec_fp_mul(a, k),
{
}

/// The largest channel value a color operation accepts; far above full
/// intensity, so over-bright intermediate colors still work.
pub const MAX_CHANNEL: i64 = 16777216;

#[derive(Debug, Clone, Copy, PartialEq, Eq, Structural)]
pub struct Color {
    pub r: i64,
    pub g: i64,
    pub b: i64,
    pub a: i64,
}

impl Color {
    pub fn black() -> (c: Color)
        ensures
            c == (Color { r: 0, g: 0, b: 0, a: FP_ONE }),
    {
        Color { r: 0, g: 0, b: 0, a: FP_ONE }
    }

    pub fn gray_half() -> (c: Color)
        ensures
            c == (Color { r: 2048, g: 2048, b: 2048, a: FP_ONE }),
    {
        Color { r: 2048, g: 2048, b: 2048, a: FP_ONE }
    }

    pub fn white() -> (c: Color)
        ensures
            c == (Color { r: FP_ONE, g: FP_ONE, b: FP_ONE, a: FP_ONE }),
    {
        Color { r: FP_ONE, g: FP_ONE, b: FP_ONE, a: FP_ONE }
    }

    pub fn red() -> (c: Color)
        ensures
            c == (Color { r: FP_ONE, g: 0, b: 0, a: FP_ONE }),
    {
        Color { r: FP_ONE, g: 0, b: 0, a: FP_ONE }
    }

    pub fn green() -> (c: Color)
        ensures
            c == (Color { r: 0, g: FP_ONE, b: 0, a: FP_ONE }),
    {
        Color { r: 0, g: FP_ONE, b: 0, a: FP_ONE }
    }

    pub fn blue() -> (c: Color)
        ensures
            c == (Color { r: 0, g: 0, b: FP_ONE, a: FP_ONE }),
    {
        Color { r: 0, g: 0, b: FP_ONE, a: FP_ONE }
    }

    pub fn yellow() -> (c: Color)
        ensures
            c == (Color { r: FP_ONE, g: FP_ONE, b: 0, a: FP_ONE }),
    {
        Color { r: FP_ONE, g: FP_ONE, b: 0, a: FP_ONE }
    }

    pub fn orange() -> (c: Color)
        ensures
            c == (Color { r: 3809, g: 1802, b: 328, a: FP_ONE }),
    {
        Color { r: 3809, g: 1802, b: 328, a: FP_ONE }
    }

    pub fn prussian_blue() -> (c: Color)
        ensures
            c == (Color { r: 0, g: 778, b: 1475, a: FP_ONE }),
    {
        Color { r: 0, g: 778, b: 1475, a: FP_ONE }
    }

    /// The all-zero color: zero alpha, meaning "no tint".
    pub fn zeros() -> (c: Color)
        ensures
            c == (Color { r: 0, g: 0, b: 0, a: 0 }),
    {
        Color { r: 0, g: 0, b: 0, a: 0 }
    }

    /// Every channel within the magnitude colors are allowed to reach.
    pub open spec fn in_range(self) -> bool {
        &&& -MAX_CHANNEL <= self.r <= MAX_CHANNEL
        &&& -MAX_CHANNEL <= self.g <= MAX_CHANNEL
        &&& -MAX_CHANNEL <= self.b <= MAX_CHANNEL
        &&& -MAX_CHANNEL <= self.a <= MAX_CHANNEL
    }

    pub fn new(r: i64, g: i64, b: i64, a: i64) -> (c: Color)
        ensures
            c == (Color { r, g, b, a }),
    {
        Color { r, g, b, a }
    }

    pub fn as_arr(&self) -> (arr: [i64; 4])
        ensures
            arr@ == seq![self.r, self.g, self.b, self.a],
    {
        let arr = [self.r, self.g, self.b, self.a];
        proof {
            assert(arr@ =~= seq![self.r, self.g, self.b, self.a]);
        }
        arr
    }

    pub fn gray(c: i64, a: i64) -> (col: Color)
        ensures
            col == (Color { r: c, g: c, b: c, a }),
    {
        Color { r: c, g: c, b: c, a }
    }

    pub fn with_alpha(&self, a: i64) -> (c: Color)
        ensures
            c == (Color { a, ..*self }),
    {
        Color { r: self.r, g: self.g, b: self.b, a }
    }

    /// Blend toward `other`: weight `k` (fixed-point, `FP_ONE` is all
    /// this color) of each of this color's channels plus weight
    /// `FP_ONE - k` of the other's, each product truncated.
    pub fn lerp(&self, k: i64, other: Color) -> (col: Color)
        requires
            0 <= k <= FP_ONE,
            self.in_range(),
            other.in_range(),
        ensures
            col.r == spec_fp_mul(k as int, self.r as int) + spec_fp_mul(
                FP_ONE - k,
                other.r as int,
            ),
            col.g == spec_fp_mul(k as int, self.g as int) + spec_fp_mul(
                FP_ONE - k,
                other.g as int,
            ),
            col.b == spec_fp_mul(k as int, self.b as int) + spec_fp_mul(
                FP_ONE - k,
                other.b as int,
            ),
            col.a == spec_fp_mul(k as int, self.a as int) + spec_fp_mul(
                FP_ONE - k,
                other.a as int,
            ),
    {
        proof {
            lemma_fp_mul_le(self.r as int, k as int);
            lemma_fp_mul_le(self.g as int, k as int);
            lemma_fp_mul_le(self.b as int, k as int);
            lemma_fp_mul_le(self.a as int, k as int);
            lemma_fp_mul_le(other.r as int, FP_ONE - k);
            lemma_fp_mul_le(other.g as int, FP_ONE - k);
            lemma_fp_mul_le(other.b as int, FP_ONE - k);
            lemma_fp_mul_le(other.a as int, FP_ONE - k);
            lemma_fp_mul_comm_all(k as int, self.r as int, self.g as int, self.b as int, self.a as int);
            lemma_fp_mul_comm_all(FP_ONE - k, other.r as int, other.g as int, other.b as int, other.a as int);
        }
        Color {
            r: fp_mul(k, self.r) + fp_mul(FP_ONE - k, other.r),
            g: fp_mul(k, self.g) + fp_mul(FP_ONE - k, other.g),
            b: fp_mul(k, self.b) + fp_mul(FP_ONE - k, other.b),
            a: fp_mul(k, self.a) + fp_mul(FP_ONE - k, other.a),
        }
    }

    pub fn add_white(&self, c: i64) -> (col: Color)
        requires
            self.in_range(),
            -MAX_CHANNEL <= c <= MAX_CHANNEL,
        ensures
            col.r == self.r + c,
            col.g == self.g + c,
            col.b == self.b + c,
            col.a == self.a,
    {
        Color { r: self.r + c, g: self.g + c, b: self.b + c, a: self.a }
    }
}

} // verus!
