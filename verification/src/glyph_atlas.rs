//! The glyph atlas: packs a set of rasterized glyph bitmaps into one
//! grid-layout alpha image (rows flipped so the first glyph row ends up
//! at the image's top edge in texture space), and computes for every
//! glyph its local quad, its atlas texcoord quad and its advance.
//! Rasterization itself (font parsing, coverage bitmaps, metrics) is an
//! outside collaborator's job; this module takes its plain-value output.
//! Text layout walks the glyphs of a string from a pivot anchor,
//! accumulating advances.

use vstd::prelude::*;

verus! {

use crate::common::{Pivot, PivotType};
use crate::fixed::{FP_ONE, MAX_COORD, div_trunc, half, in_range_i64, isqrt_u64, spec_abs};
use crate::shapes::Rectangle;
use crate::vectors::Vec2;

/// One laid-out glyph: its quad relative to the text cursor, the atlas
/// rectangle holding its pixels (in atlas-pixel units, fixed-point),
/// and how far the cursor moves after it.
#[derive(Debug, Clone, Copy, PartialEq, Eq, Structural)]
pub struct Glyph {
    pub rect: Rectangle,
    pub texcoords: Rectangle,
    pub advance: Vec2,
}

/// The metrics of one rasterized glyph: bitmap size in pixels, quad
/// offset and advance as fixed-point scalars.
#[derive(Debug, Clone, Copy, PartialEq, Eq, Structural)]
pub struct GlyphMetrics {
    pub width: usize,
    pub height: usize,
    pub xmin: i64,
    pub ymin: i64,
    pub advance_x: i64,
    pub advance_y: i64,
}

/// One rasterized glyph: its metrics and its coverage bitmap, one byte
/// per pixel, row-major.
pub struct RasterGlyph {
    pub metrics: GlyphMetrics,
    pub bitmap: Vec<u8>,
}

/// Why building an atlas or laying out text was refused.
#[derive(Debug, Clone, Copy, PartialEq, Eq, Structural)]
pub enum GlyphError {
    /// No glyphs were given.
    NoGlyphs,
    /// A bitmap's length does not match its metrics.
    BadBitmap,
    /// A glyph's metrics, or the whole atlas image, leaves the
    /// coordinate range the geometry works in.
    TooLarge,
    /// A pivot type the text layout does not anchor to.
    UnsupportedPivot,
    /// The laid-out text leaves the coordinate range.
    OutOfRange,
}

pub struct GlyphAtlas {
    pub pixels: Vec<u8>,
    pub image_width: u32,
    pub image_height: u32,
    pub font_size: u32,
    pub glyph_ascent: i64,
    pub glyph_descent: i64,
    pub glyphs: Vec<Glyph>,
}

/// A rasterized glyph whose bitmap matches its metrics and whose
/// fixed-point fields leave room for quad arithmetic.
pub open spec fn spec_raster_ok(g: RasterGlyph) -> bool {
    &&& g.bitmap@.len() == g.metrics.width * g.metrics.height
    &&& g.metrics.width <= 2048
    &&& g.metrics.height <= 2048
    &&& -MAX_COORD / 2 <= g.metrics.xmin <= MAX_COORD / 2
    &&& -MAX_COORD / 2 <= g.metrics.ymin <= MAX_COORD / 2
    &&& -MAX_COORD / 2 <= g.metrics.advance_x <= MAX_COORD / 2
    &&& -MAX_COORD / 2 <= g.metrics.advance_y <= MAX_COORD / 2
}

/// `r` is the ceiling of the square root of `n`.
pub open spec fn spec_is_ceil_sqrt(n: int, r: int) -> bool {
    r >= 0 && r * r >= n && (r == 0 || (r - 1) * (r - 1) < n)
}

/// The ceiling square root is unique.
pub proof fn lemma_ceil_sqrt_unique(n: int, a: int, b: int)
    requires
        spec_is_ceil_sqrt(n, a),
        spec_is_ceil_sqrt(n, b),
        n > 0,
    ensures
        a == b,
{
    assert(a == b) by (nonlinear_arith)
        requires
            a >= 0 && a * a >= n && (a == 0 || (a - 1) * (a - 1) < n),
            b >= 0 && b * b >= n && (b == 0 || (b - 1) * (b - 1) < n),
            n > 0,
        ;
}

/// The ceiling of the square root.
pub fn ceil_sqrt(n: usize) -> (r: usize)
    ensures
        spec_is_ceil_sqrt(n as int, r as int),
        r <= n,
{
    let s = isqrt_u64(n as u64);
    proof {
        assert(s * s <= n < (s + 1) * (s + 1));
        assert(s <= n) by (nonlinear_arith)
            requires
                (s as int) * (s as int) <= n as int,
            ;
        if (s as int) * (s as int) == n {
            if s >= 1 {
                assert(((s as int) - 1) * ((s as int) - 1) < (s as int) * (s as int))
                    by (nonlinear_arith)
                    requires
                        s >= 1,
                    ;
            }
        } else {
            assert(s + 1 <= n) by (nonlinear_arith)
                requires
                    (s as int) * (s as int) <= n as int,
                    (s as int) * (s as int) != n as int,
                ;
        }
    }
    if (s as usize) * (s as usize) == n {
        s as usize
    } else {
        s as usize + 1
    }
}

/// The pixel of the packed (pre-flip) atlas image at row `r`, column
/// `c`: the grid cell `r / ch`, `c / cw` holds the glyph whose index is
/// the cell's row-major position, and within the cell the glyph's
/// bitmap sits at the top-left corner; everything else is zero.
pub open spec fn spec_packed_pixel(
    gs: Seq<RasterGlyph>,
    cw: int,
    ch: int,
    npr: int,
    r: int,
    c: int,
) -> u8 {
    let cell_r = r / ch;
    let gr = r % ch;
    let cell_c = c / cw;
    let gc = c % cw;
    let i = cell_r * npr + cell_c;
    if cell_c < npr && 0 <= i < gs.len() && gr < gs[i].metrics.height && gc < gs[i].metrics.width {
        gs[i].bitmap@[gr * gs[i].metrics.width + gc]
    } else {
        0
    }
}

/// The pixel of the finished atlas image: the packed image with its
/// rows flipped top-to-bottom.
pub open spec fn spec_atlas_pixel(
    gs: Seq<RasterGlyph>,
    cw: int,
    ch: int,
    npr: int,
    w: int,
    h: int,
    p: int,
) -> u8 {
    spec_packed_pixel(gs, cw, ch, npr, h - 1 - p / w, p % w)
}

/// The quad record of glyph `i`: its local rectangle from the metrics
/// offset and size, its texcoord rectangle at its grid cell in the
/// (flipped) atlas image, and its advance.
pub open spec fn spec_glyph_quad(gs: Seq<RasterGlyph>, i: int, cw: int, ch: int, npr: int, h: int) -> Glyph {
    let m = gs[i].metrics;
    let ir = (i / npr) * ch;
    let ic = (i % npr) * cw;
    Glyph {
        rect: Rectangle {
            bot_left: Vec2 { x: m.xmin, y: m.ymin },
            top_right: Vec2 {
                x: (m.xmin + m.width * FP_ONE) as i64,
                y: (m.ymin + m.height * FP_ONE) as i64,
            },
        },
        texcoords: Rectangle {
            bot_left: Vec2 {
                x: (ic * FP_ONE) as i64,
                y: ((h - ir - m.height) * FP_ONE) as i64,
            },
            top_right: Vec2 {
                x: ((ic + m.width) * FP_ONE) as i64,
                y: ((h - ir) * FP_ONE) as i64,
            },
        },
        advance: Vec2 { x: m.advance_x, y: m.advance_y },
    }
}

/// The inputs on which atlas packing succeeds: at least one glyph, no
/// more than 2048 of them, none wider or taller than 2048 pixels, every
/// bitmap matching its metrics, every metric in range, and the final
/// grid image no larger than 4096 pixels a side.
pub open spec fn spec_atlas_buildable(gs: Seq<RasterGlyph>) -> bool {
    let n = gs.len() as int;
    let cw = spec_max_width(gs, n) + 2;
    let ch = spec_max_height(gs, n) + 2;
    &&& 1 <= n <= 2048
    &&& spec_max_width(gs, n) <= 2048
    &&& spec_max_height(gs, n) <= 2048
    &&& forall|i: int|
        0 <= i < n ==> (#[trigger] gs[i]).bitmap@.len() == gs[i].metrics.width
            * gs[i].metrics.height
    &&& forall|i: int| 0 <= i < n ==> spec_metrics_in_range((#[trigger] gs[i]).metrics)
    &&& exists|npr: int|
        #[trigger] spec_is_ceil_sqrt(n, npr) && cw * npr <= 4096 && ch * npr <= 4096
}

impl GlyphAtlas {
    /// Pack rasterized glyphs into an atlas. The glyphs are laid out on
    /// a square grid of `ceil(sqrt(n))` cells per row, each cell two
    /// pixels wider and taller than the largest glyph; the image rows
    /// are flipped so the first grid row sits at the top. Refused when
    /// no glyph is given, when a bitmap does not match its metrics,
    /// or when a glyph or the whole image leaves the coordinate range.
    pub fn from_raster_glyphs(
        raster: &Vec<RasterGlyph>,
        font_size: u32,
        glyph_ascent: i64,
        glyph_descent: i64,
    ) -> (res: Result<GlyphAtlas, GlyphError>)
        ensures
            res is Ok <==> spec_atlas_buildable(raster@),
            res matches Err(GlyphError::NoGlyphs) <==> raster@.len() == 0,
            res matches Err(GlyphError::BadBitmap) ==> !(forall|i: int|
                0 <= i < raster@.len() ==> (#[trigger] raster@[i]).bitmap@.len()
                    == raster@[i].metrics.width * raster@[i].metrics.height),
            res is Ok ==> spec_atlas_matches(
                res->Ok_0,
                raster@,
                font_size,
                glyph_ascent,
                glyph_descent,
            ),
    {
        let n = raster.len();
        if n == 0 {
            return Err(GlyphError::NoGlyphs);
        }
        let mut max_w: usize = 0;
        let mut max_h: usize = 0;
        let mut i0: usize = 0;
        while i0 < n
            invariant
                n == raster@.len(),
                i0 <= n,
                max_w == spec_max_width(raster@, i0 as int),
                max_h == spec_max_height(raster@, i0 as int),
            decreases n - i0,
        {
            let m = raster[i0].metrics;
            if m.width > max_w {
                max_w = m.width;
            }
            if m.height > max_h {
                max_h = m.height;
            }
            i0 += 1;
        }
        if max_w > 2048 || max_h > 2048 || n > 2048 {
            return Err(GlyphError::TooLarge);
        }
        proof {
            lemma_glyph_sizes_bounded(raster@, n as int, max_w, max_h);
        }
        let mut i: usize = 0;
        while i < n
            invariant
                n == raster@.len(),
                i <= n,
                forall|j: int|
                    0 <= j < n ==> (#[trigger] raster@[j]).metrics.width <= 2048
                        && raster@[j].metrics.height <= 2048,
                forall|j: int|
                    0 <= j < i ==> (#[trigger] raster@[j]).bitmap@.len() == raster@[j].metrics.width
                        * raster@[j].metrics.height,
            decreases n - i,
        {
            let m = raster[i].metrics;
            proof {
                assert(m.width * m.height <= 2048 * 2048) by (nonlinear_arith)
                    requires
                        0 <= m.width <= 2048,
                        0 <= m.height <= 2048,
                    ;
            }
            if raster[i].bitmap.len() != m.width * m.height {
                proof {
                    assert(raster@[i as int].bitmap@.len() != raster@[i as int].metrics.width
                        * raster@[i as int].metrics.height);
                }
                return Err(GlyphError::BadBitmap);
            }
            proof {
                assert(raster@[i as int].bitmap@.len() == raster@[i as int].metrics.width
                    * raster@[i as int].metrics.height);
            }
            i += 1;
        }
        let mut metrics_ok = true;
        let mut i2: usize = 0;
        while i2 < n
            invariant
                n == raster@.len(),
                i2 <= n,
                metrics_ok <==> (forall|j: int|
                    0 <= j < i2 ==> spec_metrics_in_range((#[trigger] raster@[j]).metrics)),
            decreases n - i2,
        {
            let m = raster[i2].metrics;
            let limit = MAX_COORD / 2;
            if m.xmin < -limit || m.xmin > limit || m.ymin < -limit || m.ymin > limit || m.advance_x
                < -limit || m.advance_x > limit || m.advance_y < -limit || m.advance_y > limit {
                metrics_ok = false;
            }
            i2 += 1;
        }
        if !metrics_ok {
            return Err(GlyphError::TooLarge);
        }
        let cw = max_w + 2;
        let ch = max_h + 2;
        let npr = ceil_sqrt(n);
        proof {
            assert(npr <= n <= 2048);
            assert(cw <= 2050 && ch <= 2050);
            assert(cw * npr <= 2050 * 2048) by (nonlinear_arith)
                requires
                    cw <= 2050,
                    npr <= 2048,
                ;
            assert(ch * npr <= 2050 * 2048) by (nonlinear_arith)
                requires
                    ch <= 2050,
                    npr <= 2048,
                ;
        }
        let image_width = cw * npr;
        let image_height = ch * npr;
        if image_width > 4096 || image_height > 4096 {
            proof {
                if spec_atlas_buildable(raster@) {
                    let w = choose|w: int|
                        #[trigger] spec_is_ceil_sqrt(n as int, w) && cw * w <= 4096 && ch * w
                            <= 4096;
                    lemma_ceil_sqrt_unique(n as int, w, npr as int);
                }
            }
            return Err(GlyphError::TooLarge);
        }
        proof {
            assert(npr >= 1) by (nonlinear_arith)
                requires
                    (npr as int) * (npr as int) >= n as int,
                    n >= 1,
                    npr >= 0,
                ;
            assert(image_width * image_height <= 4096 * 4096) by (nonlinear_arith)
                requires
                    0 <= image_width <= 4096,
                    0 <= image_height <= 4096,
                ;
        }
        let n_pixels = image_width * image_height;

        let mut pixels: Vec<u8> = Vec::with_capacity(n_pixels);
        let mut p: usize = 0;
        while p < n_pixels
            invariant
                n == raster@.len(),
                1 <= n <= 2048,
                forall|j: int|
                    0 <= j < n ==> (#[trigger] raster@[j]).bitmap@.len() == raster@[j].metrics.width
                        * raster@[j].metrics.height,
                forall|j: int|
                    0 <= j < n ==> (#[trigger] raster@[j]).metrics.width <= cw
                        && raster@[j].metrics.height <= ch,
                cw >= 2,
                ch >= 2,
                cw <= 2050,
                ch <= 2050,
                npr >= 1,
                npr <= 2048,
                n <= npr * npr,
                image_width == cw * npr,
                image_height == ch * npr,
                image_width <= 4096,
                image_height <= 4096,
                n_pixels == image_width * image_height,
                p <= n_pixels,
                pixels@.len() == p,
                forall|q: int|
                    0 <= q < p ==> pixels@[q] == spec_atlas_pixel(
                        raster@,
                        cw as int,
                        ch as int,
                        npr as int,
                        image_width as int,
                        image_height as int,
                        q,
                    ),
            decreases n_pixels - p,
        {
            proof {
                lemma_div_bound(p as int, image_width as int, image_height as int);
            }
            let r = p / image_width;
            let c = p % image_width;
            let src_r = image_height - 1 - r;
            proof {
                lemma_div_bound(src_r as int, ch as int, npr as int);
                lemma_div_bound(c as int, cw as int, npr as int);
            }
            let cell_r = src_r / ch;
            let gr = src_r % ch;
            let cell_c = c / cw;
            let gc = c % cw;
            proof {
                assert(cell_r * npr + cell_c < npr * npr) by (nonlinear_arith)
                    requires
                        0 <= cell_r < npr,
                        0 <= cell_c < npr,
                    ;
                assert(npr * npr <= 2048 * 2048) by (nonlinear_arith)
                    requires
                        0 <= npr <= 2048,
                    ;
            }
            let gi = cell_r * npr + cell_c;
            let v: u8 = if gi < n {
                let m = raster[gi].metrics;
                if gr < m.height && gc < m.width {
                    proof {
                        assert(gr * m.width + gc < m.height * m.width) by (nonlinear_arith)
                            requires
                                0 <= gr < m.height,
                                0 <= gc < m.width,
                            ;
                        assert(m.height * m.width <= 4096 * 4096) by (nonlinear_arith)
                            requires
                                0 <= m.height <= 4096,
                                0 <= m.width <= 4096,
                            ;
                        assert(raster@[gi as int].bitmap@.len() == m.width * m.height);
                        assert(m.width * m.height == m.height * m.width) by (nonlinear_arith);
                    }
                    raster[gi].bitmap[gr * m.width + gc]
                } else {
                    0
                }
            } else {
                0
            };
            pixels.push(v);
            proof {
                assert(pixels@[p as int] == spec_atlas_pixel(
                    raster@,
                    cw as int,
                    ch as int,
                    npr as int,
                    image_width as int,
                    image_height as int,
                    p as int,
                ));
            }
            p += 1;
        }

        let mut glyphs: Vec<Glyph> = Vec::with_capacity(n);
        let mut g: usize = 0;
        while g < n
            invariant
                n == raster@.len(),
                1 <= n <= 2048,
                forall|j: int|
                    0 <= j < n ==> spec_metrics_in_range((#[trigger] raster@[j]).metrics),
                forall|j: int|
                    0 <= j < n ==> (#[trigger] raster@[j]).metrics.width <= cw
                        && raster@[j].metrics.height <= ch,
                cw >= 2,
                ch >= 2,
                cw <= 2050,
                ch <= 2050,
                npr >= 1,
                npr <= 2048,
                n <= npr * npr,
                image_width == cw * npr,
                image_height == ch * npr,
                image_width <= 4096,
                image_height <= 4096,
                g <= n,
                glyphs@.len() == g,
                forall|j: int|
                    0 <= j < g ==> glyphs@[j] == spec_glyph_quad(
                        raster@,
                        j,
                        cw as int,
                        ch as int,
                        npr as int,
                        image_height as int,
                    ),
            decreases n - g,
        {
            let m = raster[g].metrics;
            proof {
                assert(g < npr * npr) by (nonlinear_arith)
                    requires
                        g < n,
                        n <= (npr as int) * (npr as int),
                    ;
                lemma_div_bound(g as int, npr as int, npr as int);
                let q = g as int / npr as int;
                let w2 = g as int % npr as int;
                assert(q * ch + ch <= npr * ch) by (nonlinear_arith)
                    requires
                        0 <= q < npr,
                        ch >= 0,
                    ;
                assert(w2 * cw + cw <= npr * cw) by (nonlinear_arith)
                    requires
                        0 <= w2 < npr,
                        cw >= 0,
                    ;
                assert(npr * ch == ch * npr) by (nonlinear_arith);
                assert(npr * cw == cw * npr) by (nonlinear_arith);
            }
            let ir = (g / npr) * ch;
            let ic = (g % npr) * cw;
            let quad = Glyph {
                rect: Rectangle {
                    bot_left: Vec2 { x: m.xmin, y: m.ymin },
                    top_right: Vec2 {
                        x: m.xmin + (m.width as i64) * FP_ONE,
                        y: m.ymin + (m.height as i64) * FP_ONE,
                    },
                },
                texcoords: Rectangle {
                    bot_left: Vec2 {
                        x: (ic as i64) * FP_ONE,
                        y: ((image_height - ir - m.height) as i64) * FP_ONE,
                    },
                    top_right: Vec2 {
                        x: ((ic + m.width) as i64) * FP_ONE,
                        y: ((image_height - ir) as i64) * FP_ONE,
                    },
                },
                advance: Vec2 { x: m.advance_x, y: m.advance_y },
            };
            glyphs.push(quad);
            g += 1;
        }

        proof {
            assert(spec_is_ceil_sqrt(n as int, npr as int));
            assert(cw == spec_max_width(raster@, raster@.len() as int) + 2);
            assert(ch == spec_max_height(raster@, raster@.len() as int) + 2);
            assert(spec_atlas_buildable(raster@));
        }
        Ok(
            GlyphAtlas {
                pixels,
                image_width: image_width as u32,
                image_height: image_height as u32,
                font_size,
                glyph_ascent,
                glyph_descent,
                glyphs,
            },
        )
    }
}

/// Every glyph is no larger than the running maxima over all glyphs.
proof fn lemma_glyph_sizes_bounded(gs: Seq<RasterGlyph>, n: int, max_w: usize, max_h: usize)
    requires
        n == gs.len(),
        max_w == spec_max_width(gs, n),
        max_h == spec_max_height(gs, n),
    ensures
        forall|j: int|
            0 <= j < n ==> (#[trigger] gs[j]).metrics.width <= max_w && gs[j].metrics.height
                <= max_h,
{
    assert forall|j: int| 0 <= j < n implies (#[trigger] gs[j]).metrics.width <= max_w
        && gs[j].metrics.height <= max_h by {
        lemma_max_mono(gs, j + 1, n);
    }
}

/// The running maxima only grow with more glyphs considered.
proof fn lemma_max_mono(gs: Seq<RasterGlyph>, i: int, n: int)
    requires
        0 <= i <= n,
    ensures
        spec_max_width(gs, i) <= spec_max_width(gs, n),
        spec_max_height(gs, i) <= spec_max_height(gs, n),
    decreases n - i,
{
    if i < n {
        lemma_max_mono(gs, i + 1, n);
    }
}

proof fn lemma_div_bound(x: int, k: int, m: int)
    requires
        k > 0,
        0 <= x,
        x < k * m,
    ensures
        0 <= x / k < m,
        0 <= x % k < k,
        x == k * (x / k) + x % k,
{
    vstd::arithmetic::div_mod::lemma_fundamental_div_mod(x, k);
    vstd::arithmetic::div_mod::lemma_mod_bound(x, k);
    vstd::arithmetic::div_mod::lemma_div_pos_is_pos(x, k);
    assert(x / k < m) by (nonlinear_arith)
        requires
            x == k * (x / k) + x % k,
            0 <= x % k,
            x < k * m,
            k > 0,
            x / k >= 0,
        ;
}

/// The widest glyph among the first `i`.
pub open spec fn spec_max_width(gs: Seq<RasterGlyph>, i: int) -> usize
    decreases i,
{
    if i <= 0 {
        0
    } else {
        let prev = spec_max_width(gs, i - 1);
        if gs[i - 1].metrics.width > prev {
            gs[i - 1].metrics.width
        } else {
            prev
        }
    }
}

/// The tallest glyph among the first `i`.
pub open spec fn spec_max_height(gs: Seq<RasterGlyph>, i: int) -> usize
    decreases i,
{
    if i <= 0 {
        0
    } else {
        let prev = spec_max_height(gs, i - 1);
        if gs[i - 1].metrics.height > prev {
            gs[i - 1].metrics.height
        } else {
            prev
        }
    }
}

/// Fixed-point metric fields small enough for quad arithmetic.
pub open spec fn spec_metrics_in_range(m: GlyphMetrics) -> bool {
    &&& -MAX_COORD / 2 <= m.xmin <= MAX_COORD / 2
    &&& -MAX_COORD / 2 <= m.ymin <= MAX_COORD / 2
    &&& -MAX_COORD / 2 <= m.advance_x <= MAX_COORD / 2
    &&& -MAX_COORD / 2 <= m.advance_y <= MAX_COORD / 2
}

/// What a successfully built atlas holds: grid-cell dimensions derived
/// from the glyphs, every pixel of the flipped packed image, and every
/// glyph's quad record.
pub open spec fn spec_atlas_matches(
    atlas: GlyphAtlas,
    gs: Seq<RasterGlyph>,
    font_size: u32,
    glyph_ascent: i64,
    glyph_descent: i64,
) -> bool {
    exists|npr: int|
        {
            let cw = spec_max_width(gs, gs.len() as int) + 2;
            let ch = spec_max_height(gs, gs.len() as int) + 2;
            let w = cw * npr;
            let h = ch * npr;
            &&& #[trigger] spec_is_ceil_sqrt(gs.len() as int, npr)
            &&& atlas.image_width == w
            &&& atlas.image_height == h
            &&& atlas.font_size == font_size
            &&& atlas.glyph_ascent == glyph_ascent
            &&& atlas.glyph_descent == glyph_descent
            &&& atlas.pixels@.len() == w * h
            &&& forall|q: int|
                0 <= q < w * h ==> atlas.pixels@[q] == spec_atlas_pixel(
                    gs,
                    cw as int,
                    ch as int,
                    npr,
                    w,
                    h,
                    q,
                )
            &&& atlas.glyphs@.len() == gs.len()
            &&& forall|j: int|
                0 <= j < gs.len() ==> atlas.glyphs@[j] == spec_glyph_quad(
                    gs,
                    j,
                    cw as int,
                    ch as int,
                    npr,
                    h,
                )
        }
}


/// The glyph index a character selects: printable ASCII maps to its
/// slot, everything else falls back to the question mark's slot.
pub open spec fn spec_glyph_index(symbol: char) -> int {
    let u = symbol as u32;
    if u < 32 || u > 126 {
        31
    } else {
        u - 32
    }
}

/// A glyph whose quad, texcoords and advance all sit inside the scalar
/// range.
pub open spec fn spec_glyph_in_range(g: Glyph) -> bool {
    &&& g.rect.in_range()
    &&& g.texcoords.in_range()
    &&& g.advance.in_range()
}

/// The x-advance of the first `i` characters of a text.
pub open spec fn spec_text_advance_x(atlas: GlyphAtlas, text: Seq<char>, i: int) -> int
    decreases i,
{
    if i <= 0 {
        0
    } else {
        spec_text_advance_x(atlas, text, i - 1) + atlas.glyphs@[spec_glyph_index(
            text[i - 1],
        )].advance.x
    }
}

/// The y-advance of the first `i` characters of a text.
pub open spec fn spec_text_advance_y(atlas: GlyphAtlas, text: Seq<char>, i: int) -> int
    decreases i,
{
    if i <= 0 {
        0
    } else {
        spec_text_advance_y(atlas, text, i - 1) + atlas.glyphs@[spec_glyph_index(
            text[i - 1],
        )].advance.y
    }
}

/// The tallest glyph among the first `i` characters of a text.
pub open spec fn spec_text_max_height(atlas: GlyphAtlas, text: Seq<char>, i: int) -> int
    decreases i,
{
    if i <= 0 {
        0
    } else {
        let prev = spec_text_max_height(atlas, text, i - 1);
        let g = atlas.glyphs@[spec_glyph_index(text[i - 1])];
        let h = g.rect.top_right.y - g.rect.bot_left.y;
        if h > prev {
            h
        } else {
            prev
        }
    }
}

impl GlyphAtlas {
    /// An atlas that text layout can run on: one glyph per printable
    /// ASCII character, each with in-range coordinates.
    pub open spec fn wf(self) -> bool {
        &&& self.glyphs@.len() == 95
        &&& forall|i: int| 0 <= i < 95 ==> spec_glyph_in_range(#[trigger] self.glyphs@[i])
    }

    /// Whether text layout can run on this atlas.
    pub fn check_wf(&self) -> (b: bool)
        ensures
            b == self.wf(),
    {
        if self.glyphs.len() != 95 {
            return false;
        }
        let mut i: usize = 0;
        while i < 95
            invariant
                self.glyphs@.len() == 95,
                i <= 95,
                forall|j: int| 0 <= j < i ==> spec_glyph_in_range(#[trigger] self.glyphs@[j]),
            decreases 95 - i,
        {
            let g = self.glyphs[i];
            let ok = in_range_i64(g.rect.bot_left.x) && in_range_i64(g.rect.bot_left.y)
                && in_range_i64(g.rect.top_right.x) && in_range_i64(g.rect.top_right.y)
                && in_range_i64(g.texcoords.bot_left.x) && in_range_i64(g.texcoords.bot_left.y)
                && in_range_i64(g.texcoords.top_right.x) && in_range_i64(g.texcoords.top_right.y)
                && in_range_i64(g.advance.x) && in_range_i64(g.advance.y);
            if !ok {
                return false;
            }
            i += 1;
        }
        true
    }

    /// The glyph a character selects, printable ASCII or the fallback.
    pub fn get_glyph(&self, symbol: char) -> (g: Glyph)
        requires
            self.wf(),
        ensures
            g == self.glyphs@[spec_glyph_index(symbol)],
    {
        let mut idx = symbol as usize;
        if idx < 32 || idx > 126 {
            idx = 63;
        }
        self.glyphs[idx - 32]
    }

    /// The size of a text block: the sum of the glyphs' x-advances by
    /// the tallest glyph. The length bound only keeps the cumulative
    /// advances (each within the scalar range) representable in a
    /// scalar.
    pub fn get_text_size(&self, text: &str) -> (s: Vec2)
        requires
            self.wf(),
            text@.len() <= 137438953472,
        ensures
            s.x == spec_text_advance_x(*self, text@, text@.len() as int),
            s.y == spec_text_max_height(*self, text@, text@.len() as int),
    {
        let n = text.unicode_len();
        let mut width: i64 = 0;
        let mut height: i64 = 0;
        let mut i: usize = 0;
        while i < n
            invariant
                self.wf(),
                n == text@.len(),
                n <= 137438953472,
                i <= n,
                width == spec_text_advance_x(*self, text@, i as int),
                height == spec_text_max_height(*self, text@, i as int),
                spec_abs(width as int) <= i * MAX_COORD,
                0 <= height <= 2 * MAX_COORD,
            decreases n - i,
        {
            let glyph = self.get_glyph(text.get_char(i));
            width = width + glyph.advance.x;
            let h = glyph.rect.top_right.y - glyph.rect.bot_left.y;
            if h > height {
                height = h;
            }
            i += 1;
        }
        Vec2 { x: width, y: height }
    }

    /// Where the cursor starts for a pivot: the bottom-left corner of
    /// the text block whose pivot point sits at the anchor. Only the
    /// bottom-left, center, top-center and bottom-center anchors are
    /// supported.
    pub fn start_cursor(&self, pivot: Pivot, text: &str) -> (r: Result<Vec2, GlyphError>)
        requires
            self.wf(),
            pivot.p.in_range(),
            text@.len() <= 137438953472,
        ensures
            r is Ok <==> spec_pivot_supported(pivot.ty),
            r is Err ==> r == Err::<Vec2, GlyphError>(GlyphError::UnsupportedPivot),
            r matches Ok(c) ==> (c.x as int, c.y as int) == spec_start_cursor(
                *self,
                pivot,
                text@,
            ),
    {
        let size = self.get_text_size(text);
        proof {
            lemma_text_metric_bounds(*self, text@, text@.len() as int);
        }
        match pivot.ty {
            PivotType::BotLeft => Ok(pivot.p),
            PivotType::Center => Ok(
                Vec2 { x: pivot.p.x - half(size.x), y: pivot.p.y - half(size.y) },
            ),
            PivotType::TopCenter => Ok(
                Vec2 { x: pivot.p.x - half(size.x), y: pivot.p.y - size.y },
            ),
            PivotType::BotCenter => Ok(Vec2 { x: pivot.p.x - half(size.x), y: pivot.p.y }),
            _ => Err(GlyphError::UnsupportedPivot),
        }
    }

    /// Lay a text out from a pivot anchor: each character's glyph
    /// translated to the running cursor, the cursor advancing by each
    /// glyph's advance. Refused when the pivot is unsupported or a
    /// translated glyph leaves the coordinate range. The length bound
    /// only keeps the running cursor (per-glyph advances are within
    /// the scalar range) representable in a scalar.
    pub fn layout_text(&self, pivot: Pivot, text: &str) -> (r: Result<Vec<Glyph>, GlyphError>)
        requires
            self.wf(),
            pivot.p.in_range(),
            text@.len() <= 137438953472,
        ensures
            r is Ok <==> spec_pivot_supported(pivot.ty) && spec_layout_in_range(
                *self,
                pivot,
                text@,
            ),
            r matches Ok(v) ==> {
                &&& v@.len() == text@.len()
                &&& forall|i: int|
                    0 <= i < text@.len() ==> v@[i] == spec_laid_glyph(*self, pivot, text@, i)
            },
            r matches Err(e) ==> (e == GlyphError::UnsupportedPivot && !spec_pivot_supported(
                pivot.ty,
            )) || (e == GlyphError::OutOfRange && spec_pivot_supported(pivot.ty)),
    {
        let mut cursor = match self.start_cursor(pivot, text) {
            Ok(c) => c,
            Err(e) => {
                return Err(e);
            },
        };
        proof {
            lemma_text_metric_bounds(*self, text@, text@.len() as int);
            lemma_start_cursor_bounds(*self, pivot, text@);
        }
        let n = text.unicode_len();
        let mut out: Vec<Glyph> = Vec::with_capacity(n);
        let mut i: usize = 0;
        while i < n
            invariant
                self.wf(),
                pivot.p.in_range(),
                spec_pivot_supported(pivot.ty),
                n == text@.len(),
                n <= 137438953472,
                i <= n,
                out@.len() == i,
                (cursor.x as int, cursor.y as int) == spec_cursor(*self, pivot, text@, i as int),
                spec_abs(cursor.x as int) <= (n + 3 + i) * MAX_COORD,
                spec_abs(cursor.y as int) <= (n + 3 + i) * MAX_COORD,
                forall|j: int|
                    0 <= j < i ==> out@[j] == spec_laid_glyph(*self, pivot, text@, j),
                forall|j: int|
                    0 <= j < i ==> (#[trigger] spec_laid_glyph(
                        *self,
                        pivot,
                        text@,
                        j,
                    )).rect.bot_left.in_range() && spec_laid_glyph(
                        *self,
                        pivot,
                        text@,
                        j,
                    ).rect.top_right.in_range(),
            decreases n - i,
        {
            let glyph = self.get_glyph(text.get_char(i));
            let blx = glyph.rect.bot_left.x + cursor.x;
            let bly = glyph.rect.bot_left.y + cursor.y;
            let trx = glyph.rect.top_right.x + cursor.x;
            let try_ = glyph.rect.top_right.y + cursor.y;
            proof {
                let lg = spec_laid_glyph(*self, pivot, text@, i as int);
                assert(lg.rect.bot_left.x == blx);
                assert(lg.rect.bot_left.y == bly);
                assert(lg.rect.top_right.x == trx);
                assert(lg.rect.top_right.y == try_);
            }
            if !(in_range_i64(blx) && in_range_i64(bly) && in_range_i64(trx) && in_range_i64(
                try_,
            )) {
                proof {
                    assert(!spec_layout_in_range(*self, pivot, text@));
                }
                return Err(GlyphError::OutOfRange);
            }
            out.push(
                Glyph {
                    rect: Rectangle {
                        bot_left: Vec2 { x: blx, y: bly },
                        top_right: Vec2 { x: trx, y: try_ },
                    },
                    texcoords: glyph.texcoords,
                    advance: glyph.advance,
                },
            );
            cursor.x = cursor.x + glyph.advance.x;
            cursor.y = cursor.y + glyph.advance.y;
            i += 1;
        }
        Ok(out)
    }

    /// One layout step: the glyph of `symbol` translated to the
    /// cursor, the cursor advanced by the glyph's advance.
    pub fn advance_glyph(&self, cursor: &mut Vec2, symbol: char) -> (g: Glyph)
        requires
            self.wf(),
            spec_abs(old(cursor).x as int) <= 4611686018427387904,
            spec_abs(old(cursor).y as int) <= 4611686018427387904,
        ensures
            ({
                let base = self.glyphs@[spec_glyph_index(symbol)];
                &&& g.rect.bot_left.x == base.rect.bot_left.x + old(cursor).x
                &&& g.rect.bot_left.y == base.rect.bot_left.y + old(cursor).y
                &&& g.rect.top_right.x == base.rect.top_right.x + old(cursor).x
                &&& g.rect.top_right.y == base.rect.top_right.y + old(cursor).y
                &&& g.texcoords == base.texcoords
                &&& g.advance == base.advance
                &&& final(cursor).x == old(cursor).x + base.advance.x
                &&& final(cursor).y == old(cursor).y + base.advance.y
            }),
    {
        let glyph = self.get_glyph(symbol);
        let moved = Glyph {
            rect: Rectangle {
                bot_left: Vec2 {
                    x: glyph.rect.bot_left.x + cursor.x,
                    y: glyph.rect.bot_left.y + cursor.y,
                },
                top_right: Vec2 {
                    x: glyph.rect.top_right.x + cursor.x,
                    y: glyph.rect.top_right.y + cursor.y,
                },
            },
            texcoords: glyph.texcoords,
            advance: glyph.advance,
        };
        cursor.x = cursor.x + glyph.advance.x;
        cursor.y = cursor.y + glyph.advance.y;
        moved
    }

    /// The caret rectangle at a cursor: a tenth of the font size wide,
    /// spanning descent to ascent.
    pub fn get_cursor_rect(&self, cursor: Vec2) -> (r: Rectangle)
        requires
            cursor.in_range(),
            self.font_size <= 4096,
            -MAX_COORD / 2 <= self.glyph_descent <= MAX_COORD / 2,
            -MAX_COORD / 2 <= self.glyph_ascent <= MAX_COORD / 2,
        ensures
            r.bot_left.x == cursor.x,
            r.bot_left.y == cursor.y + self.glyph_descent,
            r.top_right.x == cursor.x + (self.font_size * FP_ONE) / 10,
            r.top_right.y == cursor.y + self.glyph_ascent,
    {
        let width = ((self.font_size as i64) * FP_ONE) / 10;
        Rectangle {
            bot_left: Vec2 { x: cursor.x, y: cursor.y + self.glyph_descent },
            top_right: Vec2 { x: cursor.x + width, y: cursor.y + self.glyph_ascent },
        }
    }
}

/// The pivot anchors text layout supports.
pub open spec fn spec_pivot_supported(ty: PivotType) -> bool {
    ty is BotLeft || ty is Center || ty is TopCenter || ty is BotCenter
}

/// The cursor a pivot starts a text at.
pub open spec fn spec_start_cursor(atlas: GlyphAtlas, pivot: Pivot, text: Seq<char>) -> (int, int) {
    let w = spec_text_advance_x(atlas, text, text.len() as int);
    let h = spec_text_max_height(atlas, text, text.len() as int);
    let p = pivot.p;
    match pivot.ty {
        PivotType::Center => (p.x - div_trunc(w, 2), p.y - div_trunc(h, 2)),
        PivotType::TopCenter => (p.x - div_trunc(w, 2), p.y - h),
        PivotType::BotCenter => (p.x - div_trunc(w, 2), p.y as int),
        _ => (p.x as int, p.y as int),
    }
}

/// The cursor before the i-th character: the start cursor plus the
/// advances of everything before it.
pub open spec fn spec_cursor(atlas: GlyphAtlas, pivot: Pivot, text: Seq<char>, i: int) -> (
    int,
    int,
) {
    let s = spec_start_cursor(atlas, pivot, text);
    (s.0 + spec_text_advance_x(atlas, text, i), s.1 + spec_text_advance_y(atlas, text, i))
}

/// Every glyph of the laid-out text lands inside the coordinate
/// range.
pub open spec fn spec_layout_in_range(atlas: GlyphAtlas, pivot: Pivot, text: Seq<char>) -> bool {
    forall|i: int|
        0 <= i < text.len() ==> {
            let g = #[trigger] spec_laid_glyph(atlas, pivot, text, i);
            &&& g.rect.bot_left.in_range()
            &&& g.rect.top_right.in_range()
        }
}

/// The i-th laid-out glyph: the character's glyph translated to its
/// cursor.
pub open spec fn spec_laid_glyph(atlas: GlyphAtlas, pivot: Pivot, text: Seq<char>, i: int) -> Glyph {
    let g = atlas.glyphs@[spec_glyph_index(text[i])];
    let c = spec_cursor(atlas, pivot, text, i);
    Glyph {
        rect: Rectangle {
            bot_left: Vec2 {
                x: (g.rect.bot_left.x + c.0) as i64,
                y: (g.rect.bot_left.y + c.1) as i64,
            },
            top_right: Vec2 {
                x: (g.rect.top_right.x + c.0) as i64,
                y: (g.rect.top_right.y + c.1) as i64,
            },
        },
        texcoords: g.texcoords,
        advance: g.advance,
    }
}

/// Text-wide advance sums and heights stay within small multiples of
/// the coordinate range.
proof fn lemma_text_metric_bounds(atlas: GlyphAtlas, text: Seq<char>, i: int)
    requires
        atlas.wf(),
        0 <= i <= text.len(),
    ensures
        spec_abs(spec_text_advance_x(atlas, text, i)) <= i * MAX_COORD,
        spec_abs(spec_text_advance_y(atlas, text, i)) <= i * MAX_COORD,
        0 <= spec_text_max_height(atlas, text, i) <= 2 * MAX_COORD,
    decreases i,
{
    if i > 0 {
        lemma_text_metric_bounds(atlas, text, i - 1);
    }
}

/// The start cursor sits within a text-length multiple of the scalar
/// range of the anchor.
proof fn lemma_start_cursor_bounds(atlas: GlyphAtlas, pivot: Pivot, text: Seq<char>)
    requires
        atlas.wf(),
        pivot.p.in_range(),
    ensures
        spec_abs(spec_start_cursor(atlas, pivot, text).0) <= (text.len() + 3) * MAX_COORD,
        spec_abs(spec_start_cursor(atlas, pivot, text).1) <= (text.len() + 3) * MAX_COORD,
{
    let n = text.len() as int;
    lemma_text_metric_bounds(atlas, text, n);
    let w = spec_text_advance_x(atlas, text, n);
    let h = spec_text_max_height(atlas, text, n);
    assert(spec_abs(div_trunc(w, 2)) <= spec_abs(w)) by {
        if w >= 0 {
            vstd::arithmetic::div_mod::lemma_div_is_ordered_by_denominator(w, 1, 2);
            vstd::arithmetic::div_mod::lemma_div_basics(w);
        } else {
            vstd::arithmetic::div_mod::lemma_div_is_ordered_by_denominator(-w, 1, 2);
            vstd::arithmetic::div_mod::lemma_div_basics(-w);
        }
    }
    assert(spec_abs(div_trunc(h, 2)) <= spec_abs(h)) by {
        if h >= 0 {
            vstd::arithmetic::div_mod::lemma_div_is_ordered_by_denominator(h, 1, 2);
            vstd::arithmetic::div_mod::lemma_div_basics(h);
        } else {
            vstd::arithmetic::div_mod::lemma_div_is_ordered_by_denominator(-h, 1, 2);
            vstd::arithmetic::div_mod::lemma_div_basics(-h);
        }
    }
}

} // verus!
