//! Collision and vector math over the shape primitives: axis-aligned
//! rectangle-vs-rectangle, circle-vs-circle and circle-vs-rectangle
//! minimum-translation vectors, line-circle intersection, reflection,
//! and point-in-rectangle tests. An MTV is signed along the separating
//! axis; zero overlap yields no vector at all, so touching and
//! separated shapes are distinguishable from overlapping ones.

use vstd::prelude::*;

verus! {

use crate::fixed::{
    FP_ONE, MAX_COORD, div_trunc, div_trunc_i128, fp_div, fp_in_range, fp_mul, is_sqrt,
    isqrt_u128, isqrt_u64, lemma_sqrt_bounds, lemma_sqrt_is, spec_abs, spec_fp_div, spec_fp_mul,
    spec_sqrt,
};
use crate::shapes::{Circle, Line, Rectangle};
use crate::vectors::Vec2;

/// The unit vector pointing up.
pub fn up() -> (v: Vec2)
    ensures
        v == (Vec2 { x: 0, y: FP_ONE }),
{
    Vec2 { x: 0, y: FP_ONE }
}

/// The unit vector pointing down.
pub fn down() -> (v: Vec2)
    ensures
        v.x == 0 && v.y == -FP_ONE,
{
    Vec2 { x: 0, y: -FP_ONE }
}

/// The unit vector pointing left.
pub fn left() -> (v: Vec2)
    ensures
        v.x == -FP_ONE && v.y == 0,
{
    Vec2 { x: -FP_ONE, y: 0 }
}

/// The unit vector pointing right.
pub fn right() -> (v: Vec2)
    ensures
        v == (Vec2 { x: FP_ONE, y: 0 }),
{
    Vec2 { x: FP_ONE, y: 0 }
}

/// A quarter turn counter-clockwise.
pub fn rotate90(vec: &Vec2) -> (r: Vec2)
    requires
        vec.in_range(),
    ensures
        r == (Vec2 { x: (-vec.y) as i64, y: vec.x }),
{
    Vec2 { x: -vec.y, y: vec.x }
}

/// Strictly inside the rectangle (its edge does not count).
pub open spec fn spec_point_in_rect(p: Vec2, rect: Rectangle) -> bool {
    p.x > rect.bot_left.x && p.x < rect.top_right.x && p.y > rect.bot_left.y && p.y
        < rect.top_right.y
}

pub fn check_if_point_in_rectangle(point: &Vec2, rect: &Rectangle) -> (b: bool)
    ensures
        b == spec_point_in_rect(*point, *rect),
{
    point.x > rect.get_min_x() && point.x < rect.get_max_x() && point.y > rect.get_min_y()
        && point.y < rect.get_max_y()
}

/// The squared distance between two points.
pub open spec fn spec_dist2(a: Vec2, b: Vec2) -> int {
    (b.x - a.x) * (b.x - a.x) + (b.y - a.y) * (b.y - a.y)
}

/// The floor of the distance between two points.
pub open spec fn spec_dist(a: Vec2, b: Vec2) -> int {
    spec_sqrt(spec_dist2(a, b))
}

/// Floor euclidean distance.
pub fn distance(a: Vec2, b: Vec2) -> (d: i64)
    requires
        a.in_range(),
        b.in_range(),
    ensures
        d == spec_dist(a, b),
        is_sqrt(spec_dist2(a, b), d as int),
        0 <= d <= 67108864,
{
    let dx = b.x - a.x;
    let dy = b.y - a.y;
    proof {
        assert(-33554432 <= dx <= 33554432);
        assert(-33554432 <= dy <= 33554432);
        assert(0 <= dx * dx <= 1125899906842624int) by (nonlinear_arith)
            requires
                -33554432 <= dx <= 33554432,
            ;
        assert(0 <= dy * dy <= 1125899906842624int) by (nonlinear_arith)
            requires
                -33554432 <= dy <= 33554432,
            ;
    }
    let n = (dx * dx + dy * dy) as u64;
    let d = isqrt_u64(n);
    proof {
        lemma_sqrt_is(n as int, d as int);
        lemma_sqrt_bounds(n as int, d as int, 67108864);
        assert(67108864int * 67108864int > 2 * 1125899906842624int) by (nonlinear_arith);
    }
    d as i64
}

/// No component of a vector exceeds the floor of its length.
proof fn lemma_component_le_dist(dx: int, dy: int, dist: int)
    requires
        is_sqrt(dx * dx + dy * dy, dist),
    ensures
        spec_abs(dx) <= dist,
        spec_abs(dy) <= dist,
{
    assert(spec_abs(dx) <= dist && spec_abs(dy) <= dist) by (nonlinear_arith)
        requires
            0 <= dist && dist * dist <= dx * dx + dy * dy < (dist + 1) * (dist + 1),
        ;
}

/// Dividing a component by a length at least as large keeps the
/// fixed-point quotient within one.
proof fn lemma_fp_div_unit(a: int, b: int)
    requires
        spec_abs(a) <= b,
        b > 0,
    ensures
        spec_abs(spec_fp_div(a, b)) <= FP_ONE,
{
    assert(spec_abs(spec_fp_div(a, b)) <= FP_ONE) by (nonlinear_arith)
        requires
            spec_abs(a) <= b,
            b > 0,
        ;
}

/// Squared distances are symmetric and nonnegative.
proof fn lemma_dist2_symm(a: Vec2, b: Vec2)
    ensures
        spec_dist2(a, b) == spec_dist2(b, a),
        spec_dist2(a, b) >= 0,
{
    assert((b.x - a.x) * (b.x - a.x) == (a.x - b.x) * (a.x - b.x)) by (nonlinear_arith);
    assert((b.y - a.y) * (b.y - a.y) == (a.y - b.y) * (a.y - b.y)) by (nonlinear_arith);
    assert((b.x - a.x) * (b.x - a.x) >= 0) by (nonlinear_arith);
    assert((b.y - a.y) * (b.y - a.y) >= 0) by (nonlinear_arith);
}

/// The fixed-point unit vector along `(dx, dy)` whose floor length is
/// `dist`; the positive x axis when the length is zero.
fn unit_axis(dx: i64, dy: i64, dist: i64) -> (axis: (i64, i64))
    requires
        0 <= dist <= 1099511627776,
        spec_abs(dx as int) <= 1099511627776,
        spec_abs(dy as int) <= 1099511627776,
        dist > 0 ==> is_sqrt(dx * dx + dy * dy, dist as int),
    ensures
        dist > 0 ==> axis.0 == spec_fp_div(dx as int, dist as int) && axis.1 == spec_fp_div(
            dy as int,
            dist as int,
        ),
        dist == 0 ==> axis.0 == FP_ONE && axis.1 == 0,
        spec_abs(axis.0 as int) <= FP_ONE,
        spec_abs(axis.1 as int) <= FP_ONE,
{
    if dist > 0 {
        proof {
            lemma_component_le_dist(dx as int, dy as int, dist as int);
            lemma_fp_div_unit(dx as int, dist as int);
            lemma_fp_div_unit(dy as int, dist as int);
        }
        (fp_div(dx, dist), fp_div(dy, dist))
    } else {
        (FP_ONE, 0)
    }
}

/// The unit direction from `a` toward `b` (fixed-point), or the
/// positive x axis when the two points coincide to within one unit of
/// distance.
pub open spec fn spec_axis(a: Vec2, b: Vec2) -> (int, int) {
    let dx = b.x - a.x;
    let dy = b.y - a.y;
    let dist = spec_dist(a, b);
    if dist > 0 {
        (spec_fp_div(dx, dist), spec_fp_div(dy, dist))
    } else {
        (FP_ONE as int, 0)
    }
}

/// The circle-vs-circle minimum translation vector: along the axis
/// between the centers, with signed magnitude `dist - (r0 + r1)`;
/// absent when the circles do not overlap.
pub open spec fn spec_circle_circle_mtv(c0: Circle, c1: Circle) -> Option<Vec2> {
    let dist = spec_dist(c0.center, c1.center);
    let axis = spec_axis(c0.center, c1.center);
    let radii_sum = c0.radius + c1.radius;
    if dist < radii_sum {
        Some(
            Vec2 {
                x: spec_fp_mul(axis.0, dist - radii_sum) as i64,
                y: spec_fp_mul(axis.1, dist - radii_sum) as i64,
            },
        )
    } else {
        None
    }
}

/// The smallest displacement of `circle0` that separates it from
/// `circle1`, or nothing when they do not overlap.
pub fn get_circle_circle_mtv(circle0: &Circle, circle1: &Circle) -> (r: Option<Vec2>)
    requires
        circle0.in_range(),
        circle1.in_range(),
    ensures
        r == spec_circle_circle_mtv(*circle0, *circle1),
{
    let dist = distance(circle0.center, circle1.center);
    let dx = circle1.center.x - circle0.center.x;
    let dy = circle1.center.y - circle0.center.y;
    let (ax, ay) = unit_axis(dx, dy, dist);
    let radii_sum = circle0.radius + circle1.radius;
    if dist < radii_sum {
        Some(Vec2 { x: fp_mul(ax, dist - radii_sum), y: fp_mul(ay, dist - radii_sum) })
    } else {
        None
    }
}

/// The rectangle-vs-rectangle minimum translation vector: when the
/// joint bounding box is strictly smaller than the two rectangles side
/// by side on both axes — zero overlap, including mere touching, yields
/// no vector at all — the smaller of the two per-axis push-out
/// displacements, the other axis zeroed.
pub open spec fn spec_rect_rect_mtv(r0: Rectangle, r1: Rectangle) -> Option<Vec2> {
    let sum_w = (r0.top_right.x - r0.bot_left.x) + (r1.top_right.x - r1.bot_left.x);
    let sum_h = (r0.top_right.y - r0.bot_left.y) + (r1.top_right.y - r1.bot_left.y);
    let min_x = if r0.bot_left.x < r1.bot_left.x {
        r0.bot_left.x as int
    } else {
        r1.bot_left.x as int
    };
    let max_x = if r0.top_right.x > r1.top_right.x {
        r0.top_right.x as int
    } else {
        r1.top_right.x as int
    };
    let min_y = if r0.bot_left.y < r1.bot_left.y {
        r0.bot_left.y as int
    } else {
        r1.bot_left.y as int
    };
    let max_y = if r0.top_right.y > r1.top_right.y {
        r0.top_right.y as int
    } else {
        r1.top_right.y as int
    };
    if max_x - min_x < sum_w && max_y - min_y < sum_h {
        let mtv_x = if r1.top_right.x > r0.top_right.x {
            r1.bot_left.x - r0.top_right.x
        } else {
            r1.top_right.x - r0.bot_left.x
        };
        let mtv_y = if r1.top_right.y > r0.top_right.y {
            r1.bot_left.y - r0.top_right.y
        } else {
            r1.top_right.y - r0.bot_left.y
        };
        if spec_abs(mtv_x) > spec_abs(mtv_y) {
            Some(Vec2 { x: 0, y: mtv_y as i64 })
        } else {
            Some(Vec2 { x: mtv_x as i64, y: 0 })
        }
    } else {
        None
    }
}

/// The vector is absent exactly when the overlap interval is empty on
/// some axis — merely touching rectangles get nothing, so callers can
/// tell touching from penetrating — and a present vector pushes along
/// exactly one axis.
pub proof fn lemma_rect_rect_mtv_props(r0: Rectangle, r1: Rectangle)
    requires
        r0.in_range(),
        r1.in_range(),
    ensures
        spec_rect_rect_mtv(r0, r1) is None <==> ({
            let ox_hi = if r0.top_right.x < r1.top_right.x {
                r0.top_right.x as int
            } else {
                r1.top_right.x as int
            };
            let ox_lo = if r0.bot_left.x > r1.bot_left.x {
                r0.bot_left.x as int
            } else {
                r1.bot_left.x as int
            };
            let oy_hi = if r0.top_right.y < r1.top_right.y {
                r0.top_right.y as int
            } else {
                r1.top_right.y as int
            };
            let oy_lo = if r0.bot_left.y > r1.bot_left.y {
                r0.bot_left.y as int
            } else {
                r1.bot_left.y as int
            };
            ox_hi <= ox_lo || oy_hi <= oy_lo
        }),
        spec_rect_rect_mtv(r0, r1) matches Some(v) ==> (v.x == 0) != (v.y == 0),
{
    let sum_w = (r0.top_right.x - r0.bot_left.x) + (r1.top_right.x - r1.bot_left.x);
    let sum_h = (r0.top_right.y - r0.bot_left.y) + (r1.top_right.y - r1.bot_left.y);
    let min_x = if r0.bot_left.x < r1.bot_left.x {
        r0.bot_left.x as int
    } else {
        r1.bot_left.x as int
    };
    let max_x = if r0.top_right.x > r1.top_right.x {
        r0.top_right.x as int
    } else {
        r1.top_right.x as int
    };
    let min_y = if r0.bot_left.y < r1.bot_left.y {
        r0.bot_left.y as int
    } else {
        r1.bot_left.y as int
    };
    let max_y = if r0.top_right.y > r1.top_right.y {
        r0.top_right.y as int
    } else {
        r1.top_right.y as int
    };
    if max_x - min_x < sum_w && max_y - min_y < sum_h {
        let mtv_x = if r1.top_right.x > r0.top_right.x {
            r1.bot_left.x - r0.top_right.x
        } else {
            r1.top_right.x - r0.bot_left.x
        };
        let mtv_y = if r1.top_right.y > r0.top_right.y {
            r1.bot_left.y - r0.top_right.y
        } else {
            r1.top_right.y - r0.bot_left.y
        };
        assert(mtv_x != 0);
        assert(mtv_y != 0);
    }
}

/// The smallest axis-aligned displacement of `rect0` that separates it
/// from `rect1`, or nothing when the rectangles do not overlap
/// (touching counts as no overlap).
pub fn get_rectangle_rectangle_mtv(rect0: &Rectangle, rect1: &Rectangle) -> (r: Option<Vec2>)
    requires
        rect0.in_range(),
        rect1.in_range(),
    ensures
        r == spec_rect_rect_mtv(*rect0, *rect1),
{
    let sum_width = rect0.get_width() + rect1.get_width();
    let sum_height = rect0.get_height() + rect1.get_height();

    let min_x = if rect0.get_min_x() < rect1.get_min_x() {
        rect0.get_min_x()
    } else {
        rect1.get_min_x()
    };
    let max_x = if rect0.get_max_x() > rect1.get_max_x() {
        rect0.get_max_x()
    } else {
        rect1.get_max_x()
    };
    let min_y = if rect0.get_min_y() < rect1.get_min_y() {
        rect0.get_min_y()
    } else {
        rect1.get_min_y()
    };
    let max_y = if rect0.get_max_y() > rect1.get_max_y() {
        rect0.get_max_y()
    } else {
        rect1.get_max_y()
    };

    let width = max_x - min_x;
    let height = max_y - min_y;

    if width < sum_width && height < sum_height {
        let mtv_x = if rect1.get_max_x() > rect0.get_max_x() {
            rect1.get_min_x() - rect0.get_max_x()
        } else {
            rect1.get_max_x() - rect0.get_min_x()
        };
        let mtv_y = if rect1.get_max_y() > rect0.get_max_y() {
            rect1.get_min_y() - rect0.get_max_y()
        } else {
            rect1.get_max_y() - rect0.get_min_y()
        };
        let abs_x = if mtv_x >= 0 {
            mtv_x
        } else {
            -mtv_x
        };
        let abs_y = if mtv_y >= 0 {
            mtv_y
        } else {
            -mtv_y
        };
        if abs_x > abs_y {
            Some(Vec2 { x: 0, y: mtv_y })
        } else {
            Some(Vec2 { x: mtv_x, y: 0 })
        }
    } else {
        None
    }
}


/// The least of four values.
pub open spec fn spec_min4(a: int, b: int, c: int, d: int) -> int {
    let m1 = if a < b {
        a
    } else {
        b
    };
    let m2 = if c < d {
        c
    } else {
        d
    };
    if m1 < m2 {
        m1
    } else {
        m2
    }
}

/// The circle-vs-rectangle minimum translation vector, by per-region
/// case analysis. With the center strictly inside the rectangle, the
/// push is toward the nearest edge (ties broken left, right, top,
/// bottom), with magnitude that edge's distance plus the radius. With
/// one of the circle's four cardinal points inside, the push is along
/// that axis. Otherwise the nearest rectangle corner decides: no
/// overlap when it is at least a radius away, else a push away from
/// that corner by the remaining depth.
pub open spec fn spec_circle_rectangle_mtv(circle: Circle, rect: Rectangle) -> Option<Vec2> {
    let r = circle.radius as int;
    let c = circle.center;
    let r_min_x = rect.bot_left.x as int;
    let r_max_x = rect.top_right.x as int;
    let r_min_y = rect.bot_left.y as int;
    let r_max_y = rect.top_right.y as int;
    let left_pt = Vec2 { x: (c.x - r) as i64, y: c.y };
    let right_pt = Vec2 { x: (c.x + r) as i64, y: c.y };
    let top_pt = Vec2 { x: c.x, y: (c.y + r) as i64 };
    let bot_pt = Vec2 { x: c.x, y: (c.y - r) as i64 };
    if spec_point_in_rect(c, rect) {
        let left = c.x - r_min_x;
        let right = r_max_x - c.x;
        let top = r_max_y - c.y;
        let bot = c.y - r_min_y;
        let m = spec_min4(left, right, top, bot);
        if m == left {
            Some(Vec2 { x: (-left - r) as i64, y: 0 })
        } else if m == right {
            Some(Vec2 { x: (right + r) as i64, y: 0 })
        } else if m == top {
            Some(Vec2 { x: 0, y: (top + r) as i64 })
        } else {
            Some(Vec2 { x: 0, y: (-bot - r) as i64 })
        }
    } else if spec_point_in_rect(left_pt, rect) {
        Some(Vec2 { x: (r_max_x - (c.x - r)) as i64, y: 0 })
    } else if spec_point_in_rect(right_pt, rect) {
        Some(Vec2 { x: (r_min_x - (c.x + r)) as i64, y: 0 })
    } else if spec_point_in_rect(top_pt, rect) {
        Some(Vec2 { x: 0, y: (r_min_y - (c.y + r)) as i64 })
    } else if spec_point_in_rect(bot_pt, rect) {
        Some(Vec2 { x: 0, y: (r_max_y - (c.y - r)) as i64 })
    } else {
        let r_tl = rect.spec_top_left();
        let r_tr = rect.top_right;
        let r_bl = rect.bot_left;
        let r_br = rect.spec_bot_right();
        let tl = spec_dist(c, r_tl);
        let tr = spec_dist(c, r_tr);
        let bl = spec_dist(c, r_bl);
        let br = spec_dist(c, r_br);
        let m = spec_min4(tl, tr, bl, br);
        if m >= r {
            None
        } else if m == tl {
            spec_corner_push(c, r_tl, r, tl)
        } else if m == tr {
            spec_corner_push(c, r_tr, r, tr)
        } else if m == bl {
            spec_corner_push(c, r_bl, r, bl)
        } else {
            spec_corner_push(c, r_br, r, br)
        }
    }
}

/// The push away from a corner the circle overlaps: along the axis
/// from the corner to the center, by the remaining depth.
pub open spec fn spec_corner_push(c: Vec2, corner: Vec2, r: int, dist: int) -> Option<Vec2> {
    let axis = spec_axis(corner, c);
    Some(
        Vec2 {
            x: spec_fp_mul(axis.0, r - dist) as i64,
            y: spec_fp_mul(axis.1, r - dist) as i64,
        },
    )
}

/// The smallest displacement of the circle that separates it from the
/// rectangle, or nothing when they do not overlap.
pub fn get_circle_rectangle_mtv(circle: &Circle, rect: &Rectangle) -> (res: Option<Vec2>)
    requires
        circle.in_range(),
        rect.in_range(),
    ensures
        res == spec_circle_rectangle_mtv(*circle, *rect),
{
    let r = circle.radius;
    let c = circle.center;
    let r_min_x = rect.get_min_x();
    let r_max_x = rect.get_max_x();
    let r_max_y = rect.get_max_y();
    let r_min_y = rect.get_min_y();

    if check_if_point_in_rectangle(&c, rect) {
        let left = c.x - r_min_x;
        let right = r_max_x - c.x;
        let top = r_max_y - c.y;
        let bot = c.y - r_min_y;
        let m1 = if left < right {
            left
        } else {
            right
        };
        let m2 = if top < bot {
            top
        } else {
            bot
        };
        let m = if m1 < m2 {
            m1
        } else {
            m2
        };
        if m == left {
            Some(Vec2 { x: -left - r, y: 0 })
        } else if m == right {
            Some(Vec2 { x: right + r, y: 0 })
        } else if m == top {
            Some(Vec2 { x: 0, y: top + r })
        } else {
            Some(Vec2 { x: 0, y: -bot - r })
        }
    } else if check_if_point_in_rectangle(&circle.get_left(), rect) {
        Some(Vec2 { x: r_max_x - (c.x - r), y: 0 })
    } else if check_if_point_in_rectangle(&circle.get_right(), rect) {
        Some(Vec2 { x: r_min_x - (c.x + r), y: 0 })
    } else if check_if_point_in_rectangle(&circle.get_top(), rect) {
        Some(Vec2 { x: 0, y: r_min_y - (c.y + r) })
    } else if check_if_point_in_rectangle(&circle.get_bot(), rect) {
        Some(Vec2 { x: 0, y: r_max_y - (c.y - r) })
    } else {
        let r_tl = rect.get_top_left();
        let r_tr = rect.get_top_right();
        let r_bl = rect.get_bot_left();
        let r_br = rect.get_bot_right();
        let tl = distance(c, r_tl);
        let tr = distance(c, r_tr);
        let bl = distance(c, r_bl);
        let br = distance(c, r_br);
        let m1 = if tl < tr {
            tl
        } else {
            tr
        };
        let m2 = if bl < br {
            bl
        } else {
            br
        };
        let m = if m1 < m2 {
            m1
        } else {
            m2
        };
        if m >= r {
            None
        } else if m == tl {
            Some(corner_push(c, r_tl, r, tl))
        } else if m == tr {
            Some(corner_push(c, r_tr, r, tr))
        } else if m == bl {
            Some(corner_push(c, r_bl, r, bl))
        } else {
            Some(corner_push(c, r_br, r, br))
        }
    }
}

/// The executable form of `spec_corner_push`.
fn corner_push(c: Vec2, corner: Vec2, r: i64, dist: i64) -> (v: Vec2)
    requires
        c.in_range(),
        corner.in_range(),
        0 <= dist < r,
        r <= 2 * MAX_COORD,
        dist == spec_dist(c, corner),
        is_sqrt(spec_dist2(c, corner), dist as int),
    ensures
        Some(v) == spec_corner_push(c, corner, r as int, dist as int),
{
    proof {
        lemma_dist2_symm(c, corner);
    }
    let dx = c.x - corner.x;
    let dy = c.y - corner.y;
    let (ax, ay) = unit_axis(dx, dy, dist);
    Vec2 { x: fp_mul(ax, r - dist), y: fp_mul(ay, r - dist) }
}

/// A circle whose center sits strictly inside the rectangle is pushed
/// toward its nearest edge — ties broken left, right, top, bottom —
/// with magnitude equal to that edge's distance plus the radius.
pub proof fn lemma_circle_inside_rect_mtv(circle: Circle, rect: Rectangle)
    requires
        spec_point_in_rect(circle.center, rect),
    ensures
        ({
            let r = circle.radius as int;
            let c = circle.center;
            let left = c.x - rect.bot_left.x;
            let right = rect.top_right.x - c.x;
            let top = rect.top_right.y - c.y;
            let bot = c.y - rect.bot_left.y;
            let m = spec_min4(left, right, top, bot);
            &&& m == left ==> spec_circle_rectangle_mtv(circle, rect) == Some(
                Vec2 { x: (-left - r) as i64, y: 0 },
            )
            &&& (m != left && m == right) ==> spec_circle_rectangle_mtv(circle, rect) == Some(
                Vec2 { x: (right + r) as i64, y: 0 },
            )
            &&& (m != left && m != right && m == top) ==> spec_circle_rectangle_mtv(circle, rect)
                == Some(Vec2 { x: 0, y: (top + r) as i64 })
            &&& (m != left && m != right && m != top) ==> spec_circle_rectangle_mtv(circle, rect)
                == Some(Vec2 { x: 0, y: (-bot - r) as i64 })
        }),
{
}

/// The circle's bounding box does not overlap the rectangle (touching
/// allowed).
pub open spec fn spec_boxes_separated(circle: Circle, rect: Rectangle) -> bool {
    ||| circle.center.x + circle.radius <= rect.bot_left.x
    ||| circle.center.x - circle.radius >= rect.top_right.x
    ||| circle.center.y + circle.radius <= rect.bot_left.y
    ||| circle.center.y - circle.radius >= rect.top_right.y
}

/// Zero overlap yields no vector: a circle separated from (or just
/// touching) the rectangle has no minimum translation vector.
pub proof fn lemma_separated_no_mtv(circle: Circle, rect: Rectangle)
    requires
        circle.in_range(),
        rect.in_range(),
        rect.bot_left.x <= rect.top_right.x,
        rect.bot_left.y <= rect.top_right.y,
        spec_boxes_separated(circle, rect),
    ensures
        spec_circle_rectangle_mtv(circle, rect) is None,
{
    let r = circle.radius as int;
    let c = circle.center;
    lemma_dist2_symm(c, rect.spec_top_left());
    lemma_dist2_symm(c, rect.top_right);
    lemma_dist2_symm(c, rect.bot_left);
    lemma_dist2_symm(c, rect.spec_bot_right());
    lemma_sqrt_exists_pos(spec_dist2(c, rect.spec_top_left()));
    lemma_sqrt_exists_pos(spec_dist2(c, rect.top_right));
    lemma_sqrt_exists_pos(spec_dist2(c, rect.bot_left));
    lemma_sqrt_exists_pos(spec_dist2(c, rect.spec_bot_right()));
    assert forall|corner: Vec2|
        (corner == rect.spec_top_left() || corner == rect.top_right || corner == rect.bot_left
            || corner == rect.spec_bot_right()) implies spec_dist(c, corner) >= r by {
        let gap = if c.x + r <= rect.bot_left.x {
            corner.x - c.x
        } else if c.x - r >= rect.top_right.x {
            c.x - corner.x
        } else if c.y + r <= rect.bot_left.y {
            corner.y - c.y
        } else {
            c.y - corner.y
        };
        assert(gap >= r);
        assert(spec_dist2(c, corner) >= gap * gap) by (nonlinear_arith)
            requires
                gap == corner.x - c.x || gap == c.x - corner.x || gap == corner.y - c.y || gap
                    == c.y - corner.y,
        ;
        assert(gap * gap >= r * r) by (nonlinear_arith)
            requires
                gap >= r >= 0,
            ;
        let d = spec_sqrt(spec_dist2(c, corner));
        assert(is_sqrt(spec_dist2(c, corner), d));
        lemma_sqrt_bounds(spec_dist2(c, corner), d, r);
    }
}

/// Every nonnegative number has a floor square root, so `spec_sqrt` is
/// meaningful.
proof fn lemma_sqrt_exists_pos(n: int)
    requires
        n >= 0,
    ensures
        is_sqrt(n, spec_sqrt(n)),
    decreases n,
{
    if n == 0 {
        assert(is_sqrt(0, 0));
    } else {
        lemma_sqrt_exists_pos(n - 1);
        let p = spec_sqrt(n - 1);
        assert(is_sqrt(n - 1, p));
        if n < (p + 1) * (p + 1) {
            assert(is_sqrt(n, p));
        } else {
            assert(n == (p + 1) * (p + 1));
            assert((p + 1 + 1) * (p + 1 + 1) > n) by (nonlinear_arith)
                requires
                    n == (p + 1) * (p + 1),
                    p >= 0,
                ;
            assert(is_sqrt(n, p + 1));
        }
    }
    let w = spec_sqrt(n);
}

/// Reflect a vector about a surface normal: subtract twice its
/// projection onto the unit normal.
pub fn reflect(vec: &Vec2, normal: &Vec2) -> (r: Vec2)
    requires
        vec.in_range(),
        normal.in_range(),
    ensures
        r == spec_reflect(*vec, *normal),
{
    let zero = Vec2 { x: 0, y: 0 };
    let nlen = distance(zero, *normal);
    let (nx, ny) = unit_axis(normal.x, normal.y, nlen);
    proof {
        crate::fixed::lemma_fp_mul_le(vec.x as int, nx as int);
        crate::fixed::lemma_fp_mul_le(vec.y as int, ny as int);
    }
    let dot = fp_mul(vec.x, nx) + fp_mul(vec.y, ny);
    proof {
        crate::fixed::lemma_fp_mul_le(dot as int, nx as int);
        crate::fixed::lemma_fp_mul_le(dot as int, ny as int);
    }
    Vec2 { x: vec.x - 2 * fp_mul(dot, nx), y: vec.y - 2 * fp_mul(dot, ny) }
}

/// What `reflect` computes: the vector minus twice its projection on
/// the normalized normal.
pub open spec fn spec_reflect(vec: Vec2, normal: Vec2) -> Vec2 {
    let zero = Vec2 { x: 0, y: 0 };
    let nlen = spec_dist(zero, normal);
    let n = if nlen > 0 {
        (spec_fp_div(normal.x as int, nlen), spec_fp_div(normal.y as int, nlen))
    } else {
        (FP_ONE as int, 0)
    };
    let dot = spec_fp_mul(vec.x as int, n.0) + spec_fp_mul(vec.y as int, n.1);
    Vec2 {
        x: (vec.x - 2 * spec_fp_mul(dot, n.0)) as i64,
        y: (vec.y - 2 * spec_fp_mul(dot, n.1)) as i64,
    }
}


/// The point a parameter `t` (fixed-point, `0..FP_ONE` spans the
/// segment) selects on a line from `(x1, y1)` along `(dx, dy)`.
pub open spec fn spec_line_point(x1: int, y1: int, dx: int, dy: int, t: int) -> Vec2 {
    Vec2 { x: (x1 + spec_fp_mul(t, dx)) as i64, y: (y1 + spec_fp_mul(t, dy)) as i64 }
}

/// Where a segment crosses a circle, by the quadratic in the segment
/// parameter: up to two hit points, the one nearer the segment start
/// first. A degenerate segment (both ends equal) yields no points.
pub open spec fn spec_line_circle(line: Line, circle: Circle) -> (Option<Vec2>, Option<Vec2>) {
    let x1 = line.s.x as int;
    let y1 = line.s.y as int;
    let dx = line.e.x - line.s.x;
    let dy = line.e.y - line.s.y;
    let cx = circle.center.x as int;
    let cy = circle.center.y as int;
    let r = circle.radius as int;
    let a = dx * dx + dy * dy;
    let b = 2 * (dx * (x1 - cx) + dy * (y1 - cy));
    let cc = (x1 - cx) * (x1 - cx) + (y1 - cy) * (y1 - cy) - r * r;
    let det = b * b - 4 * a * cc;
    if a == 0 {
        (None, None)
    } else {
        let t1 = if det == 0 {
            div_trunc(-b * FP_ONE, 2 * a)
        } else if det > 0 {
            div_trunc((-b + spec_sqrt(det)) * FP_ONE, 2 * a)
        } else {
            2 * FP_ONE
        };
        let t2 = if det > 0 {
            div_trunc((-b - spec_sqrt(det)) * FP_ONE, 2 * a)
        } else {
            2 * FP_ONE
        };
        let p1 = if 0 <= t1 <= FP_ONE {
            Some(spec_line_point(x1, y1, dx, dy, t1))
        } else {
            None
        };
        let p2 = if 0 <= t2 <= FP_ONE {
            Some(spec_line_point(x1, y1, dx, dy, t2))
        } else {
            None
        };
        if p1 is Some && p2 is None {
            (p1, None)
        } else if p1 is None && p2 is Some {
            (p2, None)
        } else if p1 is Some && p2 is Some {
            if spec_dist2(p1->0, line.s) <= spec_dist2(p2->0, line.s) {
                (p1, p2)
            } else {
                (p2, p1)
            }
        } else {
            (None, None)
        }
    }
}

/// The up-to-two points where the segment crosses the circle, nearer
/// one first.
pub fn intersect_line_with_circle(line: &Line, circle: &Circle) -> (res: (
    Option<Vec2>,
    Option<Vec2>,
))
    requires
        line.s.in_range(),
        line.e.in_range(),
        circle.in_range(),
    ensures
        res == spec_line_circle(*line, *circle),
{
    let x1 = line.s.x;
    let y1 = line.s.y;
    let dx = line.e.x - line.s.x;
    let dy = line.e.y - line.s.y;
    let rx = x1 - circle.center.x;
    let ry = y1 - circle.center.y;
    let r = circle.radius;
    proof {
        assert(0 <= (dx as int) * (dx as int) <= 1125899906842624int && 0 <= (dy as int) * (
        dy as int) <= 1125899906842624int && 0 <= (rx as int) * (rx as int)
            <= 1125899906842624int && 0 <= (ry as int) * (ry as int) <= 1125899906842624int && 0
            <= (r as int) * (r as int) <= 1125899906842624int && spec_abs(
            (dx as int) * (rx as int),
        ) <= 1125899906842624int && spec_abs((dy as int) * (ry as int)) <= 1125899906842624int)
            by (nonlinear_arith)
            requires
                spec_abs(dx as int) <= 33554432,
                spec_abs(dy as int) <= 33554432,
                spec_abs(rx as int) <= 33554432,
                spec_abs(ry as int) <= 33554432,
                0 <= r <= 33554432,
            ;
    }
    let a: i128 = (dx as i128) * (dx as i128) + (dy as i128) * (dy as i128);
    let b: i128 = 2 * ((dx as i128) * (rx as i128) + (dy as i128) * (ry as i128));
    let cc: i128 = (rx as i128) * (rx as i128) + (ry as i128) * (ry as i128) - (r as i128) * (
    r as i128);
    proof {
        assert(spec_abs(b as int) * spec_abs(b as int) <= 4503599627370496int
            * 4503599627370496int && (b as int) * (b as int) == spec_abs(b as int) * spec_abs(
            b as int,
        ) && (b as int) * (b as int) >= 0) by (nonlinear_arith)
            requires
                spec_abs(b as int) <= 4503599627370496int,
            ;
        assert(spec_abs(4 * (a as int) * (cc as int)) <= 4 * 2251799813685248int
            * 3377699720527872int) by (nonlinear_arith)
            requires
                0 <= a <= 2251799813685248int,
                spec_abs(cc as int) <= 3377699720527872int,
            ;
    }
    let det: i128 = b * b - 4 * a * cc;
    if a == 0 {
        return (None, None);
    }
    let two_fp: i128 = 2 * (FP_ONE as i128);
    let mut t1: i128 = two_fp;
    let mut t2: i128 = two_fp;
    if det == 0 {
        t1 = div_trunc_i128(-b * (FP_ONE as i128), 2 * a);
    } else if det > 0 {
        proof {
            assert((b as int) * (b as int) <= 20282409603651670423947251286016int);
            assert(spec_abs(4 * (a as int) * (cc as int))
                <= 30423614405477505635920876929024int);
            assert((det as int) <= 50706024009129176059868128215040int);
            assert((det as u128) as int == det as int);
            assert((det as u128) < 324518553658426726783156020576256u128);
        }
        let s_u = isqrt_u128(det as u128);
        proof {
            lemma_sqrt_bounds((det as u128) as int, s_u as int, 18014398509481984);
            lemma_sqrt_is(det as int, s_u as int);
        }
        let det_sqrt = s_u as i128;
        t1 = div_trunc_i128((-b + det_sqrt) * (FP_ONE as i128), 2 * a);
        t2 = div_trunc_i128((-b - det_sqrt) * (FP_ONE as i128), 2 * a);
    }
    let point0 = if 0 <= t1 && t1 <= FP_ONE as i128 {
        Some(line_point(x1, y1, dx, dy, t1 as i64))
    } else {
        None
    };
    let point1 = if 0 <= t2 && t2 <= FP_ONE as i128 {
        Some(line_point(x1, y1, dx, dy, t2 as i64))
    } else {
        None
    };
    match (point0, point1) {
        (Some(p0), None) => (Some(p0), None),
        (None, Some(p1)) => (Some(p1), None),
        (Some(p0), Some(p1)) => {
            let d0x = p0.x - line.s.x;
            let d0y = p0.y - line.s.y;
            let d1x = p1.x - line.s.x;
            let d1y = p1.y - line.s.y;
            proof {
                assert(spec_abs((d0x as int) * (d0x as int)) <= 9223372036854775807int
                    && spec_abs((d0y as int) * (d0y as int)) <= 9223372036854775807int
                    && spec_abs((d1x as int) * (d1x as int)) <= 9223372036854775807int
                    && spec_abs((d1y as int) * (d1y as int)) <= 9223372036854775807int)
                    by (nonlinear_arith)
                    requires
                        spec_abs(d0x as int) <= 134217728,
                        spec_abs(d0y as int) <= 134217728,
                        spec_abs(d1x as int) <= 134217728,
                        spec_abs(d1y as int) <= 134217728,
                    ;
            }
            let d0 = (d0x as i128) * (d0x as i128) + (d0y as i128) * (d0y as i128);
            let d1 = (d1x as i128) * (d1x as i128) + (d1y as i128) * (d1y as i128);
            proof {
                lemma_dist2_symm(p0, line.s);
                lemma_dist2_symm(p1, line.s);
                assert(d0 == spec_dist2(line.s, p0));
                assert(d1 == spec_dist2(line.s, p1));
            }
            if d0 <= d1 {
                (Some(p0), Some(p1))
            } else {
                (Some(p1), Some(p0))
            }
        },
        (None, None) => (None, None),
    }
}

/// The executable form of `spec_line_point`.
fn line_point(x1: i64, y1: i64, dx: i64, dy: i64, t: i64) -> (p: Vec2)
    requires
        fp_in_range(x1 as int),
        fp_in_range(y1 as int),
        spec_abs(dx as int) <= 2 * MAX_COORD,
        spec_abs(dy as int) <= 2 * MAX_COORD,
        0 <= t <= FP_ONE,
    ensures
        p == spec_line_point(x1 as int, y1 as int, dx as int, dy as int, t as int),
        spec_abs(p.x as int) <= 3 * MAX_COORD,
        spec_abs(p.y as int) <= 3 * MAX_COORD,
{
    proof {
        crate::fixed::lemma_fp_mul_le(dx as int, t as int);
        crate::fixed::lemma_fp_mul_le(dy as int, t as int);
        assert(spec_fp_mul(t as int, dx as int) == spec_fp_mul(dx as int, t as int));
        assert(spec_fp_mul(t as int, dy as int) == spec_fp_mul(dy as int, t as int));
    }
    Vec2 { x: x1 + fp_mul(t, dx), y: y1 + fp_mul(t, dy) }
}

} // verus!
