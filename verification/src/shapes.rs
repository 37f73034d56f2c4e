//! Shape primitives — lines, triangles, rectangles, circles — their
//! constructors from pivots, and their decomposition into triangle lists
//! for the renderer: a rectangle into exactly two triangles, a circle
//! into a closed fan of `CIRCLE_N_TRIANGLES` triangles.

use vstd::prelude::*;

verus! {

use crate::common::{Pivot, PivotType};
use crate::fixed::{
    FP_ONE, MAX_COORD, div_trunc, fp_in_range, fp_mul, half, lemma_fp_mul_bounds,
    lemma_fp_mul_le, spec_abs, spec_fp_mul,
};
use crate::vectors::{Vec2, Vec3};

pub const CIRCLE_N_TRIANGLES: usize = 16;

/// A 2D line segment from `s` to `e`.
#[derive(Debug, Clone, Copy, PartialEq, Eq, Structural)]
pub struct Line {
    pub s: Vec2,
    pub e: Vec2,
}

impl Line {
    pub fn new(s: Vec2, e: Vec2) -> (l: Line)
        ensures
            l == (Line { s, e }),
    {
        Line { s, e }
    }
}

/// A triangle of three 3D corners.
#[derive(Debug, Clone, Copy, PartialEq, Eq, Structural)]
pub struct Triangle {
    pub a: Vec3,
    pub b: Vec3,
    pub c: Vec3,
}

/// A 2D point lifted into the z = 0 plane.
pub open spec fn spec_lift(p: Vec2) -> Vec3 {
    Vec3 { x: p.x, y: p.y, z: 0 }
}

impl Triangle {
    pub fn new(a: Vec3, b: Vec3, c: Vec3) -> (t: Triangle)
        ensures
            t == (Triangle { a, b, c }),
    {
        Triangle { a, b, c }
    }

    /// A triangle of three 2D corners, placed in the z = 0 plane.
    pub fn new_2d(a: Vec2, b: Vec2, c: Vec2) -> (t: Triangle)
        ensures
            t == (Triangle { a: spec_lift(a), b: spec_lift(b), c: spec_lift(c) }),
    {
        Triangle {
            a: Vec3 { x: a.x, y: a.y, z: 0 },
            b: Vec3 { x: b.x, y: b.y, z: 0 },
            c: Vec3 { x: c.x, y: c.y, z: 0 },
        }
    }

    pub fn to_vertices(&self) -> (vs: [Vec3; 3])
        ensures
            vs@ == seq![self.a, self.b, self.c],
    {
        let vs = [self.a, self.b, self.c];
        proof {
            assert(vs@ =~= seq![self.a, self.b, self.c]);
        }
        vs
    }
}

impl Default for Triangle {
    fn default() -> (t: Triangle)
        ensures
            t.a == (Vec3 { x: 0, y: 0, z: 0 }),
            t.b == (Vec3 { x: 0, y: 0, z: 0 }),
            t.c == (Vec3 { x: 0, y: 0, z: 0 }),
    {
        Triangle {
            a: Vec3 { x: 0, y: 0, z: 0 },
            b: Vec3 { x: 0, y: 0, z: 0 },
            c: Vec3 { x: 0, y: 0, z: 0 },
        }
    }
}

/// An axis-aligned rectangle between its bottom-left and top-right
/// corners.
#[derive(Debug, Clone, Copy, PartialEq, Eq, Structural)]
pub struct Rectangle {
    pub bot_left: Vec2,
    pub top_right: Vec2,
}

impl Rectangle {
    /// Both corners inside the scalar range.
    pub open spec fn in_range(self) -> bool {
        self.bot_left.in_range() && self.top_right.in_range()
    }

    pub open spec fn spec_top_left(self) -> Vec2 {
        Vec2 { x: self.bot_left.x, y: self.top_right.y }
    }

    pub open spec fn spec_bot_right(self) -> Vec2 {
        Vec2 { x: self.top_right.x, y: self.bot_left.y }
    }

    /// The two triangles the rectangle decomposes into, each
    /// counter-clockwise for a rectangle of positive width and height.
    pub open spec fn spec_triangles(self) -> (Triangle, Triangle) {
        (
            Triangle {
                a: spec_lift(self.spec_top_left()),
                b: spec_lift(self.bot_left),
                c: spec_lift(self.top_right),
            },
            Triangle {
                a: spec_lift(self.top_right),
                b: spec_lift(self.bot_left),
                c: spec_lift(self.spec_bot_right()),
            },
        )
    }

    pub fn new(bot_left: Vec2, top_right: Vec2) -> (r: Rectangle)
        ensures
            r == (Rectangle { bot_left, top_right }),
    {
        Rectangle { bot_left, top_right }
    }

    pub fn zeros() -> (r: Rectangle)
        ensures
            r == (Rectangle { bot_left: Vec2 { x: 0, y: 0 }, top_right: Vec2 { x: 0, y: 0 } }),
    {
        Rectangle { bot_left: Vec2 { x: 0, y: 0 }, top_right: Vec2 { x: 0, y: 0 } }
    }

    pub fn translate(&self, translation: &Vec2) -> (r: Rectangle)
        requires
            fp_in_range(self.bot_left.x + translation.x),
            fp_in_range(self.bot_left.y + translation.y),
            fp_in_range(self.top_right.x + translation.x),
            fp_in_range(self.top_right.y + translation.y),
        ensures
            r.bot_left.x == self.bot_left.x + translation.x,
            r.bot_left.y == self.bot_left.y + translation.y,
            r.top_right.x == self.top_right.x + translation.x,
            r.top_right.y == self.top_right.y + translation.y,
    {
        let mut rect = *self;
        rect.translate_assign(translation);
        rect
    }

    pub fn translate_assign(&mut self, translation: &Vec2)
        requires
            fp_in_range(old(self).bot_left.x + translation.x),
            fp_in_range(old(self).bot_left.y + translation.y),
            fp_in_range(old(self).top_right.x + translation.x),
            fp_in_range(old(self).top_right.y + translation.y),
        ensures
            final(self).bot_left.x == old(self).bot_left.x + translation.x,
            final(self).bot_left.y == old(self).bot_left.y + translation.y,
            final(self).top_right.x == old(self).top_right.x + translation.x,
            final(self).top_right.y == old(self).top_right.y + translation.y,
    {
        self.bot_left.x = self.bot_left.x + translation.x;
        self.bot_left.y = self.bot_left.y + translation.y;
        self.top_right.x = self.top_right.x + translation.x;
        self.top_right.y = self.top_right.y + translation.y;
    }

    pub fn translate_x_assign(&mut self, translation: i64)
        requires
            fp_in_range(old(self).bot_left.x + translation),
            fp_in_range(old(self).top_right.x + translation),
        ensures
            final(self).bot_left.x == old(self).bot_left.x + translation,
            final(self).top_right.x == old(self).top_right.x + translation,
            final(self).bot_left.y == old(self).bot_left.y,
            final(self).top_right.y == old(self).top_right.y,
    {
        self.bot_left.x = self.bot_left.x + translation;
        self.top_right.x = self.top_right.x + translation;
    }

    pub fn get_size(&self) -> (s: Vec2)
        requires
            self.in_range(),
        ensures
            s.x == self.top_right.x - self.bot_left.x,
            s.y == self.top_right.y - self.bot_left.y,
    {
        Vec2 { x: self.top_right.x - self.bot_left.x, y: self.top_right.y - self.bot_left.y }
    }

    pub fn get_width(&self) -> (w: i64)
        requires
            self.in_range(),
        ensures
            w == self.top_right.x - self.bot_left.x,
    {
        self.top_right.x - self.bot_left.x
    }

    pub fn get_height(&self) -> (h: i64)
        requires
            self.in_range(),
        ensures
            h == self.top_right.y - self.bot_left.y,
    {
        self.top_right.y - self.bot_left.y
    }

    pub fn get_center_x(&self) -> (x: i64)
        requires
            self.in_range(),
        ensures
            x == div_trunc(self.bot_left.x + self.top_right.x, 2),
    {
        half(self.bot_left.x + self.top_right.x)
    }

    pub fn get_min_x(&self) -> (x: i64)
        ensures
            x == self.bot_left.x,
    {
        self.bot_left.x
    }

    pub fn get_max_x(&self) -> (x: i64)
        ensures
            x == self.top_right.x,
    {
        self.top_right.x
    }

    pub fn get_max_y(&self) -> (y: i64)
        ensures
            y == self.top_right.y,
    {
        self.top_right.y
    }

    pub fn get_min_y(&self) -> (y: i64)
        ensures
            y == self.bot_left.y,
    {
        self.bot_left.y
    }

    pub fn get_bot_left(&self) -> (p: Vec2)
        ensures
            p == self.bot_left,
    {
        self.bot_left
    }

    pub fn get_top_right(&self) -> (p: Vec2)
        ensures
            p == self.top_right,
    {
        self.top_right
    }

    pub fn get_center(&self) -> (p: Vec2)
        requires
            self.in_range(),
        ensures
            p.x == self.bot_left.x + div_trunc(self.top_right.x - self.bot_left.x, 2),
            p.y == self.bot_left.y + div_trunc(self.top_right.y - self.bot_left.y, 2),
    {
        Vec2 {
            x: self.bot_left.x + half(self.top_right.x - self.bot_left.x),
            y: self.bot_left.y + half(self.top_right.y - self.bot_left.y),
        }
    }

    pub fn get_top_center(&self) -> (p: Vec2)
        requires
            self.in_range(),
        ensures
            p.x == self.top_right.x - div_trunc(self.top_right.x - self.bot_left.x, 2),
            p.y == self.top_right.y,
    {
        Vec2 {
            x: self.top_right.x - half(self.top_right.x - self.bot_left.x),
            y: self.top_right.y,
        }
    }

    pub fn get_bot_center(&self) -> (p: Vec2)
        requires
            self.in_range(),
        ensures
            p.x == self.bot_left.x + div_trunc(self.top_right.x - self.bot_left.x, 2),
            p.y == self.bot_left.y,
    {
        Vec2 {
            x: self.bot_left.x + half(self.top_right.x - self.bot_left.x),
            y: self.bot_left.y,
        }
    }

    pub fn get_bot_right(&self) -> (p: Vec2)
        ensures
            p == self.spec_bot_right(),
    {
        Vec2 { x: self.top_right.x, y: self.bot_left.y }
    }

    pub fn get_top_left(&self) -> (p: Vec2)
        ensures
            p == self.spec_top_left(),
    {
        Vec2 { x: self.bot_left.x, y: self.top_right.y }
    }

    pub fn get_left_center(&self) -> (p: Vec2)
        requires
            self.in_range(),
        ensures
            p.x == self.bot_left.x,
            p.y == self.bot_left.y + div_trunc(self.top_right.y - self.bot_left.y, 2),
    {
        Vec2 {
            x: self.bot_left.x,
            y: self.bot_left.y + half(self.top_right.y - self.bot_left.y),
        }
    }

    /// The rectangle of the given size whose pivot point sits at the
    /// pivot's anchor.
    pub fn from_pivot(pivot: Pivot, size: Vec2) -> (r: Rectangle)
        requires
            pivot.p.in_range(),
            size.in_range(),
            spec_from_pivot(pivot, size).in_range(),
        ensures
            r == spec_from_pivot(pivot, size),
    {
        match pivot.ty {
            PivotType::BotLeft => Self::from_bot_left(pivot.p, size),
            PivotType::TopLeft => Self::from_top_left(pivot.p, size),
            PivotType::BotRight => Self::from_bot_right(pivot.p, size),
            PivotType::TopRight => Self::from_top_right(pivot.p, size),
            PivotType::Center => Self::from_center(pivot.p, size),
            PivotType::TopCenter => Self::from_top_center(pivot.p, size),
            PivotType::BotCenter => Self::from_bot_center(pivot.p, size),
            PivotType::LeftCenter => Self::from_left_center(pivot.p, size),
            PivotType::RightCenter => Self::from_right_center(pivot.p, size),
        }
    }

    pub fn from_center(center: Vec2, size: Vec2) -> (r: Rectangle)
        requires
            center.in_range(),
            size.in_range(),
            spec_from_bot_left(
                Vec2 {
                    x: (center.x - div_trunc(size.x as int, 2)) as i64,
                    y: (center.y - div_trunc(size.y as int, 2)) as i64,
                },
                size,
            ).in_range(),
        ensures
            r == spec_from_bot_left(
                Vec2 {
                    x: (center.x - div_trunc(size.x as int, 2)) as i64,
                    y: (center.y - div_trunc(size.y as int, 2)) as i64,
                },
                size,
            ),
    {
        let bot_left = Vec2 { x: center.x - half(size.x), y: center.y - half(size.y) };
        Self::from_bot_left(bot_left, size)
    }

    pub fn from_left_center(left_center: Vec2, size: Vec2) -> (r: Rectangle)
        requires
            left_center.in_range(),
            size.in_range(),
            spec_from_bot_left(
                Vec2 { x: left_center.x, y: (left_center.y - div_trunc(size.y as int, 2)) as i64 },
                size,
            ).in_range(),
        ensures
            r == spec_from_bot_left(
                Vec2 { x: left_center.x, y: (left_center.y - div_trunc(size.y as int, 2)) as i64 },
                size,
            ),
    {
        let bot_left = Vec2 { x: left_center.x, y: left_center.y - half(size.y) };
        Self::from_bot_left(bot_left, size)
    }

    pub fn from_right_center(right_center: Vec2, size: Vec2) -> (r: Rectangle)
        requires
            right_center.in_range(),
            size.in_range(),
            spec_from_bot_left(
                Vec2 {
                    x: (right_center.x - size.x) as i64,
                    y: (right_center.y - div_trunc(size.y as int, 2)) as i64,
                },
                size,
            ).in_range(),
        ensures
            r == spec_from_bot_left(
                Vec2 {
                    x: (right_center.x - size.x) as i64,
                    y: (right_center.y - div_trunc(size.y as int, 2)) as i64,
                },
                size,
            ),
    {
        let bot_left = Vec2 { x: right_center.x - size.x, y: right_center.y - half(size.y) };
        Self::from_bot_left(bot_left, size)
    }

    pub fn from_top_left(top_left: Vec2, size: Vec2) -> (r: Rectangle)
        requires
            top_left.in_range(),
            size.in_range(),
            spec_from_bot_left(
                Vec2 { x: top_left.x, y: (top_left.y - size.y) as i64 },
                size,
            ).in_range(),
        ensures
            r == spec_from_bot_left(
                Vec2 { x: top_left.x, y: (top_left.y - size.y) as i64 },
                size,
            ),
    {
        let bot_left = Vec2 { x: top_left.x, y: top_left.y - size.y };
        Self::from_bot_left(bot_left, size)
    }

    pub fn from_top_right(top_right: Vec2, size: Vec2) -> (r: Rectangle)
        requires
            top_right.in_range(),
            size.in_range(),
            spec_from_bot_left(
                Vec2 { x: (top_right.x - size.x) as i64, y: (top_right.y - size.y) as i64 },
                size,
            ).in_range(),
        ensures
            r == spec_from_bot_left(
                Vec2 { x: (top_right.x - size.x) as i64, y: (top_right.y - size.y) as i64 },
                size,
            ),
    {
        let bot_left = Vec2 { x: top_right.x - size.x, y: top_right.y - size.y };
        Self::from_bot_left(bot_left, size)
    }

    pub fn from_top_center(top_center: Vec2, size: Vec2) -> (r: Rectangle)
        requires
            top_center.in_range(),
            size.in_range(),
            spec_from_bot_left(
                Vec2 {
                    x: (top_center.x - div_trunc(size.x as int, 2)) as i64,
                    y: (top_center.y - size.y) as i64,
                },
                size,
            ).in_range(),
        ensures
            r == spec_from_bot_left(
                Vec2 {
                    x: (top_center.x - div_trunc(size.x as int, 2)) as i64,
                    y: (top_center.y - size.y) as i64,
                },
                size,
            ),
    {
        let bot_left = Vec2 { x: top_center.x - half(size.x), y: top_center.y - size.y };
        Self::from_bot_left(bot_left, size)
    }

    pub fn from_bot_left(bot_left: Vec2, size: Vec2) -> (r: Rectangle)
        requires
            fp_in_range(bot_left.x as int),
            fp_in_range(bot_left.y as int),
            fp_in_range(bot_left.x + size.x),
            fp_in_range(bot_left.y + size.y),
        ensures
            r == spec_from_bot_left(bot_left, size),
    {
        Rectangle {
            bot_left,
            top_right: Vec2 { x: bot_left.x + size.x, y: bot_left.y + size.y },
        }
    }

    pub fn from_bot_right(bot_right: Vec2, size: Vec2) -> (r: Rectangle)
        requires
            bot_right.in_range(),
            size.in_range(),
            spec_from_bot_left(
                Vec2 { x: (bot_right.x - size.x) as i64, y: bot_right.y },
                size,
            ).in_range(),
        ensures
            r == spec_from_bot_left(
                Vec2 { x: (bot_right.x - size.x) as i64, y: bot_right.y },
                size,
            ),
    {
        let bot_left = Vec2 { x: bot_right.x - size.x, y: bot_right.y };
        Self::from_bot_left(bot_left, size)
    }

    pub fn from_bot_center(bot_center: Vec2, size: Vec2) -> (r: Rectangle)
        requires
            bot_center.in_range(),
            size.in_range(),
            spec_from_bot_left(
                Vec2 { x: (bot_center.x - div_trunc(size.x as int, 2)) as i64, y: bot_center.y },
                size,
            ).in_range(),
        ensures
            r == spec_from_bot_left(
                Vec2 { x: (bot_center.x - div_trunc(size.x as int, 2)) as i64, y: bot_center.y },
                size,
            ),
    {
        let bot_left = Vec2 { x: bot_center.x - half(size.x), y: bot_center.y };
        Self::from_bot_left(bot_left, size)
    }

    /// Decompose into exactly two triangles covering the rectangle.
    pub fn get_triangles(&self) -> (ts: [Triangle; 2])
        ensures
            ts@ == seq![self.spec_triangles().0, self.spec_triangles().1],
    {
        let t0 = Triangle::new_2d(self.get_top_left(), self.get_bot_left(), self.get_top_right());
        let t1 = Triangle::new_2d(self.get_top_right(), self.get_bot_left(), self.get_bot_right());
        let ts = [t0, t1];
        proof {
            assert(ts@ =~= seq![self.spec_triangles().0, self.spec_triangles().1]);
        }
        ts
    }

    /// The four corners, counter-clockwise from the bottom-left.
    pub fn get_vertices(&self) -> (vs: [Vec2; 4])
        ensures
            vs@ == seq![
                self.bot_left,
                self.spec_bot_right(),
                self.top_right,
                self.spec_top_left(),
            ],
    {
        let vs = [self.get_bot_left(), self.get_bot_right(), self.get_top_right(), self.get_top_left()];
        proof {
            assert(vs@ =~= seq![
                self.bot_left,
                self.spec_bot_right(),
                self.top_right,
                self.spec_top_left(),
            ]);
        }
        vs
    }
}

/// The rectangle with the given bottom-left corner and size.
pub open spec fn spec_from_bot_left(bot_left: Vec2, size: Vec2) -> Rectangle {
    Rectangle {
        bot_left,
        top_right: Vec2 { x: (bot_left.x + size.x) as i64, y: (bot_left.y + size.y) as i64 },
    }
}

/// Where `from_pivot` puts the rectangle for each pivot type.
pub open spec fn spec_from_pivot(pivot: Pivot, size: Vec2) -> Rectangle {
    let p = pivot.p;
    let half_x = div_trunc(size.x as int, 2);
    let half_y = div_trunc(size.y as int, 2);
    match pivot.ty {
        PivotType::BotLeft => spec_from_bot_left(p, size),
        PivotType::TopLeft => spec_from_bot_left(Vec2 { x: p.x, y: (p.y - size.y) as i64 }, size),
        PivotType::BotRight => spec_from_bot_left(Vec2 { x: (p.x - size.x) as i64, y: p.y }, size),
        PivotType::TopRight => spec_from_bot_left(
            Vec2 { x: (p.x - size.x) as i64, y: (p.y - size.y) as i64 },
            size,
        ),
        PivotType::Center => spec_from_bot_left(
            Vec2 { x: (p.x - half_x) as i64, y: (p.y - half_y) as i64 },
            size,
        ),
        PivotType::TopCenter => spec_from_bot_left(
            Vec2 { x: (p.x - half_x) as i64, y: (p.y - size.y) as i64 },
            size,
        ),
        PivotType::BotCenter => spec_from_bot_left(Vec2 { x: (p.x - half_x) as i64, y: p.y }, size),
        PivotType::LeftCenter => spec_from_bot_left(
            Vec2 { x: p.x, y: (p.y - half_y) as i64 },
            size,
        ),
        PivotType::RightCenter => spec_from_bot_left(
            Vec2 { x: (p.x - size.x) as i64, y: (p.y - half_y) as i64 },
            size,
        ),
    }
}

/// Twice the signed area of a triangle in the z = 0 plane; positive means
/// the corners run counter-clockwise.
pub open spec fn spec_cross_z(t: Triangle) -> int {
    (t.b.x - t.a.x) * (t.c.y - t.a.y) - (t.b.y - t.a.y) * (t.c.x - t.a.x)
}

/// The corners of a triangle, as a set.
pub open spec fn spec_tri_corners(t: Triangle) -> Set<Vec3> {
    set![t.a, t.b, t.c]
}

/// A rectangle's two triangles exactly cover its four corners, and both
/// run counter-clockwise when the rectangle has positive width and
/// height.
pub proof fn lemma_rect_triangles(r: Rectangle)
    requires
        r.bot_left.x < r.top_right.x,
        r.bot_left.y < r.top_right.y,
    ensures
        spec_tri_corners(r.spec_triangles().0) + spec_tri_corners(r.spec_triangles().1)
            =~= set![
            spec_lift(r.bot_left),
            spec_lift(r.spec_bot_right()),
            spec_lift(r.top_right),
            spec_lift(r.spec_top_left()),
        ],
        spec_cross_z(r.spec_triangles().0) > 0,
        spec_cross_z(r.spec_triangles().1) > 0,
{
    let w = r.top_right.x - r.bot_left.x;
    let h = r.top_right.y - r.bot_left.y;
    assert(spec_cross_z(r.spec_triangles().0) == w * h) by (nonlinear_arith)
        requires
            w == r.top_right.x - r.bot_left.x,
            h == r.top_right.y - r.bot_left.y,
        ;
    assert(spec_cross_z(r.spec_triangles().1) == w * h) by (nonlinear_arith)
        requires
            w == r.top_right.x - r.bot_left.x,
            h == r.top_right.y - r.bot_left.y,
        ;
    assert(w * h > 0) by (nonlinear_arith)
        requires
            w > 0,
            h > 0,
        ;
}


/// Truncated boundary points cannot flip a fan triangle: with every
/// component within one grid step of the exact product and the exact
/// signed area a fixed negative multiple of the squared radius, the
/// truncated area stays negative once the radius clears a few grid
/// steps.
proof fn lemma_fan_cross_neg(
    r: int,
    c1: int,
    s1: int,
    c0: int,
    s0: int,
    m1x: int,
    m1y: int,
    m2x: int,
    m2y: int,
)
    requires
        11 <= r <= 2 * MAX_COORD,
        -4096 <= c1 <= 4096,
        -4096 <= s1 <= 4096,
        -4096 <= c0 <= 4096,
        -4096 <= s0 <= 4096,
        c1 * s0 - s1 * c0 <= -6418432,
        -4096 < 4096 * m1x - c1 * r < 4096,
        -4096 < 4096 * m1y - s1 * r < 4096,
        -4096 < 4096 * m2x - c0 * r < 4096,
        -4096 < 4096 * m2y - s0 * r < 4096,
    ensures
        m1x * m2y - m1y * m2x < 0,
{
    let d1 = 4096 * m1x - c1 * r;
    let d2 = 4096 * m1y - s1 * r;
    let d3 = 4096 * m2x - c0 * r;
    let d4 = 4096 * m2y - s0 * r;
    let u1 = c1 * r + d1;
    let v1 = s0 * r + d4;
    let u2 = s1 * r + d2;
    let v2 = c0 * r + d3;
    let rr = r * r;
    let p = c1 * s0 - s1 * c0;
    let x1 = c1 * r;
    let z1 = s0 * r;
    let x2 = s1 * r;
    let z2 = c0 * r;
    assert(u1 * v1 == x1 * z1 + x1 * d4 + d1 * z1 + d1 * d4) by (nonlinear_arith)
        requires
            u1 == x1 + d1,
            v1 == z1 + d4,
        ;
    assert(x1 * z1 == c1 * s0 * rr) by (nonlinear_arith)
        requires
            x1 == c1 * r,
            z1 == s0 * r,
            rr == r * r,
        ;
    assert(x1 * d4 == (c1 * d4) * r) by (nonlinear_arith)
        requires
            x1 == c1 * r,
        ;
    assert(d1 * z1 == (s0 * d1) * r) by (nonlinear_arith)
        requires
            z1 == s0 * r,
        ;
    assert(u2 * v2 == x2 * z2 + x2 * d3 + d2 * z2 + d2 * d3) by (nonlinear_arith)
        requires
            u2 == x2 + d2,
            v2 == z2 + d3,
        ;
    assert(x2 * z2 == s1 * c0 * rr) by (nonlinear_arith)
        requires
            x2 == s1 * r,
            z2 == c0 * r,
            rr == r * r,
        ;
    assert(x2 * d3 == (s1 * d3) * r) by (nonlinear_arith)
        requires
            x2 == s1 * r,
        ;
    assert(d2 * z2 == (c0 * d2) * r) by (nonlinear_arith)
        requires
            z2 == c0 * r,
        ;
    assert(u1 * v1 == 16777216 * (m1x * m2y)) by (nonlinear_arith)
        requires
            u1 == 4096 * m1x,
            v1 == 4096 * m2y,
        ;
    assert(u2 * v2 == 16777216 * (m1y * m2x)) by (nonlinear_arith)
        requires
            u2 == 4096 * m1y,
            v2 == 4096 * m2x,
        ;
    assert(c1 * s0 * rr - s1 * c0 * rr == p * rr) by (nonlinear_arith)
        requires
            p == c1 * s0 - s1 * c0,
        ;
    assert(rr >= 11 * r) by (nonlinear_arith)
        requires
            r >= 11,
            rr == r * r,
        ;
    assert(p * rr <= -6418432 * rr) by (nonlinear_arith)
        requires
            p <= -6418432,
            rr >= 0,
        ;
    assert(-6418432 * rr <= -70602752 * r) by (nonlinear_arith)
        requires
            rr >= 11 * r,
        ;
    assert(spec_abs((c1 * d4) * r) <= 16777216 * r) by (nonlinear_arith)
        requires
            -4096 <= c1 <= 4096,
            -4096 < d4 < 4096,
            r >= 0,
        ;
    assert(spec_abs((s0 * d1) * r) <= 16777216 * r) by (nonlinear_arith)
        requires
            -4096 <= s0 <= 4096,
            -4096 < d1 < 4096,
            r >= 0,
        ;
    assert(spec_abs((s1 * d3) * r) <= 16777216 * r) by (nonlinear_arith)
        requires
            -4096 <= s1 <= 4096,
            -4096 < d3 < 4096,
            r >= 0,
        ;
    assert(spec_abs((c0 * d2) * r) <= 16777216 * r) by (nonlinear_arith)
        requires
            -4096 <= c0 <= 4096,
            -4096 < d2 < 4096,
            r >= 0,
        ;
    assert(spec_abs(d1 * d4) <= 16777216 && spec_abs(d2 * d3) <= 16777216) by (nonlinear_arith)
        requires
            -4096 < d1 < 4096,
            -4096 < d2 < 4096,
            -4096 < d3 < 4096,
            -4096 < d4 < 4096,
        ;
    assert(16777216 * (m1x * m2y - m1y * m2x) <= -70602752 * r + 4 * (16777216 * r) + 2
        * 16777216);
    assert(16777216 * (m1x * m2y - m1y * m2x) < 0);
}

/// All sixteen fan triangles are wound the same way: each has strictly
/// negative doubled signed area. Boundary points are truncated to the
/// fixed-point grid, so a triangle thinner than a few grid steps could
/// collapse; a radius of at least eleven grid steps (well under one
/// whole unit) rules that out.
pub proof fn lemma_circle_fan_winding(c: Circle, k: int)
    requires
        c.in_range(),
        c.radius >= 11,
        0 <= k < CIRCLE_N_TRIANGLES,
    ensures
        spec_cross_z(spec_circle_triangle(c, k)) < 0,
{
    let r = c.radius as int;
    let nk: int = if k == 15 {
        0
    } else {
        k + 1
    };
    let c1 = spec_circle_cos(nk);
    let s1 = spec_circle_sin(nk);
    let c0 = spec_circle_cos(k);
    let s0 = spec_circle_sin(k);
    assert(c1 * s0 - s1 * c0 <= -6418432);
    let m1x = spec_fp_mul(r, c1);
    let m1y = spec_fp_mul(r, s1);
    let m2x = spec_fp_mul(r, c0);
    let m2y = spec_fp_mul(r, s0);
    lemma_fp_mul_bounds(r, c1);
    lemma_fp_mul_bounds(r, s1);
    lemma_fp_mul_bounds(r, c0);
    lemma_fp_mul_bounds(r, s0);
    lemma_fp_mul_le(r, c1);
    lemma_fp_mul_le(r, s1);
    lemma_fp_mul_le(r, c0);
    lemma_fp_mul_le(r, s0);
    assert(r * c1 == c1 * r && r * s1 == s1 * r && r * c0 == c0 * r && r * s0 == s0 * r)
        by (nonlinear_arith);
    assert(-4096 < 4096 * m1x - c1 * r < 4096);
    assert(-4096 < 4096 * m1y - s1 * r < 4096);
    assert(-4096 < 4096 * m2x - c0 * r < 4096);
    assert(-4096 < 4096 * m2y - s0 * r < 4096);
    let t = spec_circle_triangle(c, k);
    assert(t.b.x - t.a.x == m1x);
    assert(t.b.y - t.a.y == m1y);
    assert(t.c.x - t.a.x == m2x);
    assert(t.c.y - t.a.y == m2y);
    lemma_fan_cross_neg(r, c1, s1, c0, s0, m1x, m1y, m2x, m2y);
}

/// A circle: a 2D center and a radius.
#[derive(Debug, Clone, Copy, PartialEq, Eq, Structural)]
pub struct Circle {
    pub center: Vec2,
    pub radius: i64,
}

/// Numerator of the cosine of the k-th of 16 equally spaced angles around
/// the circle, in units of `1 / FP_ONE`.
pub open spec fn spec_circle_cos(k: int) -> int {
    if k == 0 {
        4096
    } else if k == 1 {
        3784
    } else if k == 2 {
        2896
    } else if k == 3 {
        1567
    } else if k == 4 {
        0
    } else if k == 5 {
        -1567
    } else if k == 6 {
        -2896
    } else if k == 7 {
        -3784
    } else if k == 8 {
        -4096
    } else if k == 9 {
        -3784
    } else if k == 10 {
        -2896
    } else if k == 11 {
        -1567
    } else if k == 12 {
        0
    } else if k == 13 {
        1567
    } else if k == 14 {
        2896
    } else if k == 15 {
        3784
    } else {
        0
    }
}

/// Numerator of the sine of the k-th of 16 equally spaced angles around
/// the circle, in units of `1 / FP_ONE`.
pub open spec fn spec_circle_sin(k: int) -> int {
    if k <= 3 {
        spec_circle_cos(4 - k)
    } else if k <= 15 {
        spec_circle_cos(k - 4)
    } else {
        0
    }
}

/// The k-th boundary point of a circle: the center offset by the radius
/// along the k-th unit direction.
pub open spec fn spec_circle_point(c: Circle, k: int) -> Vec2 {
    Vec2 {
        x: (c.center.x + spec_fp_mul(c.radius as int, spec_circle_cos(k))) as i64,
        y: (c.center.y + spec_fp_mul(c.radius as int, spec_circle_sin(k))) as i64,
    }
}

/// The k-th fan triangle of a circle: the center plus two adjacent
/// boundary points.
pub open spec fn spec_circle_triangle(c: Circle, k: int) -> Triangle {
    Triangle {
        a: spec_lift(c.center),
        b: spec_lift(spec_circle_point(c, if k == 15 { 0 } else { k + 1 })),
        c: spec_lift(spec_circle_point(c, k)),
    }
}

impl Circle {
    /// Center in range, radius nonnegative, and the whole circle inside
    /// the scalar range.
    pub open spec fn in_range(self) -> bool {
        &&& self.center.in_range()
        &&& 0 <= self.radius
        &&& fp_in_range(self.center.x - self.radius)
        &&& fp_in_range(self.center.x + self.radius)
        &&& fp_in_range(self.center.y - self.radius)
        &&& fp_in_range(self.center.y + self.radius)
    }

    pub fn zeros() -> (c: Circle)
        ensures
            c == (Circle { center: Vec2 { x: 0, y: 0 }, radius: 0 }),
    {
        Circle { center: Vec2 { x: 0, y: 0 }, radius: 0 }
    }

    pub fn new(center: Vec2, radius: i64) -> (c: Circle)
        ensures
            c == (Circle { center, radius }),
    {
        Circle { center, radius }
    }

    pub fn get_left(&self) -> (p: Vec2)
        requires
            self.in_range(),
        ensures
            p == (Vec2 { x: (self.center.x - self.radius) as i64, y: self.center.y }),
    {
        Vec2 { x: self.center.x - self.radius, y: self.center.y }
    }

    pub fn get_right(&self) -> (p: Vec2)
        requires
            self.in_range(),
        ensures
            p == (Vec2 { x: (self.center.x + self.radius) as i64, y: self.center.y }),
    {
        Vec2 { x: self.center.x + self.radius, y: self.center.y }
    }

    pub fn get_top(&self) -> (p: Vec2)
        requires
            self.in_range(),
        ensures
            p == (Vec2 { x: self.center.x, y: (self.center.y + self.radius) as i64 }),
    {
        Vec2 { x: self.center.x, y: self.center.y + self.radius }
    }

    pub fn get_bot(&self) -> (p: Vec2)
        requires
            self.in_range(),
        ensures
            p == (Vec2 { x: self.center.x, y: (self.center.y - self.radius) as i64 }),
    {
        Vec2 { x: self.center.x, y: self.center.y - self.radius }
    }

    pub fn get_min_x(&self) -> (x: i64)
        requires
            self.in_range(),
        ensures
            x == self.center.x - self.radius,
    {
        self.center.x - self.radius
    }

    pub fn get_max_x(&self) -> (x: i64)
        requires
            self.in_range(),
        ensures
            x == self.center.x + self.radius,
    {
        self.center.x + self.radius
    }

    pub fn get_max_y(&self) -> (y: i64)
        requires
            self.in_range(),
        ensures
            y == self.center.y + self.radius,
    {
        self.center.y + self.radius
    }

    pub fn get_min_y(&self) -> (y: i64)
        requires
            self.in_range(),
        ensures
            y == self.center.y - self.radius,
    {
        self.center.y - self.radius
    }

    pub fn from_bot(bot: Vec2, radius: i64) -> (c: Circle)
        requires
            fp_in_range(bot.x as int),
            fp_in_range(bot.y + radius),
        ensures
            c == (Circle { center: Vec2 { x: bot.x, y: (bot.y + radius) as i64 }, radius }),
    {
        Circle { center: Vec2 { x: bot.x, y: bot.y + radius }, radius }
    }

    /// Decompose into a closed fan of `CIRCLE_N_TRIANGLES` triangles
    /// around the center.
    pub fn to_triangles(&self) -> (ts: Vec<Triangle>)
        requires
            self.in_range(),
        ensures
            ts@.len() == CIRCLE_N_TRIANGLES,
            forall|k: int| 0 <= k < CIRCLE_N_TRIANGLES ==> ts@[k] == spec_circle_triangle(*self, k),
    {
        let mut ts: Vec<Triangle> = Vec::new();
        let mut i: usize = 0;
        while i < CIRCLE_N_TRIANGLES
            invariant
                self.in_range(),
                i <= CIRCLE_N_TRIANGLES,
                ts@.len() == i,
                forall|k: int| 0 <= k < i ==> ts@[k] == spec_circle_triangle(*self, k),
            decreases CIRCLE_N_TRIANGLES - i,
        {
            let j = if i == 15 {
                0
            } else {
                i + 1
            };
            let b = self.boundary_point(j);
            let c = self.boundary_point(i);
            ts.push(Triangle::new_2d(self.center, b, c));
            i += 1;
        }
        ts
    }

    /// The k-th of the 16 boundary points.
    pub fn boundary_point(&self, k: usize) -> (p: Vec2)
        requires
            self.in_range(),
            k < CIRCLE_N_TRIANGLES,
        ensures
            p == spec_circle_point(*self, k as int),
    {
        let cos_num = circle_cos_num(k);
        let sin_num = circle_sin_num(k);
        proof {
            lemma_fp_mul_le(self.radius as int, cos_num as int);
            lemma_fp_mul_le(self.radius as int, sin_num as int);
        }
        let dx = fp_mul(self.radius, cos_num);
        let dy = fp_mul(self.radius, sin_num);
        Vec2 { x: self.center.x + dx, y: self.center.y + dy }
    }
}

/// Executable table of `spec_circle_cos`.
pub fn circle_cos_num(k: usize) -> (r: i64)
    requires
        k < CIRCLE_N_TRIANGLES,
    ensures
        r == spec_circle_cos(k as int),
        -FP_ONE <= r <= FP_ONE,
{
    let table: [i64; 16] = [
        4096,
        3784,
        2896,
        1567,
        0,
        -1567,
        -2896,
        -3784,
        -4096,
        -3784,
        -2896,
        -1567,
        0,
        1567,
        2896,
        3784,
    ];
    table[k]
}

/// Executable table of `spec_circle_sin`.
pub fn circle_sin_num(k: usize) -> (r: i64)
    requires
        k < CIRCLE_N_TRIANGLES,
    ensures
        r == spec_circle_sin(k as int),
        -FP_ONE <= r <= FP_ONE,
{
    let table: [i64; 16] = [
        0,
        1567,
        2896,
        3784,
        4096,
        3784,
        2896,
        1567,
        0,
        -1567,
        -2896,
        -3784,
        -4096,
        -3784,
        -2896,
        -1567,
    ];
    table[k]
}

/// The circle fan is closed: every triangle is anchored at the center,
/// and each triangle's second corner is the next triangle's third.
pub proof fn lemma_circle_fan(c: Circle)
    ensures
        forall|k: int|
            0 <= k < CIRCLE_N_TRIANGLES ==> spec_circle_triangle(c, k).a == spec_lift(c.center),
        forall|k: int|
            0 <= k < CIRCLE_N_TRIANGLES ==> spec_circle_triangle(c, k).b == spec_circle_triangle(
                c,
                if k == 15 {
                    0
                } else {
                    k + 1
                },
            ).c,
{
}

} // verus!
