//! Shape decomposition and collision math on concrete values: the
//! rectangle's two-triangle split, the circle's sixteen-triangle fan,
//! and the minimum-translation vectors.

use minigfx::fixed::{FP_ONE, fp_div, fp_mul, half, isqrt_u64};
use minigfx::geometry::{
    check_if_point_in_rectangle, get_circle_circle_mtv, get_circle_rectangle_mtv,
    get_rectangle_rectangle_mtv, intersect_line_with_circle, reflect, rotate90,
};
use minigfx::shapes::{CIRCLE_N_TRIANGLES, Circle, Line, Rectangle, Triangle};
use minigfx::vectors::Vec2;

fn v(x: i64, y: i64) -> Vec2 {
    Vec2::new(x * FP_ONE, y * FP_ONE)
}

#[test]
fn rectangle_decomposes_into_two_ccw_triangles() {
    let r = Rectangle::new(v(1, 2), v(5, 6));
    let ts = r.get_triangles();
    assert_eq!(ts.len(), 2);

    let corners = [
        (FP_ONE, 2 * FP_ONE),
        (5 * FP_ONE, 2 * FP_ONE),
        (5 * FP_ONE, 6 * FP_ONE),
        (FP_ONE, 6 * FP_ONE),
    ];
    let mut seen = Vec::new();
    for t in ts.iter() {
        for p in [t.a, t.b, t.c] {
            assert_eq!(p.z, 0);
            assert!(corners.contains(&(p.x, p.y)));
            if !seen.contains(&(p.x, p.y)) {
                seen.push((p.x, p.y));
            }
        }
    }
    assert_eq!(seen.len(), 4);

    for t in ts.iter() {
        let cross = (t.b.x - t.a.x) as i128 * (t.c.y - t.a.y) as i128
            - (t.b.y - t.a.y) as i128 * (t.c.x - t.a.x) as i128;
        assert!(cross > 0);
    }
}

#[test]
fn circle_decomposes_into_closed_sixteen_fan() {
    let c = Circle::new(v(10, 10), 3 * FP_ONE);
    let ts = c.to_triangles();
    assert_eq!(ts.len(), CIRCLE_N_TRIANGLES);
    for (i, t) in ts.iter().enumerate() {
        assert_eq!((t.a.x, t.a.y), (10 * FP_ONE, 10 * FP_ONE));
        let next = &ts[(i + 1) % CIRCLE_N_TRIANGLES];
        assert_eq!((t.b.x, t.b.y), (next.c.x, next.c.y));
    }
    assert_eq!((ts[0].c.x, ts[0].c.y), (13 * FP_ONE, 10 * FP_ONE));
    assert_eq!((ts[4].c.x, ts[4].c.y), (10 * FP_ONE, 13 * FP_ONE));

    // All sixteen triangles are wound the same way.
    for t in ts.iter() {
        let cross = (t.b.x - t.a.x) as i128 * (t.c.y - t.a.y) as i128
            - (t.b.y - t.a.y) as i128 * (t.c.x - t.a.x) as i128;
        assert!(cross < 0);
    }
}

#[test]
fn circle_draw_is_forty_eight_vertices() {
    let mut r = minigfx::renderer::Renderer::new(800, 600, false);
    r.draw_circle(Circle::new(v(5, 5), 2 * FP_ONE), None, None).unwrap();
    assert_eq!(r.draw_calls.len(), 1);
    assert_eq!(r.draw_calls[0].count, 48);
    assert_eq!(r.vb_cpu.flags.len(), 48);
}

#[test]
fn circle_inside_rectangle_pushes_toward_nearest_edge() {
    let rect = Rectangle::new(v(0, 0), v(100, 100));
    let circle = Circle::new(v(10, 50), 5 * FP_ONE);
    let mtv = get_circle_rectangle_mtv(&circle, &rect).unwrap();
    assert_eq!(mtv, Vec2::new(-(10 + 5) * FP_ONE, 0));

    let circle_near_top = Circle::new(v(50, 92), 5 * FP_ONE);
    let mtv_top = get_circle_rectangle_mtv(&circle_near_top, &rect).unwrap();
    assert_eq!(mtv_top, Vec2::new(0, (8 + 5) * FP_ONE));
}

#[test]
fn separated_circle_and_rectangle_have_no_mtv() {
    let rect = Rectangle::new(v(0, 0), v(100, 100));
    let far = Circle::new(v(200, 50), 5 * FP_ONE);
    assert_eq!(get_circle_rectangle_mtv(&far, &rect), None);
    let touching = Circle::new(v(105, 50), 5 * FP_ONE);
    assert_eq!(get_circle_rectangle_mtv(&touching, &rect), None);
}

#[test]
fn circle_edge_overlap_pushes_along_axis() {
    let rect = Rectangle::new(v(0, 0), v(100, 100));
    // The circle's left cardinal point is inside the rectangle.
    let c = Circle::new(v(103, 50), 5 * FP_ONE);
    let mtv = get_circle_rectangle_mtv(&c, &rect).unwrap();
    // Push right: from the rectangle's right edge to the circle's left.
    assert_eq!(mtv, Vec2::new(100 * FP_ONE - (103 - 5) * FP_ONE, 0));
}

#[test]
fn circle_circle_mtv() {
    let c0 = Circle::new(v(0, 0), 3 * FP_ONE);
    let c1 = Circle::new(v(4, 0), 3 * FP_ONE);
    // Centers 4 units apart, radii sum 6: overlap depth 2, pushing c0 left.
    let mtv = get_circle_circle_mtv(&c0, &c1).unwrap();
    assert_eq!(mtv, Vec2::new(-2 * FP_ONE, 0));

    let c2 = Circle::new(v(10, 0), 3 * FP_ONE);
    assert_eq!(get_circle_circle_mtv(&c0, &c2), None);
}

#[test]
fn rect_rect_mtv() {
    let a = Rectangle::new(v(0, 0), v(10, 10));
    let b = Rectangle::new(v(8, 1), v(18, 9));
    // Overlap 2 on x, push left by -2.
    let mtv = get_rectangle_rectangle_mtv(&a, &b).unwrap();
    assert_eq!(mtv, Vec2::new(-2 * FP_ONE, 0));

    let c = Rectangle::new(v(30, 30), v(40, 40));
    assert_eq!(get_rectangle_rectangle_mtv(&a, &c), None);

    // Zero overlap: edge-on touching rectangles get no vector at all.
    let touching = Rectangle::new(v(10, 0), v(20, 10));
    assert_eq!(get_rectangle_rectangle_mtv(&a, &touching), None);
    let corner_touch = Rectangle::new(v(10, 10), v(20, 20));
    assert_eq!(get_rectangle_rectangle_mtv(&a, &corner_touch), None);
}

#[test]
fn line_circle_intersection_orders_by_distance() {
    let line = Line::new(v(-2, 0), v(2, 0));
    let circle = Circle::new(v(0, 0), FP_ONE);
    let (p0, p1) = intersect_line_with_circle(&line, &circle);
    assert_eq!(p0, Some(Vec2::new(-FP_ONE, 0)));
    assert_eq!(p1, Some(Vec2::new(FP_ONE, 0)));

    let missing = Line::new(v(-2, 5), v(2, 5));
    assert_eq!(intersect_line_with_circle(&missing, &circle), (None, None));
}

#[test]
fn reflect_about_vertical_normal() {
    let vel = Vec2::new(FP_ONE, -FP_ONE);
    let up_normal = Vec2::new(0, FP_ONE);
    assert_eq!(reflect(&vel, &up_normal), Vec2::new(FP_ONE, FP_ONE));
    // The whole scalar range is accepted.
    let fast = Vec2::new(16777216, -16777216);
    assert_eq!(reflect(&fast, &up_normal), Vec2::new(16777216, 16777216));
}

#[test]
fn rotate_and_point_in_rect() {
    assert_eq!(rotate90(&Vec2::new(FP_ONE, 0)), Vec2::new(0, FP_ONE));
    let rect = Rectangle::new(v(0, 0), v(10, 10));
    assert!(check_if_point_in_rectangle(&v(5, 5), &rect));
    assert!(!check_if_point_in_rectangle(&v(0, 5), &rect));
    assert!(!check_if_point_in_rectangle(&v(11, 5), &rect));
}

#[test]
fn rectangle_pivots_and_getters() {
    let r = Rectangle::from_center(v(10, 10), v(4, 6));
    assert_eq!(r.get_bot_left(), v(8, 7));
    assert_eq!(r.get_top_right(), v(12, 13));
    assert_eq!(r.get_width(), 4 * FP_ONE);
    assert_eq!(r.get_height(), 6 * FP_ONE);
    assert_eq!(r.get_center(), v(10, 10));
    assert_eq!(r.get_top_left(), v(8, 13));
    assert_eq!(r.get_bot_right(), v(12, 7));
    assert_eq!(r.get_bot_center(), v(10, 7));

    let tl = Rectangle::from_top_left(v(0, 10), v(4, 4));
    assert_eq!(tl.get_bot_left(), v(0, 6));
    let bc = Rectangle::from_bot_center(v(10, 0), v(4, 4));
    assert_eq!(bc.get_bot_left(), v(8, 0));
}

#[test]
fn triangle_vertices_roundtrip() {
    let t = Triangle::new_2d(v(0, 0), v(1, 0), v(0, 1));
    let vs = t.to_vertices();
    assert_eq!(vs[0], t.a);
    assert_eq!(vs[1], t.b);
    assert_eq!(vs[2], t.c);
}

#[test]
fn fixed_point_helpers() {
    assert_eq!(isqrt_u64(0), 0);
    assert_eq!(isqrt_u64(10), 3);
    assert_eq!(isqrt_u64(16), 4);
    assert_eq!(fp_mul(2 * FP_ONE, 3 * FP_ONE), 6 * FP_ONE);
    assert_eq!(fp_mul(-2 * FP_ONE, 3 * FP_ONE), -6 * FP_ONE);
    assert_eq!(fp_div(6 * FP_ONE, 3 * FP_ONE), 2 * FP_ONE);
    assert_eq!(half(-5), -2);
    assert_eq!(half(5), 2);
}
