//! The batching renderer's coalescing, splitting, no-op setters, frame
//! reset, the frame plan and the error paths, on concrete submissions.

use minigfx::color::Color;
use minigfx::common::{Camera, Projection, Texture, Transformation};
use minigfx::fixed::FP_ONE;
use minigfx::renderer::{MAX_N_VERTICES, RenderError, Renderer};
use minigfx::shapes::Rectangle;
use minigfx::vectors::{Vec2, Vec3};
use minigfx::vertex_buffer::VertexBufferCPU;

fn rect(x0: i64, y0: i64, x1: i64, y1: i64) -> Rectangle {
    Rectangle::new(Vec2::new(x0 * FP_ONE, y0 * FP_ONE), Vec2::new(x1 * FP_ONE, y1 * FP_ONE))
}

#[test]
fn coalescing_many_draws_one_call() {
    let mut r = Renderer::new(800, 600, false);
    for _ in 0..10 {
        r.draw_rect(rect(0, 0, 1, 1), None, None).unwrap();
    }
    assert_eq!(r.draw_calls.len(), 1);
    assert_eq!(r.draw_calls[0].start, 0);
    assert_eq!(r.draw_calls[0].count, 60);
    assert_eq!(r.vb_cpu.flags.len(), 60);
}

#[test]
fn scenario_two_calls_with_texture_switch() {
    let mut r = Renderer::new(800, 600, false);
    let tex = Texture::new(7, 64, 64);
    r.draw_rect(rect(0, 0, 1, 1), None, None).unwrap();
    r.set_tex(tex, false);
    r.draw_rect(rect(1, 1, 2, 2), None, None).unwrap();
    r.set_tex(tex, false);
    r.draw_rect(rect(2, 2, 3, 3), None, None).unwrap();
    assert_eq!(r.draw_calls.len(), 2);
    assert_eq!(r.draw_calls[0].start, 0);
    assert_eq!(r.draw_calls[0].count, 6);
    assert_eq!(r.draw_calls[0].tex, None);
    assert_eq!(r.draw_calls[1].start, 6);
    assert_eq!(r.draw_calls[1].count, 12);
    assert_eq!(r.draw_calls[1].tex, Some(tex));
}

#[test]
fn split_partitions_scratch_without_gaps() {
    let mut r = Renderer::new(800, 600, false);
    r.draw_rect(rect(0, 0, 1, 1), None, None).unwrap();
    r.set_depth_test(true);
    r.draw_rect(rect(0, 0, 1, 1), None, None).unwrap();
    r.draw_rect(rect(0, 0, 1, 1), None, None).unwrap();
    r.set_proj(Projection::new_2d(FP_ONE * 100, FP_ONE * 100));
    r.draw_rect(rect(0, 0, 1, 1), None, None).unwrap();
    assert_eq!(r.draw_calls.len(), 3);
    let mut expected_start = 0;
    for call in r.draw_calls.iter() {
        assert_eq!(call.vb_idx, 0);
        assert_eq!(call.start, expected_start);
        expected_start += call.count;
    }
    assert_eq!(expected_start, r.vb_cpu.flags.len());
}

#[test]
fn noop_setters_never_open_a_call() {
    let mut r = Renderer::new(800, 600, false);
    let tex = Texture::new(3, 16, 16);
    r.set_proj(Projection::new_screen((800, 600)));
    r.set_camera(Camera::new_screen((800, 600)));
    r.set_tex(tex, false);
    r.draw_rect(rect(0, 0, 1, 1), None, None).unwrap();
    let n_before = r.draw_calls.len();
    let count_before = r.draw_calls[n_before - 1].count;
    r.set_proj(Projection::new_screen((800, 600)));
    r.set_camera(Camera::new_screen((800, 600)));
    r.set_tex(tex, true);
    r.set_depth_test(false);
    assert_eq!(r.draw_calls.len(), n_before);
    assert_eq!(r.draw_calls[n_before - 1].count, count_before);
}

#[test]
fn changing_setter_on_empty_call_updates_in_place() {
    let mut r = Renderer::new(800, 600, false);
    r.set_proj(Projection::new_screen((800, 600)));
    r.set_camera(Camera::new_origin_2d());
    r.set_depth_test(true);
    assert_eq!(r.draw_calls.len(), 1);
    assert!(r.draw_calls[0].proj.is_some());
    assert!(r.draw_calls[0].camera.is_some());
    assert!(r.draw_calls[0].depth_test);
}

#[test]
fn frame_reset_clears_everything() {
    let mut r = Renderer::new(800, 600, false);
    r.set_proj(Projection::new_screen((800, 600)));
    r.set_camera(Camera::new_screen((800, 600)));
    r.draw_rect(rect(0, 0, 2, 2), None, Some(Color::white())).unwrap();
    r.draw_rect(rect(1, 1, 3, 3), None, None).unwrap();
    assert!(r.draw_calls.len() > 0);
    assert!(r.vb_cpu.flags.len() > 0);
    r.finish_frame();
    assert_eq!(r.draw_calls.len(), 0);
    assert_eq!(r.vb_cpu.flags.len(), 0);
    assert_eq!(r.vb_cpu.positions.len(), 0);
    assert_eq!(r.vb_cpu.colors.len(), 0);
    assert_eq!(r.vb_cpu.texcoords.len(), 0);
    assert_eq!(r.vb_cpu.normals.len(), 0);
}

#[test]
fn empty_frame_plans_no_steps() {
    let mut r = Renderer::new(800, 600, false);
    let plan = r.plan_frame(Color::white(), false).unwrap();
    assert_eq!(plan.steps.len(), 0);
    assert!(!plan.resolve_msaa);
    assert!(!plan.apply_postfx);
    r.finish_frame();
    assert_eq!(r.draw_calls.len(), 0);
}

#[test]
fn plan_requires_camera_and_projection() {
    let mut r = Renderer::new(800, 600, false);
    r.draw_rect(rect(0, 0, 1, 1), None, None).unwrap();
    let e = r.plan_frame(Color::black(), false);
    assert!(matches!(e, Err(RenderError::MissingCamera { call: 0 })));

    let mut r2 = Renderer::new(800, 600, false);
    r2.set_camera(Camera::new_screen((800, 600)));
    r2.draw_rect(rect(0, 0, 1, 1), None, None).unwrap();
    let e2 = r2.plan_frame(Color::black(), false);
    assert!(matches!(e2, Err(RenderError::MissingProjection { call: 0 })));
}

#[test]
fn plan_steps_bind_only_on_change() {
    let mut r = Renderer::new(800, 600, true);
    let tex = Texture::new(5, 8, 8);
    r.set_proj(Projection::new_screen((800, 600)));
    r.set_camera(Camera::new_screen((800, 600)));
    r.draw_rect(rect(0, 0, 1, 1), None, None).unwrap();
    r.set_tex(tex, false);
    r.draw_rect(rect(0, 0, 1, 1), None, None).unwrap();
    let plan = r.plan_frame(Color::black(), true).unwrap();
    assert!(plan.resolve_msaa);
    assert!(plan.apply_postfx);
    assert_eq!(plan.clear_color, Color::black());
    assert_eq!(plan.steps.len(), 2);
    assert!(plan.steps[0].bind_vertex_source);
    assert!(plan.steps[0].upload_scratch);
    assert!(!plan.steps[0].bind_texture);
    assert!(!plan.steps[1].bind_vertex_source);
    assert!(plan.steps[1].bind_texture);
    assert!(!plan.steps[0].indexed);
}

#[test]
fn static_buffer_draw_and_unknown_source() {
    let mut r = Renderer::new(800, 600, false);
    let mut vb = VertexBufferCPU::new_empty();
    vb.push_vertex(Vec3::new(0, 0, 0), None, None, None).unwrap();
    vb.push_vertex(Vec3::new(FP_ONE, 0, 0), None, None, None).unwrap();
    vb.push_vertex(Vec3::new(0, FP_ONE, 0), None, None, None).unwrap();
    let idx = r.load_vertex_buffer_from_cpu(&vb);
    assert_eq!(idx, 1);
    let t = Transformation::default();
    r.draw_vertex_buffer(idx, Some(t)).unwrap();
    assert_eq!(r.draw_calls.len(), 1);
    assert_eq!(r.draw_calls[0].vb_idx, 1);
    assert_eq!(r.draw_calls[0].count, 3);
    assert_eq!(r.draw_calls[0].transform, Some(t));

    let e = r.draw_vertex_buffer(9, None);
    assert!(matches!(e, Err(RenderError::UnknownVertexSource { idx: 9 })));
    let e0 = r.draw_vertex_buffer(0, None);
    assert!(matches!(e0, Err(RenderError::UnknownVertexSource { idx: 0 })));
}

#[test]
fn static_then_scratch_draw_opens_new_scratch_call() {
    let mut r = Renderer::new(800, 600, false);
    let mut vb = VertexBufferCPU::new_empty();
    vb.push_vertex(Vec3::new(0, 0, 0), None, None, None).unwrap();
    let idx = r.load_vertex_buffer_from_cpu(&vb);
    r.draw_vertex_buffer(idx, None).unwrap();
    r.draw_rect(rect(0, 0, 1, 1), None, None).unwrap();
    assert_eq!(r.draw_calls.len(), 2);
    assert_eq!(r.draw_calls[0].vb_idx, idx);
    assert_eq!(r.draw_calls[1].vb_idx, 0);
    assert_eq!(r.draw_calls[1].start, 0);
    assert_eq!(r.draw_calls[1].count, 6);
}

#[test]
fn scratch_capacity_is_enforced() {
    let mut r = Renderer::new(800, 600, false);
    let quads = MAX_N_VERTICES / 6;
    for _ in 0..quads {
        r.draw_rect(rect(0, 0, 1, 1), None, None).unwrap();
    }
    assert_eq!(r.vb_cpu.flags.len(), quads * 6);
    let e = r.draw_rect(rect(0, 0, 1, 1), None, None);
    assert!(matches!(e, Err(RenderError::ScratchFull)));
    assert_eq!(r.vb_cpu.flags.len(), quads * 6);
}
