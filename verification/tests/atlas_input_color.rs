//! The glyph atlas (packing, quads, text layout), key states, colors,
//! the shader-argument map, vertex-buffer behavior and texture-data
//! loading, on concrete values.

use minigfx::color::Color;
use minigfx::common::{Pivot, Program, ProgramArg};
use minigfx::fixed::FP_ONE;
use minigfx::glyph_atlas::{GlyphAtlas, GlyphError, GlyphMetrics, RasterGlyph, ceil_sqrt};
use minigfx::input::KeyStates;
use minigfx::renderer::{PixelFormat, RenderError, load_texture_data_from_png, texture_format_for};
use minigfx::vectors::{Vec2, Vec3};
use minigfx::vertex_buffer::{
    MeshPolygon, RawMeshData, VertexBufferCPU, VertexBufferError, VertexFlag,
};

fn ascii_raster_glyphs() -> Vec<RasterGlyph> {
    // 95 one-pixel glyphs; each bitmap byte is the glyph's index.
    let mut glyphs = Vec::new();
    for i in 0..95u32 {
        glyphs.push(RasterGlyph {
            metrics: GlyphMetrics {
                width: 1,
                height: 1,
                xmin: 0,
                ymin: 0,
                advance_x: 2 * FP_ONE,
                advance_y: 0,
            },
            bitmap: vec![i as u8],
        });
    }
    glyphs
}

#[test]
fn atlas_grid_and_pixels() {
    let raster = ascii_raster_glyphs();
    let atlas = GlyphAtlas::from_raster_glyphs(&raster, 16, FP_ONE, -FP_ONE / 4).unwrap();
    // Cells are 3x3 (1 + 2 padding); ceil(sqrt(95)) = 10 cells per row.
    assert_eq!(atlas.image_width, 30);
    assert_eq!(atlas.image_height, 30);
    assert_eq!(atlas.pixels.len(), 900);
    assert_eq!(atlas.glyphs.len(), 95);
    assert_eq!(atlas.font_size, 16);

    // Glyph 0 sits at packed row 0, column 0; the flip puts packed row
    // r at final row 29 - r.
    assert_eq!(atlas.pixels[29 * 30 + 0], 0);
    // Glyph 1 sits at packed (0, 3).
    assert_eq!(atlas.pixels[29 * 30 + 3], 1);
    // Glyph 10 starts the second grid row: packed (3, 0).
    assert_eq!(atlas.pixels[(29 - 3) * 30 + 0], 10);
    // Padding stays zero.
    assert_eq!(atlas.pixels[29 * 30 + 1], 0);
    assert_eq!(atlas.pixels[0], 0);
}

#[test]
fn atlas_quads_match_grid() {
    let raster = ascii_raster_glyphs();
    let atlas = GlyphAtlas::from_raster_glyphs(&raster, 16, FP_ONE, 0).unwrap();
    assert!(atlas.check_wf());
    let g0 = atlas.glyphs[0];
    assert_eq!(g0.rect.bot_left, Vec2::new(0, 0));
    assert_eq!(g0.rect.top_right, Vec2::new(FP_ONE, FP_ONE));
    // Texcoords in atlas pixels: cell (0,0), image height 30, glyph 1px.
    assert_eq!(g0.texcoords.bot_left, Vec2::new(0, 29 * FP_ONE));
    assert_eq!(g0.texcoords.top_right, Vec2::new(FP_ONE, 30 * FP_ONE));
    assert_eq!(g0.advance, Vec2::new(2 * FP_ONE, 0));
    // Glyph 11: grid cell row 1, column 1.
    let g11 = atlas.glyphs[11];
    assert_eq!(g11.texcoords.bot_left, Vec2::new(3 * FP_ONE, 26 * FP_ONE));
    assert_eq!(g11.texcoords.top_right, Vec2::new(4 * FP_ONE, 27 * FP_ONE));
}

#[test]
fn atlas_refusals() {
    let none: Vec<RasterGlyph> = Vec::new();
    assert!(matches!(
        GlyphAtlas::from_raster_glyphs(&none, 16, 0, 0),
        Err(GlyphError::NoGlyphs)
    ));
    let bad = vec![RasterGlyph {
        metrics: GlyphMetrics { width: 2, height: 2, xmin: 0, ymin: 0, advance_x: 0, advance_y: 0 },
        bitmap: vec![1, 2, 3],
    }];
    assert!(matches!(
        GlyphAtlas::from_raster_glyphs(&bad, 16, 0, 0),
        Err(GlyphError::BadBitmap)
    ));
}

#[test]
fn text_layout_walks_advances() {
    let raster = ascii_raster_glyphs();
    let atlas = GlyphAtlas::from_raster_glyphs(&raster, 16, FP_ONE, 0).unwrap();
    assert!(atlas.check_wf());
    let size = atlas.get_text_size("abc");
    assert_eq!(size, Vec2::new(6 * FP_ONE, FP_ONE));

    let laid = atlas.layout_text(Pivot::bot_left(Vec2::new(0, 0)), "ab").unwrap();
    assert_eq!(laid.len(), 2);
    assert_eq!(laid[0].rect.bot_left, Vec2::new(0, 0));
    assert_eq!(laid[1].rect.bot_left, Vec2::new(2 * FP_ONE, 0));

    // A bottom-center pivot shifts the block left by half its width.
    let centered = atlas.layout_text(Pivot::bot_center(Vec2::new(0, 0)), "ab").unwrap();
    assert_eq!(centered[0].rect.bot_left, Vec2::new(-2 * FP_ONE, 0));

    // The fallback glyph is the question mark's slot.
    let g = atlas.get_glyph('\u{00e9}');
    assert_eq!(g, atlas.glyphs[('?' as usize) - 32]);

    assert!(matches!(
        atlas.layout_text(Pivot::top_right(Vec2::new(0, 0)), "ab"),
        Err(GlyphError::UnsupportedPivot)
    ));
}

#[test]
fn empty_text_lays_out_empty() {
    let raster = ascii_raster_glyphs();
    let atlas = GlyphAtlas::from_raster_glyphs(&raster, 16, FP_ONE, 0).unwrap();
    assert!(atlas.check_wf());
    assert_eq!(atlas.get_text_size(""), Vec2::new(0, 0));
    let laid = atlas.layout_text(Pivot::center(Vec2::new(0, 0)), "").unwrap();
    assert_eq!(laid.len(), 0);
}

#[test]
fn cursor_rect_spans_descent_to_ascent() {
    let raster = ascii_raster_glyphs();
    let atlas = GlyphAtlas::from_raster_glyphs(&raster, 20, FP_ONE, -FP_ONE).unwrap();
    let r = atlas.get_cursor_rect(Vec2::new(0, 0));
    assert_eq!(r.bot_left, Vec2::new(0, -FP_ONE));
    assert_eq!(r.top_right, Vec2::new(20 * FP_ONE / 10, FP_ONE));
}

#[test]
fn ceil_sqrt_values() {
    assert_eq!(ceil_sqrt(0), 0);
    assert_eq!(ceil_sqrt(1), 1);
    assert_eq!(ceil_sqrt(95), 10);
    assert_eq!(ceil_sqrt(100), 10);
    assert_eq!(ceil_sqrt(101), 11);
}

#[test]
fn key_states_track_frames() {
    let mut ks = KeyStates::new();
    ks.press(65);
    assert!(ks.is_just_pressed(65));
    assert!(ks.is_just_repeated(65));
    assert!(ks.is_just_pressed_any());

    ks.clear();
    assert!(!ks.is_just_pressed(65));
    assert!(!ks.is_just_repeated(65));
    assert!(!ks.is_just_pressed_any());

    // A repeat of a held key is repeated but not freshly pressed.
    ks.press(65);
    assert!(!ks.is_just_pressed(65));
    assert!(ks.is_just_repeated(65));

    ks.release(65);
    ks.press(65);
    assert!(ks.is_just_pressed(65));
}

#[test]
fn color_operations() {
    let c = Color::white().lerp(FP_ONE / 2, Color::black());
    assert_eq!(c, Color::new(FP_ONE / 2, FP_ONE / 2, FP_ONE / 2, FP_ONE));
    assert_eq!(Color::red().with_alpha(0), Color::new(FP_ONE, 0, 0, 0));
    assert_eq!(Color::gray(100, 200), Color::new(100, 100, 100, 200));
    assert_eq!(Color::black().add_white(10), Color::new(10, 10, 10, FP_ONE));
    assert_eq!(Color::blue().as_arr(), [0, 0, FP_ONE, FP_ONE]);
    assert_eq!(Color::zeros(), Color::new(0, 0, 0, 0));
}

#[test]
fn program_args_replace_by_name() {
    let mut p = Program::new(3);
    p.set_arg("u_color", ProgramArg::ColorArg(Color::red()));
    p.set_arg("u_time", ProgramArg::FloatArg(7));
    p.set_arg("u_color", ProgramArg::ColorArg(Color::blue()));
    assert_eq!(p.get_arg("u_color"), Some(ProgramArg::ColorArg(Color::blue())));
    assert_eq!(p.get_arg("u_time"), Some(ProgramArg::FloatArg(7)));
    assert_eq!(p.get_arg("u_other"), None);
    assert_eq!(p.arg_names.len(), 2);
}

#[test]
fn push_vertex_rejected_on_indexed_buffer() {
    let mut vb = VertexBufferCPU::new(
        vec![0, 0, 0],
        vec![0, 0, 0],
        vec![0, 0, 0, 0],
        vec![0, 0],
        vec![0],
        Some(vec![0, 0, 0]),
    );
    let e = vb.push_vertex(Vec3::new(1, 2, 3), None, None, None);
    assert_eq!(e, Err(VertexBufferError::IndexedPush));
    assert_eq!(vb.positions.len(), 3);
}

#[test]
fn push_vertex_fills_attributes_and_flags() {
    let mut vb = VertexBufferCPU::new_empty();
    vb.push_vertex(
        Vec3::new(1, 2, 3),
        Some(Vec3::new(4, 5, 6)),
        Some(Color::new(7, 8, 9, 10)),
        Some(Vec2::new(11, 12)),
    )
    .unwrap();
    vb.push_vertex(Vec3::new(13, 14, 15), None, None, None).unwrap();
    assert_eq!(vb.positions, vec![1, 2, 3, 13, 14, 15]);
    assert_eq!(vb.normals, vec![4, 5, 6, 0, 0, 0]);
    assert_eq!(vb.colors, vec![7, 8, 9, 10, 0, 0, 0, 0]);
    assert_eq!(vb.texcoords, vec![11, 12, 0, 0]);
    assert_eq!(
        vb.flags,
        vec![
            VertexFlag::HasNormal.mask() | VertexFlag::HasTexture.mask(),
            0,
        ]
    );
    assert_eq!(vb.get_n_vertcies(), 2);

    let ps = vb.get_positions_slice(1, 1);
    assert_eq!(ps, vec![13, 14, 15]);
    let cs = vb.get_colors_slice(0, 1);
    assert_eq!(cs, vec![7, 8, 9, 10]);
}

#[test]
fn flags_and_colors_can_be_rewritten() {
    let mut vb = VertexBufferCPU::new_empty();
    for _ in 0..3 {
        vb.push_vertex(Vec3::new(0, 0, 0), Some(Vec3::new(1, 0, 0)), None, None).unwrap();
    }
    vb.set_flags(1);
    assert_eq!(vb.flags, vec![1, 1, 1]);
    vb.unset_flags_slice(1, 1, 1);
    assert_eq!(vb.flags, vec![1, 0, 1]);
    vb.set_colors(Color::new(1, 2, 3, 4));
    assert_eq!(vb.colors, vec![1, 2, 3, 4, 1, 2, 3, 4, 1, 2, 3, 4]);
    vb.clear();
    assert_eq!(vb.get_n_vertcies(), 0);
}

#[test]
fn mesh_flattening_resolves_indices() {
    let mesh = RawMeshData {
        positions: vec![Vec3::new(0, 0, 0), Vec3::new(FP_ONE, 0, 0), Vec3::new(0, FP_ONE, 0)],
        normals: vec![Vec3::new(0, 0, FP_ONE)],
        tex_coords: vec![Vec2::new(0, 0), Vec2::new(FP_ONE, FP_ONE)],
        polygons: vec![
            MeshPolygon::PTN(vec![(0, 0, 0), (1, 1, 0), (2, 0, 0)]),
            MeshPolygon::P(vec![0, 1, 2]),
        ],
    };
    let vb = VertexBufferCPU::from_raw_mesh(&mesh).unwrap();
    assert_eq!(vb.get_n_vertcies(), 6);
    assert_eq!(vb.flags, vec![3, 3, 3, 0, 0, 0]);
    assert_eq!(&vb.positions[3..6], &[FP_ONE, 0, 0]);
    assert_eq!(&vb.normals[0..3], &[0, 0, FP_ONE]);
    assert_eq!(&vb.texcoords[2..4], &[FP_ONE, FP_ONE]);
    // Mesh colors are full white.
    assert!(vb.colors.iter().all(|&c| c == FP_ONE));
    assert!(vb.indices.is_none());

    let broken = RawMeshData {
        positions: vec![Vec3::new(0, 0, 0)],
        normals: vec![],
        tex_coords: vec![],
        polygons: vec![MeshPolygon::P(vec![0, 1])],
    };
    assert!(matches!(
        VertexBufferCPU::from_raw_mesh(&broken),
        Err(VertexBufferError::InvalidMeshIndex)
    ));
}

#[test]
fn texture_format_classification() {
    assert_eq!(texture_format_for(64, 8, 8), Ok(PixelFormat::Alpha));
    assert_eq!(texture_format_for(256, 8, 8), Ok(PixelFormat::Rgba));
    assert!(matches!(
        texture_format_for(128, 8, 8),
        Err(RenderError::BadTextureFormat { n_components: 2 })
    ));
    assert!(matches!(
        texture_format_for(64, 0, 8),
        Err(RenderError::BadTextureFormat { n_components: 0 })
    ));
}

#[test]
fn png_decoding_flips_rows() {
    // A 1x2 PNG: red on top, blue at the bottom.
    let png: Vec<u8> = vec![
        137, 80, 78, 71, 13, 10, 26, 10, 0, 0, 0, 13, 73, 72, 68, 82, 0, 0, 0, 1, 0, 0, 0, 2, 8,
        6, 0, 0, 0, 153, 129, 182, 39, 0, 0, 0, 17, 73, 68, 65, 84, 120, 156, 99, 248, 207, 192,
        0, 68, 12, 255, 255, 3, 0, 17, 248, 3, 253, 117, 2, 46, 72, 0, 0, 0, 0, 73, 69, 78, 68,
        174, 66, 96, 130,
    ];
    let data = load_texture_data_from_png(&png).unwrap();
    assert_eq!(data.width, 1);
    assert_eq!(data.height, 2);
    assert_eq!(data.format, PixelFormat::Rgba);
    // Flipped: the blue (bottom) pixel comes first.
    assert_eq!(data.pixels, vec![0, 0, 255, 255, 255, 0, 0, 255]);

    let garbage = vec![1u8, 2, 3, 4];
    assert!(matches!(
        load_texture_data_from_png(&garbage),
        Err(RenderError::DecodeFailed)
    ));
}
