//! The immediate-mode batching renderer: collects per-frame draw
//! requests into an ordered list of draw calls, coalescing consecutive
//! requests that share the same vertex source and render state, and
//! turns the finished frame into an execution plan (bindings, uploads,
//! one draw per call) for the GPU-facing side to run.
//!
//! The coalescing rule is a greedy run-length encoding over submission
//! order: a draw request extends the currently open draw call unless a
//! state setter actually changed a field, or the vertex source switched,
//! while the open call already had vertices; then a new call is opened,
//! inheriting all other state.

use vstd::prelude::*;

verus! {

use crate::color::Color;
use crate::common::{Camera, Projection, Texture, Transformation};
use crate::fixed::FP_ONE;
use crate::glyph_atlas::Glyph;
use crate::shapes::{
    CIRCLE_N_TRIANGLES, Circle, Rectangle, Triangle, spec_circle_triangle,
};
use crate::vectors::{Vec2, Vec3};
use crate::vertex_buffer::{
    FlatVertex, VertexBufferCPU, lemma_extended_one, lemma_extended_trans, spec_colors_of,
    spec_flags_of, spec_flat_vertex, spec_normals_of, spec_positions_of, spec_scratch_extended,
    spec_texcoords_of, spec_vertex_flags,
};

/// The scratch buffer's fixed per-frame capacity, in vertices.
pub const MAX_N_VERTICES: usize = 32768;

/// One GPU draw: a contiguous vertex range of one vertex source, drawn
/// under one fixed render state.
#[derive(Debug, Clone, Copy, PartialEq, Eq, Structural)]
pub struct DrawCall {
    pub vb_idx: usize,
    pub start: usize,
    pub count: usize,
    pub tex: Option<Texture>,
    pub transform: Option<Transformation>,
    pub camera: Option<Camera>,
    pub proj: Option<Projection>,
    pub is_font: bool,
    pub depth_test: bool,
}

/// The draw call a frame starts with: scratch source, empty, no state
/// set.
pub open spec fn spec_default_call() -> DrawCall {
    DrawCall {
        vb_idx: 0,
        start: 0,
        count: 0,
        tex: None,
        transform: None,
        camera: None,
        proj: None,
        is_font: false,
        depth_test: false,
    }
}

impl DrawCall {
    pub fn new(
        vb_idx: usize,
        start: usize,
        tex: Option<Texture>,
        transform: Option<Transformation>,
        camera: Option<Camera>,
        proj: Option<Projection>,
        is_font: bool,
        depth_test: bool,
    ) -> (c: DrawCall)
        ensures
            c == (DrawCall {
                vb_idx,
                start,
                count: 0,
                tex,
                transform,
                camera,
                proj,
                is_font,
                depth_test,
            }),
    {
        DrawCall { vb_idx, start, count: 0, tex, transform, camera, proj, is_font, depth_test }
    }
}

impl Default for DrawCall {
    fn default() -> (c: DrawCall)
        ensures
            c == spec_default_call(),
    {
        DrawCall {
            vb_idx: 0,
            start: 0,
            count: 0,
            tex: None,
            transform: None,
            camera: None,
            proj: None,
            is_font: false,
            depth_test: false,
        }
    }
}

/// The call list with at least the frame's first (default) call in it.
pub open spec fn spec_ensure(calls: Seq<DrawCall>) -> Seq<DrawCall> {
    if calls.len() == 0 {
        seq![spec_default_call()]
    } else {
        calls
    }
}

/// The currently open draw call: the last one, or the default call of a
/// frame that has none yet.
pub open spec fn spec_curr(calls: Seq<DrawCall>) -> DrawCall {
    spec_ensure(calls).last()
}

/// The call a split opens: scratch source starting at the present
/// scratch length, empty, inheriting texture, camera, projection, font
/// flag and depth flag — but not the model transform.
pub open spec fn spec_inherit(c: DrawCall, scratch_len: nat) -> DrawCall {
    DrawCall {
        vb_idx: 0,
        start: scratch_len as usize,
        count: 0,
        tex: c.tex,
        transform: None,
        camera: c.camera,
        proj: c.proj,
        is_font: c.is_font,
        depth_test: c.depth_test,
    }
}

/// The call list after asking for a fresh (empty) current call: reuse
/// the open call if it has no vertices yet, else append an inheriting
/// one.
pub open spec fn spec_open(calls: Seq<DrawCall>, scratch_len: nat) -> Seq<DrawCall> {
    let cs = spec_ensure(calls);
    if cs.last().count != 0 {
        cs.push(spec_inherit(cs.last(), scratch_len))
    } else {
        cs
    }
}

/// The call list after `set_proj`: a no-op when the open call already
/// has this projection, else the projection is set on a fresh current
/// call.
pub open spec fn spec_set_proj(calls: Seq<DrawCall>, scratch_len: nat, proj: Projection) -> Seq<
    DrawCall,
> {
    let cs = spec_ensure(calls);
    if cs.last().proj == Some(proj) {
        cs
    } else {
        let os = spec_open(calls, scratch_len);
        os.update(os.len() - 1, DrawCall { proj: Some(proj), ..os.last() })
    }
}

/// The call list after `set_camera`, under the same rule as
/// `spec_set_proj`.
pub open spec fn spec_set_camera(calls: Seq<DrawCall>, scratch_len: nat, camera: Camera) -> Seq<
    DrawCall,
> {
    let cs = spec_ensure(calls);
    if cs.last().camera == Some(camera) {
        cs
    } else {
        let os = spec_open(calls, scratch_len);
        os.update(os.len() - 1, DrawCall { camera: Some(camera), ..os.last() })
    }
}

/// The call list after `set_depth_test`, under the same rule.
pub open spec fn spec_set_depth_test(calls: Seq<DrawCall>, scratch_len: nat, is_set: bool) -> Seq<
    DrawCall,
> {
    let cs = spec_ensure(calls);
    if cs.last().depth_test == is_set {
        cs
    } else {
        let os = spec_open(calls, scratch_len);
        os.update(os.len() - 1, DrawCall { depth_test: is_set, ..os.last() })
    }
}

/// The call list after `set_tex`: a no-op when the open call already
/// has this texture (even if the font flag differs), else texture and
/// font flag are set on a fresh current call.
pub open spec fn spec_set_tex(
    calls: Seq<DrawCall>,
    scratch_len: nat,
    tex: Texture,
    is_font: bool,
) -> Seq<DrawCall> {
    let cs = spec_ensure(calls);
    if cs.last().tex == Some(tex) {
        cs
    } else {
        let os = spec_open(calls, scratch_len);
        os.update(os.len() - 1, DrawCall { tex: Some(tex), is_font, ..os.last() })
    }
}

/// The call list after appending one scratch vertex: the open call's
/// count grows by one. If the open call drew a static source, a fresh
/// scratch call is opened first (and an open call still pointing at a
/// static source — one whose static draw was empty — is re-pointed at
/// the scratch buffer).
pub open spec fn spec_draw_one(calls: Seq<DrawCall>, scratch_len: nat) -> Seq<DrawCall> {
    let cs = spec_ensure(calls);
    let ds = if cs.last().vb_idx != 0 {
        let os = spec_open(calls, scratch_len);
        if os.last().vb_idx != 0 {
            os.update(os.len() - 1, spec_inherit(os.last(), scratch_len))
        } else {
            os
        }
    } else {
        cs
    };
    ds.update(ds.len() - 1, DrawCall { count: (ds.last().count + 1) as usize, ..ds.last() })
}

/// The call list after appending `n` scratch vertices one by one.
pub open spec fn spec_draw_n(calls: Seq<DrawCall>, scratch_len: nat, n: nat) -> Seq<DrawCall>
    decreases n,
{
    if n == 0 {
        calls
    } else {
        spec_draw_n(spec_draw_one(calls, scratch_len), scratch_len + 1, (n - 1) as nat)
    }
}

/// The call list after `draw_vertex_buffer`: a fresh current call is
/// pointed at the static source, covering its whole vertex count, with
/// the given model transform.
pub open spec fn spec_draw_static(
    calls: Seq<DrawCall>,
    scratch_len: nat,
    vb_idx: usize,
    n_vertices: usize,
    transform: Option<Transformation>,
) -> Seq<DrawCall> {
    let os = spec_open(calls, scratch_len);
    os.update(
        os.len() - 1,
        DrawCall { vb_idx, count: n_vertices, transform, ..os.last() },
    )
}

/// Where the scratch data of the calls so far ends: the end of the last
/// scratch-sourced call's range, or 0 if there is none.
pub open spec fn spec_scratch_end(calls: Seq<DrawCall>) -> int
    decreases calls.len(),
{
    if calls.len() == 0 {
        0
    } else if calls.last().vb_idx == 0 {
        calls.last().start + calls.last().count
    } else {
        spec_scratch_end(calls.drop_last())
    }
}

/// The scratch-sourced calls tile the scratch buffer: each begins where
/// the scratch data of the calls before it ended.
pub open spec fn spec_scratch_chained(calls: Seq<DrawCall>) -> bool
    decreases calls.len(),
{
    calls.len() == 0 || (spec_scratch_chained(calls.drop_last()) && (calls.last().vb_idx == 0
        ==> calls.last().start == spec_scratch_end(calls.drop_last())))
}

/// Well-formedness of a frame's call list against its scratch length
/// and the number of loaded vertex sources.
pub open spec fn spec_calls_wf(calls: Seq<DrawCall>, scratch_len: nat, n_buffers: nat) -> bool {
    &&& spec_scratch_chained(calls)
    &&& spec_scratch_end(calls) == scratch_len
    &&& forall|i: int| 0 <= i < calls.len() ==> (#[trigger] calls[i]).vb_idx < n_buffers
}

/// What the renderer records about one loaded vertex source: how many
/// vertices (and, when indexed, indices) a draw of it covers.
#[derive(Debug, Clone, Copy, PartialEq, Eq, Structural)]
pub struct VertexSourceInfo {
    pub n_vertices: usize,
    pub n_indices: usize,
    pub indexed: bool,
}

/// Why the renderer refused a request.
#[derive(Debug, Clone, Copy, PartialEq, Eq, Structural)]
pub enum RenderError {
    /// The scratch buffer's per-frame capacity would be exceeded.
    ScratchFull,
    /// `draw_vertex_buffer` named a source id that is not a loaded
    /// static buffer.
    UnknownVertexSource { idx: usize },
    /// A draw call reached the end of the frame without a camera.
    MissingCamera { call: usize },
    /// A draw call reached the end of the frame without a projection.
    MissingProjection { call: usize },
    /// Texture data whose byte count is neither one nor four bytes per
    /// pixel.
    BadTextureFormat { n_components: u64 },
    /// Image bytes that do not decode.
    DecodeFailed,
}

/// The renderer's frame state: the scratch vertex buffer, the records
/// of loaded static sources (index 0 is the scratch source), and the
/// pending draw calls in submission order.
pub struct Renderer {
    pub window_size: (u32, u32),
    pub msaa: bool,
    pub vb_cpu: VertexBufferCPU,
    pub vertex_buffers: Vec<VertexSourceInfo>,
    pub draw_calls: Vec<DrawCall>,
}

impl Renderer {
    pub open spec fn scratch_len(self) -> nat {
        self.vb_cpu.spec_n_vertices()
    }

    pub open spec fn wf(self) -> bool {
        &&& self.vb_cpu.wf()
        &&& self.vb_cpu.indices is None
        &&& self.scratch_len() <= MAX_N_VERTICES
        &&& self.vertex_buffers@.len() >= 1
        &&& spec_calls_wf(self.draw_calls@, self.scratch_len(), self.vertex_buffers@.len())
    }

    /// A fresh renderer for a window of the given pixel size: empty
    /// scratch buffer, only the scratch source, no pending calls.
    pub fn new(window_width: u32, window_height: u32, msaa: bool) -> (r: Renderer)
        ensures
            r.wf(),
            r.window_size == (window_width, window_height),
            r.msaa == msaa,
            r.scratch_len() == 0,
            r.draw_calls@.len() == 0,
            r.vertex_buffers@.len() == 1,
    {
        let mut vertex_buffers: Vec<VertexSourceInfo> = Vec::new();
        vertex_buffers.push(
            VertexSourceInfo { n_vertices: MAX_N_VERTICES, n_indices: 0, indexed: false },
        );
        Renderer {
            window_size: (window_width, window_height),
            msaa,
            vb_cpu: VertexBufferCPU::new_empty(),
            vertex_buffers,
            draw_calls: Vec::new(),
        }
    }

    pub fn get_window_size(&self) -> (s: (u32, u32))
        ensures
            s == self.window_size,
    {
        self.window_size
    }

    /// Record a new window size (the GPU-facing side calls this when
    /// the window is resized).
    pub fn set_window_size(&mut self, width: u32, height: u32)
        requires
            old(self).wf(),
        ensures
            final(self).wf(),
            *final(self) == (Renderer { window_size: (width, height), ..*old(self) }),
    {
        self.window_size = (width, height);
    }

    /// Record a loaded static vertex source and hand back its id, which
    /// is distinct from the scratch source's id 0.
    pub fn load_vertex_buffer_from_cpu(&mut self, vb: &VertexBufferCPU) -> (idx: usize)
        requires
            old(self).wf(),
            vb.wf(),
            old(self).vertex_buffers@.len() < usize::MAX,
        ensures
            final(self).wf(),
            idx == old(self).vertex_buffers@.len(),
            idx >= 1,
            final(self).vertex_buffers@ == old(self).vertex_buffers@.push(
                VertexSourceInfo {
                    n_vertices: vb.spec_n_vertices() as usize,
                    n_indices: spec_index_count(*vb),
                    indexed: vb.indices is Some,
                },
            ),
            *final(self) == (Renderer { vertex_buffers: final(self).vertex_buffers, ..*old(self) }),
    {
        let n_vertices = vb.get_n_vertcies();
        let n_indices = vb.get_n_indices();
        let indexed = match vb.get_indices() {
            Some(_) => true,
            None => false,
        };
        let idx = self.vertex_buffers.len();
        self.vertex_buffers.push(VertexSourceInfo { n_vertices, n_indices, indexed });
        proof {
            lemma_calls_wf_more_buffers(
                self.draw_calls@,
                self.scratch_len(),
                old(self).vertex_buffers@.len(),
                self.vertex_buffers@.len(),
            );
        }
        idx
    }

    /// Push the frame's first (default) call if none is open yet.
    fn ensure_call(&mut self)
        requires
            old(self).wf(),
        ensures
            final(self).wf(),
            final(self).draw_calls@ == spec_ensure(old(self).draw_calls@),
            *final(self) == (Renderer { draw_calls: final(self).draw_calls, ..*old(self) }),
    {
        if self.draw_calls.len() == 0 {
            proof {
                lemma_wf_ensure(self.draw_calls@, self.scratch_len(), self.vertex_buffers@.len());
            }
            self.draw_calls.push(DrawCall::default());
            proof {
                assert(self.draw_calls@ =~= spec_ensure(old(self).draw_calls@));
            }
        }
    }

    /// A fresh current call: reuse the open one if it is still empty,
    /// else append a call inheriting the open one's state.
    fn open_call(&mut self)
        requires
            old(self).wf(),
        ensures
            final(self).wf(),
            final(self).draw_calls@ == spec_open(old(self).draw_calls@, old(self).scratch_len()),
            *final(self) == (Renderer { draw_calls: final(self).draw_calls, ..*old(self) }),
            final(self).draw_calls@.len() >= 1,
            final(self).draw_calls@.last().count == 0,
    {
        self.ensure_call();
        let idx = self.draw_calls.len() - 1;
        let curr = self.draw_calls[idx];
        if curr.count != 0 {
            proof {
                lemma_wf_open(
                    old(self).draw_calls@,
                    self.scratch_len(),
                    self.vertex_buffers@.len(),
                );
            }
            let start = self.vb_cpu.get_n_vertcies();
            self.draw_calls.push(
                DrawCall {
                    vb_idx: 0,
                    start,
                    count: 0,
                    tex: curr.tex,
                    transform: None,
                    camera: curr.camera,
                    proj: curr.proj,
                    is_font: curr.is_font,
                    depth_test: curr.depth_test,
                },
            );
        }
    }
}

/// The number of indices a buffer carries (0 when unindexed).
pub open spec fn spec_index_count(vb: VertexBufferCPU) -> usize {
    match vb.indices {
        Some(v) => v@.len() as usize,
        None => 0,
    }
}

proof fn lemma_calls_wf_more_buffers(calls: Seq<DrawCall>, scratch_len: nat, n1: nat, n2: nat)
    requires
        spec_calls_wf(calls, scratch_len, n1),
        n1 <= n2,
    ensures
        spec_calls_wf(calls, scratch_len, n2),
{
}

/// Starting a frame's first call keeps the list well formed.
proof fn lemma_wf_ensure(calls: Seq<DrawCall>, scratch_len: nat, n_buffers: nat)
    requires
        spec_calls_wf(calls, scratch_len, n_buffers),
        n_buffers >= 1,
    ensures
        spec_calls_wf(spec_ensure(calls), scratch_len, n_buffers),
        spec_ensure(calls).len() >= 1,
    decreases calls.len(),
{
    if calls.len() == 0 {
        let cs = spec_ensure(calls);
        assert(cs.drop_last() =~= Seq::<DrawCall>::empty());
        assert(spec_scratch_chained(Seq::<DrawCall>::empty()));
        assert(spec_scratch_chained(cs));
        assert(spec_scratch_end(cs) == 0);
        assert forall|i: int| 0 <= i < cs.len() implies (#[trigger] cs[i]).vb_idx < n_buffers by {
            assert(cs[i] == spec_default_call());
        }
    }
}

/// Opening a fresh current call keeps the list well formed and leaves
/// the scratch end where it was.
proof fn lemma_wf_open(calls: Seq<DrawCall>, scratch_len: nat, n_buffers: nat)
    requires
        spec_calls_wf(calls, scratch_len, n_buffers),
        n_buffers >= 1,
        scratch_len <= usize::MAX,
    ensures
        spec_calls_wf(spec_open(calls, scratch_len), scratch_len, n_buffers),
        spec_open(calls, scratch_len).len() >= 1,
        spec_open(calls, scratch_len).last().count == 0,
{
    lemma_wf_ensure(calls, scratch_len, n_buffers);
    let cs = spec_ensure(calls);
    if cs.last().count != 0 {
        let os = cs.push(spec_inherit(cs.last(), scratch_len));
        assert(os.drop_last() =~= cs);
        assert(os.last().vb_idx == 0);
        assert(spec_scratch_end(os) == scratch_len);
        assert forall|i: int| 0 <= i < os.len() implies (#[trigger] os[i]).vb_idx
            < n_buffers by {
            if i < cs.len() {
                assert(os[i] == cs[i]);
            }
        }
    }
}


impl Renderer {
    /// Set the projection for what is drawn next; a no-op when it is
    /// already active.
    pub fn set_proj(&mut self, proj: Projection)
        requires
            old(self).wf(),
        ensures
            final(self).wf(),
            final(self).draw_calls@ == spec_set_proj(
                old(self).draw_calls@,
                old(self).scratch_len(),
                proj,
            ),
            *final(self) == (Renderer { draw_calls: final(self).draw_calls, ..*old(self) }),
    {
        self.ensure_call();
        let idx = self.draw_calls.len() - 1;
        let changed = match self.draw_calls[idx].proj {
            Some(p) => p != proj,
            None => true,
        };
        if changed {
            self.open_call();
            let j = self.draw_calls.len() - 1;
            let mut c = self.draw_calls[j];
            c.proj = Some(proj);
            proof {
                lemma_wf_update_state(
                    self.draw_calls@,
                    c,
                    self.scratch_len(),
                    self.vertex_buffers@.len(),
                );
            }
            self.draw_calls.set(j, c);
        }
    }

    /// Set the screen-pixel projection for the current window size.
    pub fn set_screen_proj(&mut self)
        requires
            old(self).wf(),
            old(self).window_size.0 <= 4096,
            old(self).window_size.1 <= 4096,
        ensures
            final(self).wf(),
            final(self).draw_calls@ == spec_set_proj(
                old(self).draw_calls@,
                old(self).scratch_len(),
                Projection::Orthographic {
                    view_width: (old(self).window_size.0 * FP_ONE) as i64,
                    view_height: (old(self).window_size.1 * FP_ONE) as i64,
                    znear: 0,
                    zfar: FP_ONE as i64,
                },
            ),
            *final(self) == (Renderer { draw_calls: final(self).draw_calls, ..*old(self) }),
    {
        let size = self.get_window_size();
        let proj = Projection::new_screen(size);
        self.set_proj(proj);
    }

    /// Set the camera for what is drawn next; a no-op when it is
    /// already active.
    pub fn set_camera(&mut self, camera: Camera)
        requires
            old(self).wf(),
        ensures
            final(self).wf(),
            final(self).draw_calls@ == spec_set_camera(
                old(self).draw_calls@,
                old(self).scratch_len(),
                camera,
            ),
            *final(self) == (Renderer { draw_calls: final(self).draw_calls, ..*old(self) }),
    {
        self.ensure_call();
        let idx = self.draw_calls.len() - 1;
        let changed = match self.draw_calls[idx].camera {
            Some(c) => c != camera,
            None => true,
        };
        if changed {
            self.open_call();
            let j = self.draw_calls.len() - 1;
            let mut c = self.draw_calls[j];
            c.camera = Some(camera);
            proof {
                lemma_wf_update_state(
                    self.draw_calls@,
                    c,
                    self.scratch_len(),
                    self.vertex_buffers@.len(),
                );
            }
            self.draw_calls.set(j, c);
        }
    }

    /// Set the 2D camera that looks at the middle of the window.
    pub fn set_screen_camera(&mut self)
        requires
            old(self).wf(),
            old(self).window_size.0 <= 8192,
            old(self).window_size.1 <= 8192,
        ensures
            final(self).wf(),
            final(self).draw_calls@ == spec_set_camera(
                old(self).draw_calls@,
                old(self).scratch_len(),
                Camera::Cam2D {
                    position: Vec2 {
                        x: (old(self).window_size.0 * FP_ONE / 2) as i64,
                        y: (old(self).window_size.1 * FP_ONE / 2) as i64,
                    },
                    rotation: 0,
                },
            ),
            *final(self) == (Renderer { draw_calls: final(self).draw_calls, ..*old(self) }),
    {
        let size = self.get_window_size();
        let camera = Camera::new_screen(size);
        self.set_camera(camera);
    }

    /// Set the 2D camera sitting at the origin.
    pub fn set_origin_2d_camera(&mut self)
        requires
            old(self).wf(),
        ensures
            final(self).wf(),
            final(self).draw_calls@ == spec_set_camera(
                old(self).draw_calls@,
                old(self).scratch_len(),
                Camera::Cam2D { position: Vec2 { x: 0, y: 0 }, rotation: 0 },
            ),
            *final(self) == (Renderer { draw_calls: final(self).draw_calls, ..*old(self) }),
    {
        let camera = Camera::new_origin_2d();
        self.set_camera(camera);
    }

    /// Enable or disable depth testing for what is drawn next; a no-op
    /// when the flag is already in that state.
    pub fn set_depth_test(&mut self, is_set: bool)
        requires
            old(self).wf(),
        ensures
            final(self).wf(),
            final(self).draw_calls@ == spec_set_depth_test(
                old(self).draw_calls@,
                old(self).scratch_len(),
                is_set,
            ),
            *final(self) == (Renderer { draw_calls: final(self).draw_calls, ..*old(self) }),
    {
        self.ensure_call();
        let idx = self.draw_calls.len() - 1;
        if self.draw_calls[idx].depth_test != is_set {
            self.open_call();
            let j = self.draw_calls.len() - 1;
            let mut c = self.draw_calls[j];
            c.depth_test = is_set;
            proof {
                lemma_wf_update_state(
                    self.draw_calls@,
                    c,
                    self.scratch_len(),
                    self.vertex_buffers@.len(),
                );
            }
            self.draw_calls.set(j, c);
        }
    }

    /// Set the texture (and whether it is a font atlas) for what is
    /// drawn next; a no-op when the same texture is already active.
    pub fn set_tex(&mut self, tex: Texture, is_font: bool)
        requires
            old(self).wf(),
        ensures
            final(self).wf(),
            final(self).draw_calls@ == spec_set_tex(
                old(self).draw_calls@,
                old(self).scratch_len(),
                tex,
                is_font,
            ),
            *final(self) == (Renderer { draw_calls: final(self).draw_calls, ..*old(self) }),
    {
        self.ensure_call();
        let idx = self.draw_calls.len() - 1;
        let changed = match self.draw_calls[idx].tex {
            Some(t) => t != tex,
            None => true,
        };
        if changed {
            self.open_call();
            let j = self.draw_calls.len() - 1;
            let mut c = self.draw_calls[j];
            c.tex = Some(tex);
            c.is_font = is_font;
            proof {
                lemma_wf_update_state(
                    self.draw_calls@,
                    c,
                    self.scratch_len(),
                    self.vertex_buffers@.len(),
                );
            }
            self.draw_calls.set(j, c);
        }
    }

    /// Append one vertex to the scratch buffer, extending the open
    /// call's range (opening a scratch call first if the open call drew
    /// a static source).
    fn draw_vertex(
        &mut self,
        position: Vec3,
        normal: Option<Vec3>,
        color: Option<Color>,
        texcoord: Option<Vec2>,
    )
        requires
            old(self).wf(),
            old(self).scratch_len() < MAX_N_VERTICES,
        ensures
            final(self).wf(),
            final(self).scratch_len() == old(self).scratch_len() + 1,
            final(self).draw_calls@ == spec_draw_one(
                old(self).draw_calls@,
                old(self).scratch_len(),
            ),
            spec_scratch_extended(
                old(self).vb_cpu,
                final(self).vb_cpu,
                seq![spec_flat_vertex(position, normal, color, texcoord)],
            ),
            final(self).vertex_buffers == old(self).vertex_buffers,
            final(self).window_size == old(self).window_size,
            final(self).msaa == old(self).msaa,
    {
        self.ensure_call();
        let idx = self.draw_calls.len() - 1;
        if self.draw_calls[idx].vb_idx != 0 {
            self.open_call();
            let k = self.draw_calls.len() - 1;
            if self.draw_calls[k].vb_idx != 0 {
                let curr = self.draw_calls[k];
                let start = self.vb_cpu.get_n_vertcies();
                let fresh = DrawCall {
                    vb_idx: 0,
                    start,
                    count: 0,
                    tex: curr.tex,
                    transform: None,
                    camera: curr.camera,
                    proj: curr.proj,
                    is_font: curr.is_font,
                    depth_test: curr.depth_test,
                };
                proof {
                    lemma_wf_rescratch(
                        self.draw_calls@,
                        self.scratch_len(),
                        self.vertex_buffers@.len(),
                    );
                }
                self.draw_calls.set(k, fresh);
            }
        }
        let j = self.draw_calls.len() - 1;
        let mut c = self.draw_calls[j];
        proof {
            lemma_scratch_last_end(
                self.draw_calls@,
                self.scratch_len(),
                self.vertex_buffers@.len(),
            );
        }
        c.count = c.count + 1;
        proof {
            lemma_wf_bump_count(
                self.draw_calls@,
                self.scratch_len(),
                self.vertex_buffers@.len(),
            );
        }
        self.draw_calls.set(j, c);
        let ghost vb_before = self.vb_cpu;
        let _ = self.vb_cpu.push_vertex(position, normal, color, texcoord);
        proof {
            lemma_extended_one(vb_before, self.vb_cpu, position, normal, color, texcoord);
        }
    }
}

/// When the open call is scratch-sourced, its range ends exactly at the
/// scratch length.
proof fn lemma_scratch_last_end(calls: Seq<DrawCall>, scratch_len: nat, n_buffers: nat)
    requires
        spec_calls_wf(calls, scratch_len, n_buffers),
        calls.len() >= 1,
        calls.last().vb_idx == 0,
    ensures
        calls.last().start + calls.last().count == scratch_len,
{
}

/// Extending the open scratch call by one vertex keeps the list well
/// formed against a scratch buffer one vertex longer.
proof fn lemma_wf_bump_count(calls: Seq<DrawCall>, scratch_len: nat, n_buffers: nat)
    requires
        spec_calls_wf(calls, scratch_len, n_buffers),
        calls.len() >= 1,
        calls.last().vb_idx == 0,
        scratch_len < usize::MAX,
    ensures
        spec_calls_wf(
            calls.update(
                calls.len() - 1,
                DrawCall { count: (calls.last().count + 1) as usize, ..calls.last() },
            ),
            scratch_len + 1,
            n_buffers,
        ),
{
    let c = DrawCall { count: (calls.last().count + 1) as usize, ..calls.last() };
    let cs2 = calls.update(calls.len() - 1, c);
    assert(cs2.drop_last() =~= calls.drop_last());
    assert(cs2.last() == c);
    assert(spec_scratch_end(cs2) == scratch_len + 1);
    assert forall|i: int| 0 <= i < cs2.len() implies (#[trigger] cs2[i]).vb_idx < n_buffers by {
        if i < calls.len() - 1 {
            assert(cs2[i] == calls[i]);
        }
    }
}

/// Re-pointing an open, empty static call at the scratch buffer keeps
/// the list well formed.
proof fn lemma_wf_rescratch(calls: Seq<DrawCall>, scratch_len: nat, n_buffers: nat)
    requires
        spec_calls_wf(calls, scratch_len, n_buffers),
        calls.len() >= 1,
        calls.last().vb_idx != 0,
        calls.last().count == 0,
        n_buffers >= 1,
        scratch_len <= usize::MAX,
    ensures
        spec_calls_wf(
            calls.update(calls.len() - 1, spec_inherit(calls.last(), scratch_len)),
            scratch_len,
            n_buffers,
        ),
{
    let c = spec_inherit(calls.last(), scratch_len);
    let cs2 = calls.update(calls.len() - 1, c);
    assert(cs2.drop_last() =~= calls.drop_last());
    assert(cs2.last() == c);
    assert(spec_scratch_end(calls) == spec_scratch_end(calls.drop_last()));
    assert(spec_scratch_end(cs2) == scratch_len);
    assert forall|i: int| 0 <= i < cs2.len() implies (#[trigger] cs2[i]).vb_idx < n_buffers by {
        if i < calls.len() - 1 {
            assert(cs2[i] == calls[i]);
        }
    }
}

/// Rewriting only the state fields of the open call (not its source,
/// start or count) keeps the list well formed.
proof fn lemma_wf_update_state(calls: Seq<DrawCall>, c: DrawCall, scratch_len: nat, n_buffers: nat)
    requires
        spec_calls_wf(calls, scratch_len, n_buffers),
        calls.len() >= 1,
        c.vb_idx == calls.last().vb_idx,
        c.start == calls.last().start,
        c.count == calls.last().count,
    ensures
        spec_calls_wf(calls.update(calls.len() - 1, c), scratch_len, n_buffers),
{
    let cs2 = calls.update(calls.len() - 1, c);
    assert(cs2.drop_last() =~= calls.drop_last());
    assert(cs2.last() == c);
    assert(spec_scratch_end(cs2) == spec_scratch_end(calls));
    assert forall|i: int| 0 <= i < cs2.len() implies (#[trigger] cs2[i]).vb_idx < n_buffers by {
        if i < calls.len() - 1 {
            assert(cs2[i] == calls[i]);
        }
    }
}


/// The first corner's normal, when per-corner normals were given.
pub open spec fn spec_opt_na(t: Option<Triangle>) -> Option<Vec3> {
    match t {
        Some(t) => Some(t.a),
        None => None,
    }
}

pub open spec fn spec_opt_nb(t: Option<Triangle>) -> Option<Vec3> {
    match t {
        Some(t) => Some(t.b),
        None => None,
    }
}

pub open spec fn spec_opt_nc(t: Option<Triangle>) -> Option<Vec3> {
    match t {
        Some(t) => Some(t.c),
        None => None,
    }
}

/// The first corner's texcoord (the x/y of the texcoord triangle's
/// first corner), when texcoords were given.
pub open spec fn spec_opt_ta(t: Option<Triangle>) -> Option<Vec2> {
    match t {
        Some(t) => Some(Vec2 { x: t.a.x, y: t.a.y }),
        None => None,
    }
}

pub open spec fn spec_opt_tb(t: Option<Triangle>) -> Option<Vec2> {
    match t {
        Some(t) => Some(Vec2 { x: t.b.x, y: t.b.y }),
        None => None,
    }
}

pub open spec fn spec_opt_tc(t: Option<Triangle>) -> Option<Vec2> {
    match t {
        Some(t) => Some(Vec2 { x: t.c.x, y: t.c.y }),
        None => None,
    }
}

/// The three scratch vertices one triangle draw appends.
pub open spec fn spec_triangle_vertices(
    triangle: Triangle,
    normals: Option<Triangle>,
    texcoords: Option<Triangle>,
    color: Option<Color>,
) -> Seq<FlatVertex> {
    seq![
        spec_flat_vertex(triangle.a, spec_opt_na(normals), color, spec_opt_ta(texcoords)),
        spec_flat_vertex(triangle.b, spec_opt_nb(normals), color, spec_opt_tb(texcoords)),
        spec_flat_vertex(triangle.c, spec_opt_nc(normals), color, spec_opt_tc(texcoords)),
    ]
}

/// The texcoord triangle paired with a rectangle's first triangle.
pub open spec fn spec_opt_rect_t0(t: Option<Rectangle>) -> Option<Triangle> {
    match t {
        Some(r) => Some(r.spec_triangles().0),
        None => None,
    }
}

/// The texcoord triangle paired with a rectangle's second triangle.
pub open spec fn spec_opt_rect_t1(t: Option<Rectangle>) -> Option<Triangle> {
    match t {
        Some(r) => Some(r.spec_triangles().1),
        None => None,
    }
}

/// The six scratch vertices one rectangle draw appends: its two
/// triangles in order.
pub open spec fn spec_rect_vertices(
    rect: Rectangle,
    texcoords: Option<Rectangle>,
    color: Option<Color>,
) -> Seq<FlatVertex> {
    spec_triangle_vertices(rect.spec_triangles().0, None, spec_opt_rect_t0(texcoords), color)
        + spec_triangle_vertices(rect.spec_triangles().1, None, spec_opt_rect_t1(texcoords), color)
}

/// The texcoord triangle paired with the k-th fan triangle of a circle
/// draw.
pub open spec fn spec_opt_circle_tri(t: Option<Circle>, k: int) -> Option<Triangle> {
    match t {
        Some(c) => Some(spec_circle_triangle(c, k)),
        None => None,
    }
}

/// The scratch vertices of the first `k` fan triangles of a circle
/// draw.
pub open spec fn spec_circle_vertices_upto(
    circle: Circle,
    texcoords: Option<Circle>,
    color: Option<Color>,
    k: nat,
) -> Seq<FlatVertex>
    decreases k,
{
    if k == 0 {
        Seq::<FlatVertex>::empty()
    } else {
        spec_circle_vertices_upto(circle, texcoords, color, (k - 1) as nat)
            + spec_triangle_vertices(
            spec_circle_triangle(circle, k - 1),
            None,
            spec_opt_circle_tri(texcoords, k - 1),
            color,
        )
    }
}

/// The 48 scratch vertices one circle draw appends: its 16 fan
/// triangles in order.
pub open spec fn spec_circle_vertices(
    circle: Circle,
    texcoords: Option<Circle>,
    color: Option<Color>,
) -> Seq<FlatVertex> {
    spec_circle_vertices_upto(circle, texcoords, color, CIRCLE_N_TRIANGLES as nat)
}

/// Appending vertex runs one after the other appends their sum.
proof fn lemma_draw_n_add(calls: Seq<DrawCall>, scratch_len: nat, a: nat, b: nat)
    ensures
        spec_draw_n(spec_draw_n(calls, scratch_len, a), scratch_len + a, b) == spec_draw_n(
            calls,
            scratch_len,
            a + b,
        ),
    decreases a,
{
    if a > 0 {
        lemma_draw_n_add(spec_draw_one(calls, scratch_len), scratch_len + 1, (a - 1) as nat, b);
    }
}

impl Renderer {
    /// Draw one triangle into the scratch buffer, with optional
    /// per-corner normals and texcoords and an optional tint; refused
    /// (with the state unchanged) when the scratch buffer's frame
    /// capacity cannot take three more vertices.
    pub fn draw_triangle(
        &mut self,
        triangle: Triangle,
        normals: Option<Triangle>,
        texcoords: Option<Triangle>,
        color: Option<Color>,
    ) -> (r: Result<(), RenderError>)
        requires
            old(self).wf(),
        ensures
            final(self).wf(),
            r is Ok <==> old(self).scratch_len() + 3 <= MAX_N_VERTICES,
            r is Err ==> *final(self) == *old(self) && r == Err::<(), RenderError>(
                RenderError::ScratchFull,
            ),
            r is Ok ==> {
                &&& final(self).draw_calls@ == spec_draw_n(
                    old(self).draw_calls@,
                    old(self).scratch_len(),
                    3,
                )
                &&& spec_scratch_extended(
                    old(self).vb_cpu,
                    final(self).vb_cpu,
                    spec_triangle_vertices(triangle, normals, texcoords, color),
                )
                &&& final(self).scratch_len() == old(self).scratch_len() + 3
                &&& final(self).vertex_buffers == old(self).vertex_buffers
                &&& final(self).window_size == old(self).window_size
                &&& final(self).msaa == old(self).msaa
            },
    {
        if self.vb_cpu.get_n_vertcies() + 3 > MAX_N_VERTICES {
            return Err(RenderError::ScratchFull);
        }
        let (n0, n1, n2) = match normals {
            Some(nt) => (Some(nt.a), Some(nt.b), Some(nt.c)),
            None => (None, None, None),
        };
        let (t0, t1, t2) = match texcoords {
            Some(tt) => (
                Some(Vec2 { x: tt.a.x, y: tt.a.y }),
                Some(Vec2 { x: tt.b.x, y: tt.b.y }),
                Some(Vec2 { x: tt.c.x, y: tt.c.y }),
            ),
            None => (None, None, None),
        };
        let ghost start0 = *self;
        let ghost ll = old(self).scratch_len();
        self.draw_vertex(triangle.a, n0, color, t0);
        let ghost mid1 = *self;
        self.draw_vertex(triangle.b, n1, color, t1);
        let ghost mid2 = *self;
        self.draw_vertex(triangle.c, n2, color, t2);
        proof {
            let v0 = spec_flat_vertex(triangle.a, n0, color, t0);
            let v1 = spec_flat_vertex(triangle.b, n1, color, t1);
            let v2 = spec_flat_vertex(triangle.c, n2, color, t2);
            lemma_extended_trans(start0.vb_cpu, mid1.vb_cpu, mid2.vb_cpu, seq![v0], seq![v1]);
            lemma_extended_trans(
                start0.vb_cpu,
                mid2.vb_cpu,
                self.vb_cpu,
                seq![v0] + seq![v1],
                seq![v2],
            );
            assert((seq![v0] + seq![v1]) + seq![v2] =~= spec_triangle_vertices(
                triangle,
                normals,
                texcoords,
                color,
            ));
            assert(spec_draw_n(start0.draw_calls@, ll, 3) == spec_draw_n(
                spec_draw_one(start0.draw_calls@, ll),
                ll + 1,
                2,
            ));
            assert(spec_draw_n(mid1.draw_calls@, ll + 1, 2) == spec_draw_n(
                spec_draw_one(mid1.draw_calls@, ll + 1),
                ll + 2,
                1,
            ));
            assert(spec_draw_n(mid2.draw_calls@, ll + 2, 1) == spec_draw_n(
                spec_draw_one(mid2.draw_calls@, ll + 2),
                ll + 3,
                0,
            ));
        }
        Ok(())
    }

    /// Draw a rectangle into the scratch buffer as its two triangles,
    /// with optional texcoords (a rectangle in texture space) and an
    /// optional tint; refused when six more vertices do not fit.
    pub fn draw_rect(
        &mut self,
        rect: Rectangle,
        texcoords: Option<Rectangle>,
        color: Option<Color>,
    ) -> (r: Result<(), RenderError>)
        requires
            old(self).wf(),
        ensures
            final(self).wf(),
            r is Ok <==> old(self).scratch_len() + 6 <= MAX_N_VERTICES,
            r is Err ==> *final(self) == *old(self) && r == Err::<(), RenderError>(
                RenderError::ScratchFull,
            ),
            r is Ok ==> {
                &&& final(self).draw_calls@ == spec_draw_n(
                    old(self).draw_calls@,
                    old(self).scratch_len(),
                    6,
                )
                &&& spec_scratch_extended(
                    old(self).vb_cpu,
                    final(self).vb_cpu,
                    spec_rect_vertices(rect, texcoords, color),
                )
                &&& final(self).scratch_len() == old(self).scratch_len() + 6
                &&& final(self).vertex_buffers == old(self).vertex_buffers
                &&& final(self).window_size == old(self).window_size
                &&& final(self).msaa == old(self).msaa
            },
    {
        if self.vb_cpu.get_n_vertcies() + 6 > MAX_N_VERTICES {
            return Err(RenderError::ScratchFull);
        }
        let positions = rect.get_triangles();
        let (tex0, tex1) = match texcoords {
            Some(tr) => {
                let ts = tr.get_triangles();
                (Some(ts[0]), Some(ts[1]))
            },
            None => (None, None),
        };
        let ghost start0 = *self;
        let ghost ll = old(self).scratch_len();
        let _ = self.draw_triangle(positions[0], None, tex0, color);
        let ghost mid1 = *self;
        let _ = self.draw_triangle(positions[1], None, tex1, color);
        proof {
            lemma_extended_trans(
                start0.vb_cpu,
                mid1.vb_cpu,
                self.vb_cpu,
                spec_triangle_vertices(rect.spec_triangles().0, None, spec_opt_rect_t0(texcoords), color),
                spec_triangle_vertices(rect.spec_triangles().1, None, spec_opt_rect_t1(texcoords), color),
            );
            lemma_draw_n_add(start0.draw_calls@, ll, 3, 3);
        }
        Ok(())
    }

    /// Draw a circle into the scratch buffer as its 16-triangle fan,
    /// with optional texcoords (a circle in texture space) and an
    /// optional tint; refused when 48 more vertices do not fit.
    pub fn draw_circle(
        &mut self,
        circle: Circle,
        texcoords: Option<Circle>,
        color: Option<Color>,
    ) -> (r: Result<(), RenderError>)
        requires
            old(self).wf(),
            circle.in_range(),
            texcoords matches Some(t) ==> t.in_range(),
        ensures
            final(self).wf(),
            r is Ok <==> old(self).scratch_len() + 48 <= MAX_N_VERTICES,
            r is Err ==> *final(self) == *old(self) && r == Err::<(), RenderError>(
                RenderError::ScratchFull,
            ),
            r is Ok ==> {
                &&& final(self).draw_calls@ == spec_draw_n(
                    old(self).draw_calls@,
                    old(self).scratch_len(),
                    48,
                )
                &&& spec_scratch_extended(
                    old(self).vb_cpu,
                    final(self).vb_cpu,
                    spec_circle_vertices(circle, texcoords, color),
                )
                &&& final(self).scratch_len() == old(self).scratch_len() + 48
                &&& final(self).vertex_buffers == old(self).vertex_buffers
                &&& final(self).window_size == old(self).window_size
                &&& final(self).msaa == old(self).msaa
            },
    {
        if self.vb_cpu.get_n_vertcies() + 48 > MAX_N_VERTICES {
            return Err(RenderError::ScratchFull);
        }
        let positions = circle.to_triangles();
        let ghost start0 = *self;
        let ghost ll = old(self).scratch_len();
        let mut k: usize = 0;
        while k < CIRCLE_N_TRIANGLES
            invariant
                start0.wf(),
                self.wf(),
                k <= CIRCLE_N_TRIANGLES,
                circle.in_range(),
                texcoords matches Some(t) ==> t.in_range(),
                positions@.len() == CIRCLE_N_TRIANGLES,
                forall|i: int|
                    0 <= i < CIRCLE_N_TRIANGLES ==> positions@[i] == spec_circle_triangle(
                        circle,
                        i,
                    ),
                ll == start0.scratch_len(),
                ll + 48 <= MAX_N_VERTICES,
                self.scratch_len() == ll + 3 * k,
                self.draw_calls@ == spec_draw_n(start0.draw_calls@, ll, 3 * k as nat),
                spec_scratch_extended(
                    start0.vb_cpu,
                    self.vb_cpu,
                    spec_circle_vertices_upto(circle, texcoords, color, k as nat),
                ),
                self.vertex_buffers == start0.vertex_buffers,
                self.window_size == start0.window_size,
                self.msaa == start0.msaa,
            decreases CIRCLE_N_TRIANGLES - k,
        {
            let tex_tri = match &texcoords {
                Some(tc) => {
                    let b = tc.boundary_point(if k == 15 { 0 } else { k + 1 });
                    let c = tc.boundary_point(k);
                    Some(Triangle::new_2d(tc.center, b, c))
                },
                None => None,
            };
            let ghost before = *self;
            let _ = self.draw_triangle(positions[k], None, tex_tri, color);
            proof {
                assert(tex_tri == spec_opt_circle_tri(texcoords, k as int));
                lemma_extended_trans(
                    start0.vb_cpu,
                    before.vb_cpu,
                    self.vb_cpu,
                    spec_circle_vertices_upto(circle, texcoords, color, k as nat),
                    spec_triangle_vertices(
                        spec_circle_triangle(circle, k as int),
                        None,
                        spec_opt_circle_tri(texcoords, k as int),
                        color,
                    ),
                );
                lemma_draw_n_add(start0.draw_calls@, ll, 3 * k as nat, 3);
            }
            k += 1;
        }
        Ok(())
    }

    /// Open a draw call that draws a loaded static vertex source in
    /// full, under the given model transform; refused (with the state
    /// unchanged) when the id names no loaded static source.
    pub fn draw_vertex_buffer(&mut self, vb_idx: usize, transform: Option<Transformation>) -> (r:
        Result<(), RenderError>)
        requires
            old(self).wf(),
        ensures
            final(self).wf(),
            r is Ok <==> 1 <= vb_idx < old(self).vertex_buffers@.len(),
            r is Err ==> *final(self) == *old(self) && r == Err::<(), RenderError>(
                RenderError::UnknownVertexSource { idx: vb_idx },
            ),
            r is Ok ==> {
                &&& final(self).draw_calls@ == spec_draw_static(
                    old(self).draw_calls@,
                    old(self).scratch_len(),
                    vb_idx,
                    old(self).vertex_buffers@[vb_idx as int].n_vertices,
                    transform,
                )
                &&& *final(self) == (Renderer {
                    draw_calls: final(self).draw_calls,
                    ..*old(self)
                })
            },
    {
        if vb_idx == 0 || vb_idx >= self.vertex_buffers.len() {
            return Err(RenderError::UnknownVertexSource { idx: vb_idx });
        }
        let n_vertices = self.vertex_buffers[vb_idx].n_vertices;
        self.open_call();
        let j = self.draw_calls.len() - 1;
        let mut c = self.draw_calls[j];
        c.vb_idx = vb_idx;
        c.count = n_vertices;
        c.transform = transform;
        proof {
            lemma_wf_draw_static(
                self.draw_calls@,
                c,
                self.scratch_len(),
                self.vertex_buffers@.len(),
            );
        }
        self.draw_calls.set(j, c);
        Ok(())
    }
}

/// Re-pointing the open, empty call at a static source keeps the list
/// well formed.
proof fn lemma_wf_draw_static(calls: Seq<DrawCall>, c: DrawCall, scratch_len: nat, n_buffers: nat)
    requires
        spec_calls_wf(calls, scratch_len, n_buffers),
        calls.len() >= 1,
        calls.last().count == 0,
        c.vb_idx != 0,
        c.vb_idx < n_buffers,
    ensures
        spec_calls_wf(calls.update(calls.len() - 1, c), scratch_len, n_buffers),
{
    let cs2 = calls.update(calls.len() - 1, c);
    assert(cs2.drop_last() =~= calls.drop_last());
    assert(cs2.last() == c);
    if calls.last().vb_idx == 0 {
        assert(spec_scratch_end(calls) == calls.last().start + calls.last().count);
        assert(calls.last().start == spec_scratch_end(calls.drop_last()));
    }
    assert(spec_scratch_end(cs2) == spec_scratch_end(calls.drop_last()));
    assert(spec_scratch_end(cs2) == scratch_len);
    assert forall|i: int| 0 <= i < cs2.len() implies (#[trigger] cs2[i]).vb_idx < n_buffers by {
        if i < calls.len() - 1 {
            assert(cs2[i] == calls[i]);
        }
    }
}


/// A draw call that can execute: camera and projection are both set.
pub open spec fn spec_call_valid(c: DrawCall) -> bool {
    c.camera is Some && c.proj is Some
}

/// The texture bound after executing calls `0..=i` (starting unbound):
/// each call with a texture different from the bound one binds its own.
pub open spec fn spec_bound_tex(calls: Seq<DrawCall>, i: int) -> Option<Texture>
    decreases i + 1,
{
    if i < 0 {
        None::<Texture>
    } else {
        let prev = spec_bound_tex(calls, i - 1);
        if calls[i].tex is Some && calls[i].tex != prev {
            calls[i].tex
        } else {
            prev
        }
    }
}

/// One step of a frame's execution plan: the call to draw and which
/// bindings must happen before it.
#[derive(Debug, Clone, Copy, PartialEq, Eq, Structural)]
pub struct DrawStep {
    pub call: DrawCall,
    /// Bind the call's vertex source (it differs from the previous
    /// step's).
    pub bind_vertex_source: bool,
    /// Upload the call's scratch range before drawing (the call draws
    /// the scratch source).
    pub upload_scratch: bool,
    /// Bind the call's texture (it differs from the one bound so far).
    pub bind_texture: bool,
    /// Draw by index array rather than by vertex range.
    pub indexed: bool,
    pub n_indices: usize,
}

/// A finished frame's execution plan: clear with the color, run the
/// steps in order against the offscreen target, resolve multisampling
/// if present, then post-process or blit to the backbuffer.
pub struct FramePlan {
    pub clear_color: Color,
    pub resolve_msaa: bool,
    pub apply_postfx: bool,
    pub steps: Vec<DrawStep>,
}

impl Renderer {
    /// Lay out the pending draw calls as an execution plan, in
    /// submission order, binding a vertex source or texture only where
    /// it changes. Refused — naming the first offending call — when a
    /// call lacks its camera or projection.
    pub fn plan_frame(&self, clear_color: Color, apply_postfx: bool) -> (r: Result<
        FramePlan,
        RenderError,
    >)
        requires
            self.wf(),
        ensures
            r is Ok <==> (forall|i: int|
                0 <= i < self.draw_calls@.len() ==> spec_call_valid(#[trigger] self.draw_calls@[i])),
            r matches Err(e) ==> {
                ||| (e matches RenderError::MissingCamera { call } && 0 <= call
                    < self.draw_calls@.len() && self.draw_calls@[call as int].camera is None
                    && forall|j: int| 0 <= j < call ==> spec_call_valid(#[trigger] self.draw_calls@[j]))
                ||| (e matches RenderError::MissingProjection { call } && 0 <= call
                    < self.draw_calls@.len() && self.draw_calls@[call as int].camera is Some
                    && self.draw_calls@[call as int].proj is None && forall|j: int|
                    0 <= j < call ==> spec_call_valid(#[trigger] self.draw_calls@[j]))
            },
            r matches Ok(plan) ==> {
                &&& plan.clear_color == clear_color
                &&& plan.resolve_msaa == self.msaa
                &&& plan.apply_postfx == apply_postfx
                &&& plan.steps@.len() == self.draw_calls@.len()
                &&& forall|i: int|
                    0 <= i < plan.steps@.len() ==> (#[trigger] plan.steps@[i]) == spec_plan_step(
                        self.draw_calls@,
                        self.vertex_buffers@,
                        i,
                    )
            },
    {
        let n = self.draw_calls.len();
        let mut i: usize = 0;
        while i < n
            invariant
                self.wf(),
                n == self.draw_calls@.len(),
                i <= n,
                forall|j: int| 0 <= j < i ==> spec_call_valid(#[trigger] self.draw_calls@[j]),
            decreases n - i,
        {
            let c = self.draw_calls[i];
            if c.camera.is_none() {
                return Err(RenderError::MissingCamera { call: i });
            }
            if c.proj.is_none() {
                return Err(RenderError::MissingProjection { call: i });
            }
            i += 1;
        }
        let mut steps: Vec<DrawStep> = Vec::with_capacity(n);
        let mut prev_vb: Option<usize> = None;
        let mut curr_tex: Option<Texture> = None;
        let mut k: usize = 0;
        while k < n
            invariant
                self.wf(),
                n == self.draw_calls@.len(),
                k <= n,
                steps@.len() == k,
                forall|i2: int|
                    0 <= i2 < k ==> (#[trigger] steps@[i2]) == spec_plan_step(
                        self.draw_calls@,
                        self.vertex_buffers@,
                        i2,
                    ),
                curr_tex == spec_bound_tex(self.draw_calls@, k as int - 1),
                k == 0 <==> prev_vb is None,
                k > 0 ==> prev_vb == Some(self.draw_calls@[k as int - 1].vb_idx),
            decreases n - k,
        {
            let c = self.draw_calls[k];
            let bind_vs = match prev_vb {
                None => true,
                Some(p) => p != c.vb_idx,
            };
            let bind_tex = match c.tex {
                Some(t) => match curr_tex {
                    Some(ct) => ct != t,
                    None => true,
                },
                None => false,
            };
            if bind_tex {
                curr_tex = c.tex;
            }
            proof {
                assert(self.draw_calls@[k as int].vb_idx < self.vertex_buffers@.len());
            }
            let info = self.vertex_buffers[c.vb_idx];
            steps.push(
                DrawStep {
                    call: c,
                    bind_vertex_source: bind_vs,
                    upload_scratch: c.vb_idx == 0,
                    bind_texture: bind_tex,
                    indexed: info.indexed,
                    n_indices: info.n_indices,
                },
            );
            prev_vb = Some(c.vb_idx);
            k += 1;
        }
        Ok(FramePlan { clear_color, resolve_msaa: self.msaa, apply_postfx, steps })
    }

    /// Drop the frame's draw calls and truncate the scratch buffer to
    /// empty (capacity kept), leaving loaded sources and settings
    /// untouched. After this, the scratch buffer length is 0 and the
    /// draw-call list is empty, whatever was submitted.
    pub fn finish_frame(&mut self)
        requires
            old(self).wf(),
        ensures
            final(self).wf(),
            final(self).draw_calls@.len() == 0,
            final(self).scratch_len() == 0,
            final(self).vertex_buffers == old(self).vertex_buffers,
            final(self).window_size == old(self).window_size,
            final(self).msaa == old(self).msaa,
    {
        self.draw_calls.clear();
        self.vb_cpu.clear();
    }
}

/// The plan step the i-th draw call turns into.
pub open spec fn spec_plan_step(calls: Seq<DrawCall>, buffers: Seq<VertexSourceInfo>, i: int) -> DrawStep {
    DrawStep {
        call: calls[i],
        bind_vertex_source: i == 0 || calls[i].vb_idx != calls[i - 1].vb_idx,
        upload_scratch: calls[i].vb_idx == 0,
        bind_texture: calls[i].tex is Some && calls[i].tex != spec_bound_tex(calls, i - 1),
        indexed: buffers[calls[i].vb_idx as int].indexed,
        n_indices: buffers[calls[i].vb_idx as int].n_indices,
    }
}


/// One submission of a frame: a draw request appending scratch
/// vertices, or one of the state setters. Every public draw or setter
/// states its effect with the same transition functions these ops
/// apply, so a statement over a sequence of ops speaks of any sequence
/// of public calls.
pub enum SubmitOp {
    DrawPrim { n_vertices: usize },
    SetProj { proj: Projection },
    SetCamera { camera: Camera },
    SetTex { tex: Texture, is_font: bool },
    SetDepthTest { is_set: bool },
}

/// How many scratch vertices an op appends.
pub open spec fn spec_op_vertices(op: SubmitOp) -> nat {
    match op {
        SubmitOp::DrawPrim { n_vertices } => n_vertices as nat,
        _ => 0,
    }
}

/// The call list after one op.
pub open spec fn spec_apply_op(calls: Seq<DrawCall>, scratch_len: nat, op: SubmitOp) -> Seq<
    DrawCall,
> {
    match op {
        SubmitOp::DrawPrim { n_vertices } => spec_draw_n(calls, scratch_len, n_vertices as nat),
        SubmitOp::SetProj { proj } => spec_set_proj(calls, scratch_len, proj),
        SubmitOp::SetCamera { camera } => spec_set_camera(calls, scratch_len, camera),
        SubmitOp::SetTex { tex, is_font } => spec_set_tex(calls, scratch_len, tex, is_font),
        SubmitOp::SetDepthTest { is_set } => spec_set_depth_test(calls, scratch_len, is_set),
    }
}

/// The call list after a whole sequence of ops, the scratch length
/// growing with each draw.
pub open spec fn spec_apply_ops(calls: Seq<DrawCall>, scratch_len: nat, ops: Seq<SubmitOp>) -> Seq<
    DrawCall,
>
    decreases ops.len(),
{
    if ops.len() == 0 {
        calls
    } else {
        spec_apply_ops(
            spec_apply_op(calls, scratch_len, ops[0]),
            scratch_len + spec_op_vertices(ops[0]),
            ops.drop_first(),
        )
    }
}

/// How many ops of the sequence are setters.
pub open spec fn spec_n_setters(ops: Seq<SubmitOp>) -> nat
    decreases ops.len(),
{
    if ops.len() == 0 {
        0
    } else {
        (match ops[0] {
            SubmitOp::DrawPrim { .. } => 0nat,
            _ => 1nat,
        }) + spec_n_setters(ops.drop_first())
    }
}

/// How many scratch vertices the whole sequence appends.
pub open spec fn spec_total_vertices(ops: Seq<SubmitOp>) -> nat
    decreases ops.len(),
{
    if ops.len() == 0 {
        0
    } else {
        spec_op_vertices(ops[0]) + spec_total_vertices(ops.drop_first())
    }
}

/// Whether a setter op names a value different from the one active in
/// the current call (a draw never does).
pub open spec fn spec_op_changes(calls: Seq<DrawCall>, op: SubmitOp) -> bool {
    match op {
        SubmitOp::DrawPrim { .. } => false,
        SubmitOp::SetProj { proj } => spec_curr(calls).proj != Some(proj),
        SubmitOp::SetCamera { camera } => spec_curr(calls).camera != Some(camera),
        SubmitOp::SetTex { tex, .. } => spec_curr(calls).tex != Some(tex),
        SubmitOp::SetDepthTest { is_set } => spec_curr(calls).depth_test != is_set,
    }
}

/// Each setter in the sequence changes a field while the call open at
/// that moment already has vertices.
pub open spec fn spec_ops_split_cleanly(
    calls: Seq<DrawCall>,
    scratch_len: nat,
    ops: Seq<SubmitOp>,
) -> bool
    decreases ops.len(),
{
    ops.len() == 0 || {
        &&& (ops[0] is DrawPrim || (spec_op_changes(calls, ops[0]) && spec_curr(calls).count > 0))
        &&& spec_ops_split_cleanly(
            spec_apply_op(calls, scratch_len, ops[0]),
            scratch_len + spec_op_vertices(ops[0]),
            ops.drop_first(),
        )
    }
}

/// COALESCING: starting from a frame whose current call draws the
/// scratch source, any run of draw requests with no setters between
/// them lands in exactly one draw call, whose count covers every
/// appended vertex; the vertices themselves sit contiguously in the
/// scratch buffer in submission order (each draw's contract appends
/// them at the end).
pub proof fn lemma_coalescing(calls: Seq<DrawCall>, scratch_len: nat, n: nat)
    requires
        calls.len() <= 1,
        spec_curr(calls).vb_idx == 0,
        spec_curr(calls).count + n <= usize::MAX,
        n > 0,
    ensures
        spec_draw_n(calls, scratch_len, n) == seq![
            DrawCall { count: (spec_curr(calls).count + n) as usize, ..spec_curr(calls) },
        ],
    decreases n,
{
    let one = spec_draw_one(calls, scratch_len);
    assert(one =~= seq![
        DrawCall { count: (spec_curr(calls).count + 1) as usize, ..spec_curr(calls) },
    ]);
    if n == 1 {
        assert(spec_draw_n(calls, scratch_len, 1) == spec_draw_n(one, scratch_len + 1, 0));
    } else {
        lemma_coalescing(one, scratch_len + 1, (n - 1) as nat);
        assert(spec_curr(one) == DrawCall {
            count: (spec_curr(calls).count + 1) as usize,
            ..spec_curr(calls)
        });
    }
}

/// NO-OP SETTERS: a setter naming the value the open call already has
/// leaves the call list exactly as it was — no new call is opened.
pub proof fn lemma_noop_setters(
    calls: Seq<DrawCall>,
    scratch_len: nat,
    proj: Projection,
    camera: Camera,
    tex: Texture,
    is_font: bool,
    is_set: bool,
)
    requires
        calls.len() > 0,
    ensures
        spec_curr(calls).proj == Some(proj) ==> spec_set_proj(calls, scratch_len, proj) == calls,
        spec_curr(calls).camera == Some(camera) ==> spec_set_camera(calls, scratch_len, camera)
            == calls,
        spec_curr(calls).tex == Some(tex) ==> spec_set_tex(calls, scratch_len, tex, is_font)
            == calls,
        spec_curr(calls).depth_test == is_set ==> spec_set_depth_test(calls, scratch_len, is_set)
            == calls,
{
}

/// A run of draws on a scratch-sourced current call: the list keeps its
/// length, the last call absorbs the vertices, chaining is kept, and
/// the scratch end advances with the appended vertices.
proof fn lemma_draw_n_scratch(calls: Seq<DrawCall>, scratch_len: nat, n: nat)
    requires
        calls.len() >= 1,
        calls.last().vb_idx == 0,
        spec_scratch_chained(calls),
        spec_scratch_end(calls) == scratch_len,
        scratch_len + n <= usize::MAX,
    ensures
        spec_draw_n(calls, scratch_len, n) == calls.update(
            calls.len() - 1,
            DrawCall { count: (calls.last().count + n) as usize, ..calls.last() },
        ),
        spec_scratch_chained(spec_draw_n(calls, scratch_len, n)),
        spec_scratch_end(spec_draw_n(calls, scratch_len, n)) == scratch_len + n,
    decreases n,
{
    if n == 0 {
        assert(calls.update(
            calls.len() - 1,
            DrawCall { count: (calls.last().count + 0) as usize, ..calls.last() },
        ) =~= calls);
    } else {
        let c1 = DrawCall { count: (calls.last().count + 1) as usize, ..calls.last() };
        let one = spec_draw_one(calls, scratch_len);
        assert(one =~= calls.update(calls.len() - 1, c1));
        assert(one.drop_last() =~= calls.drop_last());
        assert(spec_scratch_end(one) == scratch_len + 1);
        lemma_draw_n_scratch(one, scratch_len + 1, (n - 1) as nat);
        assert(spec_draw_n(one, scratch_len + 1, (n - 1) as nat) =~= calls.update(
            calls.len() - 1,
            DrawCall { count: (calls.last().count + n) as usize, ..calls.last() },
        ));
    }
}

/// SPLIT CORRECTNESS: starting from a frame with one open
/// scratch-sourced call, a sequence of draws interleaved with K setters
/// — each changing a field while the open call is non-empty — yields
/// exactly K + 1 draw calls, and the calls stay chained over the
/// scratch buffer: each begins where the previous scratch data ended,
/// with the total covering every appended vertex, no gaps and no
/// overlaps.
pub proof fn lemma_split_correctness(calls: Seq<DrawCall>, scratch_len: nat, ops: Seq<SubmitOp>)
    requires
        calls.len() >= 1,
        calls.last().vb_idx == 0,
        spec_scratch_chained(calls),
        spec_scratch_end(calls) == scratch_len,
        scratch_len + spec_total_vertices(ops) <= usize::MAX,
        spec_ops_split_cleanly(calls, scratch_len, ops),
        forall|i: int| 0 <= i < calls.len() ==> (#[trigger] calls[i]).vb_idx == 0,
    ensures
        spec_apply_ops(calls, scratch_len, ops).len() == calls.len() + spec_n_setters(ops),
        spec_apply_ops(calls, scratch_len, ops).last().vb_idx == 0,
        spec_scratch_chained(spec_apply_ops(calls, scratch_len, ops)),
        spec_scratch_end(spec_apply_ops(calls, scratch_len, ops)) == scratch_len
            + spec_total_vertices(ops),
        forall|i: int|
            0 <= i < spec_apply_ops(calls, scratch_len, ops).len() ==> (#[trigger] spec_apply_ops(
                calls,
                scratch_len,
                ops,
            )[i]).vb_idx == 0,
    decreases ops.len(),
{
    if ops.len() > 0 {
        let op = ops[0];
        let next = spec_apply_op(calls, scratch_len, op);
        let next_len = scratch_len + spec_op_vertices(op);
        match op {
            SubmitOp::DrawPrim { n_vertices } => {
                lemma_draw_n_scratch(calls, scratch_len, n_vertices as nat);
                assert forall|i: int| 0 <= i < next.len() implies (#[trigger] next[i]).vb_idx
                    == 0 by {
                    if i < calls.len() - 1 {
                        assert(next[i] == calls[i]);
                    }
                }
            },
            _ => {
                let cs = spec_ensure(calls);
                assert(cs == calls);
                let os = spec_open(calls, scratch_len);
                let inh = spec_inherit(calls.last(), scratch_len);
                assert(os == calls.push(inh));
                assert(os.drop_last() =~= calls);
                assert(next == os.update(os.len() - 1, next.last()));
                assert(next.drop_last() =~= calls);
                assert(next.last().vb_idx == 0);
                assert(next.last().start == scratch_len);
                assert(next.last().count == 0);
                assert(spec_scratch_chained(next));
                assert(spec_scratch_end(next) == scratch_len);
                assert forall|i: int| 0 <= i < next.len() implies (#[trigger] next[i]).vb_idx
                    == 0 by {
                    if i < calls.len() {
                        assert(next[i] == calls[i]);
                    }
                }
            },
        }
        lemma_split_correctness(next, next_len, ops.drop_first());
    }
}


proof fn lemma_chained_prefix(calls: Seq<DrawCall>, m: int)
    requires
        spec_scratch_chained(calls),
        0 <= m <= calls.len(),
    ensures
        spec_scratch_chained(calls.take(m)),
    decreases calls.len() - m,
{
    if m < calls.len() {
        assert(calls.drop_last().take(m) =~= calls.take(m));
        lemma_chained_prefix(calls.drop_last(), m);
    } else {
        assert(calls.take(m) =~= calls);
    }
}

/// The explicit no-gaps, no-overlaps form of chaining: among
/// scratch-sourced calls, each call's range begins exactly where the
/// previous one's ended.
pub proof fn lemma_scratch_partition(calls: Seq<DrawCall>)
    requires
        spec_scratch_chained(calls),
        forall|i: int| 0 <= i < calls.len() ==> (#[trigger] calls[i]).vb_idx == 0,
    ensures
        forall|i: int|
            0 < i < calls.len() ==> (#[trigger] calls[i]).start == calls[i - 1].start + calls[i
                - 1].count,
{
    assert forall|i: int| 0 < i < calls.len() implies (#[trigger] calls[i]).start == calls[i
        - 1].start + calls[i - 1].count by {
        lemma_chained_prefix(calls, i + 1);
        let p = calls.take(i + 1);
        assert(p.last() == calls[i]);
        assert(p.drop_last() =~= calls.take(i));
        assert(p.last().vb_idx == 0);
        assert(calls.take(i).last() == calls[i - 1]);
        assert(calls[i - 1].vb_idx == 0);
        assert(spec_scratch_end(calls.take(i)) == calls[i - 1].start + calls[i - 1].count);
    }
}


impl Renderer {
    /// Draw one laid-out glyph: its quad with its atlas texcoords.
    pub fn draw_glyph(&mut self, glyph: Glyph, color: Option<Color>) -> (r: Result<
        (),
        RenderError,
    >)
        requires
            old(self).wf(),
        ensures
            final(self).wf(),
            r is Ok <==> old(self).scratch_len() + 6 <= MAX_N_VERTICES,
            r is Err ==> *final(self) == *old(self) && r == Err::<(), RenderError>(
                RenderError::ScratchFull,
            ),
            r is Ok ==> {
                &&& final(self).draw_calls@ == spec_draw_n(
                    old(self).draw_calls@,
                    old(self).scratch_len(),
                    6,
                )
                &&& spec_scratch_extended(
                    old(self).vb_cpu,
                    final(self).vb_cpu,
                    spec_rect_vertices(glyph.rect, Some(glyph.texcoords), color),
                )
                &&& final(self).scratch_len() == old(self).scratch_len() + 6
                &&& final(self).vertex_buffers == old(self).vertex_buffers
                &&& final(self).window_size == old(self).window_size
                &&& final(self).msaa == old(self).msaa
            },
    {
        self.draw_rect(glyph.rect, Some(glyph.texcoords), color)
    }
}


/// How texture pixel data is laid out: one alpha byte per pixel (font
/// atlases) or four RGBA bytes per pixel.
#[derive(Debug, Clone, Copy, PartialEq, Eq, Structural)]
pub enum PixelFormat {
    Alpha,
    Rgba,
}

/// The pixel format a byte count implies for an image of the given
/// size: the bytes-per-pixel quotient must be exactly one or four.
pub open spec fn spec_texture_format(n_bytes: int, width: int, height: int) -> Result<
    PixelFormat,
    RenderError,
> {
    let px = width * height;
    if px == 0 {
        Err(RenderError::BadTextureFormat { n_components: 0 })
    } else {
        let nc = n_bytes / px;
        if nc == 1 {
            Ok(PixelFormat::Alpha)
        } else if nc == 4 {
            Ok(PixelFormat::Rgba)
        } else {
            Err(RenderError::BadTextureFormat { n_components: nc as u64 })
        }
    }
}

/// Classify texture bytes by their per-pixel component count; an empty
/// image or a count other than one or four is a usage error.
pub fn texture_format_for(n_bytes: usize, width: u32, height: u32) -> (r: Result<
    PixelFormat,
    RenderError,
>)
    ensures
        r == spec_texture_format(n_bytes as int, width as int, height as int),
{
    proof {
        assert(0 <= (width as int) * (height as int) <= 4294967295int * 4294967295int)
            by (nonlinear_arith)
            requires
                0 <= width <= 4294967295int,
                0 <= height <= 4294967295int,
            ;
    }
    let px: u64 = (width as u64) * (height as u64);
    if px == 0 {
        return Err(RenderError::BadTextureFormat { n_components: 0 });
    }
    let nc: u64 = (n_bytes as u64) / px;
    if nc == 1 {
        Ok(PixelFormat::Alpha)
    } else if nc == 4 {
        Ok(PixelFormat::Rgba)
    } else {
        Err(RenderError::BadTextureFormat { n_components: nc })
    }
}

/// What decoding PNG bytes yields: the RGBA pixels (rows flipped so
/// the first row is the image's bottom edge), width and height — a
/// function of the bytes alone, absent exactly when they do not decode.
pub uninterp spec fn png_rgba_of(bytes: Seq<u8>) -> Option<(Seq<u8>, u32, u32)>;

/// Relies on image::load_from_memory_with_format decoding PNG bytes,
/// flipped vertically and converted to RGBA8 (four bytes per pixel):
/// the outcome depends on the bytes alone.
#[verifier::external_body]
fn decode_png_rgba(bytes: &[u8]) -> (r: Option<(Vec<u8>, u32, u32)>)
    ensures
        r is Some <==> png_rgba_of(bytes@) is Some,
        r matches Some(t) ==> Some((t.0@, t.1, t.2)) == png_rgba_of(bytes@) && t.0@.len() == 4 * t.1
            * t.2,
{
    match image::load_from_memory_with_format(bytes, image::ImageFormat::Png) {
        Ok(img) => {
            let rgba = img.flipv().into_rgba8();
            let width = rgba.width();
            let height = rgba.height();
            Some((rgba.into_raw(), width, height))
        },
        Err(_) => None,
    }
}

/// Texture pixel data ready for upload by the GPU-facing side.
pub struct TextureData {
    pub pixels: Vec<u8>,
    pub width: u32,
    pub height: u32,
    pub format: PixelFormat,
}

/// Decode PNG bytes into upload-ready texture data: the decoded RGBA
/// pixels with their dimensions and format. Refused when the bytes do
/// not decode, or when the decoded size is degenerate.
pub fn load_texture_data_from_png(bytes: &[u8]) -> (r: Result<TextureData, RenderError>)
    ensures
        png_rgba_of(bytes@) is None ==> r == Err::<TextureData, RenderError>(
            RenderError::DecodeFailed,
        ),
        png_rgba_of(bytes@) matches Some(t) ==> {
            &&& (spec_texture_format(t.0.len() as int, t.1 as int, t.2 as int) matches Ok(f)
                ==> r matches Ok(d) && d.pixels@ == t.0 && d.width == t.1 && d.height == t.2
                && d.format == f)
            &&& (spec_texture_format(t.0.len() as int, t.1 as int, t.2 as int) matches Err(e)
                ==> r == Err::<TextureData, RenderError>(e))
        },
{
    match decode_png_rgba(bytes) {
        Some((pixels, width, height)) => {
            match texture_format_for(pixels.len(), width, height) {
                Ok(format) => Ok(TextureData { pixels, width, height, format }),
                Err(e) => Err(e),
            }
        },
        None => Err(RenderError::DecodeFailed),
    }
}

} // verus!
