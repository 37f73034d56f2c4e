//! The CPU-side vertex buffer: parallel per-attribute arrays (position,
//! normal, color, texcoord, flags) that either accumulate individually
//! pushed vertices (the renderer's per-frame scratch) or are built once
//! from decoded mesh data (static buffers). All per-vertex arrays hold
//! the same number of vertices at all times; a buffer built with an index
//! array never accepts `push_vertex`.

use vstd::prelude::*;

verus! {

use crate::color::Color;
use crate::fixed::FP_ONE;
use crate::vectors::{Vec2, Vec3};

/// Initial scratch capacity, in vertices.
pub const INIT_VERT_CAP: usize = 32768;

/// Per-vertex flag bits stored in the flags attribute.
#[derive(Debug, Clone, Copy, PartialEq, Eq, Structural)]
pub enum VertexFlag {
    HasTexture,
    HasNormal,
}

impl VertexFlag {
    /// The bit this flag occupies in a vertex's flag byte.
    pub open spec fn spec_mask(self) -> u8 {
        match self {
            VertexFlag::HasTexture => 1,
            VertexFlag::HasNormal => 2,
        }
    }

    pub fn mask(self) -> (m: u8)
        ensures
            m == self.spec_mask(),
    {
        match self {
            VertexFlag::HasTexture => 1,
            VertexFlag::HasNormal => 2,
        }
    }
}

impl From<VertexFlag> for u32 {
    fn from(f: VertexFlag) -> (m: u32) {
        match f {
            VertexFlag::HasTexture => 1,
            VertexFlag::HasNormal => 2,
        }
    }
}

impl vstd::std_specs::convert::FromSpecImpl<VertexFlag> for u32 {
    open spec fn obeys_from_spec() -> bool {
        true
    }

    open spec fn from_spec(f: VertexFlag) -> u32 {
        f.spec_mask() as u32
    }
}

/// Why a vertex-buffer operation was refused.
#[derive(Debug, Clone, Copy, PartialEq, Eq, Structural)]
pub enum VertexBufferError {
    /// `push_vertex` on a buffer that was built with an index array.
    IndexedPush,
    /// A mesh polygon refers to a position/normal/texcoord that the mesh
    /// does not have.
    InvalidMeshIndex,
}

pub struct VertexBufferCPU {
    pub positions: Vec<i64>,
    pub normals: Vec<i64>,
    pub colors: Vec<i64>,
    pub texcoords: Vec<i64>,
    pub flags: Vec<u8>,
    pub indices: Option<Vec<u32>>,
}

impl VertexBufferCPU {
    /// Every attribute array holds data for the same number of vertices.
    pub open spec fn wf(self) -> bool {
        &&& self.positions@.len() == 3 * self.flags@.len()
        &&& self.normals@.len() == 3 * self.flags@.len()
        &&& self.colors@.len() == 4 * self.flags@.len()
        &&& self.texcoords@.len() == 2 * self.flags@.len()
    }

    /// How many vertices the buffer holds.
    pub open spec fn spec_n_vertices(self) -> nat {
        self.flags@.len()
    }

    pub fn new(
        positions: Vec<i64>,
        normals: Vec<i64>,
        colors: Vec<i64>,
        texcoords: Vec<i64>,
        flags: Vec<u8>,
        indices: Option<Vec<u32>>,
    ) -> (vb: VertexBufferCPU)
        ensures
            vb == (VertexBufferCPU { positions, normals, colors, texcoords, flags, indices }),
    {
        VertexBufferCPU { positions, normals, colors, texcoords, flags, indices }
    }

    /// An empty, unindexed buffer with scratch capacity reserved.
    pub fn new_empty() -> (vb: VertexBufferCPU)
        ensures
            vb.wf(),
            vb.spec_n_vertices() == 0,
            vb.indices is None,
    {
        VertexBufferCPU {
            positions: Vec::with_capacity(INIT_VERT_CAP * 3),
            normals: Vec::with_capacity(INIT_VERT_CAP * 3),
            colors: Vec::with_capacity(INIT_VERT_CAP * 4),
            texcoords: Vec::with_capacity(INIT_VERT_CAP * 2),
            flags: Vec::with_capacity(INIT_VERT_CAP),
            indices: None,
        }
    }

    /// Append one vertex to every attribute array; refused on an
    /// index-backed buffer, which stays unchanged.
    pub fn push_vertex(
        &mut self,
        position: Vec3,
        normal: Option<Vec3>,
        color: Option<Color>,
        texcoord: Option<Vec2>,
    ) -> (r: Result<(), VertexBufferError>)
        ensures
            old(self).indices is Some ==> r == Err::<(), VertexBufferError>(
                VertexBufferError::IndexedPush,
            ) && *final(self) == *old(self),
            old(self).indices is None ==> r == Ok::<(), VertexBufferError>(()) && {
                &&& final(self).positions@ == old(self).positions@ + seq![
                    position.x,
                    position.y,
                    position.z,
                ]
                &&& final(self).normals@ == old(self).normals@ + spec_normal_data(normal)
                &&& final(self).colors@ == old(self).colors@ + spec_color_data(color)
                &&& final(self).texcoords@ == old(self).texcoords@ + spec_texcoord_data(texcoord)
                &&& final(self).flags@ == old(self).flags@.push(spec_vertex_flags(normal, texcoord))
                &&& final(self).indices == old(self).indices
            },
    {
        if self.indices.is_some() {
            return Err(VertexBufferError::IndexedPush);
        }
        let ghost old_positions = self.positions@;
        let ghost old_normals = self.normals@;
        let ghost old_colors = self.colors@;
        let ghost old_texcoords = self.texcoords@;

        let mut flag_bits: u8 = 0;
        self.positions.push(position.x);
        self.positions.push(position.y);
        self.positions.push(position.z);
        match normal {
            Some(n) => {
                self.normals.push(n.x);
                self.normals.push(n.y);
                self.normals.push(n.z);
                flag_bits = flag_bits + 2;
            },
            None => {
                self.normals.push(0);
                self.normals.push(0);
                self.normals.push(0);
            },
        }
        let c = match color {
            Some(c) => c,
            None => Color::zeros(),
        };
        self.colors.push(c.r);
        self.colors.push(c.g);
        self.colors.push(c.b);
        self.colors.push(c.a);
        match texcoord {
            Some(t) => {
                self.texcoords.push(t.x);
                self.texcoords.push(t.y);
                flag_bits = flag_bits + 1;
            },
            None => {
                self.texcoords.push(0);
                self.texcoords.push(0);
            },
        }
        self.flags.push(flag_bits);
        proof {
            assert(self.positions@ =~= old_positions + seq![position.x, position.y, position.z]);
            assert(self.normals@ =~= old_normals + spec_normal_data(normal));
            assert(self.colors@ =~= old_colors + spec_color_data(color));
            assert(self.texcoords@ =~= old_texcoords + spec_texcoord_data(texcoord));
        }
        Ok(())
    }

    pub fn get_positions(&self) -> (r: &[i64])
        ensures
            r@ == self.positions@,
    {
        self.positions.as_slice()
    }

    pub fn get_normals(&self) -> (r: &[i64])
        ensures
            r@ == self.normals@,
    {
        self.normals.as_slice()
    }

    pub fn get_colors(&self) -> (r: &[i64])
        ensures
            r@ == self.colors@,
    {
        self.colors.as_slice()
    }

    pub fn get_texcoords(&self) -> (r: &[i64])
        ensures
            r@ == self.texcoords@,
    {
        self.texcoords.as_slice()
    }

    pub fn get_flags(&self) -> (r: &[u8])
        ensures
            r@ == self.flags@,
    {
        self.flags.as_slice()
    }

    pub fn get_indices(&self) -> (r: Option<&[u32]>)
        ensures
            self.indices is Some <==> r is Some,
            self.indices is Some ==> r->0@ == self.indices->0@,
    {
        match &self.indices {
            Some(v) => Some(v.as_slice()),
            None => None,
        }
    }

    pub fn get_n_vertcies(&self) -> (n: usize)
        requires
            self.wf(),
        ensures
            n == self.spec_n_vertices(),
    {
        self.flags.len()
    }

    pub fn get_n_indices(&self) -> (n: usize)
        ensures
            self.indices is Some ==> n == self.indices->0@.len(),
            self.indices is None ==> n == 0,
    {
        match &self.indices {
            Some(v) => v.len(),
            None => 0,
        }
    }

    /// A copy of the position data for `n_vertices` vertices starting at
    /// `from_vertex`.
    pub fn get_positions_slice(&self, from_vertex: usize, n_vertices: usize) -> (r: Vec<i64>)
        requires
            self.wf(),
            from_vertex + n_vertices <= self.spec_n_vertices(),
        ensures
            r@ == self.positions@.subrange(
                3 * from_vertex as int,
                3 * (from_vertex + n_vertices) as int,
            ),
    {
        let total = self.positions.len();
        proof {
            assert(3 * (from_vertex + n_vertices) <= total);
        }
        copy_range(&self.positions, 3 * from_vertex, 3 * n_vertices)
    }

    /// A copy of the normal data for the vertex range.
    pub fn get_normals_slice(&self, from_vertex: usize, n_vertices: usize) -> (r: Vec<i64>)
        requires
            self.wf(),
            from_vertex + n_vertices <= self.spec_n_vertices(),
        ensures
            r@ == self.normals@.subrange(
                3 * from_vertex as int,
                3 * (from_vertex + n_vertices) as int,
            ),
    {
        let total = self.normals.len();
        proof {
            assert(3 * (from_vertex + n_vertices) <= total);
        }
        copy_range(&self.normals, 3 * from_vertex, 3 * n_vertices)
    }

    /// A copy of the color data for the vertex range.
    pub fn get_colors_slice(&self, from_vertex: usize, n_vertices: usize) -> (r: Vec<i64>)
        requires
            self.wf(),
            from_vertex + n_vertices <= self.spec_n_vertices(),
        ensures
            r@ == self.colors@.subrange(
                4 * from_vertex as int,
                4 * (from_vertex + n_vertices) as int,
            ),
    {
        let total = self.colors.len();
        proof {
            assert(4 * (from_vertex + n_vertices) <= total);
        }
        copy_range(&self.colors, 4 * from_vertex, 4 * n_vertices)
    }

    /// A copy of the texcoord data for the vertex range.
    pub fn get_texcoords_slice(&self, from_vertex: usize, n_vertices: usize) -> (r: Vec<i64>)
        requires
            self.wf(),
            from_vertex + n_vertices <= self.spec_n_vertices(),
        ensures
            r@ == self.texcoords@.subrange(
                2 * from_vertex as int,
                2 * (from_vertex + n_vertices) as int,
            ),
    {
        let total = self.texcoords.len();
        proof {
            assert(2 * (from_vertex + n_vertices) <= total);
        }
        copy_range(&self.texcoords, 2 * from_vertex, 2 * n_vertices)
    }

    /// A copy of the flag bytes for the vertex range.
    pub fn get_flags_slice(&self, from_vertex: usize, n_vertices: usize) -> (r: Vec<u8>)
        requires
            self.wf(),
            from_vertex + n_vertices <= self.spec_n_vertices(),
        ensures
            r@ == self.flags@.subrange(from_vertex as int, (from_vertex + n_vertices) as int),
    {
        copy_range_u8(&self.flags, from_vertex, n_vertices)
    }

    /// Overwrite the flag byte of every vertex.
    pub fn set_flags(&mut self, flag_bits: u8)
        requires
            old(self).wf(),
        ensures
            *final(self) == (VertexBufferCPU {
                flags: final(self).flags,
                ..*old(self)
            }),
            final(self).flags@.len() == old(self).flags@.len(),
            forall|i: int| 0 <= i < final(self).flags@.len() ==> final(self).flags@[i] == flag_bits,
    {
        let n = self.flags.len();
        self.set_flags_slice(flag_bits, 0, n);
    }

    /// Clear the given flag bits on every vertex.
    pub fn unset_flags(&mut self, flag_bits: u8)
        requires
            old(self).wf(),
        ensures
            *final(self) == (VertexBufferCPU {
                flags: final(self).flags,
                ..*old(self)
            }),
            final(self).flags@.len() == old(self).flags@.len(),
            forall|i: int|
                0 <= i < final(self).flags@.len() ==> final(self).flags@[i] == (old(self).flags@[i]
                    & !flag_bits),
    {
        let n = self.flags.len();
        self.unset_flags_slice(flag_bits, 0, n);
    }

    /// Overwrite the color of every vertex.
    pub fn set_colors(&mut self, color: Color)
        requires
            old(self).wf(),
        ensures
            *final(self) == (VertexBufferCPU {
                colors: final(self).colors,
                ..*old(self)
            }),
            final(self).colors@.len() == old(self).colors@.len(),
            forall|i: int|
                0 <= i < final(self).colors@.len() ==> final(self).colors@[i] == spec_color_data(
                    Some(color),
                )[i % 4],
    {
        let n = self.flags.len();
        self.set_colors_slice(color, 0, n);
    }

    /// Overwrite the flag byte of each vertex in the range.
    pub fn set_flags_slice(&mut self, flag_bits: u8, from_vertex: usize, n_vertices: usize)
        requires
            old(self).wf(),
            from_vertex + n_vertices <= old(self).spec_n_vertices(),
        ensures
            *final(self) == (VertexBufferCPU {
                flags: final(self).flags,
                ..*old(self)
            }),
            final(self).flags@.len() == old(self).flags@.len(),
            forall|i: int|
                0 <= i < final(self).flags@.len() ==> final(self).flags@[i] == (if from_vertex <= i
                    < from_vertex + n_vertices {
                    flag_bits
                } else {
                    old(self).flags@[i]
                }),
    {
        let total = self.flags.len();
        let end = from_vertex + n_vertices;
        let mut i: usize = from_vertex;
        while i < end
            invariant
                end == from_vertex + n_vertices,
                from_vertex <= i <= from_vertex + n_vertices,
                from_vertex + n_vertices <= self.flags@.len(),
                *self == (VertexBufferCPU { flags: self.flags, ..*old(self) }),
                self.flags@.len() == old(self).flags@.len(),
                forall|j: int|
                    0 <= j < self.flags@.len() ==> self.flags@[j] == (if from_vertex <= j < i {
                        flag_bits
                    } else {
                        old(self).flags@[j]
                    }),
            decreases from_vertex + n_vertices - i,
        {
            self.flags.set(i, flag_bits);
            i += 1;
        }
    }

    /// Clear the given flag bits on each vertex in the range.
    pub fn unset_flags_slice(&mut self, flag_bits: u8, from_vertex: usize, n_vertices: usize)
        requires
            old(self).wf(),
            from_vertex + n_vertices <= old(self).spec_n_vertices(),
        ensures
            *final(self) == (VertexBufferCPU {
                flags: final(self).flags,
                ..*old(self)
            }),
            final(self).flags@.len() == old(self).flags@.len(),
            forall|i: int|
                0 <= i < final(self).flags@.len() ==> final(self).flags@[i] == (if from_vertex <= i
                    < from_vertex + n_vertices {
                    old(self).flags@[i] & !flag_bits
                } else {
                    old(self).flags@[i]
                }),
    {
        let total = self.flags.len();
        let end = from_vertex + n_vertices;
        let mut i: usize = from_vertex;
        while i < end
            invariant
                end == from_vertex + n_vertices,
                from_vertex <= i <= from_vertex + n_vertices,
                from_vertex + n_vertices <= self.flags@.len(),
                *self == (VertexBufferCPU { flags: self.flags, ..*old(self) }),
                self.flags@.len() == old(self).flags@.len(),
                forall|j: int|
                    0 <= j < self.flags@.len() ==> self.flags@[j] == (if from_vertex <= j < i {
                        old(self).flags@[j] & !flag_bits
                    } else {
                        old(self).flags@[j]
                    }),
            decreases from_vertex + n_vertices - i,
        {
            let b = self.flags[i];
            self.flags.set(i, b & !flag_bits);
            i += 1;
        }
    }

    /// Overwrite the color of each vertex in the range.
    pub fn set_colors_slice(&mut self, color: Color, from_vertex: usize, n_vertices: usize)
        requires
            old(self).wf(),
            from_vertex + n_vertices <= old(self).spec_n_vertices(),
        ensures
            *final(self) == (VertexBufferCPU {
                colors: final(self).colors,
                ..*old(self)
            }),
            final(self).colors@.len() == old(self).colors@.len(),
            forall|i: int|
                0 <= i < final(self).colors@.len() ==> final(self).colors@[i] == (if 4 * from_vertex
                    <= i < 4 * (from_vertex + n_vertices) {
                    spec_color_data(Some(color))[i % 4]
                } else {
                    old(self).colors@[i]
                }),
    {
        let total = self.colors.len();
        proof {
            assert(4 * (from_vertex + n_vertices) <= total);
        }
        let arr = color.as_arr();
        let start = 4 * from_vertex;
        let end = 4 * (from_vertex + n_vertices);
        let mut i: usize = start;
        while i < end
            invariant
                start == 4 * from_vertex,
                end == 4 * (from_vertex + n_vertices),
                start <= i <= end,
                end <= self.colors@.len(),
                arr@ == seq![color.r, color.g, color.b, color.a],
                *self == (VertexBufferCPU { colors: self.colors, ..*old(self) }),
                self.colors@.len() == old(self).colors@.len(),
                forall|j: int|
                    0 <= j < self.colors@.len() ==> self.colors@[j] == (if start <= j < i {
                        spec_color_data(Some(color))[j % 4]
                    } else {
                        old(self).colors@[j]
                    }),
            decreases end - i,
        {
            self.colors.set(i, arr[i % 4]);
            i += 1;
        }
    }

    /// Truncate every attribute array (and any index array) to empty;
    /// capacity is kept for reuse.
    pub fn clear(&mut self)
        ensures
            final(self).wf(),
            final(self).spec_n_vertices() == 0,
            final(self).positions@.len() == 0,
            final(self).normals@.len() == 0,
            final(self).colors@.len() == 0,
            final(self).texcoords@.len() == 0,
            final(self).indices is Some <==> old(self).indices is Some,
            final(self).indices is Some ==> final(self).indices->0@.len() == 0,
    {
        self.positions.clear();
        self.normals.clear();
        self.colors.clear();
        self.texcoords.clear();
        self.flags.clear();
        match &mut self.indices {
            Some(v) => {
                v.clear();
            },
            None => {},
        }
    }
}

/// The three normal components a vertex stores: the given normal, or
/// zero-filled.
pub open spec fn spec_normal_data(normal: Option<Vec3>) -> Seq<i64> {
    match normal {
        Some(n) => seq![n.x, n.y, n.z],
        None => seq![0i64, 0i64, 0i64],
    }
}

/// The four color components a vertex stores: the given color, or the
/// all-zero "no tint" color.
pub open spec fn spec_color_data(color: Option<Color>) -> Seq<i64> {
    match color {
        Some(c) => seq![c.r, c.g, c.b, c.a],
        None => seq![0i64, 0i64, 0i64, 0i64],
    }
}

/// The two texcoord components a vertex stores: the given texcoord, or
/// zero-filled.
pub open spec fn spec_texcoord_data(texcoord: Option<Vec2>) -> Seq<i64> {
    match texcoord {
        Some(t) => seq![t.x, t.y],
        None => seq![0i64, 0i64],
    }
}

/// The flag byte of a pushed vertex: `HasNormal` and `HasTexture` bits
/// according to which optional attributes were given.
pub open spec fn spec_vertex_flags(normal: Option<Vec3>, texcoord: Option<Vec2>) -> u8 {
    if normal is Some && texcoord is Some {
        3u8
    } else if normal is Some {
        2u8
    } else if texcoord is Some {
        1u8
    } else {
        0u8
    }
}

/// A copy of `count` elements of `v` starting at `start`.
fn copy_range(v: &Vec<i64>, start: usize, count: usize) -> (r: Vec<i64>)
    requires
        start + count <= v@.len(),
    ensures
        r@ == v@.subrange(start as int, (start + count) as int),
{
    let len = v.len();
    let mut r: Vec<i64> = Vec::with_capacity(count);
    let mut i: usize = 0;
    while i < count
        invariant
            start + count <= v@.len(),
            v@.len() <= usize::MAX,
            i <= count,
            r@ =~= v@.subrange(start as int, (start + i) as int),
        decreases count - i,
    {
        r.push(v[start + i]);
        proof {
            assert(r@ =~= v@.subrange(start as int, (start + i + 1) as int));
        }
        i += 1;
    }
    r
}

/// A copy of `count` bytes of `v` starting at `start`.
fn copy_range_u8(v: &Vec<u8>, start: usize, count: usize) -> (r: Vec<u8>)
    requires
        start + count <= v@.len(),
    ensures
        r@ == v@.subrange(start as int, (start + count) as int),
{
    let len = v.len();
    let mut r: Vec<u8> = Vec::with_capacity(count);
    let mut i: usize = 0;
    while i < count
        invariant
            start + count <= v@.len(),
            v@.len() <= usize::MAX,
            i <= count,
            r@ =~= v@.subrange(start as int, (start + i) as int),
        decreases count - i,
    {
        r.push(v[start + i]);
        proof {
            assert(r@ =~= v@.subrange(start as int, (start + i + 1) as int));
        }
        i += 1;
    }
    r
}


/// One face of a decoded mesh: indices into the mesh's attribute tables.
/// A face either names positions alone, positions with texcoords,
/// positions with normals, or all three.
#[derive(Debug, Clone, PartialEq, Eq)]
pub enum MeshPolygon {
    P(Vec<usize>),
    PT(Vec<(usize, usize)>),
    PN(Vec<(usize, usize)>),
    PTN(Vec<(usize, usize, usize)>),
}

/// Decoded mesh data: attribute tables plus the faces that index them.
pub struct RawMeshData {
    pub positions: Vec<Vec3>,
    pub normals: Vec<Vec3>,
    pub tex_coords: Vec<Vec2>,
    pub polygons: Vec<MeshPolygon>,
}

/// One fully resolved vertex of a flattened mesh.
#[derive(Debug, Clone, Copy, PartialEq, Eq, Structural)]
pub struct FlatVertex {
    pub position: Vec3,
    pub normal: Vec3,
    pub color: Color,
    pub texcoord: Vec2,
    pub flag_bits: u8,
}

/// How many vertex slots a face contributes.
pub open spec fn spec_poly_len(p: MeshPolygon) -> nat {
    match p {
        MeshPolygon::P(v) => v@.len(),
        MeshPolygon::PT(v) => v@.len(),
        MeshPolygon::PN(v) => v@.len(),
        MeshPolygon::PTN(v) => v@.len(),
    }
}

/// Every index of the face stays inside the mesh's attribute tables.
pub open spec fn spec_poly_ok(mesh: RawMeshData, p: MeshPolygon) -> bool {
    match p {
        MeshPolygon::P(v) => forall|i: int|
            0 <= i < v@.len() ==> v@[i] < mesh.positions@.len(),
        MeshPolygon::PT(v) => forall|i: int|
            0 <= i < v@.len() ==> v@[i].0 < mesh.positions@.len() && v@[i].1
                < mesh.tex_coords@.len(),
        MeshPolygon::PN(v) => forall|i: int|
            0 <= i < v@.len() ==> v@[i].0 < mesh.positions@.len() && v@[i].1
                < mesh.normals@.len(),
        MeshPolygon::PTN(v) => forall|i: int|
            0 <= i < v@.len() ==> v@[i].0 < mesh.positions@.len() && v@[i].1
                < mesh.tex_coords@.len() && v@[i].2 < mesh.normals@.len(),
    }
}

/// Every face of the mesh is in bounds.
pub open spec fn spec_mesh_ok(mesh: RawMeshData) -> bool {
    forall|j: int| 0 <= j < mesh.polygons@.len() ==> spec_poly_ok(mesh, mesh.polygons@[j])
}

/// The vertex a face contributes at slot `i`: attributes looked up in the
/// tables, missing ones zero-filled, flag bits matching what is present.
pub open spec fn spec_poly_vertex(mesh: RawMeshData, p: MeshPolygon, i: int) -> FlatVertex {
    let zero3 = Vec3 { x: 0, y: 0, z: 0 };
    let zero2 = Vec2 { x: 0, y: 0 };
    let white = Color { r: FP_ONE, g: FP_ONE, b: FP_ONE, a: FP_ONE };
    match p {
        MeshPolygon::P(v) => FlatVertex {
            position: mesh.positions@[v@[i] as int],
            normal: zero3,
            color: white,
            texcoord: zero2,
            flag_bits: 0,
        },
        MeshPolygon::PT(v) => FlatVertex {
            position: mesh.positions@[v@[i].0 as int],
            normal: zero3,
            color: white,
            texcoord: mesh.tex_coords@[v@[i].1 as int],
            flag_bits: 1,
        },
        MeshPolygon::PN(v) => FlatVertex {
            position: mesh.positions@[v@[i].0 as int],
            normal: mesh.normals@[v@[i].1 as int],
            color: white,
            texcoord: zero2,
            flag_bits: 2,
        },
        MeshPolygon::PTN(v) => FlatVertex {
            position: mesh.positions@[v@[i].0 as int],
            normal: mesh.normals@[v@[i].2 as int],
            color: white,
            texcoord: mesh.tex_coords@[v@[i].1 as int],
            flag_bits: 3,
        },
    }
}

/// All the vertices one face contributes, in order.
pub open spec fn spec_poly_vertices(mesh: RawMeshData, p: MeshPolygon) -> Seq<FlatVertex> {
    Seq::new(spec_poly_len(p), |i: int| spec_poly_vertex(mesh, p, i))
}

/// The vertices a sequence of faces contributes, concatenated in face
/// order.
pub open spec fn spec_polys_vertices(mesh: RawMeshData, polys: Seq<MeshPolygon>) -> Seq<FlatVertex>
    decreases polys.len(),
{
    if polys.len() == 0 {
        Seq::empty()
    } else {
        spec_polys_vertices(mesh, polys.drop_last()) + spec_poly_vertices(mesh, polys.last())
    }
}

/// Every vertex the whole mesh contributes, in submission order.
pub open spec fn spec_mesh_vertices(mesh: RawMeshData) -> Seq<FlatVertex> {
    spec_polys_vertices(mesh, mesh.polygons@)
}

/// The position array of a flattened vertex sequence: three scalars per
/// vertex.
pub open spec fn spec_positions_of(vs: Seq<FlatVertex>) -> Seq<i64> {
    Seq::new(
        3 * vs.len(),
        |i: int|
            if i % 3 == 0 {
                vs[i / 3].position.x
            } else if i % 3 == 1 {
                vs[i / 3].position.y
            } else {
                vs[i / 3].position.z
            },
    )
}

/// The normal array of a flattened vertex sequence.
pub open spec fn spec_normals_of(vs: Seq<FlatVertex>) -> Seq<i64> {
    Seq::new(
        3 * vs.len(),
        |i: int|
            if i % 3 == 0 {
                vs[i / 3].normal.x
            } else if i % 3 == 1 {
                vs[i / 3].normal.y
            } else {
                vs[i / 3].normal.z
            },
    )
}

/// The texcoord array of a flattened vertex sequence.
pub open spec fn spec_texcoords_of(vs: Seq<FlatVertex>) -> Seq<i64> {
    Seq::new(
        2 * vs.len(),
        |i: int|
            if i % 2 == 0 {
                vs[i / 2].texcoord.x
            } else {
                vs[i / 2].texcoord.y
            },
    )
}

/// The color array of a flattened vertex sequence: four channels per
/// vertex.
pub open spec fn spec_colors_of(vs: Seq<FlatVertex>) -> Seq<i64> {
    Seq::new(
        4 * vs.len(),
        |i: int|
            if i % 4 == 0 {
                vs[i / 4].color.r
            } else if i % 4 == 1 {
                vs[i / 4].color.g
            } else if i % 4 == 2 {
                vs[i / 4].color.b
            } else {
                vs[i / 4].color.a
            },
    )
}

/// The flag array of a flattened vertex sequence.
pub open spec fn spec_flags_of(vs: Seq<FlatVertex>) -> Seq<u8> {
    Seq::new(vs.len(), |i: int| vs[i].flag_bits)
}

/// The buffer holds exactly the given flattened vertices, with every
/// vertex color set to full white (no texture tint lost).
pub open spec fn vb_matches(vb: VertexBufferCPU, vs: Seq<FlatVertex>) -> bool {
    &&& vb.positions@ == spec_positions_of(vs)
    &&& vb.normals@ == spec_normals_of(vs)
    &&& vb.texcoords@ == spec_texcoords_of(vs)
    &&& vb.flags@ == spec_flags_of(vs)
    &&& vb.colors@ == spec_colors_of(vs)
}

proof fn lemma_flat_push(vs: Seq<FlatVertex>, v: FlatVertex)
    ensures
        spec_positions_of(vs.push(v)) == spec_positions_of(vs) + seq![
            v.position.x,
            v.position.y,
            v.position.z,
        ],
        spec_normals_of(vs.push(v)) == spec_normals_of(vs) + seq![v.normal.x, v.normal.y, v.normal.z],
        spec_texcoords_of(vs.push(v)) == spec_texcoords_of(vs) + seq![v.texcoord.x, v.texcoord.y],
        spec_flags_of(vs.push(v)) == spec_flags_of(vs).push(v.flag_bits),
        spec_colors_of(vs.push(v)) == spec_colors_of(vs) + seq![
            v.color.r,
            v.color.g,
            v.color.b,
            v.color.a,
        ],
{
    let n = vs.len() as int;
    assert forall|i: int| 0 <= i < 3 * (n + 1) implies spec_positions_of(vs.push(v))[i] == (
    spec_positions_of(vs) + seq![v.position.x, v.position.y, v.position.z])[i] by {
        if i < 3 * n {
            assert(i / 3 < n);
            assert(vs.push(v)[i / 3] == vs[i / 3]);
        } else {
            assert(i / 3 == n);
            assert(vs.push(v)[n] == v);
        }
    }
    assert(spec_positions_of(vs.push(v)) =~= spec_positions_of(vs) + seq![
        v.position.x,
        v.position.y,
        v.position.z,
    ]);
    assert forall|i: int| 0 <= i < 3 * (n + 1) implies spec_normals_of(vs.push(v))[i] == (
    spec_normals_of(vs) + seq![v.normal.x, v.normal.y, v.normal.z])[i] by {
        if i < 3 * n {
            assert(i / 3 < n);
            assert(vs.push(v)[i / 3] == vs[i / 3]);
        } else {
            assert(i / 3 == n);
            assert(vs.push(v)[n] == v);
        }
    }
    assert(spec_normals_of(vs.push(v)) =~= spec_normals_of(vs) + seq![
        v.normal.x,
        v.normal.y,
        v.normal.z,
    ]);
    assert forall|i: int| 0 <= i < 2 * (n + 1) implies spec_texcoords_of(vs.push(v))[i] == (
    spec_texcoords_of(vs) + seq![v.texcoord.x, v.texcoord.y])[i] by {
        if i < 2 * n {
            assert(i / 2 < n);
            assert(vs.push(v)[i / 2] == vs[i / 2]);
        } else {
            assert(i / 2 == n);
            assert(vs.push(v)[n] == v);
        }
    }
    assert(spec_texcoords_of(vs.push(v)) =~= spec_texcoords_of(vs) + seq![
        v.texcoord.x,
        v.texcoord.y,
    ]);
    assert(spec_flags_of(vs.push(v)) =~= spec_flags_of(vs).push(v.flag_bits));
    assert forall|i: int| 0 <= i < 4 * (n + 1) implies spec_colors_of(vs.push(v))[i] == (
    spec_colors_of(vs) + seq![v.color.r, v.color.g, v.color.b, v.color.a])[i] by {
        if i < 4 * n {
            assert(i / 4 < n);
            assert(vs.push(v)[i / 4] == vs[i / 4]);
        } else {
            assert(i / 4 == n);
            assert(vs.push(v)[n] == v);
        }
    }
    assert(spec_colors_of(vs.push(v)) =~= spec_colors_of(vs) + seq![
        v.color.r,
        v.color.g,
        v.color.b,
        v.color.a,
    ]);
}

proof fn lemma_polys_take_step(mesh: RawMeshData, polys: Seq<MeshPolygon>, j: int)
    requires
        0 <= j < polys.len(),
    ensures
        spec_polys_vertices(mesh, polys.take(j + 1)) == spec_polys_vertices(mesh, polys.take(j))
            + spec_poly_vertices(mesh, polys[j]),
{
    assert(polys.take(j + 1).drop_last() =~= polys.take(j));
    assert(polys.take(j + 1).last() == polys[j]);
}

impl VertexBufferCPU {
    /// Flatten decoded mesh data into an unindexed vertex buffer: each
    /// face's slots are resolved against the attribute tables in face
    /// order, colors are set to full white, and the flag bits record
    /// which attributes each face supplied. Refused exactly when some
    /// face indexes outside a table.
    pub fn from_raw_mesh(mesh: &RawMeshData) -> (r: Result<VertexBufferCPU, VertexBufferError>)
        ensures
            r is Ok <==> spec_mesh_ok(*mesh),
            r is Ok ==> {
                &&& r->Ok_0.wf()
                &&& r->Ok_0.indices is None
                &&& vb_matches(r->Ok_0, spec_mesh_vertices(*mesh))
            },
    {
        let white = Color::new(FP_ONE, FP_ONE, FP_ONE, FP_ONE);
        let mut vb = VertexBufferCPU::new_empty();
        let ghost m = *mesh;
        proof {
            assert(vb_matches(vb, spec_polys_vertices(m, m.polygons@.take(0)))) by {
                assert(m.polygons@.take(0) =~= Seq::<MeshPolygon>::empty());
                assert(vb.positions@ =~= Seq::<i64>::empty());
                assert(vb.normals@ =~= Seq::<i64>::empty());
                assert(vb.texcoords@ =~= Seq::<i64>::empty());
                assert(vb.colors@ =~= Seq::<i64>::empty());
                assert(vb.flags@ =~= Seq::<u8>::empty());
                assert(spec_positions_of(Seq::<FlatVertex>::empty()) =~= Seq::<i64>::empty());
                assert(spec_normals_of(Seq::<FlatVertex>::empty()) =~= Seq::<i64>::empty());
                assert(spec_texcoords_of(Seq::<FlatVertex>::empty()) =~= Seq::<i64>::empty());
                assert(spec_flags_of(Seq::<FlatVertex>::empty()) =~= Seq::<u8>::empty());
                assert(spec_colors_of(Seq::<FlatVertex>::empty()) =~= Seq::<i64>::empty());
            }
        }
        let n_polys = mesh.polygons.len();
        let mut j: usize = 0;
        while j < n_polys
            invariant
                m == *mesh,
                n_polys == mesh.polygons@.len(),
                j <= n_polys,
                white == (Color { r: FP_ONE, g: FP_ONE, b: FP_ONE, a: FP_ONE }),
                vb.wf(),
                vb.indices is None,
                vb_matches(vb, spec_polys_vertices(m, m.polygons@.take(j as int))),
                forall|k: int| 0 <= k < j ==> spec_poly_ok(m, m.polygons@[k]),
            decreases n_polys - j,
        {
            let ghost vs_before = spec_polys_vertices(m, m.polygons@.take(j as int));
            let ghost poly = m.polygons@[j as int];
            let ghost pvs = spec_poly_vertices(m, poly);
            match &mesh.polygons[j] {
                MeshPolygon::P(face) => {
                    let len = face.len();
                    let mut i: usize = 0;
                    while i < len
                        invariant
                            m == *mesh,
                            0 <= j < m.polygons@.len(),
                            poly == m.polygons@[j as int],
                            poly is P,
                            face == poly->P_0,
                            len == face@.len(),
                            i <= len,
                            white == (Color { r: FP_ONE, g: FP_ONE, b: FP_ONE, a: FP_ONE }),
                            vb.wf(),
                            vb.indices is None,
                            vb_matches(vb, vs_before + pvs.take(i as int)),
                            pvs == spec_poly_vertices(m, poly),
                            forall|k: int| 0 <= k < i ==> face@[k] < m.positions@.len(),
                        decreases len - i,
                    {
                        let idx = face[i];
                        if idx >= mesh.positions.len() {
                            proof {
                                assert(m.polygons@[j as int]->P_0@[i as int]
                                    >= m.positions@.len());
                                assert(spec_poly_ok(m, m.polygons@[j as int])
                                    ==> m.polygons@[j as int]->P_0@[i as int]
                                    < m.positions@.len());
                                assert(!spec_poly_ok(m, m.polygons@[j as int]));
                                assert(spec_mesh_ok(m) ==> spec_poly_ok(
                                    m,
                                    m.polygons@[j as int],
                                ));
                                assert(!spec_mesh_ok(m));
                            }
                            return Err(VertexBufferError::InvalidMeshIndex);
                        }
                        let position = mesh.positions[idx];
                        let _ = vb.push_vertex(position, None, Some(white), None);
                        proof {
                            lemma_flat_push(vs_before + pvs.take(i as int), pvs[i as int]);
                            assert((vs_before + pvs.take(i as int)).push(pvs[i as int]) =~= vs_before
                                + pvs.take(i as int + 1));
                        }
                        i += 1;
                    }
                    proof {
                        assert(pvs.take(len as int) =~= pvs);
                    }
                },
                MeshPolygon::PT(face) => {
                    let len = face.len();
                    let mut i: usize = 0;
                    while i < len
                        invariant
                            m == *mesh,
                            0 <= j < m.polygons@.len(),
                            poly == m.polygons@[j as int],
                            poly is PT,
                            face == poly->PT_0,
                            len == face@.len(),
                            i <= len,
                            white == (Color { r: FP_ONE, g: FP_ONE, b: FP_ONE, a: FP_ONE }),
                            vb.wf(),
                            vb.indices is None,
                            vb_matches(vb, vs_before + pvs.take(i as int)),
                            pvs == spec_poly_vertices(m, poly),
                            forall|k: int|
                                0 <= k < i ==> face@[k].0 < m.positions@.len() && face@[k].1
                                    < m.tex_coords@.len(),
                        decreases len - i,
                    {
                        let (pi, ti) = face[i];
                        if pi >= mesh.positions.len() || ti >= mesh.tex_coords.len() {
                            proof {
                                assert(m.polygons@[j as int]->PT_0@[i as int].0
                                    >= m.positions@.len() || m.polygons@[j as int]->PT_0@[
                                    i as int].1 >= m.tex_coords@.len());
                                assert(spec_poly_ok(m, m.polygons@[j as int])
                                    ==> m.polygons@[j as int]->PT_0@[i as int].0
                                    < m.positions@.len() && m.polygons@[j as int]->PT_0@[
                                    i as int].1 < m.tex_coords@.len());
                                assert(!spec_poly_ok(m, m.polygons@[j as int]));
                                assert(spec_mesh_ok(m) ==> spec_poly_ok(
                                    m,
                                    m.polygons@[j as int],
                                ));
                                assert(!spec_mesh_ok(m));
                            }
                            return Err(VertexBufferError::InvalidMeshIndex);
                        }
                        let position = mesh.positions[pi];
                        let texcoord = mesh.tex_coords[ti];
                        let _ = vb.push_vertex(position, None, Some(white), Some(texcoord));
                        proof {
                            lemma_flat_push(vs_before + pvs.take(i as int), pvs[i as int]);
                            assert((vs_before + pvs.take(i as int)).push(pvs[i as int]) =~= vs_before
                                + pvs.take(i as int + 1));
                        }
                        i += 1;
                    }
                    proof {
                        assert(pvs.take(len as int) =~= pvs);
                    }
                },
                MeshPolygon::PN(face) => {
                    let len = face.len();
                    let mut i: usize = 0;
                    while i < len
                        invariant
                            m == *mesh,
                            0 <= j < m.polygons@.len(),
                            poly == m.polygons@[j as int],
                            poly is PN,
                            face == poly->PN_0,
                            len == face@.len(),
                            i <= len,
                            white == (Color { r: FP_ONE, g: FP_ONE, b: FP_ONE, a: FP_ONE }),
                            vb.wf(),
                            vb.indices is None,
                            vb_matches(vb, vs_before + pvs.take(i as int)),
                            pvs == spec_poly_vertices(m, poly),
                            forall|k: int|
                                0 <= k < i ==> face@[k].0 < m.positions@.len() && face@[k].1
                                    < m.normals@.len(),
                        decreases len - i,
                    {
                        let (pi, ni) = face[i];
                        if pi >= mesh.positions.len() || ni >= mesh.normals.len() {
                            proof {
                                assert(m.polygons@[j as int]->PN_0@[i as int].0
                                    >= m.positions@.len() || m.polygons@[j as int]->PN_0@[
                                    i as int].1 >= m.normals@.len());
                                assert(spec_poly_ok(m, m.polygons@[j as int])
                                    ==> m.polygons@[j as int]->PN_0@[i as int].0
                                    < m.positions@.len() && m.polygons@[j as int]->PN_0@[
                                    i as int].1 < m.normals@.len());
                                assert(!spec_poly_ok(m, m.polygons@[j as int]));
                                assert(spec_mesh_ok(m) ==> spec_poly_ok(
                                    m,
                                    m.polygons@[j as int],
                                ));
                                assert(!spec_mesh_ok(m));
                            }
                            return Err(VertexBufferError::InvalidMeshIndex);
                        }
                        let position = mesh.positions[pi];
                        let normal = mesh.normals[ni];
                        let _ = vb.push_vertex(position, Some(normal), Some(white), None);
                        proof {
                            lemma_flat_push(vs_before + pvs.take(i as int), pvs[i as int]);
                            assert((vs_before + pvs.take(i as int)).push(pvs[i as int]) =~= vs_before
                                + pvs.take(i as int + 1));
                        }
                        i += 1;
                    }
                    proof {
                        assert(pvs.take(len as int) =~= pvs);
                    }
                },
                MeshPolygon::PTN(face) => {
                    let len = face.len();
                    let mut i: usize = 0;
                    while i < len
                        invariant
                            m == *mesh,
                            0 <= j < m.polygons@.len(),
                            poly == m.polygons@[j as int],
                            poly is PTN,
                            face == poly->PTN_0,
                            len == face@.len(),
                            i <= len,
                            white == (Color { r: FP_ONE, g: FP_ONE, b: FP_ONE, a: FP_ONE }),
                            vb.wf(),
                            vb.indices is None,
                            vb_matches(vb, vs_before + pvs.take(i as int)),
                            pvs == spec_poly_vertices(m, poly),
                            forall|k: int|
                                0 <= k < i ==> face@[k].0 < m.positions@.len() && face@[k].1
                                    < m.tex_coords@.len() && face@[k].2 < m.normals@.len(),
                        decreases len - i,
                    {
                        let (pi, ti, ni) = face[i];
                        if pi >= mesh.positions.len() || ti >= mesh.tex_coords.len() || ni
                            >= mesh.normals.len() {
                            proof {
                                assert(m.polygons@[j as int]->PTN_0@[i as int].0
                                    >= m.positions@.len() || m.polygons@[j as int]->PTN_0@[
                                    i as int].1 >= m.tex_coords@.len() || m.polygons@[
                                    j as int]->PTN_0@[i as int].2 >= m.normals@.len());
                                assert(spec_poly_ok(m, m.polygons@[j as int])
                                    ==> m.polygons@[j as int]->PTN_0@[i as int].0
                                    < m.positions@.len() && m.polygons@[j as int]->PTN_0@[
                                    i as int].1 < m.tex_coords@.len() && m.polygons@[
                                    j as int]->PTN_0@[i as int].2 < m.normals@.len());
                                assert(!spec_poly_ok(m, m.polygons@[j as int]));
                                assert(spec_mesh_ok(m) ==> spec_poly_ok(
                                    m,
                                    m.polygons@[j as int],
                                ));
                                assert(!spec_mesh_ok(m));
                            }
                            return Err(VertexBufferError::InvalidMeshIndex);
                        }
                        let position = mesh.positions[pi];
                        let texcoord = mesh.tex_coords[ti];
                        let normal = mesh.normals[ni];
                        let _ = vb.push_vertex(position, Some(normal), Some(white), Some(texcoord));
                        proof {
                            lemma_flat_push(vs_before + pvs.take(i as int), pvs[i as int]);
                            assert((vs_before + pvs.take(i as int)).push(pvs[i as int]) =~= vs_before
                                + pvs.take(i as int + 1));
                        }
                        i += 1;
                    }
                    proof {
                        assert(pvs.take(len as int) =~= pvs);
                    }
                },
            }
            proof {
                lemma_polys_take_step(m, m.polygons@, j as int);
            }
            j += 1;
        }
        proof {
            assert(m.polygons@.take(n_polys as int) =~= m.polygons@);
        }
        Ok(vb)
    }
}


/// The flattened form of one pushed vertex: missing attributes
/// zero-filled, flag bits recording which were present.
pub open spec fn spec_flat_vertex(
    position: Vec3,
    normal: Option<Vec3>,
    color: Option<Color>,
    texcoord: Option<Vec2>,
) -> FlatVertex {
    FlatVertex {
        position,
        normal: match normal {
            Some(n) => n,
            None => Vec3 { x: 0, y: 0, z: 0 },
        },
        color: match color {
            Some(c) => c,
            None => Color { r: 0, g: 0, b: 0, a: 0 },
        },
        texcoord: match texcoord {
            Some(t) => t,
            None => Vec2 { x: 0, y: 0 },
        },
        flag_bits: spec_vertex_flags(normal, texcoord),
    }
}

/// The second buffer is the first with exactly the flattened vertices
/// `vs` appended, in order.
pub open spec fn spec_scratch_extended(
    vb0: VertexBufferCPU,
    vb1: VertexBufferCPU,
    vs: Seq<FlatVertex>,
) -> bool {
    &&& vb1.positions@ == vb0.positions@ + spec_positions_of(vs)
    &&& vb1.normals@ == vb0.normals@ + spec_normals_of(vs)
    &&& vb1.colors@ == vb0.colors@ + spec_colors_of(vs)
    &&& vb1.texcoords@ == vb0.texcoords@ + spec_texcoords_of(vs)
    &&& vb1.flags@ == vb0.flags@ + spec_flags_of(vs)
    &&& vb1.indices == vb0.indices
}

/// A buffer extends itself by no vertices.
pub proof fn lemma_extended_refl(vb: VertexBufferCPU)
    ensures
        spec_scratch_extended(vb, vb, Seq::<FlatVertex>::empty()),
{
    assert(spec_positions_of(Seq::<FlatVertex>::empty()) =~= Seq::<i64>::empty());
    assert(spec_normals_of(Seq::<FlatVertex>::empty()) =~= Seq::<i64>::empty());
    assert(spec_colors_of(Seq::<FlatVertex>::empty()) =~= Seq::<i64>::empty());
    assert(spec_texcoords_of(Seq::<FlatVertex>::empty()) =~= Seq::<i64>::empty());
    assert(spec_flags_of(Seq::<FlatVertex>::empty()) =~= Seq::<u8>::empty());
    assert(vb.positions@ =~= vb.positions@ + Seq::<i64>::empty());
    assert(vb.normals@ =~= vb.normals@ + Seq::<i64>::empty());
    assert(vb.colors@ =~= vb.colors@ + Seq::<i64>::empty());
    assert(vb.texcoords@ =~= vb.texcoords@ + Seq::<i64>::empty());
    assert(vb.flags@ =~= vb.flags@ + Seq::<u8>::empty());
}

/// What `push_vertex` appends is the extension by one flattened vertex.
pub proof fn lemma_extended_one(
    vb0: VertexBufferCPU,
    vb1: VertexBufferCPU,
    position: Vec3,
    normal: Option<Vec3>,
    color: Option<Color>,
    texcoord: Option<Vec2>,
)
    requires
        vb1.positions@ == vb0.positions@ + seq![position.x, position.y, position.z],
        vb1.normals@ == vb0.normals@ + spec_normal_data(normal),
        vb1.colors@ == vb0.colors@ + spec_color_data(color),
        vb1.texcoords@ == vb0.texcoords@ + spec_texcoord_data(texcoord),
        vb1.flags@ == vb0.flags@.push(spec_vertex_flags(normal, texcoord)),
        vb1.indices == vb0.indices,
    ensures
        spec_scratch_extended(vb0, vb1, seq![spec_flat_vertex(position, normal, color, texcoord)]),
{
    let v = spec_flat_vertex(position, normal, color, texcoord);
    let vs = seq![v];
    assert(vs =~= Seq::<FlatVertex>::empty().push(v));
    lemma_extended_refl(vb0);
    lemma_flat_push(Seq::<FlatVertex>::empty(), v);
    assert(spec_normal_data(normal) =~= seq![v.normal.x, v.normal.y, v.normal.z]);
    assert(spec_color_data(color) =~= seq![v.color.r, v.color.g, v.color.b, v.color.a]);
    assert(spec_texcoord_data(texcoord) =~= seq![v.texcoord.x, v.texcoord.y]);
    assert(spec_positions_of(vs) =~= seq![position.x, position.y, position.z]);
    assert(spec_normals_of(vs) =~= spec_normal_data(normal));
    assert(spec_colors_of(vs) =~= spec_color_data(color));
    assert(spec_texcoords_of(vs) =~= spec_texcoord_data(texcoord));
    assert(spec_flags_of(vs) =~= Seq::<u8>::empty().push(v.flag_bits));
    assert(vb1.flags@ =~= vb0.flags@ + spec_flags_of(vs));
}

proof fn lemma_div_shift(k: int, la: int, r: int)
    requires
        k > 0,
        la >= 0,
        r >= 0,
    ensures
        (k * la + r) / k == la + r / k,
        (k * la + r) % k == r % k,
{
    vstd::arithmetic::div_mod::lemma_fundamental_div_mod(r, k);
    vstd::arithmetic::div_mod::lemma_mod_bound(r, k);
    assert(k * la + r == k * (la + r / k) + (r % k)) by (nonlinear_arith)
        requires
            r == k * (r / k) + (r % k),
        ;
    vstd::arithmetic::div_mod::lemma_div_multiples_vanish_fancy(la + r / k, r % k, k);
    vstd::arithmetic::div_mod::lemma_mod_multiples_vanish(la + r / k, r % k, k);
    vstd::arithmetic::div_mod::lemma_small_mod((r % k) as nat, k as nat);
}

/// Flattening distributes over concatenation of vertex sequences.
pub proof fn lemma_flat_concat(a: Seq<FlatVertex>, b: Seq<FlatVertex>)
    ensures
        spec_positions_of(a + b) == spec_positions_of(a) + spec_positions_of(b),
        spec_normals_of(a + b) == spec_normals_of(a) + spec_normals_of(b),
        spec_colors_of(a + b) == spec_colors_of(a) + spec_colors_of(b),
        spec_texcoords_of(a + b) == spec_texcoords_of(a) + spec_texcoords_of(b),
        spec_flags_of(a + b) == spec_flags_of(a) + spec_flags_of(b),
{
    let la = a.len() as int;
    let lb = b.len() as int;
    assert forall|i: int| 0 <= i < 3 * (la + lb) implies spec_positions_of(a + b)[i] == (
    spec_positions_of(a) + spec_positions_of(b))[i] by {
        if i < 3 * la {
            assert(i / 3 < la);
            assert((a + b)[i / 3] == a[i / 3]);
        } else {
            lemma_div_shift(3, la, i - 3 * la);
            assert(i / 3 >= la);
            assert((a + b)[i / 3] == b[i / 3 - la]);
        }
    }
    assert(spec_positions_of(a + b) =~= spec_positions_of(a) + spec_positions_of(b));
    assert forall|i: int| 0 <= i < 3 * (la + lb) implies spec_normals_of(a + b)[i] == (
    spec_normals_of(a) + spec_normals_of(b))[i] by {
        if i < 3 * la {
            assert(i / 3 < la);
            assert((a + b)[i / 3] == a[i / 3]);
        } else {
            lemma_div_shift(3, la, i - 3 * la);
            assert(i / 3 >= la);
            assert((a + b)[i / 3] == b[i / 3 - la]);
        }
    }
    assert(spec_normals_of(a + b) =~= spec_normals_of(a) + spec_normals_of(b));
    assert forall|i: int| 0 <= i < 4 * (la + lb) implies spec_colors_of(a + b)[i] == (
    spec_colors_of(a) + spec_colors_of(b))[i] by {
        if i < 4 * la {
            assert(i / 4 < la);
            assert((a + b)[i / 4] == a[i / 4]);
        } else {
            lemma_div_shift(4, la, i - 4 * la);
            assert(i / 4 >= la);
            assert((a + b)[i / 4] == b[i / 4 - la]);
        }
    }
    assert(spec_colors_of(a + b) =~= spec_colors_of(a) + spec_colors_of(b));
    assert forall|i: int| 0 <= i < 2 * (la + lb) implies spec_texcoords_of(a + b)[i] == (
    spec_texcoords_of(a) + spec_texcoords_of(b))[i] by {
        if i < 2 * la {
            assert(i / 2 < la);
            assert((a + b)[i / 2] == a[i / 2]);
        } else {
            lemma_div_shift(2, la, i - 2 * la);
            assert(i / 2 >= la);
            assert((a + b)[i / 2] == b[i / 2 - la]);
        }
    }
    assert(spec_texcoords_of(a + b) =~= spec_texcoords_of(a) + spec_texcoords_of(b));
    assert(spec_flags_of(a + b) =~= spec_flags_of(a) + spec_flags_of(b));
}

/// Extensions compose: appending `vs1` and then `vs2` appends
/// `vs1 + vs2`.
pub proof fn lemma_extended_trans(
    vb0: VertexBufferCPU,
    vb1: VertexBufferCPU,
    vb2: VertexBufferCPU,
    vs1: Seq<FlatVertex>,
    vs2: Seq<FlatVertex>,
)
    requires
        spec_scratch_extended(vb0, vb1, vs1),
        spec_scratch_extended(vb1, vb2, vs2),
    ensures
        spec_scratch_extended(vb0, vb2, vs1 + vs2),
{
    lemma_flat_concat(vs1, vs2);
    assert(vb2.positions@ =~= vb0.positions@ + spec_positions_of(vs1 + vs2));
    assert(vb2.normals@ =~= vb0.normals@ + spec_normals_of(vs1 + vs2));
    assert(vb2.colors@ =~= vb0.colors@ + spec_colors_of(vs1 + vs2));
    assert(vb2.texcoords@ =~= vb0.texcoords@ + spec_texcoords_of(vs1 + vs2));
    assert(vb2.flags@ =~= vb0.flags@ + spec_flags_of(vs1 + vs2));
}

} // verus!
