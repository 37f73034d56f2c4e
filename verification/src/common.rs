//! Value types the renderer's draw state is made of: pivots, textures,
//! shader-program handles with their named-argument map, model transforms,
//! cameras and projections. All scalar data is fixed-point, so two states
//! compare equal exactly when their fields do.

use vstd::prelude::*;

verus! {

use crate::color::Color;
use crate::fixed::FP_ONE;
use crate::vectors::{Vec2, Vec3};

#[derive(Debug, Clone, Copy, PartialEq, Eq, Structural)]
pub enum PivotType {
    BotLeft,
    TopLeft,
    BotRight,
    TopRight,
    Center,
    TopCenter,
    BotCenter,
    LeftCenter,
    RightCenter,
}

/// An anchor point together with which corner/edge/center of a shape it
/// pins down.
#[derive(Debug, Clone, Copy, PartialEq, Eq, Structural)]
pub struct Pivot {
    pub ty: PivotType,
    pub p: Vec2,
}

impl Pivot {
    pub fn new(ty: PivotType, p: Vec2) -> (r: Pivot)
        ensures
            r == (Pivot { ty, p }),
    {
        Pivot { ty, p }
    }

    pub fn bot_left(p: Vec2) -> (r: Pivot)
        ensures
            r == (Pivot { ty: PivotType::BotLeft, p }),
    {
        Pivot { ty: PivotType::BotLeft, p }
    }

    pub fn top_left(p: Vec2) -> (r: Pivot)
        ensures
            r == (Pivot { ty: PivotType::TopLeft, p }),
    {
        Pivot { ty: PivotType::TopLeft, p }
    }

    pub fn bot_right(p: Vec2) -> (r: Pivot)
        ensures
            r == (Pivot { ty: PivotType::BotRight, p }),
    {
        Pivot { ty: PivotType::BotRight, p }
    }

    pub fn top_right(p: Vec2) -> (r: Pivot)
        ensures
            r == (Pivot { ty: PivotType::TopRight, p }),
    {
        Pivot { ty: PivotType::TopRight, p }
    }

    pub fn center(p: Vec2) -> (r: Pivot)
        ensures
            r == (Pivot { ty: PivotType::Center, p }),
    {
        Pivot { ty: PivotType::Center, p }
    }

    pub fn top_center(p: Vec2) -> (r: Pivot)
        ensures
            r == (Pivot { ty: PivotType::TopCenter, p }),
    {
        Pivot { ty: PivotType::TopCenter, p }
    }

    pub fn bot_center(p: Vec2) -> (r: Pivot)
        ensures
            r == (Pivot { ty: PivotType::BotCenter, p }),
    {
        Pivot { ty: PivotType::BotCenter, p }
    }

    pub fn left_center(p: Vec2) -> (r: Pivot)
        ensures
            r == (Pivot { ty: PivotType::LeftCenter, p }),
    {
        Pivot { ty: PivotType::LeftCenter, p }
    }

    pub fn right_center(p: Vec2) -> (r: Pivot)
        ensures
            r == (Pivot { ty: PivotType::RightCenter, p }),
    {
        Pivot { ty: PivotType::RightCenter, p }
    }
}

/// A named shader-program argument: a fixed-point scalar or a color.
#[derive(Debug, Clone, Copy, PartialEq, Eq, Structural)]
pub enum ProgramArg {
    FloatArg(i64),
    ColorArg(Color),
}

/// A handle to a compiled shader program plus the named uniform arguments
/// set on it; names are kept unique, a second `set_arg` with the same name
/// replaces the value.
pub struct Program {
    pub idx: u32,
    pub arg_names: Vec<String>,
    pub arg_values: Vec<ProgramArg>,
}

/// No name occurs twice among the argument names.
pub open spec fn distinct_names(names: Seq<Seq<char>>) -> bool {
    forall|i: int, j: int| 0 <= i < j < names.len() ==> names[i] != names[j]
}

/// Whether `name` occurs among the argument names.
pub open spec fn has_arg_name(names: Seq<Seq<char>>, name: Seq<char>) -> bool {
    exists|i: int| 0 <= i < names.len() && names[i] == name
}

/// The position of `name` among the argument names.
pub open spec fn arg_index_of(names: Seq<Seq<char>>, name: Seq<char>) -> int {
    choose|i: int| 0 <= i < names.len() && names[i] == name
}

/// The value bound to `name` among the parallel name/value columns.
pub open spec fn arg_lookup(names: Seq<Seq<char>>, values: Seq<ProgramArg>, name: Seq<char>) -> Option<ProgramArg> {
    if has_arg_name(names, name) {
        Some(values[arg_index_of(names, name)])
    } else {
        None
    }
}

impl Program {
    pub open spec fn names(self) -> Seq<Seq<char>> {
        self.arg_names@.map_values(|s: String| s@)
    }

    pub open spec fn values(self) -> Seq<ProgramArg> {
        self.arg_values@
    }

    pub open spec fn wf(self) -> bool {
        &&& self.arg_names@.len() == self.arg_values@.len()
        &&& distinct_names(self.names())
    }

    /// The argument currently bound to `name`.
    pub open spec fn arg_of(self, name: Seq<char>) -> Option<ProgramArg> {
        arg_lookup(self.names(), self.values(), name)
    }

    pub fn new(idx: u32) -> (p: Program)
        ensures
            p.wf(),
            p.idx == idx,
            p.names().len() == 0,
    {
        Program { idx, arg_names: Vec::new(), arg_values: Vec::new() }
    }

    /// Bind `arg` to `name`, replacing any value the name already had.
    pub fn set_arg(&mut self, name: &str, arg: ProgramArg)
        requires
            old(self).wf(),
        ensures
            final(self).wf(),
            final(self).idx == old(self).idx,
            final(self).arg_of(name@) == Some(arg),
            forall|other: Seq<char>|
                other != name@ ==> final(self).arg_of(other) == old(self).arg_of(other),
    {
        let n = self.arg_names.len();
        let ghost names = self.names();
        let ghost values = self.values();
        let mut i: usize = 0;
        while i < n
            invariant
                self == old(self),
                names == self.names(),
                values == self.values(),
                self.wf(),
                n == self.arg_names@.len(),
                i <= n,
                forall|j: int| 0 <= j < i ==> names[j] != name@,
            decreases n - i,
        {
            if str_eq(self.arg_names[i].as_str(), name) {
                self.arg_values.set(i, arg);
                proof {
                    assert(self.names() =~= names);
                    assert(self.values() =~= values.update(i as int, arg));
                    lemma_lookup_update(names, values, name@, i as int, arg);
                }
                return ;
            }
            i += 1;
        }
        self.arg_names.push(name.to_owned());
        self.arg_values.push(arg);
        proof {
            assert(self.names() =~= names.push(name@));
            assert(self.values() =~= values.push(arg));
            lemma_lookup_push(names, values, name@, arg);
        }
    }

    /// The value bound to `name`, if any.
    pub fn get_arg(&self, name: &str) -> (r: Option<ProgramArg>)
        requires
            self.wf(),
        ensures
            r == self.arg_of(name@),
    {
        let n = self.arg_names.len();
        let mut i: usize = 0;
        while i < n
            invariant
                self.wf(),
                n == self.arg_names@.len(),
                i <= n,
                forall|j: int| 0 <= j < i ==> self.names()[j] != name@,
            decreases n - i,
        {
            if str_eq(self.arg_names[i].as_str(), name) {
                proof {
                    lemma_lookup_at(self.names(), self.values(), name@, i as int);
                }
                return Some(self.arg_values[i]);
            }
            i += 1;
        }
        proof {
            assert(!has_arg_name(self.names(), name@)) by {
                if has_arg_name(self.names(), name@) {
                    let k = arg_index_of(self.names(), name@);
                    assert(0 <= k < self.names().len() && self.names()[k] == name@);
                }
            }
        }
        None
    }
}

/// Character-for-character equality of two strings.
pub fn str_eq(a: &str, b: &str) -> (r: bool)
    ensures
        r == (a@ == b@),
{
    let la = a.unicode_len();
    let lb = b.unicode_len();
    if la != lb {
        return false;
    }
    let mut i: usize = 0;
    while i < la
        invariant
            la == a@.len(),
            lb == b@.len(),
            la == lb,
            i <= la,
            forall|j: int| 0 <= j < i ==> a@[j] == b@[j],
        decreases la - i,
    {
        if a.get_char(i) != b.get_char(i) {
            return false;
        }
        i += 1;
    }
    proof {
        assert(a@ =~= b@);
    }
    true
}

proof fn lemma_lookup_at(names: Seq<Seq<char>>, values: Seq<ProgramArg>, name: Seq<char>, i: int)
    requires
        names.len() == values.len(),
        distinct_names(names),
        0 <= i < names.len(),
        names[i] == name,
    ensures
        arg_lookup(names, values, name) == Some(values[i]),
{
    assert(has_arg_name(names, name));
    let j = arg_index_of(names, name);
    assert(0 <= j < names.len() && names[j] == name);
    assert(j == i);
}

proof fn lemma_lookup_update(names: Seq<Seq<char>>, values: Seq<ProgramArg>, name: Seq<char>, i: int, arg: ProgramArg)
    requires
        names.len() == values.len(),
        distinct_names(names),
        0 <= i < names.len(),
        names[i] == name,
    ensures
        arg_lookup(names, values.update(i, arg), name) == Some(arg),
        forall|other: Seq<char>|
            other != name ==> arg_lookup(names, values.update(i, arg), other) == arg_lookup(
                names,
                values,
                other,
            ),
{
    lemma_lookup_at(names, values.update(i, arg), name, i);
    assert forall|other: Seq<char>| other != name implies arg_lookup(
        names,
        values.update(i, arg),
        other,
    ) == arg_lookup(names, values, other) by {
        if has_arg_name(names, other) {
            let k = arg_index_of(names, other);
            assert(0 <= k < names.len() && names[k] == other);
            assert(k != i);
            assert(values.update(i, arg)[k] == values[k]);
        }
    }
}

proof fn lemma_lookup_push(names: Seq<Seq<char>>, values: Seq<ProgramArg>, name: Seq<char>, arg: ProgramArg)
    requires
        names.len() == values.len(),
        distinct_names(names),
        !has_arg_name(names, name),
    ensures
        distinct_names(names.push(name)),
        arg_lookup(names.push(name), values.push(arg), name) == Some(arg),
        forall|other: Seq<char>|
            other != name ==> arg_lookup(names.push(name), values.push(arg), other) == arg_lookup(
                names,
                values,
                other,
            ),
{
    let n = names.len() as int;
    let names2 = names.push(name);
    let values2 = values.push(arg);
    assert forall|i: int, j: int| 0 <= i < j < names2.len() implies names2[i] != names2[j] by {
        if j < n {
            assert(names2[i] == names[i] && names2[j] == names[j]);
        } else {
            assert(names2[i] == names[i] && names2[j] == name);
        }
    }
    lemma_lookup_at(names2, values2, name, n);
    assert forall|other: Seq<char>| other != name implies arg_lookup(
        names2,
        values2,
        other,
    ) == arg_lookup(names, values, other) by {
        if has_arg_name(names2, other) {
            let k = arg_index_of(names2, other);
            assert(0 <= k < names2.len() && names2[k] == other);
            assert(k < n);
            assert(names[k] == other);
            assert(has_arg_name(names, other));
            lemma_lookup_at(names, values, other, k);
            assert(values2[k] == values[k]);
            lemma_lookup_at(names2, values2, other, k);
        } else {
            assert(!has_arg_name(names, other)) by {
                if has_arg_name(names, other) {
                    let k = arg_index_of(names, other);
                    assert(names2[k] == other);
                }
            }
        }
    }
}

/// A GPU texture handle with its dimensions; compared by all fields, so
/// two handles are the same texture exactly when they are equal.
#[derive(Debug, Clone, Copy, PartialEq, Eq, Structural)]
pub struct Texture {
    pub idx: u32,
    pub width: u32,
    pub height: u32,
}

impl Texture {
    pub fn new(idx: u32, width: u32, height: u32) -> (t: Texture)
        ensures
            t == (Texture { idx, width, height }),
    {
        Texture { idx, width, height }
    }
}

/// A model transform: translate, scale and euler-rotate, each a Vec3 of
/// fixed-point scalars.
#[derive(Debug, Clone, Copy, PartialEq, Eq, Structural)]
pub struct Transformation {
    pub translation: Vec3,
    pub scale: Vec3,
    pub rotation: Vec3,
}

impl Transformation {
    pub fn new(translation: Vec3, scale: Vec3, rotation: Vec3) -> (t: Transformation)
        ensures
            t == (Transformation { translation, scale, rotation }),
    {
        Transformation { translation, scale, rotation }
    }
}

impl Default for Transformation {
    /// No translation, unit scale, no rotation.
    fn default() -> (t: Transformation)
        ensures
            t.translation == (Vec3 { x: 0, y: 0, z: 0 }),
            t.scale == (Vec3 { x: FP_ONE, y: FP_ONE, z: FP_ONE }),
            t.rotation == (Vec3 { x: 0, y: 0, z: 0 }),
    {
        Transformation {
            translation: Vec3 { x: 0, y: 0, z: 0 },
            scale: Vec3 { x: FP_ONE, y: FP_ONE, z: FP_ONE },
            rotation: Vec3 { x: 0, y: 0, z: 0 },
        }
    }
}

/// A free 2D camera: position plus rotation and zoom.
#[derive(Debug, Clone, Copy, PartialEq, Eq, Structural)]
pub struct Camera2D {
    pub position: Vec2,
    pub rotation: i64,
    pub zoom: i64,
}

impl Camera2D {
    pub fn new(position: Vec2) -> (c: Camera2D)
        ensures
            c == (Camera2D { position, rotation: 0, zoom: FP_ONE as i64 }),
    {
        Camera2D { position, rotation: 0, zoom: FP_ONE }
    }
}

impl Default for Camera2D {
    fn default() -> (c: Camera2D)
        ensures
            c == (Camera2D { position: Vec2 { x: 0, y: 0 }, rotation: 0, zoom: FP_ONE as i64 }),
    {
        Camera2D { position: Vec2 { x: 0, y: 0 }, rotation: 0, zoom: FP_ONE }
    }
}

/// The camera a draw call is viewed through: a 2D position/rotation or a
/// 3D eye/target/up triple.
#[derive(Debug, Clone, Copy, PartialEq, Eq, Structural)]
pub enum Camera {
    Cam2D { position: Vec2, rotation: i64 },
    Cam3D { position: Vec3, target: Vec3, up: Vec3 },
}

impl Camera {
    pub fn new_2d(position: Vec2, rotation: i64) -> (c: Camera)
        ensures
            c == (Camera::Cam2D { position, rotation }),
    {
        Camera::Cam2D { position, rotation }
    }

    pub fn new_3d(position: Vec3, target: Vec3, up: Vec3) -> (c: Camera)
        ensures
            c == (Camera::Cam3D { position, target, up }),
    {
        Camera::Cam3D { position, target, up }
    }

    /// A 2D camera looking at the middle of a window of the given pixel
    /// size.
    pub fn new_screen(window_size: (u32, u32)) -> (c: Camera)
        requires
            window_size.0 <= 8192,
            window_size.1 <= 8192,
        ensures
            c == (Camera::Cam2D {
                position: Vec2 {
                    x: (window_size.0 * FP_ONE / 2) as i64,
                    y: (window_size.1 * FP_ONE / 2) as i64,
                },
                rotation: 0,
            }),
    {
        Camera::Cam2D {
            position: Vec2 {
                x: (window_size.0 as i64) * FP_ONE / 2,
                y: (window_size.1 as i64) * FP_ONE / 2,
            },
            rotation: 0,
        }
    }

    pub fn new_origin_2d() -> (c: Camera)
        ensures
            c == (Camera::Cam2D { position: Vec2 { x: 0, y: 0 }, rotation: 0 }),
    {
        Camera::Cam2D { position: Vec2 { x: 0, y: 0 }, rotation: 0 }
    }
}

/// The projection a draw call is drawn under. An orthographic projection
/// is sized in world units; a perspective one is an aspect ratio and a
/// vertical field of view (an angle, fixed-point radians).
#[derive(Debug, Clone, Copy, PartialEq, Eq, Structural)]
pub enum Projection {
    Orthographic { view_width: i64, view_height: i64, znear: i64, zfar: i64 },
    Perspective { aspect: i64, fovy: i64, znear: i64, zfar: i64 },
}

impl Projection {
    pub fn new_orthographic(view_width: i64, view_height: i64, znear: i64, zfar: i64) -> (p: Projection)
        ensures
            p == (Projection::Orthographic { view_width, view_height, znear, zfar }),
    {
        Projection::Orthographic { view_width, view_height, znear, zfar }
    }

    pub fn new_perspective(aspect: i64, fovy: i64, znear: i64, zfar: i64) -> (p: Projection)
        ensures
            p == (Projection::Perspective { aspect, fovy, znear, zfar }),
    {
        Projection::Perspective { aspect, fovy, znear, zfar }
    }

    /// The pixel-space orthographic projection for a window of the given
    /// pixel size.
    pub fn new_screen(window_size: (u32, u32)) -> (p: Projection)
        requires
            window_size.0 <= 4096,
            window_size.1 <= 4096,
        ensures
            p == (Projection::Orthographic {
                view_width: (window_size.0 * FP_ONE) as i64,
                view_height: (window_size.1 * FP_ONE) as i64,
                znear: 0,
                zfar: FP_ONE as i64,
            }),
    {
        Projection::Orthographic {
            view_width: (window_size.0 as i64) * FP_ONE,
            view_height: (window_size.1 as i64) * FP_ONE,
            znear: 0,
            zfar: FP_ONE,
        }
    }

    pub fn new_2d(view_width: i64, view_height: i64) -> (p: Projection)
        ensures
            p == (Projection::Orthographic { view_width, view_height, znear: 0, zfar: FP_ONE as i64 }),
    {
        Projection::Orthographic { view_width, view_height, znear: 0, zfar: FP_ONE }
    }
}

/// How a mesh is shaded: flat vertex colors, or Blinn-Phong with the given
/// fixed-point shininess.
#[derive(Debug, Clone, Copy, PartialEq, Eq, Structural)]
pub enum Material {
    VertexColor,
    BlinnPhong { shininess: i64 },
}

impl Default for Material {
    fn default() -> (m: Material)
        ensures
            m == Material::VertexColor,
    {
        Material::VertexColor
    }
}

} // verus!
