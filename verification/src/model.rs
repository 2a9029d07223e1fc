//! The document model: a skeleton with its slots, skins and animations, and
//! the texture atlas, as far as names, counts and frame numbers go.

use vstd::prelude::*;
use crate::timeline::playable;

verus! {

/// One keyframe of a translate, scale or rotate track.
#[derive(Clone, Copy, Debug, PartialEq, Eq)]
pub struct Frame {
    /// Length of the keyframe in frames, before the speed multiplier.
    pub duration: i32,
}

/// One keyframe of a mesh deformation track.
#[derive(Clone, Copy, Debug, PartialEq, Eq)]
pub struct MeshFrame {
    /// Number of entries of the keyframe's flat array of offsets (x, y, x, y, ...).
    pub vertices: usize,
    /// Length of the keyframe in frames, before the speed multiplier.
    pub duration: i32,
}

/// The tracks that animate one bone.
#[derive(Clone, Debug, PartialEq, Eq)]
pub struct AnimBone {
    /// Name of the bone.
    pub name: String,
    pub translate_frame: Vec<Frame>,
    pub scale_frame: Vec<Frame>,
    pub rotate_frame: Vec<Frame>,
}

/// A node of the hierarchy.
#[derive(Clone, Debug, PartialEq, Eq)]
pub struct Bone {
    pub name: String,
    /// Name of the parent bone; empty for a root.
    pub parent: String,
}

/// The deformation track of one prop's mesh.
#[derive(Clone, Debug, PartialEq, Eq)]
pub struct FFD {
    /// Name of the prop whose mesh is deformed.
    pub name: String,
    pub frame: Vec<MeshFrame>,
}

#[derive(Clone, Debug, PartialEq, Eq)]
pub struct Animation {
    pub name: String,
    /// Total length in frames.
    pub duration: i32,
    pub bone: Vec<AnimBone>,
    pub ffd: Vec<FFD>,
}

/// An attachment point on a bone.
#[derive(Clone, Debug, PartialEq, Eq)]
pub struct Slot {
    pub name: String,
    /// Render order; lower values are drawn behind higher ones.
    pub z: i32,
    /// Name of the bone the slot hangs on.
    pub parent: String,
    /// Which display is shown; -1 hides the slot.
    pub display_index: i32,
}

/// What a slot can show.
#[derive(Clone, Debug, PartialEq, Eq)]
pub struct Display {
    /// Name of the atlas entry.
    pub name: String,
    /// Flat list of vertex indices, three to a triangle.
    pub triangles: Vec<i32>,
    /// Number of entries of the flat array of vertex coordinates (x, y, x, y, ...).
    /// A display with none of them is a quad.
    pub vertices: usize,
    /// Number of entries of the flat array of texture coordinates (u, v, u, v, ...).
    pub uvs: usize,
}

/// The displays bound to the slot of the same name.
#[derive(Clone, Debug, PartialEq, Eq)]
pub struct SkinSlot {
    /// Only the first display is used.
    pub display: Vec<Display>,
    pub name: String,
}

#[derive(Clone, Debug, PartialEq, Eq)]
pub struct Skin {
    pub slot: Vec<SkinSlot>,
    pub name: String,
}

#[derive(Clone, Debug, PartialEq, Eq)]
pub struct Armature {
    pub animation: Vec<Animation>,
    /// Parents come before their children.
    pub bone: Vec<Bone>,
    pub slot: Vec<Slot>,
    /// Only the first skin is used.
    pub skin: Vec<Skin>,
}

#[derive(Clone, Debug, PartialEq, Eq)]
pub struct DragonBonesRoot {
    /// Only the first armature is used.
    pub armature: Vec<Armature>,
    pub frame_rate: i32,
}

/// A rectangle of the atlas image.
#[derive(Clone, Debug, PartialEq, Eq)]
pub struct SubTexture {
    pub frame_height: i32,
    pub frame_width: i32,
    pub width: i32,
    pub height: i32,
    pub x: i32,
    pub y: i32,
    pub name: String,
}

/// The texture atlas.
#[derive(Clone, Debug, PartialEq, Eq)]
pub struct Texture {
    pub sub_texture: Vec<SubTexture>,
}

/// A size in texels.
#[derive(Clone, Copy, Debug, PartialEq, Eq, Structural)]
pub struct Size {
    pub width: i32,
    pub height: i32,
}

/// A triangle, as three indices into a vertex buffer.
#[derive(Clone, Copy, Debug, PartialEq, Eq, Structural)]
pub struct Tri {
    pub v1: i32,
    pub v2: i32,
    pub v3: i32,
}

impl Display {
    /// Whether the display is a mesh rather than a quad.
    pub open spec fn is_mesh(&self) -> bool {
        self.vertices > 0
    }

    /// The number of vertices of a mesh display.
    pub open spec fn vertex_count(&self) -> int {
        (self.vertices + 1) / 2
    }

    /// Whether the arrays of a mesh display fit together: as many texture
    /// coordinates as vertex coordinates, and no triangle index without a
    /// vertex. A quad is always consistent.
    pub open spec fn consistent(&self) -> bool {
        self.is_mesh() ==> {
            &&& self.uvs == self.vertices
            &&& forall|i: int|
                0 <= i < self.triangles.len() ==> 0 <= #[trigger] self.triangles[i]
                    < self.vertex_count()
        }
    }
}

impl AnimBone {
    /// Whether the three tracks can be sampled.
    pub open spec fn playable(&self) -> bool {
        &&& playable(self.translate_frame@)
        &&& playable(self.scale_frame@)
        &&& playable(self.rotate_frame@)
    }
}

impl Animation {
    /// Whether every track can be sampled and the bone tracks can be numbered
    /// by an `i32`.
    pub open spec fn playable(&self) -> bool {
        &&& self.bone.len() <= i32::MAX
        &&& forall|k: int| 0 <= k < self.bone.len() ==> (#[trigger] self.bone[k]).playable()
        &&& forall|m: int| 0 <= m < self.ffd.len() ==> playable((#[trigger] self.ffd[m]).frame@)
    }
}

impl Armature {
    /// Whether positions in the lists that are searched by name fit an `i32`.
    pub open spec fn indexable(&self) -> bool {
        &&& self.bone.len() <= i32::MAX
        &&& self.slot.len() <= i32::MAX
        &&& self.skin.len() > 0 ==> self.skin[0].slot.len() <= i32::MAX
    }

    /// Whether the armature can be animated: its lists can be searched and
    /// every animation can be sampled.
    pub open spec fn well_formed(&self) -> bool {
        &&& self.indexable()
        &&& forall|a: int|
            0 <= a < self.animation.len() ==> (#[trigger] self.animation[a]).playable()
    }

    /// Whether every display that can be shown is consistent.
    pub open spec fn meshes_consistent(&self) -> bool {
        self.skin.len() > 0 ==> forall|k: int|
            0 <= k < self.skin[0].slot.len() && (#[trigger] self.skin[0].slot[k]).display.len() > 0
                ==> self.skin[0].slot[k].display[0].consistent()
    }
}

impl DragonBonesRoot {
    /// Whether the document can be animated: it has an armature, and the first
    /// one is well formed.
    pub open spec fn well_formed(&self) -> bool {
        &&& self.armature.len() > 0
        &&& self.armature[0].well_formed()
    }
}

impl Texture {
    /// Whether positions in the atlas fit an `i32`.
    pub open spec fn indexable(&self) -> bool {
        self.sub_texture.len() <= i32::MAX
    }
}

impl Default for Tri {
    fn default() -> (tri: Tri)
        ensures
            tri == (Tri { v1: 0, v2: 0, v3: 0 }),
    {
        Tri { v1: 0, v2: 0, v3: 0 }
    }
}

impl Default for Slot {
    /// A slot without names, in front of nothing, that shows its first
    /// display.
    fn default() -> (slot: Slot)
        ensures
            slot.name@.len() == 0,
            slot.parent@.len() == 0,
            slot.z == 0,
            slot.display_index == 0,
    {
        Slot { name: String::new(), z: 0, parent: String::new(), display_index: 0 }
    }
}

impl Default for Display {
    /// A quad without a name.
    fn default() -> (display: Display)
        ensures
            display.name@.len() == 0,
            display.triangles.len() == 0,
            display.vertices == 0,
            display.uvs == 0,
    {
        Display { name: String::new(), triangles: Vec::new(), vertices: 0, uvs: 0 }
    }
}

impl Default for SkinSlot {
    /// A skin slot without a name and without displays.
    fn default() -> (slot: SkinSlot)
        ensures
            slot.name@.len() == 0,
            slot.display.len() == 0,
    {
        SkinSlot { display: Vec::new(), name: String::new() }
    }
}

impl Default for Texture {
    /// An atlas without entries: what stands for no atlas.
    fn default() -> (atlas: Texture)
        ensures
            atlas.sub_texture.len() == 0,
            atlas.indexable(),
    {
        Texture { sub_texture: Vec::new() }
    }
}

/// The render order of a slot that states none.
pub fn i32_default() -> (z: i32)
    ensures
        z == 0,
{
    0
}

} // verus!
