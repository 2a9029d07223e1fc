//! Binding a bone to what it shows: its slot, the slot's display in the skin,
//! the display's atlas entry, and the mesh that results.

use vstd::prelude::*;
use crate::lookup::{Named, attached_slot, idx_from_name, parent_of_slot, position};
use crate::mesh::{
    Coord,
    Deform,
    DeformView,
    Vertex,
    coords_within,
    pair_at,
    make_quad_tris,
    make_quad_uvs,
    make_quad_verts,
    pairs,
    quad_tris,
    quad_uvs,
    quad_verts,
    triple_at,
    triples,
    tris_within,
    unpack_pairs,
    unpack_triangles,
};
use crate::model::{Armature, Size, Texture, Tri};
use crate::timeline::Sample;

verus! {

/// One bone's record for one frame.
///
/// The pose is given by its sources. The local pose is the transform of bone
/// number `bone`. A prop with a parent takes the parent's finished pose first:
/// its position is turned by the parent's rotation and moved to the parent's
/// position, its scale is multiplied by the parent's, and the parent's rotation
/// is added to its own. Then the three tracks are applied: the translate sample
/// is added to the position, the scale sample is multiplied into the scale, and
/// the rotate sample is added to the rotation.
#[derive(Clone, Debug, PartialEq, Eq)]
pub struct Prop {
    /// Name of the bone.
    pub name: String,
    /// Name of the parent bone; empty for a root.
    pub parent_name: String,
    /// Position of the bone among the armature's bones.
    pub bone: usize,
    /// Position, among the animation's bone tracks, of the track that poses
    /// the prop.
    pub track: usize,
    /// Position of the parent among the props of the frame, which is lower than
    /// the prop's own; -1 for a root.
    pub parent: i32,
    /// Sample of the bone's translate track.
    pub translate: Sample,
    /// Sample of the bone's scale track.
    pub scale: Sample,
    /// Sample of the bone's rotate track.
    pub rotate: Sample,
    /// Position of the slot that the bone shows; -1 where it shows nothing.
    pub slot: i32,
    /// Position, in the first skin, of the skin slot whose first display is
    /// shown; -1 where nothing is shown. The transform of that display is the
    /// texture's position and rotation, which are zero where nothing is shown.
    pub skin_slot: i32,
    /// Position of the display's entry in the atlas; 0 where nothing is shown.
    pub tex_idx: i32,
    /// Width and height of the atlas entry; zero where nothing is shown.
    pub tex_size: Size,
    /// Always true: a quad is given as a mesh of two triangles.
    pub is_mesh: bool,
    /// The vertex buffer before any deformation.
    pub verts: Vec<Vertex>,
    pub tris: Vec<Tri>,
    pub uvs: Vec<Vertex>,
    /// The deformations of the vertex buffer, in the order in which they apply.
    /// Each has a move for every vertex.
    pub deforms: Vec<Deform>,
    /// Render order; lower values are drawn behind higher ones.
    pub z: i32,
}

/// A `Prop` with its strings and lists as sequences.
pub struct PropView {
    pub name: Seq<char>,
    pub parent_name: Seq<char>,
    pub bone: usize,
    pub track: usize,
    pub parent: i32,
    pub translate: Sample,
    pub scale: Sample,
    pub rotate: Sample,
    pub slot: i32,
    pub skin_slot: i32,
    pub tex_idx: i32,
    pub tex_size: Size,
    pub is_mesh: bool,
    pub verts: Seq<Vertex>,
    pub tris: Seq<Tri>,
    pub uvs: Seq<Vertex>,
    pub deforms: Seq<DeformView>,
    pub z: i32,
}

impl View for Prop {
    type V = PropView;

    open spec fn view(&self) -> PropView {
        PropView {
            name: self.name@,
            parent_name: self.parent_name@,
            bone: self.bone,
            track: self.track,
            parent: self.parent,
            translate: self.translate,
            scale: self.scale,
            rotate: self.rotate,
            slot: self.slot,
            skin_slot: self.skin_slot,
            tex_idx: self.tex_idx,
            tex_size: self.tex_size,
            is_mesh: self.is_mesh,
            verts: self.verts@,
            tris: self.tris@,
            uvs: self.uvs@,
            deforms: self.deforms@.map_values(|d: Deform| d@),
            z: self.z,
        }
    }
}

impl Named for Prop {
    open spec fn spec_name(&self) -> Seq<char> {
        self.name@
    }

    fn name(&self) -> (s: &String) {
        &self.name
    }
}

impl PropView {
    /// Whether the buffers fit together: as many texture coordinates as
    /// vertices, no triangle index without a vertex, and in every deformation a
    /// move for every vertex.
    pub open spec fn mesh_consistent(self) -> bool {
        &&& self.verts.len() == self.uvs.len()
        &&& tris_within(self.tris, self.verts.len() as int)
        &&& forall|i: int|
            0 <= i < self.deforms.len() ==> (#[trigger] self.deforms[i]).moves.len()
                == self.verts.len()
    }
}

/// What a bone shows: positions of its slot, of the slot's entry in the first
/// skin, and of the display's entry in the atlas.
pub struct Bound {
    pub slot: int,
    pub skin_slot: int,
    pub tex: int,
}

/// What the bone named `bone` shows, or `None` if any link of the chain is
/// missing: a shown slot on the bone, a skin, the slot's entry in the skin, a
/// display in that entry, the display's entry in the atlas.
pub open spec fn bound(armature: &Armature, tex: &Texture, bone: Seq<char>) -> Option<Bound> {
    let si = attached_slot(armature.slot@, bone);
    if si < 0 || armature.skin.len() == 0 {
        None
    } else {
        let ki = position(armature.skin[0].slot@, armature.slot[si].name@);
        if ki < 0 || armature.skin[0].slot[ki].display.len() == 0 {
            None
        } else {
            let ti = position(tex.sub_texture@, armature.skin[0].slot[ki].display[0].name@);
            if ti < 0 {
                None
            } else {
                Some(Bound { slot: si, skin_slot: ki, tex: ti })
            }
        }
    }
}

/// The prop of bone number `bone` before it is posed: on track 0, without
/// parent, without samples and without deformations.
///
/// A bone that shows nothing gets atlas entry 0, a size of zero, a quad of size
/// zero and render order 0. A bone that shows a display gets the display's
/// atlas entry and that entry's size; its mesh is the display's if the display
/// has vertex coordinates, and else a quad of the entry's size; its render
/// order is the slot's, or 0 if the atlas entry has no name.
pub open spec fn bound_prop(armature: &Armature, tex: &Texture, bone: int) -> PropView {
    let b = armature.bone[bone];
    let unposed = PropView {
        name: b.name@,
        parent_name: b.parent@,
        bone: bone as usize,
        track: 0,
        parent: -1i32,
        translate: Sample::Absent,
        scale: Sample::Absent,
        rotate: Sample::Absent,
        slot: -1i32,
        skin_slot: -1i32,
        tex_idx: 0,
        tex_size: Size { width: 0, height: 0 },
        is_mesh: true,
        verts: quad_verts(0, 0),
        tris: quad_tris(),
        uvs: quad_uvs(),
        deforms: Seq::empty(),
        z: 0,
    };
    match bound(armature, tex, b.name@) {
        None => unposed,
        Some(found) => {
            let display = armature.skin[0].slot[found.skin_slot].display[0];
            let entry = tex.sub_texture[found.tex];
            PropView {
                slot: found.slot as i32,
                skin_slot: found.skin_slot as i32,
                tex_idx: found.tex as i32,
                tex_size: Size { width: entry.width, height: entry.height },
                verts: if display.is_mesh() {
                    pairs(display.vertices as int)
                } else {
                    quad_verts(entry.width as int, entry.height as int)
                },
                tris: if display.is_mesh() {
                    triples(display.triangles@)
                } else {
                    quad_tris()
                },
                uvs: if display.is_mesh() {
                    pairs(display.uvs as int)
                } else {
                    quad_uvs()
                },
                z: if entry.name@.len() > 0 {
                    armature.slot[found.slot].z
                } else {
                    0
                },
                ..unposed
            }
        },
    }
}

/// Whether the prop names only what is there: its bone, its slot, its skin
/// slot with a display, its atlas entry, and in its buffers only entries of
/// the display's flat arrays.
pub open spec fn bound_within(armature: &Armature, tex: &Texture, prop: PropView) -> bool {
    &&& prop.bone < armature.bone.len()
    &&& prop.name == armature.bone[prop.bone as int].name@
    &&& prop.parent_name == armature.bone[prop.bone as int].parent@
    &&& -1 <= prop.slot < armature.slot.len()
    &&& prop.slot == -1 <==> prop.skin_slot == -1
    &&& if prop.skin_slot >= 0 {
        &&& armature.skin.len() > 0
        &&& prop.skin_slot < armature.skin[0].slot.len()
        &&& armature.skin[0].slot[prop.skin_slot as int].display.len() > 0
        &&& 0 <= prop.tex_idx < tex.sub_texture.len()
        &&& prop.tex_size == (Size {
            width: tex.sub_texture[prop.tex_idx as int].width,
            height: tex.sub_texture[prop.tex_idx as int].height,
        })
        &&& coords_within(
            prop.verts,
            armature.skin[0].slot[prop.skin_slot as int].display[0].vertices as int,
        )
        &&& coords_within(
            prop.uvs,
            armature.skin[0].slot[prop.skin_slot as int].display[0].uvs as int,
        )
    } else {
        &&& prop.skin_slot == -1
        &&& prop.tex_idx == 0
        &&& prop.tex_size == (Size { width: 0, height: 0 })
        &&& prop.z == 0
        &&& coords_within(prop.verts, 0)
        &&& coords_within(prop.uvs, 0)
    }
}

/// Whether the prop was given a quad: it shows nothing, or a display without
/// vertex coordinates.
pub open spec fn shows_quad(armature: &Armature, prop: PropView) -> bool {
    prop.skin_slot >= 0 ==> !armature.skin[0].slot[prop.skin_slot as int].display[0].is_mesh()
}

/// The prop of a bone is consistent wherever the displays are, and a quad has
/// the four corners of its texture's size, two triangles, and a size of zero
/// where the bone shows nothing.
pub proof fn lemma_bound_prop(armature: &Armature, tex: &Texture, bone: int)
    requires
        0 <= bone < armature.bone.len(),
        armature.indexable(),
        tex.indexable(),
    ensures
        ({
            let p = bound_prop(armature, tex, bone);
            &&& p.is_mesh
            &&& p.bone == bone
            &&& p.deforms.len() == 0
            &&& bound_within(armature, tex, p)
            &&& armature.meshes_consistent() ==> p.mesh_consistent()
            &&& p.slot >= 0 ==> armature.slot[p.slot as int].display_index != -1
                && armature.slot[p.slot as int].parent@ == p.name
            &&& shows_quad(armature, p) ==> {
                &&& p.verts == quad_verts(p.tex_size.width as int, p.tex_size.height as int)
                &&& p.verts.len() == 4
                &&& p.uvs == quad_uvs()
                &&& p.tris == quad_tris()
                &&& p.tris.len() == 2
            }
        }),
{
    let b = armature.bone[bone];
    crate::lookup::lemma_attached_slot(armature.slot@, b.name@);
    match bound(armature, tex, b.name@) {
        None => {},
        Some(found) => {
            crate::lookup::lemma_position(
                armature.skin[0].slot@,
                armature.slot[found.slot].name@,
            );
            let display = armature.skin[0].slot[found.skin_slot].display[0];
            crate::lookup::lemma_position(tex.sub_texture@, display.name@);
            if armature.meshes_consistent() && display.is_mesh() {
                assert(armature.skin[0].slot[found.skin_slot].display.len() > 0);
                assert(display.consistent());
                let tris = triples(display.triangles@);
                assert forall|t: int| 0 <= t < tris.len() implies {
                    &&& 0 <= (#[trigger] tris[t]).v1 < display.vertex_count()
                    &&& 0 <= tris[t].v2 < display.vertex_count()
                    &&& 0 <= tris[t].v3 < display.vertex_count()
                } by {
                    assert(tris[t] == triple_at(display.triangles@, t));
                }
            }
        },
    }
}

/// Makes the prop of bone number `bone`, bound to what the bone shows and not
/// yet posed.
pub fn create_prop(bone: usize, tex: &Texture, armature: &Armature) -> (prop: Prop)
    requires
        bone < armature.bone.len(),
        armature.indexable(),
        tex.indexable(),
    ensures
        prop@ == bound_prop(armature, tex, bone as int),
        prop.is_mesh,
        prop.bone == bone,
        prop.name@ == armature.bone[bone as int].name@,
        prop.parent_name@ == armature.bone[bone as int].parent@,
        prop.deforms.len() == 0,
        bound_within(armature, tex, prop@),
        armature.meshes_consistent() ==> prop@.mesh_consistent(),
        prop.slot >= 0 ==> armature.slot[prop.slot as int].display_index != -1
            && armature.slot[prop.slot as int].parent@ == prop.name@,
        shows_quad(armature, prop@) ==> {
            &&& prop.verts@ == quad_verts(prop.tex_size.width as int, prop.tex_size.height as int)
            &&& prop.verts.len() == 4
            &&& prop.uvs@ == quad_uvs()
            &&& prop.tris@ == quad_tris()
            &&& prop.tris.len() == 2
        },
{
    proof {
        lemma_bound_prop(armature, tex, bone as int);
    }
    let b = &armature.bone[bone];
    let mut prop = Prop {
        name: b.name.clone(),
        parent_name: b.parent.clone(),
        bone,
        track: 0,
        parent: -1,
        translate: Sample::Absent,
        scale: Sample::Absent,
        rotate: Sample::Absent,
        slot: -1,
        skin_slot: -1,
        tex_idx: 0,
        tex_size: Size { width: 0, height: 0 },
        is_mesh: true,
        verts: Vec::new(),
        tris: make_quad_tris(),
        uvs: make_quad_uvs(),
        deforms: Vec::new(),
        z: 0,
    };
    assert(prop.deforms@.map_values(|d: Deform| d@) =~= Seq::<DeformView>::empty());
    let si = parent_of_slot(&b.name, &armature.slot);
    if si != -1 && armature.skin.len() > 0 {
        let slot = &armature.slot[si as usize];
        let skin = &armature.skin[0];
        let ki = idx_from_name(&slot.name, &skin.slot);
        if ki != -1 && skin.slot[ki as usize].display.len() > 0 {
            let display = &skin.slot[ki as usize].display[0];
            let ti = idx_from_name(&display.name, &tex.sub_texture);
            if ti != -1 {
                let entry = &tex.sub_texture[ti as usize];
                prop.slot = si;
                prop.skin_slot = ki;
                prop.tex_idx = ti;
                prop.tex_size = Size { width: entry.width, height: entry.height };
                if !crate::lookup::is_blank(&entry.name) {
                    prop.z = slot.z;
                }
                if display.vertices > 0 {
                    prop.verts = unpack_pairs(display.vertices);
                    prop.uvs = unpack_pairs(display.uvs);
                    prop.tris = unpack_triangles(&display.triangles);
                } else {
                    prop.verts = make_quad_verts(entry.width, entry.height);
                }
                return prop;
            }
        }
    }
    prop.verts = make_quad_verts(0, 0);
    prop
}

} // verus!
