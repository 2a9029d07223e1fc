//! Posing a whole armature for one frame.

use vstd::prelude::*;
use crate::binder::{bound_prop, bound_within, lemma_bound_prop, shows_quad};
use crate::lookup::{first_hit, is_blank, lemma_first_hit, lemma_position, name_hits, position};
use crate::mesh::{
    active_entries,
    deform_of,
    deform_within,
    lemma_deform_of,
    quad_tris,
    quad_uvs,
    quad_verts,
};
use crate::timeline::{lemma_sample_within, sample_of, sample_within};

pub use crate::binder::{Prop, PropView, create_prop};
pub use crate::loader::{LoadError, TrackKind, check_loaded, missing_value};
pub use crate::lookup::{Named, idx_from_name, parent_of_slot};
pub use crate::mesh::{Axis, Coord, Deform, DeformView, Vertex, VertexMove, animate_mesh};
pub use crate::model::{
    AnimBone,
    Animation,
    Armature,
    Bone,
    Display,
    DragonBonesRoot,
    FFD,
    Frame,
    MeshFrame,
    Size,
    Skin,
    SkinSlot,
    Slot,
    SubTexture,
    Texture,
    Tri,
    i32_default,
};
pub use crate::timeline::{Keyframe, Sample, get_frame_idx, sample_track};

verus! {

/// The views of a list of props.
pub open spec fn views(props: Seq<Prop>) -> Seq<PropView> {
    props.map_values(|p: Prop| p@)
}

/// The position of the first prop named `name`, or -1.
pub open spec fn prop_position(props: Seq<PropView>, name: Seq<char>) -> int {
    first_hit(props.map_values(|p: PropView| p.name == name))
}

/// `prop_position` is -1 exactly when no prop has the name, and otherwise the
/// position of a prop of that name that no such prop precedes.
pub proof fn lemma_prop_position(props: Seq<PropView>, name: Seq<char>)
    ensures
        -1 <= prop_position(props, name) < props.len(),
        prop_position(props, name) == -1 <==> forall|i: int|
            0 <= i < props.len() ==> props[i].name != name,
        prop_position(props, name) >= 0 ==> props[prop_position(props, name)].name == name,
        forall|i: int| 0 <= i < prop_position(props, name) ==> props[i].name != name,
{
    let hits = props.map_values(|p: PropView| p.name == name);
    let at = first_hit(hits);
    lemma_first_hit(hits);
    if at >= 0 {
        assert(hits[at]);
    }
    assert forall|i: int| 0 <= i < props.len() && (at == -1 || i < at) implies props[i].name
        != name by {
        assert(!hits[i]);
    }
}

/// The prop of bone track `k`, where `done` are the props of the tracks before
/// it; `None` where the track is passed over. A track is passed over if it
/// names no bone of the armature, or if its bone has a parent that is not among
/// `done`. The parent is the first prop of that name.
pub open spec fn posed_prop(
    armature: &Armature,
    tex: &Texture,
    anim: &Animation,
    k: int,
    frame: int,
    speed: int,
    done: Seq<PropView>,
) -> Option<PropView> {
    let track = anim.bone[k];
    let bone = position(armature.bone@, track.name@);
    if bone < 0 {
        None
    } else {
        let parent_name = armature.bone[bone].parent@;
        let parent = if parent_name.len() == 0 {
            -1
        } else {
            prop_position(done, parent_name)
        };
        if parent_name.len() > 0 && parent < 0 {
            None
        } else {
            Some(
                PropView {
                    track: k as usize,
                    parent: parent as i32,
                    translate: sample_of(track.translate_frame@, frame, speed),
                    scale: sample_of(track.scale_frame@, frame, speed),
                    rotate: sample_of(track.rotate_frame@, frame, speed),
                    ..bound_prop(armature, tex, bone)
                },
            )
        }
    }
}

/// The props of the first `n` bone tracks, in the order of the tracks.
pub open spec fn posed(
    armature: &Armature,
    tex: &Texture,
    anim: &Animation,
    frame: int,
    speed: int,
    n: int,
) -> Seq<PropView>
    decreases n,
{
    if n <= 0 {
        Seq::empty()
    } else {
        let done = posed(armature, tex, anim, frame, speed, n - 1);
        match posed_prop(armature, tex, anim, n - 1, frame, speed, done) {
            Some(p) => done.push(p),
            None => done,
        }
    }
}

/// The prop with one more deformation.
pub open spec fn with_deform(prop: PropView, deform: DeformView) -> PropView {
    PropView { deforms: prop.deforms.push(deform), ..prop }
}

/// The props after the first `m` deformation tracks. A track deforms the first
/// prop of its name; it is passed over if there is no such prop, or if the
/// keyframe it starts from has no entries.
pub open spec fn deformed(
    props: Seq<PropView>,
    anim: &Animation,
    frame: int,
    speed: int,
    m: int,
) -> Seq<PropView>
    decreases m,
{
    if m <= 0 {
        props
    } else {
        let before = deformed(props, anim, frame, speed, m - 1);
        let track = anim.ffd[m - 1];
        let target = prop_position(before, track.name@);
        if target < 0 {
            before
        } else {
            match deform_of(
                (m - 1) as usize,
                track.frame@,
                frame,
                speed,
                before[target].verts.len() as int,
            ) {
                Some(d) => before.update(target, with_deform(before[target], d)),
                None => before,
            }
        }
    }
}

/// The props of a frame: every bone track posed, then every deformation track
/// applied.
pub open spec fn animated(
    armature: &Armature,
    tex: &Texture,
    anim: &Animation,
    frame: int,
    speed: int,
) -> Seq<PropView> {
    deformed(
        posed(armature, tex, anim, frame, speed, anim.bone.len() as int),
        anim,
        frame,
        speed,
        anim.ffd.len() as int,
    )
}

/// Whether every prop with a parent name has its parent before it, and every
/// prop without one has none.
pub open spec fn parents_precede(props: Seq<PropView>) -> bool {
    forall|i: int|
        0 <= i < props.len() ==> if (#[trigger] props[i]).parent_name.len() == 0 {
            props[i].parent == -1
        } else {
            &&& 0 <= props[i].parent < i
            &&& props[props[i].parent as int].name == props[i].parent_name
        }
}

/// Whether every prop that was given a quad has the four corners of its
/// texture's size, the unit square for texture coordinates, and two triangles.
pub open spec fn quads_are_quads(armature: &Armature, props: Seq<PropView>) -> bool {
    forall|i: int|
        0 <= i < props.len() && shows_quad(armature, #[trigger] props[i]) ==> {
            &&& props[i].verts == quad_verts(
                props[i].tex_size.width as int,
                props[i].tex_size.height as int,
            )
            &&& props[i].verts.len() == 4
            &&& props[i].uvs == quad_uvs()
            &&& props[i].tris == quad_tris()
            &&& props[i].tris.len() == 2
        }
}

/// Whether the buffers of every prop fit together.
pub open spec fn all_consistent(props: Seq<PropView>) -> bool {
    forall|i: int| 0 <= i < props.len() ==> (#[trigger] props[i]).mesh_consistent()
}

/// Whether the props stand in the order of the bone tracks that pose them.
pub open spec fn in_track_order(props: Seq<PropView>) -> bool {
    forall|i: int, j: int|
        0 <= i < j < props.len() ==> (#[trigger] props[i]).track < (#[trigger] props[j]).track
}

/// Whether a prop names only what the document has: what it is bound to, the
/// bone track that poses it and keyframes of that track, and for each
/// deformation a deformation track of the prop's name, keyframes of that track
/// and entries of those keyframes.
pub open spec fn sources_exist(
    armature: &Armature,
    tex: &Texture,
    anim: &Animation,
    prop: PropView,
) -> bool {
    &&& bound_within(armature, tex, prop)
    &&& prop.track < anim.bone.len()
    &&& anim.bone[prop.track as int].name@ == prop.name
    &&& sample_within(prop.translate, anim.bone[prop.track as int].translate_frame.len() as int)
    &&& sample_within(prop.scale, anim.bone[prop.track as int].scale_frame.len() as int)
    &&& sample_within(prop.rotate, anim.bone[prop.track as int].rotate_frame.len() as int)
    &&& forall|j: int|
        0 <= j < prop.deforms.len() ==> {
            &&& (#[trigger] prop.deforms[j]).track < anim.ffd.len()
            &&& anim.ffd[prop.deforms[j].track as int].name@ == prop.name
            &&& prop.deforms[j].moves.len() == prop.verts.len()
            &&& deform_within(prop.deforms[j], anim.ffd[prop.deforms[j].track as int].frame@)
        }
}

/// Whether every prop names only what the document has.
pub open spec fn all_sources_exist(
    armature: &Armature,
    tex: &Texture,
    anim: &Animation,
    props: Seq<PropView>,
) -> bool {
    forall|i: int|
        0 <= i < props.len() ==> sources_exist(armature, tex, anim, #[trigger] props[i])
}

/// Whether a prop is attached to a hidden slot.
pub open spec fn shows_hidden_slot(armature: &Armature, prop: PropView) -> bool {
    0 <= prop.slot < armature.slot.len() && armature.slot[prop.slot as int].display_index == -1
}

/// What holds of the props of every frame.
///
/// There is at most one prop for each bone track, and the props stand in the
/// order of the tracks that pose them. Every prop with a parent name comes
/// after a prop of that name, which is its parent. Every prop is marked as a
/// mesh, and none is attached to a hidden slot. A prop that shows no mesh has
/// the four corners of its texture's size and two triangles. Every prop names
/// only what the document has. Wherever the displays are consistent, every
/// prop has as many texture coordinates as vertices, no triangle index without
/// a vertex, and in every deformation a move for every vertex.
pub open spec fn lawful(
    armature: &Armature,
    tex: &Texture,
    anim: &Animation,
    props: Seq<PropView>,
) -> bool {
    &&& props.len() <= anim.bone.len()
    &&& in_track_order(props)
    &&& parents_precede(props)
    &&& quads_are_quads(armature, props)
    &&& all_sources_exist(armature, tex, anim, props)
    &&& armature.meshes_consistent() ==> all_consistent(props)
    &&& forall|i: int|
        0 <= i < props.len() ==> {
            &&& (#[trigger] props[i]).is_mesh
            &&& !shows_hidden_slot(armature, props[i])
        }
}

/// What holds of the props of the first `n` bone tracks: there is at most one
/// for each track and they stand in the order of the tracks, every parent
/// comes before its children, no prop is attached to a hidden slot, a quad is a
/// quad, nothing is deformed yet, every prop names only what the document has,
/// and the buffers fit together wherever the displays are consistent.
pub proof fn lemma_posed(
    armature: &Armature,
    tex: &Texture,
    anim: &Animation,
    frame: int,
    speed: int,
    n: int,
)
    requires
        armature.indexable(),
        tex.indexable(),
        anim.playable(),
        0 <= frame <= i32::MAX,
        0 <= speed <= i32::MAX,
        0 <= n <= anim.bone.len(),
    ensures
        ({
            let props = posed(armature, tex, anim, frame, speed, n);
            &&& props.len() <= n
            &&& in_track_order(props)
            &&& parents_precede(props)
            &&& quads_are_quads(armature, props)
            &&& all_sources_exist(armature, tex, anim, props)
            &&& armature.meshes_consistent() ==> all_consistent(props)
            &&& forall|i: int|
                0 <= i < props.len() ==> {
                    &&& (#[trigger] props[i]).is_mesh
                    &&& props[i].track < n
                    &&& props[i].deforms.len() == 0
                    &&& !shows_hidden_slot(armature, props[i])
                }
        }),
    decreases n,
{
    if n > 0 {
        lemma_posed(armature, tex, anim, frame, speed, n - 1);
        let done = posed(armature, tex, anim, frame, speed, n - 1);
        let track = anim.bone[n - 1];
        lemma_position(armature.bone@, track.name@);
        match posed_prop(armature, tex, anim, n - 1, frame, speed, done) {
            None => {},
            Some(p) => {
                let bone = position(armature.bone@, track.name@);
                lemma_bound_prop(armature, tex, bone);
                lemma_prop_position(done, p.parent_name);
                assert(track.playable());
                lemma_sample_within(track.translate_frame@, frame, speed);
                lemma_sample_within(track.scale_frame@, frame, speed);
                lemma_sample_within(track.rotate_frame@, frame, speed);
                let bare = bound_prop(armature, tex, bone);
                assert(bound_within(armature, tex, bare));
                assert(bound_within(armature, tex, p));
                assert(shows_quad(armature, p) == shows_quad(armature, bare));
                assert(sources_exist(armature, tex, anim, p));
                let props = done.push(p);
                assert forall|i: int| 0 <= i < props.len() implies {
                    &&& if (#[trigger] props[i]).parent_name.len() == 0 {
                        props[i].parent == -1
                    } else {
                        &&& 0 <= props[i].parent < i
                        &&& props[props[i].parent as int].name == props[i].parent_name
                    }
                    &&& props[i].is_mesh
                    &&& props[i].track < n
                    &&& props[i].deforms.len() == 0
                    &&& !shows_hidden_slot(armature, props[i])
                    &&& sources_exist(armature, tex, anim, props[i])
                    &&& armature.meshes_consistent() ==> props[i].mesh_consistent()
                    &&& shows_quad(armature, props[i]) ==> {
                        &&& props[i].verts == quad_verts(
                            props[i].tex_size.width as int,
                            props[i].tex_size.height as int,
                        )
                        &&& props[i].verts.len() == 4
                        &&& props[i].uvs == quad_uvs()
                        &&& props[i].tris == quad_tris()
                        &&& props[i].tris.len() == 2
                    }
                } by {
                    if i < done.len() {
                        assert(props[i] == done[i]);
                    } else if p.parent_name.len() > 0 {
                        assert(props[p.parent as int] == done[p.parent as int]);
                    }
                }
                assert forall|i: int, j: int| 0 <= i < j < props.len() implies (#[trigger] props[i]).track
                    < (#[trigger] props[j]).track by {
                    assert(props[i] == done[i]);
                    if j < done.len() {
                        assert(props[j] == done[j]);
                    }
                }
            },
        }
    }
}

/// Applying deformation tracks changes nothing of a prop but its list of
/// deformations, which grows at the end. Every new deformation has a move for
/// every vertex, and names a track of the prop's name and only keyframes and
/// entries of that track.
pub proof fn lemma_deformed(props: Seq<PropView>, anim: &Animation, frame: int, speed: int, m: int)
    requires
        anim.playable(),
        0 <= frame <= i32::MAX,
        0 <= speed <= i32::MAX,
        0 <= m <= anim.ffd.len(),
    ensures
        ({
            let after = deformed(props, anim, frame, speed, m);
            &&& after.len() == props.len()
            &&& forall|i: int|
                0 <= i < props.len() ==> {
                    &&& (#[trigger] after[i]) == PropView { deforms: after[i].deforms, ..props[i] }
                    &&& props[i].deforms.len() <= after[i].deforms.len() <= props[i].deforms.len()
                        + m
                    &&& forall|j: int|
                        0 <= j < props[i].deforms.len() ==> after[i].deforms[j]
                            == props[i].deforms[j]
                    &&& forall|j: int|
                        props[i].deforms.len() <= j < after[i].deforms.len() ==> {
                            &&& (#[trigger] after[i].deforms[j]).moves.len()
                                == props[i].verts.len()
                            &&& after[i].deforms[j].track < m
                            &&& anim.ffd[after[i].deforms[j].track as int].name@ == props[i].name
                            &&& deform_within(
                                after[i].deforms[j],
                                anim.ffd[after[i].deforms[j].track as int].frame@,
                            )
                        }
                }
        }),
    decreases m,
{
    if m > 0 {
        lemma_deformed(props, anim, frame, speed, m - 1);
        let before = deformed(props, anim, frame, speed, m - 1);
        let track = anim.ffd[m - 1];
        let target = prop_position(before, track.name@);
        lemma_prop_position(before, track.name@);
        if target >= 0 {
            lemma_deform_of(
                (m - 1) as usize,
                track.frame@,
                frame,
                speed,
                before[target].verts.len() as int,
            );
        }
        let after = deformed(props, anim, frame, speed, m);
        assert forall|i: int| 0 <= i < props.len() implies {
            &&& (#[trigger] after[i]) == PropView { deforms: after[i].deforms, ..props[i] }
            &&& props[i].deforms.len() <= after[i].deforms.len() <= props[i].deforms.len() + m
            &&& forall|j: int|
                0 <= j < props[i].deforms.len() ==> after[i].deforms[j] == props[i].deforms[j]
            &&& forall|j: int|
                props[i].deforms.len() <= j < after[i].deforms.len() ==> {
                    &&& (#[trigger] after[i].deforms[j]).moves.len() == props[i].verts.len()
                    &&& after[i].deforms[j].track < m
                    &&& anim.ffd[after[i].deforms[j].track as int].name@ == props[i].name
                    &&& deform_within(
                        after[i].deforms[j],
                        anim.ffd[after[i].deforms[j].track as int].frame@,
                    )
                }
        } by {
            assert(before[i] == PropView { deforms: before[i].deforms, ..props[i] });
        }
    }
}

/// The props of a frame are lawful, whatever the frame and the speed.
pub proof fn lemma_animated(
    armature: &Armature,
    tex: &Texture,
    anim: &Animation,
    frame: int,
    speed: int,
)
    requires
        armature.indexable(),
        tex.indexable(),
        anim.playable(),
        0 <= frame <= i32::MAX,
        0 <= speed <= i32::MAX,
    ensures
        lawful(armature, tex, anim, animated(armature, tex, anim, frame, speed)),
{
    let bare = posed(armature, tex, anim, frame, speed, anim.bone.len() as int);
    lemma_posed(armature, tex, anim, frame, speed, anim.bone.len() as int);
    lemma_deformed(bare, anim, frame, speed, anim.ffd.len() as int);
    let props = animated(armature, tex, anim, frame, speed);
    assert forall|i: int| 0 <= i < props.len() implies {
        &&& if (#[trigger] props[i]).parent_name.len() == 0 {
            props[i].parent == -1
        } else {
            &&& 0 <= props[i].parent < i
            &&& props[props[i].parent as int].name == props[i].parent_name
        }
        &&& props[i].track == bare[i].track
    } by {
        assert(props[i] == PropView { deforms: props[i].deforms, ..bare[i] });
        if bare[i].parent_name.len() > 0 {
            let parent = bare[i].parent as int;
            assert(props[parent] == PropView { deforms: props[parent].deforms, ..bare[parent] });
        }
    }
    assert forall|i: int| 0 <= i < props.len() implies {
        &&& (#[trigger] props[i]).is_mesh
        &&& !shows_hidden_slot(armature, props[i])
        &&& shows_quad(armature, props[i]) ==> {
            &&& props[i].verts == quad_verts(
                props[i].tex_size.width as int,
                props[i].tex_size.height as int,
            )
            &&& props[i].verts.len() == 4
            &&& props[i].uvs == quad_uvs()
            &&& props[i].tris == quad_tris()
            &&& props[i].tris.len() == 2
        }
        &&& sources_exist(armature, tex, anim, props[i])
        &&& armature.meshes_consistent() ==> props[i].mesh_consistent()
    } by {
        assert(props[i] == PropView { deforms: props[i].deforms, ..bare[i] });
        assert(shows_quad(armature, props[i]) == shows_quad(armature, bare[i]));
        assert(sources_exist(armature, tex, anim, bare[i]));
        assert(bound_within(armature, tex, props[i]));
        if armature.meshes_consistent() {
            assert(bare[i].mesh_consistent());
        }
    }
    assert forall|i: int, j: int| 0 <= i < j < props.len() implies (#[trigger] props[i]).track < (
    #[trigger] props[j]).track by {
        assert(bare[i].track < bare[j].track);
    }
}

/// A deformation track whose active keyframe has no entries leaves every prop
/// as it was.
pub proof fn lemma_empty_keyframe_keeps_mesh(
    props: Seq<PropView>,
    anim: &Animation,
    frame: int,
    speed: int,
    m: int,
)
    requires
        0 < m <= anim.ffd.len(),
        active_entries(anim.ffd[m - 1].frame@, sample_of(anim.ffd[m - 1].frame@, frame, speed))
            == 0,
    ensures
        deformed(props, anim, frame, speed, m) == deformed(props, anim, frame, speed, m - 1),
{
}

/// Whether no track of the animation has more than one keyframe.
pub open spec fn is_still(anim: &Animation) -> bool {
    &&& forall|k: int|
        0 <= k < anim.bone.len() ==> {
            &&& (#[trigger] anim.bone[k]).translate_frame.len() <= 1
            &&& anim.bone[k].scale_frame.len() <= 1
            &&& anim.bone[k].rotate_frame.len() <= 1
        }
    &&& forall|m: int| 0 <= m < anim.ffd.len() ==> (#[trigger] anim.ffd[m]).frame.len() <= 1
}

/// An animation in which no track has more than one keyframe gives the same
/// props at every frame and every speed: each track holds its keyframe.
pub proof fn lemma_still_animation(
    armature: &Armature,
    tex: &Texture,
    anim: &Animation,
    frame: int,
    speed: int,
    other_frame: int,
    other_speed: int,
)
    requires
        is_still(anim),
    ensures
        animated(armature, tex, anim, frame, speed) == animated(
            armature,
            tex,
            anim,
            other_frame,
            other_speed,
        ),
{
    lemma_still_posed(
        armature,
        tex,
        anim,
        frame,
        speed,
        other_frame,
        other_speed,
        anim.bone.len() as int,
    );
    let bare = posed(armature, tex, anim, frame, speed, anim.bone.len() as int);
    lemma_still_deformed(bare, anim, frame, speed, other_frame, other_speed, anim.ffd.len() as int);
}

proof fn lemma_still_posed(
    armature: &Armature,
    tex: &Texture,
    anim: &Animation,
    frame: int,
    speed: int,
    other_frame: int,
    other_speed: int,
    n: int,
)
    requires
        is_still(anim),
        0 <= n <= anim.bone.len(),
    ensures
        posed(armature, tex, anim, frame, speed, n) == posed(
            armature,
            tex,
            anim,
            other_frame,
            other_speed,
            n,
        ),
    decreases n,
{
    if n > 0 {
        lemma_still_posed(armature, tex, anim, frame, speed, other_frame, other_speed, n - 1);
        let track = anim.bone[n - 1];
        assert(sample_of(track.translate_frame@, frame, speed) == sample_of(
            track.translate_frame@,
            other_frame,
            other_speed,
        ));
        assert(sample_of(track.scale_frame@, frame, speed) == sample_of(
            track.scale_frame@,
            other_frame,
            other_speed,
        ));
        assert(sample_of(track.rotate_frame@, frame, speed) == sample_of(
            track.rotate_frame@,
            other_frame,
            other_speed,
        ));
    }
}

proof fn lemma_still_deformed(
    props: Seq<PropView>,
    anim: &Animation,
    frame: int,
    speed: int,
    other_frame: int,
    other_speed: int,
    m: int,
)
    requires
        is_still(anim),
        0 <= m <= anim.ffd.len(),
    ensures
        deformed(props, anim, frame, speed, m) == deformed(
            props,
            anim,
            other_frame,
            other_speed,
            m,
        ),
    decreases m,
{
    if m > 0 {
        lemma_still_deformed(props, anim, frame, speed, other_frame, other_speed, m - 1);
        let track = anim.ffd[m - 1];
        assert(sample_of(track.frame@, frame, speed) == sample_of(
            track.frame@,
            other_frame,
            other_speed,
        ));
    }
}

/// Poses the first armature of a document for one frame of animation number
/// `anim_idx`, with every keyframe duration multiplied by `speed`.
///
/// The props come in the order of the animation's bone tracks, parents before
/// their children. The document stays as it was.
pub fn animate(
    root: &mut DragonBonesRoot,
    tex: &Texture,
    anim_idx: usize,
    frame: i32,
    speed: i32,
) -> (props: Vec<Prop>)
    requires
        old(root).well_formed(),
        tex.indexable(),
        anim_idx < old(root).armature[0].animation.len(),
        frame >= 0,
        speed >= 0,
    ensures
        *final(root) == *old(root),
        views(props@) == animated(
            &old(root).armature[0],
            tex,
            &old(root).armature[0].animation[anim_idx as int],
            frame as int,
            speed as int,
        ),
        lawful(
            &old(root).armature[0],
            tex,
            &old(root).armature[0].animation[anim_idx as int],
            views(props@),
        ),
{
    let mut props: Vec<Prop> = Vec::new();
    animate_into(root, tex, anim_idx, frame, speed, &mut props);
    props
}

/// Poses the first armature of a document as `animate` does, into a list that
/// the caller keeps from frame to frame. What the list held is dropped.
pub fn animate_into(
    root: &DragonBonesRoot,
    tex: &Texture,
    anim_idx: usize,
    frame: i32,
    speed: i32,
    out: &mut Vec<Prop>,
)
    requires
        root.well_formed(),
        tex.indexable(),
        anim_idx < root.armature[0].animation.len(),
        frame >= 0,
        speed >= 0,
    ensures
        views(final(out)@) == animated(
            &root.armature[0],
            tex,
            &root.armature[0].animation[anim_idx as int],
            frame as int,
            speed as int,
        ),
        lawful(
            &root.armature[0],
            tex,
            &root.armature[0].animation[anim_idx as int],
            views(final(out)@),
        ),
{
    let armature = &root.armature[0];
    let anim = &armature.animation[anim_idx];
    pose_tracks(armature, tex, anim, frame, speed, out);
    deform_meshes(anim, frame, speed, out);
    proof {
        lemma_animated(armature, tex, anim, frame as int, speed as int);
    }
}

/// Replaces what `props` holds by the props of the animation's bone tracks.
fn pose_tracks(
    armature: &Armature,
    tex: &Texture,
    anim: &Animation,
    frame: i32,
    speed: i32,
    props: &mut Vec<Prop>,
)
    requires
        armature.indexable(),
        tex.indexable(),
        anim.playable(),
        frame >= 0,
        speed >= 0,
    ensures
        views(final(props)@) == posed(
            armature,
            tex,
            anim,
            frame as int,
            speed as int,
            anim.bone.len() as int,
        ),
        final(props).len() <= anim.bone.len(),
{
    props.clear();
    let mut k: usize = 0;
    assert(views(props@) =~= Seq::<PropView>::empty());
    while k < anim.bone.len()
        invariant
            armature.indexable(),
            tex.indexable(),
            anim.playable(),
            frame >= 0,
            speed >= 0,
            k <= anim.bone.len(),
            props.len() <= k,
            views(props@) == posed(armature, tex, anim, frame as int, speed as int, k as int),
        decreases anim.bone.len() - k,
    {
        let track = &anim.bone[k];
        let ghost done = views(props@);
        let bone = idx_from_name(&track.name, &armature.bone);
        if bone != -1 {
            let parent_name = &armature.bone[bone as usize].parent;
            let rooted = is_blank(parent_name);
            let parent: i32 = if rooted {
                -1
            } else {
                idx_from_name(parent_name, props)
            };
            proof {
                assert(name_hits(props@, parent_name@) =~= done.map_values(
                    |p: PropView| p.name == parent_name@,
                ));
            }
            if rooted || parent != -1 {
                let mut prop = create_prop(bone as usize, tex, armature);
                prop.track = k;
                prop.parent = parent;
                prop.translate = sample_track(&track.translate_frame, frame, speed);
                prop.scale = sample_track(&track.scale_frame, frame, speed);
                prop.rotate = sample_track(&track.rotate_frame, frame, speed);
                proof {
                    assert(Some(prop@) == posed_prop(
                        armature,
                        tex,
                        anim,
                        k as int,
                        frame as int,
                        speed as int,
                        done,
                    ));
                    assert(views(props@.push(prop)) =~= done.push(prop@));
                }
                props.push(prop);
            }
        }
        k += 1;
    }
}

/// Applies the animation's deformation tracks to the props, in the order of
/// the tracks.
fn deform_meshes(anim: &Animation, frame: i32, speed: i32, props: &mut Vec<Prop>)
    requires
        anim.playable(),
        frame >= 0,
        speed >= 0,
        old(props).len() <= i32::MAX,
    ensures
        views(final(props)@) == deformed(
            views(old(props)@),
            anim,
            frame as int,
            speed as int,
            anim.ffd.len() as int,
        ),
{
    let ghost bare = views(props@);
    let mut m: usize = 0;
    while m < anim.ffd.len()
        invariant
            anim.playable(),
            frame >= 0,
            speed >= 0,
            m <= anim.ffd.len(),
            props.len() <= i32::MAX,
            views(props@) == deformed(bare, anim, frame as int, speed as int, m as int),
        decreases anim.ffd.len() - m,
    {
        let track = &anim.ffd[m];
        let ghost before = views(props@);
        let target = idx_from_name(&track.name, props);
        proof {
            assert(name_hits(props@, track.name@) =~= before.map_values(
                |p: PropView| p.name == track.name@,
            ));
        }
        if target != -1 {
            let at: usize = target as usize;
            let count: usize = props[at].verts.len();
            match animate_mesh(m, &track.frame, frame, count, speed) {
                Some(deform) => {
                    let ghost old_props = props@;
                    let ghost d = deform@;
                    props[at].deforms.push(deform);
                    proof {
                        assert(props[at as int].deforms@.map_values(|x: Deform| x@)
                            =~= old_props[at as int].deforms@.map_values(|x: Deform| x@).push(d));
                        assert(props[at as int]@ == with_deform(before[at as int], d));
                        assert(views(props@) =~= before.update(
                            at as int,
                            with_deform(before[at as int], d),
                        ));
                    }
                },
                None => {},
            }
        }
        m += 1;
    }
}

} // verus!
