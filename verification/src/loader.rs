//! What is asked of a document before it is animated, and the rules by which
//! keyframes that leave a field out are completed.

use vstd::prelude::*;
use crate::model::{AnimBone, Animation, Armature, Display, DragonBonesRoot, Slot, Texture};
use crate::timeline::{Keyframe, playable};

verus! {

/// Why a document could not be loaded.
#[derive(Clone, Copy, Debug, PartialEq, Eq, Structural)]
pub enum LoadError {
    /// A file could not be read.
    Io,
    /// A text is not a document: it is malformed, or a field that must be there
    /// is not.
    Parse,
    /// The document has no armature, or it shows a slot and has no skin.
    Empty,
}

/// The property that a track animates.
#[derive(Clone, Copy, Debug, PartialEq, Eq, Structural)]
pub enum TrackKind {
    Translate,
    Scale,
    Rotate,
}

/// The number that stands in a keyframe for a field that the document leaves
/// out, until the keyframe is completed.
pub const MISSING_FIELD: i32 = 9999;

/// The number that completes a keyframe which leaves a field out: 0 on a
/// translate track, 1 on a scale track and 1 on a rotate track.
pub open spec fn completion(kind: TrackKind) -> int {
    match kind {
        TrackKind::Translate => 0,
        TrackKind::Scale => 1,
        TrackKind::Rotate => 1,
    }
}

/// The number that takes the place of `MISSING_FIELD` in a keyframe of a track
/// of kind `kind`.
pub fn missing_value(kind: TrackKind) -> (v: i32)
    ensures
        v == completion(kind),
{
    match kind {
        TrackKind::Translate => 0,
        TrackKind::Scale => 1,
        TrackKind::Rotate => 1,
    }
}

/// Whether one of the slots is shown.
pub open spec fn shows_a_slot(slots: Seq<Slot>) -> bool {
    exists|i: int| 0 <= i < slots.len() && (#[trigger] slots[i]).display_index != -1
}

/// Whether the document lacks what every frame needs: an armature, and a skin
/// if the first armature shows a slot.
pub open spec fn is_empty(root: &DragonBonesRoot) -> bool {
    root.armature.len() == 0 || (root.armature[0].skin.len() == 0 && shows_a_slot(
        root.armature[0].slot@,
    ))
}

/// Tells whether one of the slots is shown.
pub fn any_slot_shown(slots: &Vec<Slot>) -> (shown: bool)
    ensures
        shown == shows_a_slot(slots@),
{
    let mut i: usize = 0;
    while i < slots.len()
        invariant
            i <= slots.len(),
            forall|j: int| 0 <= j < i ==> slots[j].display_index == -1,
        decreases slots.len() - i,
    {
        if slots[i].display_index != -1 {
            return true;
        }
        i += 1;
    }
    false
}

/// Accepts a document that has been read, or refuses it as empty.
pub fn check_loaded(root: &DragonBonesRoot) -> (r: Result<(), LoadError>)
    ensures
        r is Err <==> is_empty(root),
        r is Err ==> r == Err::<(), LoadError>(LoadError::Empty),
{
    if root.armature.len() == 0 {
        return Err(LoadError::Empty);
    }
    let armature = &root.armature[0];
    if armature.skin.len() == 0 && any_slot_shown(&armature.slot) {
        return Err(LoadError::Empty);
    }
    Ok(())
}

/// The largest length of a list whose positions fit an `i32`.
pub const INDEX_LIMIT: usize = 0x7fff_ffff;

/// Tells whether a track can be sampled.
pub fn is_playable<T: Keyframe>(track: &Vec<T>) -> (ok: bool)
    ensures
        ok == playable(track@),
{
    if track.len() > INDEX_LIMIT {
        return false;
    }
    let mut i: usize = 0;
    while i < track.len()
        invariant
            i <= track.len(),
            forall|j: int| 0 <= j < i ==> (#[trigger] track[j]).spec_duration() >= 0,
        decreases track.len() - i,
    {
        if track[i].duration() < 0 {
            return false;
        }
        i += 1;
    }
    true
}

impl AnimBone {
    /// Tells whether the three tracks can be sampled.
    pub fn is_playable(&self) -> (ok: bool)
        ensures
            ok == self.playable(),
    {
        is_playable(&self.translate_frame) && is_playable(&self.scale_frame) && is_playable(
            &self.rotate_frame,
        )
    }
}

impl Animation {
    /// Tells whether every track of the animation can be sampled.
    pub fn is_playable(&self) -> (ok: bool)
        ensures
            ok == self.playable(),
    {
        if self.bone.len() > INDEX_LIMIT {
            return false;
        }
        let mut k: usize = 0;
        while k < self.bone.len()
            invariant
                k <= self.bone.len(),
                forall|j: int| 0 <= j < k ==> (#[trigger] self.bone[j]).playable(),
            decreases self.bone.len() - k,
        {
            if !self.bone[k].is_playable() {
                return false;
            }
            k += 1;
        }
        let mut m: usize = 0;
        while m < self.ffd.len()
            invariant
                m <= self.ffd.len(),
                forall|j: int| 0 <= j < self.bone.len() ==> (#[trigger] self.bone[j]).playable(),
                forall|j: int| 0 <= j < m ==> playable((#[trigger] self.ffd[j]).frame@),
            decreases self.ffd.len() - m,
        {
            if !is_playable(&self.ffd[m].frame) {
                return false;
            }
            m += 1;
        }
        true
    }
}

impl Display {
    /// Tells whether the arrays of the display fit together.
    pub fn is_consistent(&self) -> (ok: bool)
        ensures
            ok == self.consistent(),
    {
        if self.vertices == 0 {
            return true;
        }
        if self.uvs != self.vertices {
            return false;
        }
        let count: usize = (self.vertices - 1) / 2 + 1;
        let mut i: usize = 0;
        while i < self.triangles.len()
            invariant
                i <= self.triangles.len(),
                self.is_mesh(),
                self.uvs == self.vertices,
                count == self.vertex_count(),
                forall|j: int| 0 <= j < i ==> 0 <= #[trigger] self.triangles[j] < count,
            decreases self.triangles.len() - i,
        {
            let v: i32 = self.triangles[i];
            if v < 0 || v as usize >= count {
                return false;
            }
            i += 1;
        }
        true
    }
}

impl Armature {
    /// Tells whether every display that can be shown is consistent.
    pub fn are_meshes_consistent(&self) -> (ok: bool)
        ensures
            ok == self.meshes_consistent(),
    {
        if self.skin.len() == 0 {
            return true;
        }
        let slots = &self.skin[0].slot;
        let mut k: usize = 0;
        while k < slots.len()
            invariant
                k <= slots.len(),
                self.skin.len() > 0,
                *slots == self.skin[0].slot,
                forall|j: int|
                    0 <= j < k && (#[trigger] slots[j]).display.len() > 0
                        ==> slots[j].display[0].consistent(),
            decreases slots.len() - k,
        {
            if slots[k].display.len() > 0 && !slots[k].display[0].is_consistent() {
                return false;
            }
            k += 1;
        }
        true
    }

    /// Tells whether the lists that are searched by name are short enough.
    pub fn is_indexable(&self) -> (ok: bool)
        ensures
            ok == self.indexable(),
    {
        self.bone.len() <= INDEX_LIMIT && self.slot.len() <= INDEX_LIMIT && (self.skin.len()
            == 0 || self.skin[0].slot.len() <= INDEX_LIMIT)
    }

    /// Tells whether the armature can be animated.
    pub fn is_well_formed(&self) -> (ok: bool)
        ensures
            ok == self.well_formed(),
    {
        if !self.is_indexable() {
            return false;
        }
        let mut a: usize = 0;
        while a < self.animation.len()
            invariant
                a <= self.animation.len(),
                forall|j: int| 0 <= j < a ==> (#[trigger] self.animation[j]).playable(),
            decreases self.animation.len() - a,
        {
            if !self.animation[a].is_playable() {
                return false;
            }
            a += 1;
        }
        true
    }
}

impl DragonBonesRoot {
    /// Tells whether the document can be animated.
    pub fn is_well_formed(&self) -> (ok: bool)
        ensures
            ok == self.well_formed(),
    {
        self.armature.len() > 0 && self.armature[0].is_well_formed()
    }
}

impl Texture {
    /// Tells whether the atlas is short enough to be searched.
    pub fn is_indexable(&self) -> (ok: bool)
        ensures
            ok == self.indexable(),
    {
        self.sub_texture.len() <= INDEX_LIMIT
    }
}

} // verus!
