//! Finding things by name.

use vstd::prelude::*;
use crate::model::{Bone, Slot, SkinSlot, SubTexture};

verus! {

/// Something that a list is searched for by its name.
pub trait Named {
    spec fn spec_name(&self) -> Seq<char>;

    fn name(&self) -> (s: &String)
        ensures
            s@ == self.spec_name(),
    ;
}

impl Named for Bone {
    open spec fn spec_name(&self) -> Seq<char> {
        self.name@
    }

    fn name(&self) -> (s: &String) {
        &self.name
    }
}

impl Named for Slot {
    open spec fn spec_name(&self) -> Seq<char> {
        self.name@
    }

    fn name(&self) -> (s: &String) {
        &self.name
    }
}

impl Named for SkinSlot {
    open spec fn spec_name(&self) -> Seq<char> {
        self.name@
    }

    fn name(&self) -> (s: &String) {
        &self.name
    }
}

impl Named for SubTexture {
    open spec fn spec_name(&self) -> Seq<char> {
        self.name@
    }

    fn name(&self) -> (s: &String) {
        &self.name
    }
}

/// The position of the first `true` in `hits`, or -1 if there is none.
pub open spec fn first_hit(hits: Seq<bool>) -> int
    decreases hits.len(),
{
    if hits.len() == 0 {
        -1
    } else if first_hit(hits.drop_last()) >= 0 {
        first_hit(hits.drop_last())
    } else if hits.last() {
        hits.len() - 1
    } else {
        -1
    }
}

/// `first_hit` is -1 exactly when nothing hits, and otherwise the position of
/// a hit that no hit precedes.
pub proof fn lemma_first_hit(hits: Seq<bool>)
    ensures
        -1 <= first_hit(hits) < hits.len(),
        first_hit(hits) == -1 <==> forall|i: int| 0 <= i < hits.len() ==> !hits[i],
        first_hit(hits) >= 0 ==> hits[first_hit(hits)],
        forall|i: int| 0 <= i < first_hit(hits) ==> !hits[i],
    decreases hits.len(),
{
    if hits.len() > 0 {
        let front = hits.drop_last();
        lemma_first_hit(front);
        assert(forall|i: int| 0 <= i < front.len() ==> front[i] == hits[i]);
        if first_hit(front) < 0 && !hits.last() {
            assert forall|i: int| 0 <= i < hits.len() implies !hits[i] by {
                if i < front.len() {
                    assert(!front[i]);
                }
            }
        }
    }
}

/// For each element of `list`, whether it is named `name`.
pub open spec fn name_hits<T: Named>(list: Seq<T>, name: Seq<char>) -> Seq<bool> {
    list.map_values(|t: T| t.spec_name() == name)
}

/// The position of the first element of `list` named `name`, or -1.
pub open spec fn position<T: Named>(list: Seq<T>, name: Seq<char>) -> int {
    first_hit(name_hits(list, name))
}

/// For each slot, whether it is shown and hangs on the bone `bone`.
pub open spec fn slot_hits(slots: Seq<Slot>, bone: Seq<char>) -> Seq<bool> {
    slots.map_values(|s: Slot| s.display_index != -1 && s.parent@ == bone)
}

/// The position of the first shown slot on the bone `bone`, or -1. A hidden
/// slot is passed over.
pub open spec fn attached_slot(slots: Seq<Slot>, bone: Seq<char>) -> int {
    first_hit(slot_hits(slots, bone))
}

/// `position` is -1 exactly when no element has the name, and otherwise the
/// position of an element with that name that no such element precedes.
pub proof fn lemma_position<T: Named>(list: Seq<T>, name: Seq<char>)
    ensures
        -1 <= position(list, name) < list.len(),
        position(list, name) == -1 <==> forall|i: int|
            0 <= i < list.len() ==> list[i].spec_name() != name,
        position(list, name) >= 0 ==> list[position(list, name)].spec_name() == name,
        forall|i: int| 0 <= i < position(list, name) ==> list[i].spec_name() != name,
{
    let hits = name_hits(list, name);
    let p = first_hit(hits);
    lemma_first_hit(hits);
    if p >= 0 {
        assert(hits[p]);
    }
    assert forall|i: int| 0 <= i < list.len() && (p == -1 || i < p) implies list[i].spec_name()
        != name by {
        assert(!hits[i]);
    }
}

/// `attached_slot` is -1 exactly when every slot on the bone is hidden, and
/// otherwise the position of a shown slot on the bone that no such slot
/// precedes.
pub proof fn lemma_attached_slot(slots: Seq<Slot>, bone: Seq<char>)
    ensures
        -1 <= attached_slot(slots, bone) < slots.len(),
        attached_slot(slots, bone) == -1 <==> forall|i: int|
            0 <= i < slots.len() ==> slots[i].display_index == -1 || slots[i].parent@ != bone,
        attached_slot(slots, bone) >= 0 ==> slots[attached_slot(slots, bone)].display_index != -1
            && slots[attached_slot(slots, bone)].parent@ == bone,
        forall|i: int|
            0 <= i < attached_slot(slots, bone) ==> slots[i].display_index == -1
                || slots[i].parent@ != bone,
{
    let hits = slot_hits(slots, bone);
    let p = first_hit(hits);
    lemma_first_hit(hits);
    if p >= 0 {
        assert(hits[p]);
    }
    assert forall|i: int| 0 <= i < slots.len() && (p == -1 || i < p) implies slots[i].display_index
        == -1 || slots[i].parent@ != bone by {
        assert(!hits[i]);
    }
}

/// A hidden slot is attached to no bone, whatever bone it names as its
/// parent.
pub proof fn lemma_hidden_slot_is_skipped(slots: Seq<Slot>, bone: Seq<char>, i: int)
    requires
        0 <= i < slots.len(),
        slots[i].display_index == -1,
    ensures
        attached_slot(slots, bone) != i,
{
    lemma_attached_slot(slots, bone);
}

/// Whether a string is empty.
pub fn is_blank(s: &String) -> (b: bool)
    ensures
        b == (s@.len() == 0),
{
    let none = String::new();
    let b = *s == none;
    proof {
        if s@.len() == 0 {
            assert(s@ =~= none@);
        }
    }
    b
}

/// Finds the first element named `name`: its position, or -1 if there is
/// none. The list must be short enough for every position to fit the result.
pub fn idx_from_name<T: Named>(name: &String, list: &Vec<T>) -> (idx: i32)
    requires
        list.len() <= i32::MAX,
    ensures
        idx == position(list@, name@),
        -1 <= idx < list.len(),
        idx == -1 <==> forall|i: int| 0 <= i < list.len() ==> list[i].spec_name() != name@,
        idx >= 0 ==> list[idx as int].spec_name() == name@,
        forall|i: int| 0 <= i < idx ==> list[i].spec_name() != name@,
{
    let mut i: usize = 0;
    while i < list.len()
        invariant
            i <= list.len(),
            list.len() <= i32::MAX,
            first_hit(name_hits(list@, name@).take(i as int)) == -1,
        decreases list.len() - i,
    {
        let ghost hits = name_hits(list@, name@);
        proof {
            assert(hits.take(i + 1).drop_last() =~= hits.take(i as int));
        }
        if *list[i].name() == *name {
            proof {
                assert(hits.take(i + 1).last());
                lemma_first_hit_of_prefix(hits, i + 1);
                lemma_position(list@, name@);
            }
            return i as i32;
        }
        i += 1;
    }
    proof {
        let hits = name_hits(list@, name@);
        assert(hits.take(i as int) =~= hits);
        lemma_position(list@, name@);
    }
    -1
}

/// A hit found in a prefix of the list is the first hit of the whole list.
pub proof fn lemma_first_hit_of_prefix(hits: Seq<bool>, n: int)
    requires
        0 <= n <= hits.len(),
        first_hit(hits.take(n)) >= 0,
    ensures
        first_hit(hits) == first_hit(hits.take(n)),
    decreases hits.len() - n,
{
    if n < hits.len() {
        assert(hits.take(n + 1).drop_last() =~= hits.take(n));
        lemma_first_hit_of_prefix(hits, n + 1);
    } else {
        assert(hits.take(n) =~= hits);
    }
}

/// Finds the slot that a bone shows: the position of the first slot on the
/// bone `name` whose display index is not -1, or -1 if there is none.
pub fn parent_of_slot(name: &String, slot: &Vec<Slot>) -> (idx: i32)
    requires
        slot.len() <= i32::MAX,
    ensures
        idx == attached_slot(slot@, name@),
        -1 <= idx < slot.len(),
        idx == -1 <==> forall|i: int|
            0 <= i < slot.len() ==> slot[i].display_index == -1 || slot[i].parent@ != name@,
        idx >= 0 ==> slot[idx as int].display_index != -1 && slot[idx as int].parent@ == name@,
        forall|i: int|
            0 <= i < idx ==> slot[i].display_index == -1 || slot[i].parent@ != name@,
{
    let mut i: usize = 0;
    while i < slot.len()
        invariant
            i <= slot.len(),
            slot.len() <= i32::MAX,
            first_hit(slot_hits(slot@, name@).take(i as int)) == -1,
        decreases slot.len() - i,
    {
        let ghost hits = slot_hits(slot@, name@);
        proof {
            assert(hits.take(i + 1).drop_last() =~= hits.take(i as int));
        }
        if slot[i].display_index != -1 && slot[i].parent == *name {
            proof {
                assert(hits.take(i + 1).last());
                lemma_first_hit_of_prefix(hits, i + 1);
                lemma_attached_slot(slot@, name@);
            }
            return i as i32;
        }
        i += 1;
    }
    proof {
        let hits = slot_hits(slot@, name@);
        assert(hits.take(i as int) =~= hits);
        lemma_attached_slot(slot@, name@);
    }
    -1
}

} // verus!
