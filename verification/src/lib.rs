//! Frame resolution for DragonBones skeletons.
//!
//! A DragonBones document names everything: bones name their parents, slots
//! name the bone they hang on, skins name slots, displays name atlas entries,
//! animation tracks name bones and deformation tracks name props. For one frame
//! of one animation this crate settles all of that: which bones are posed and
//! in what order, which prop is the parent of which, which keyframes are active
//! on every track and how far the frame is into them, which texture and which
//! mesh belong to a prop, and which vertex a deformation moves.
//!
//! The crate holds no coordinates. A coordinate is described by the place it
//! comes from (an entry of a flat array of the document, or a whole number of
//! half texels), and a track by the keyframes to blend. The caller, who owns
//! the numbers, evaluates these descriptions; every description is exact, so no
//! decision is left to it.

pub mod binder;
pub mod loader;
pub mod lookup;
pub mod mesh;
pub mod model;
pub mod runtime;
pub mod timeline;
