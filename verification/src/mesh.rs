//! Vertex buffers and their deformation, with every coordinate given by the
//! place it comes from.

use vstd::prelude::*;
use crate::model::{MeshFrame, Tri};
use crate::timeline::{Sample, lemma_sample_within, playable, sample_of, sample_track, sample_within};

verus! {

/// Where one coordinate comes from.
#[derive(Clone, Copy, Debug, PartialEq, Eq, Structural)]
pub enum Coord {
    /// A fixed number: so many halves. `Half(3)` is one and a half.
    Half(i64),
    /// The entry at this position of the display's flat array: of its vertex
    /// coordinates in a vertex buffer, of its texture coordinates in a UV
    /// buffer.
    Flat(usize),
}

/// A point of a vertex buffer or of a UV buffer.
#[derive(Clone, Copy, Debug, PartialEq, Eq, Structural)]
pub struct Vertex {
    pub x: Coord,
    pub y: Coord,
}

/// What a deformation does to one coordinate.
#[derive(Clone, Copy, Debug, PartialEq, Eq, Structural)]
pub enum Axis {
    /// The coordinate stays as it is.
    Keep,
    /// The coordinate becomes zero.
    Zero,
    /// The sampled offset is added: the blend of entry `at` of the two
    /// keyframes' flat arrays. Where the second keyframe has no entry `at`,
    /// `paired` is false and the blend runs to zero.
    Shift { at: usize, paired: bool },
}

/// What a deformation does to one vertex.
#[derive(Clone, Copy, Debug, PartialEq, Eq, Structural)]
pub struct VertexMove {
    pub x: Axis,
    pub y: Axis,
}

/// One deformation of a prop's mesh, sampled from a deformation track.
#[derive(Clone, Debug, PartialEq, Eq)]
pub struct Deform {
    /// Position of the track among the animation's deformation tracks.
    pub track: usize,
    /// The keyframes that are blended; never `Absent`.
    pub sample: Sample,
    /// What becomes of each vertex of the mesh, in order.
    pub moves: Vec<VertexMove>,
}

/// A `Deform` with its list of moves as a sequence.
pub struct DeformView {
    pub track: usize,
    pub sample: Sample,
    pub moves: Seq<VertexMove>,
}

impl View for Deform {
    type V = DeformView;

    open spec fn view(&self) -> DeformView {
        DeformView { track: self.track, sample: self.sample, moves: self.moves@ }
    }
}

/// Vertex `j` of a flat array of `len` entries: entries `2j` and `2j + 1`. An
/// array that ends on an x gives its last vertex a y of zero.
pub open spec fn pair_at(len: int, j: int) -> Vertex {
    Vertex {
        x: Coord::Flat((2 * j) as usize),
        y: if 2 * j + 1 < len {
            Coord::Flat((2 * j + 1) as usize)
        } else {
            Coord::Half(0)
        },
    }
}

/// The vertices of a flat array of `len` entries.
pub open spec fn pairs(len: int) -> Seq<Vertex> {
    Seq::new(((len + 1) / 2) as nat, |j: int| pair_at(len, j))
}

/// Triangle `t` of a flat list of indices: entries `3t`, `3t + 1` and `3t + 2`.
/// A list that ends within a triangle gives it zero for what is missing.
pub open spec fn triple_at(flat: Seq<i32>, t: int) -> Tri {
    Tri {
        v1: flat[3 * t],
        v2: if 3 * t + 1 < flat.len() {
            flat[3 * t + 1]
        } else {
            0
        },
        v3: if 3 * t + 2 < flat.len() {
            flat[3 * t + 2]
        } else {
            0
        },
    }
}

/// The triangles of a flat list of indices.
pub open spec fn triples(flat: Seq<i32>) -> Seq<Tri> {
    Seq::new(((flat.len() + 2) / 3) as nat, |t: int| triple_at(flat, t))
}

/// The corners of a quad of `width` by `height` about the origin: left before
/// right, then the same with the other sign of y.
pub open spec fn quad_verts(width: int, height: int) -> Seq<Vertex> {
    seq![
        Vertex { x: Coord::Half((-width) as i64), y: Coord::Half((-height) as i64) },
        Vertex { x: Coord::Half(width as i64), y: Coord::Half((-height) as i64) },
        Vertex { x: Coord::Half((-width) as i64), y: Coord::Half(height as i64) },
        Vertex { x: Coord::Half(width as i64), y: Coord::Half(height as i64) },
    ]
}

/// The texture coordinates of a quad: (0, 0), (1, 0), (0, 1), (1, 1).
pub open spec fn quad_uvs() -> Seq<Vertex> {
    seq![
        Vertex { x: Coord::Half(0), y: Coord::Half(0) },
        Vertex { x: Coord::Half(2), y: Coord::Half(0) },
        Vertex { x: Coord::Half(0), y: Coord::Half(2) },
        Vertex { x: Coord::Half(2), y: Coord::Half(2) },
    ]
}

/// The two triangles of a quad.
pub open spec fn quad_tris() -> Seq<Tri> {
    seq![Tri { v1: 0, v2: 1, v3: 2 }, Tri { v1: 1, v2: 2, v3: 3 }]
}

/// Whether every index of every triangle names one of `count` vertices.
pub open spec fn tris_within(tris: Seq<Tri>, count: int) -> bool {
    forall|t: int|
        0 <= t < tris.len() ==> {
            &&& 0 <= (#[trigger] tris[t]).v1 < count
            &&& 0 <= tris[t].v2 < count
            &&& 0 <= tris[t].v3 < count
        }
}

/// Whether every entry that the buffer names is an entry of a flat array of
/// `len` entries.
pub open spec fn coords_within(buffer: Seq<Vertex>, len: int) -> bool {
    forall|j: int|
        0 <= j < buffer.len() ==> {
            &&& (#[trigger] buffer[j]).x matches Coord::Flat(i) ==> i < len
            &&& buffer[j].y matches Coord::Flat(i) ==> i < len
        }
}

/// Reads a flat array of `len` coordinates as vertices.
pub fn unpack_pairs(len: usize) -> (out: Vec<Vertex>)
    ensures
        out@ == pairs(len as int),
{
    let mut out: Vec<Vertex> = Vec::new();
    let mut i: usize = 0;
    while i < len
        invariant
            i <= len,
            i % 2 == 0 || i == len,
            i < len ==> out.len() == i / 2,
            i == len ==> out.len() == (len + 1) / 2,
            forall|j: int| 0 <= j < out.len() ==> out[j] == pair_at(len as int, j),
        decreases len - i,
    {
        if len - i >= 2 {
            out.push(Vertex { x: Coord::Flat(i), y: Coord::Flat(i + 1) });
            i += 2;
        } else {
            out.push(Vertex { x: Coord::Flat(i), y: Coord::Half(0) });
            i = len;
        }
    }
    assert(out@ =~= pairs(len as int));
    out
}

/// Reads a flat list of indices as triangles.
pub fn unpack_triangles(flat: &Vec<i32>) -> (out: Vec<Tri>)
    ensures
        out@ == triples(flat@),
{
    let len: usize = flat.len();
    let mut out: Vec<Tri> = Vec::new();
    let mut i: usize = 0;
    while i < len
        invariant
            len == flat.len(),
            i <= len,
            i % 3 == 0 || i == len,
            i < len ==> out.len() == i / 3,
            i == len ==> out.len() == (len + 2) / 3,
            forall|t: int| 0 <= t < out.len() ==> out[t] == triple_at(flat@, t),
        decreases len - i,
    {
        let v1: i32 = flat[i];
        let v2: i32 = if len - i > 1 {
            flat[i + 1]
        } else {
            0
        };
        let v3: i32 = if len - i > 2 {
            flat[i + 2]
        } else {
            0
        };
        out.push(Tri { v1, v2, v3 });
        if len - i >= 3 {
            i += 3;
        } else {
            i = len;
        }
    }
    assert(out@ =~= triples(flat@));
    out
}

/// The vertex buffer of a quad of `width` by `height`.
pub fn make_quad_verts(width: i32, height: i32) -> (out: Vec<Vertex>)
    ensures
        out@ == quad_verts(width as int, height as int),
{
    let w: i64 = width as i64;
    let h: i64 = height as i64;
    let mut out: Vec<Vertex> = Vec::new();
    out.push(Vertex { x: Coord::Half(-w), y: Coord::Half(-h) });
    out.push(Vertex { x: Coord::Half(w), y: Coord::Half(-h) });
    out.push(Vertex { x: Coord::Half(-w), y: Coord::Half(h) });
    out.push(Vertex { x: Coord::Half(w), y: Coord::Half(h) });
    assert(out@ =~= quad_verts(width as int, height as int));
    out
}

/// The UV buffer of a quad.
pub fn make_quad_uvs() -> (out: Vec<Vertex>)
    ensures
        out@ == quad_uvs(),
{
    let mut out: Vec<Vertex> = Vec::new();
    out.push(Vertex { x: Coord::Half(0), y: Coord::Half(0) });
    out.push(Vertex { x: Coord::Half(2), y: Coord::Half(0) });
    out.push(Vertex { x: Coord::Half(0), y: Coord::Half(2) });
    out.push(Vertex { x: Coord::Half(2), y: Coord::Half(2) });
    assert(out@ =~= quad_uvs());
    out
}

/// The triangles of a quad.
pub fn make_quad_tris() -> (out: Vec<Tri>)
    ensures
        out@ == quad_tris(),
{
    let mut out: Vec<Tri> = Vec::new();
    out.push(Tri { v1: 0, v2: 1, v3: 2 });
    out.push(Tri { v1: 1, v2: 2, v3: 3 });
    assert(out@ =~= quad_tris());
    out
}

/// What a deformation does to vertex `j`, where the first keyframe has
/// `active` entries and the second has `target`. Entries `2j` and `2j + 1` of
/// the first keyframe move the vertex. Where the keyframe ends on an x, the
/// vertex gets a y of zero. A vertex that the keyframe does not reach stays.
pub open spec fn move_at(active: int, target: int, j: int) -> VertexMove {
    if 2 * j < active {
        VertexMove {
            x: Axis::Shift { at: (2 * j) as usize, paired: 2 * j < target },
            y: if 2 * j + 1 < active {
                Axis::Shift { at: (2 * j + 1) as usize, paired: 2 * j + 1 < target }
            } else {
                Axis::Zero
            },
        }
    } else {
        VertexMove { x: Axis::Keep, y: Axis::Keep }
    }
}

/// What a deformation does to each of `count` vertices.
pub open spec fn moves_of(count: int, active: int, target: int) -> Seq<VertexMove> {
    Seq::new(count as nat, |j: int| move_at(active, target, j))
}

/// The number of entries of the keyframe that a sample starts from.
pub open spec fn active_entries(frames: Seq<MeshFrame>, sample: Sample) -> int {
    match sample {
        Sample::Absent => 0,
        Sample::Hold { key } => frames[key as int].vertices as int,
        Sample::Tween { from, .. } => frames[from as int].vertices as int,
    }
}

/// The number of entries of the keyframe that a sample runs to.
pub open spec fn target_entries(frames: Seq<MeshFrame>, sample: Sample) -> int {
    match sample {
        Sample::Absent => 0,
        Sample::Hold { key } => frames[key as int].vertices as int,
        Sample::Tween { to, .. } => frames[to as int].vertices as int,
    }
}

/// Whether an axis names an entry that the first keyframe has, and the second
/// too where the axis says so.
pub open spec fn axis_within(axis: Axis, active: int, target: int) -> bool {
    axis matches Axis::Shift { at, paired } ==> at < active && (paired <==> at < target)
}

/// Whether the deformation names keyframes of the track `frames` and entries
/// of those keyframes.
pub open spec fn deform_within(deform: DeformView, frames: Seq<MeshFrame>) -> bool {
    &&& !(deform.sample is Absent)
    &&& sample_within(deform.sample, frames.len() as int)
    &&& forall|j: int|
        0 <= j < deform.moves.len() ==> {
            &&& axis_within(
                (#[trigger] deform.moves[j]).x,
                active_entries(frames, deform.sample),
                target_entries(frames, deform.sample),
            )
            &&& axis_within(
                deform.moves[j].y,
                active_entries(frames, deform.sample),
                target_entries(frames, deform.sample),
            )
        }
}

/// A deformation has a move for every vertex and names only keyframes and
/// entries that its track has.
pub proof fn lemma_deform_of(
    track: usize,
    frames: Seq<MeshFrame>,
    frame: int,
    speed: int,
    count: int,
)
    requires
        playable(frames),
        0 <= speed <= i32::MAX,
        0 <= frame <= i32::MAX,
        0 <= count,
    ensures
        deform_of(track, frames, frame, speed, count) matches Some(d) ==> {
            &&& d.track == track
            &&& d.moves.len() == count
            &&& deform_within(d, frames)
        },
{
    lemma_sample_within(frames, frame, speed);
}

/// The deformation that track number `track` works at `frame` on a mesh of
/// `count` vertices, or `None` where the keyframe it starts from has no
/// entries: the mesh then stays as it is.
pub open spec fn deform_of(
    track: usize,
    frames: Seq<MeshFrame>,
    frame: int,
    speed: int,
    count: int,
) -> Option<DeformView> {
    let sample = sample_of(frames, frame, speed);
    if active_entries(frames, sample) == 0 {
        None
    } else {
        Some(
            DeformView {
                track,
                sample,
                moves: moves_of(
                    count,
                    active_entries(frames, sample),
                    target_entries(frames, sample),
                ),
            },
        )
    }
}

/// Samples deformation track number `track` at `frame` for a mesh of `count`
/// vertices.
///
/// The result has one move for each vertex of the mesh, so a deformed mesh
/// keeps its size. Where the active keyframe has no entries the result is
/// `None` and the mesh stays as it is.
pub fn animate_mesh(
    track: usize,
    mesh_frame: &Vec<MeshFrame>,
    frame: i32,
    count: usize,
    speed: i32,
) -> (d: Option<Deform>)
    requires
        playable(mesh_frame@),
        frame >= 0,
        speed >= 0,
    ensures
        match d {
            Some(d) => deform_of(track, mesh_frame@, frame as int, speed as int, count as int)
                == Some(d@),
            None => deform_of(track, mesh_frame@, frame as int, speed as int, count as int)
                is None,
        },
        d is None <==> active_entries(
            mesh_frame@,
            sample_of(mesh_frame@, frame as int, speed as int),
        ) == 0,
        d matches Some(d) ==> d.moves.len() == count && !(d.sample is Absent),
{
    let sample = sample_track(mesh_frame, frame, speed);
    let (active, target): (usize, usize) = match sample {
        Sample::Absent => (0, 0),
        Sample::Hold { key } => (mesh_frame[key].vertices, mesh_frame[key].vertices),
        Sample::Tween { from, to, .. } => (mesh_frame[from].vertices, mesh_frame[to].vertices),
    };
    if active == 0 {
        return None;
    }
    let mut moves: Vec<VertexMove> = Vec::new();
    let mut j: usize = 0;
    while j < count
        invariant
            j <= count,
            active > 0,
            moves.len() == j,
            forall|t: int| 0 <= t < j ==> moves[t] == move_at(active as int, target as int, t),
        decreases count - j,
    {
        let m = if j <= (active - 1) / 2 {
            let at: usize = 2 * j;
            let y = if active - at > 1 {
                Axis::Shift { at: at + 1, paired: at + 1 < target }
            } else {
                Axis::Zero
            };
            VertexMove { x: Axis::Shift { at, paired: at < target }, y }
        } else {
            VertexMove { x: Axis::Keep, y: Axis::Keep }
        };
        moves.push(m);
        j += 1;
    }
    assert(moves@ =~= moves_of(count as int, active as int, target as int));
    Some(Deform { track, sample, moves })
}

} // verus!
