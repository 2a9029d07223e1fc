use dragonbones::mesh::{Axis, Coord, Deform, Vertex, VertexMove};
use dragonbones::runtime::{
    animate, animate_into, AnimBone, Animation, Armature, Bone, Display, DragonBonesRoot, Frame, MeshFrame,
    Prop, Sample, Size, Skin, SkinSlot, Slot, SubTexture, Texture, Tri, FFD,
};
use std::f64::consts::PI;
use tween::Tweener;

// The numbers that go with a document: a transform for each bone, and the
// values of the keyframes of each bone track.

#[derive(Clone, Copy)]
struct Pose {
    x: f64,
    y: f64,
    rot: f64,
    sc_x: f64,
    sc_y: f64,
}

const IDENTITY: Pose = Pose { x: 0., y: 0., rot: 0., sc_x: 1., sc_y: 1. };

#[derive(Clone, Default)]
struct Keys {
    translate: Vec<(f64, f64)>,
    scale: Vec<(f64, f64)>,
    rotate: Vec<f64>,
}

struct Posed {
    pos: (f64, f64),
    scale: (f64, f64),
    rot: f64,
}

fn turn(p: (f64, f64), degrees: f64) -> (f64, f64) {
    let (sin, cos) = (degrees * PI / 180.).sin_cos();
    (p.0 * cos - p.1 * sin, p.0 * sin + p.1 * cos)
}

fn blend(from: f64, to: f64, span: i64, offset: i32) -> f64 {
    Tweener::linear(from, to, span).move_to(offset as i64)
}

fn point(track: &[(f64, f64)], sample: Sample, by: f64) -> Option<(f64, f64)> {
    match sample {
        Sample::Absent => None,
        Sample::Hold { key } => Some(track[key]),
        Sample::Tween { from, to, span, offset } => {
            let a = turn(track[from], by);
            let b = turn(track[to], by);
            Some((blend(a.0, b.0, span, offset), blend(a.1, b.1, span, offset)))
        }
    }
}

fn number(track: &[f64], sample: Sample) -> Option<f64> {
    match sample {
        Sample::Absent => None,
        Sample::Hold { key } => Some(track[key]),
        Sample::Tween { from, to, span, offset } => Some(blend(track[from], track[to], span, offset)),
    }
}

fn evaluate(props: &[Prop], bones: &[Pose], keys: &[Keys]) -> Vec<Posed> {
    let mut out: Vec<Posed> = Vec::new();
    for p in props {
        let local = bones[p.bone];
        let mut pos = (local.x, local.y);
        let mut scale = (local.sc_x, local.sc_y);
        let mut rot = local.rot;
        let mut parent_rot = 0.;
        if p.parent >= 0 {
            let parent = &out[p.parent as usize];
            parent_rot = parent.rot;
            let turned = turn(pos, parent.rot);
            pos = (parent.pos.0 + turned.0, parent.pos.1 + turned.1);
            scale = (scale.0 * parent.scale.0, scale.1 * parent.scale.1);
            rot += parent.rot;
        }
        if let Some(by) = point(&keys[p.track].translate, p.translate, -parent_rot) {
            pos = (pos.0 + by.0, pos.1 + by.1);
        }
        if let Some(by) = point(&keys[p.track].scale, p.scale, 0.) {
            scale = (scale.0 * by.0, scale.1 * by.1);
        }
        if let Some(by) = number(&keys[p.track].rotate, p.rotate) {
            rot += by;
        }
        out.push(Posed { pos, scale, rot });
    }
    out
}

fn coord(c: Coord, flat: &[f64]) -> f64 {
    match c {
        Coord::Half(n) => n as f64 / 2.,
        Coord::Flat(i) => flat[i],
    }
}

fn moved(value: f64, axis: Axis, frames: &[Vec<f64>], sample: Sample) -> f64 {
    match axis {
        Axis::Keep => value,
        Axis::Zero => 0.,
        Axis::Shift { at, paired } => match sample {
            Sample::Absent => value,
            Sample::Hold { key } => value + frames[key][at],
            Sample::Tween { from, to, span, offset } => {
                let target = if paired { frames[to][at] } else { 0. };
                value + blend(frames[from][at], target, span, offset)
            }
        },
    }
}

fn vertices(prop: &Prop, flat: &[f64], tracks: &[Vec<Vec<f64>>]) -> Vec<(f64, f64)> {
    let mut verts: Vec<(f64, f64)> =
        prop.verts.iter().map(|v| (coord(v.x, flat), coord(v.y, flat))).collect();
    for d in &prop.deforms {
        let frames = &tracks[d.track];
        verts = verts
            .iter()
            .zip(d.moves.iter())
            .map(|(v, m)| (moved(v.0, m.x, frames, d.sample), moved(v.1, m.y, frames, d.sample)))
            .collect();
    }
    verts
}

fn close(a: f64, b: f64) -> bool {
    (a - b).abs() < 1e-6
}

// Documents.

fn bone(name: &str, parent: &str) -> Bone {
    Bone { name: name.to_string(), parent: parent.to_string() }
}

fn frames(durations: &[i32]) -> Vec<Frame> {
    durations.iter().map(|d| Frame { duration: *d }).collect()
}

fn track(name: &str, translate: &[i32], scale: &[i32], rotate: &[i32]) -> AnimBone {
    AnimBone {
        name: name.to_string(),
        translate_frame: frames(translate),
        scale_frame: frames(scale),
        rotate_frame: frames(rotate),
    }
}

fn still(name: &str) -> AnimBone {
    track(name, &[], &[], &[])
}

fn ffd(name: &str, keyframes: &[(usize, i32)]) -> FFD {
    FFD {
        name: name.to_string(),
        frame: keyframes
            .iter()
            .map(|(vertices, duration)| MeshFrame { vertices: *vertices, duration: *duration })
            .collect(),
    }
}

fn animation(name: &str, bone: Vec<AnimBone>, ffd: Vec<FFD>) -> Animation {
    Animation { name: name.to_string(), duration: 0, bone, ffd }
}

fn slot(name: &str, parent: &str, z: i32, display_index: i32) -> Slot {
    Slot { name: name.to_string(), z, parent: parent.to_string(), display_index }
}

fn skin_slot(name: &str, display: Display) -> SkinSlot {
    SkinSlot { display: vec![display], name: name.to_string() }
}

fn entry(name: &str, width: i32, height: i32) -> SubTexture {
    SubTexture {
        frame_height: 0,
        frame_width: 0,
        width,
        height,
        x: 0,
        y: 0,
        name: name.to_string(),
    }
}

fn document(bone: Vec<Bone>, animation: Vec<Animation>) -> DragonBonesRoot {
    DragonBonesRoot {
        armature: vec![Armature { animation, bone, slot: Vec::new(), skin: Vec::new() }],
        frame_rate: 24,
    }
}

fn no_atlas() -> Texture {
    Texture { sub_texture: Vec::new() }
}

fn names(props: &[Prop]) -> Vec<&str> {
    props.iter().map(|p| p.name.as_str()).collect()
}

fn half(x: i64, y: i64) -> Vertex {
    Vertex { x: Coord::Half(x), y: Coord::Half(y) }
}

fn shift(at: usize) -> Axis {
    Axis::Shift { at, paired: true }
}

fn assert_parents_precede(props: &[Prop]) {
    for (i, p) in props.iter().enumerate() {
        if p.parent_name.is_empty() {
            assert_eq!(p.parent, -1);
        } else {
            assert!(0 <= p.parent && (p.parent as usize) < i);
            assert_eq!(props[p.parent as usize].name, p.parent_name);
            assert!(props[..i].iter().any(|q| q.name == p.parent_name));
        }
    }
}

fn assert_buffers_fit(props: &[Prop]) {
    for p in props {
        assert_eq!(p.verts.len(), p.uvs.len());
        for t in &p.tris {
            for v in [t.v1, t.v2, t.v3] {
                assert!(0 <= v && (v as usize) < p.verts.len());
            }
        }
        for d in &p.deforms {
            assert_eq!(d.moves.len(), p.verts.len());
        }
    }
}

// A body with a mesh of four vertices, and a hand that shows a quad.
fn meshed() -> (DragonBonesRoot, Texture, Vec<f64>) {
    let base = vec![0., 0., 1., 0., 0., 1., 1., 1.];
    let mut doc = document(
        vec![bone("body", ""), bone("hand", "body")],
        vec![animation(
            "wave",
            vec![still("body"), still("hand")],
            vec![ffd("body", &[(8, 1)])],
        )],
    );
    doc.armature[0].slot = vec![slot("body", "body", 1, 0), slot("hand", "hand", 2, 0)];
    doc.armature[0].skin = vec![Skin {
        slot: vec![
            skin_slot(
                "body",
                Display {
                    name: "body_tex".to_string(),
                    triangles: vec![0, 1, 2, 1, 2, 3],
                    vertices: 8,
                    uvs: 8,
                },
            ),
            skin_slot(
                "hand",
                Display {
                    name: "hand_tex".to_string(),
                    triangles: Vec::new(),
                    vertices: 0,
                    uvs: 0,
                },
            ),
        ],
        name: String::new(),
    }];
    let atlas = Texture { sub_texture: vec![entry("hand_tex", 6, 4), entry("body_tex", 32, 32)] };
    (doc, atlas, base)
}

#[test]
fn one_bone_idle() {
    let mut doc = document(
        vec![bone("root", "")],
        vec![animation("idle", vec![track("root", &[1], &[], &[])], Vec::new())],
    );
    let props = animate(&mut doc, &no_atlas(), 0, 0, 1);
    assert_eq!(props.len(), 1);
    assert_eq!(props[0].name, "root");
    assert_eq!(props[0].parent_name, "");
    assert_eq!(props[0].parent, -1);
    assert_eq!(props[0].bone, 0);
    assert_eq!(props[0].track, 0);
    assert_eq!(props[0].translate, Sample::Hold { key: 0 });
    assert_eq!(props[0].scale, Sample::Absent);
    assert_eq!(props[0].rotate, Sample::Absent);
    let keys = vec![Keys { translate: vec![(3., 4.)], ..Keys::default() }];
    let posed = evaluate(&props, &[IDENTITY], &keys);
    assert_eq!(posed[0].pos, (3., 4.));
    assert_eq!(posed[0].rot, 0.);
    assert_eq!(posed[0].scale, (1., 1.));
}

#[test]
fn no_atlas_gives_every_prop_a_quad_of_size_zero() {
    let (mut doc, _, _) = meshed();
    let props = animate(&mut doc, &no_atlas(), 0, 0, 1);
    assert_eq!(props.len(), 2);
    for p in &props {
        assert_eq!(p.tex_idx, 0);
        assert_eq!(p.tex_size, Size { width: 0, height: 0 });
        assert_eq!(p.skin_slot, -1);
        assert_eq!(p.z, 0);
        assert_eq!(p.verts, vec![half(0, 0), half(0, 0), half(0, 0), half(0, 0)]);
    }
}

#[test]
fn parent_rotation() {
    let mut doc = document(
        vec![bone("root", ""), bone("arm", "root")],
        vec![animation("turn", vec![track("root", &[], &[], &[1]), still("arm")], Vec::new())],
    );
    let props = animate(&mut doc, &no_atlas(), 0, 0, 1);
    assert_eq!(names(&props), vec!["root", "arm"]);
    assert_eq!(props[0].parent, -1);
    assert_eq!(props[0].rotate, Sample::Hold { key: 0 });
    assert_eq!(props[1].parent, 0);
    assert_eq!(props[1].parent_name, "root");
    assert_eq!(props[1].rotate, Sample::Absent);
    let bones = [IDENTITY, Pose { x: 10., ..IDENTITY }];
    let keys = vec![Keys { rotate: vec![90.], ..Keys::default() }, Keys::default()];
    let posed = evaluate(&props, &bones, &keys);
    assert_eq!(posed[0].rot, 90.);
    assert_eq!(posed[0].pos, (0., 0.));
    assert_eq!(posed[1].rot, 90.);
    assert!(close(posed[1].pos.0, 0.) && close(posed[1].pos.1, 10.));
}

#[test]
fn rotation_composition() {
    let mut doc = document(
        vec![bone("root", ""), bone("arm", "root")],
        vec![animation("rest", vec![still("root"), still("arm")], Vec::new())],
    );
    let props = animate(&mut doc, &no_atlas(), 0, 0, 1);
    let bones = [Pose { rot: 90., ..IDENTITY }, Pose { x: 10., ..IDENTITY }];
    let posed = evaluate(&props, &bones, &[Keys::default(), Keys::default()]);
    assert!(close(posed[1].pos.0, 0.) && close(posed[1].pos.1, 10.));
    assert_eq!(posed[1].rot, 90.);
}

#[test]
fn parent_pose_is_composed_down_the_chain() {
    let mut doc = document(
        vec![bone("root", ""), bone("arm", "root"), bone("hand", "arm")],
        vec![animation("rest", vec![still("root"), still("arm"), still("hand")], Vec::new())],
    );
    let props = animate(&mut doc, &no_atlas(), 0, 0, 1);
    assert_eq!(props[2].parent, 1);
    let bones = [
        Pose { x: 1., y: 2., rot: 90., sc_x: 2., sc_y: 3. },
        Pose { x: 10., y: 0., rot: 90., sc_x: 5., sc_y: 7. },
        Pose { x: 1., y: 0., rot: 10., sc_x: 1., sc_y: 1. },
    ];
    let posed = evaluate(&props, &bones, &[Keys::default(), Keys::default(), Keys::default()]);
    assert!(close(posed[1].pos.0, 1.) && close(posed[1].pos.1, 12.));
    assert_eq!(posed[1].rot, 180.);
    assert_eq!(posed[1].scale, (10., 21.));
    assert!(close(posed[2].pos.0, 0.) && close(posed[2].pos.1, 12.));
    assert_eq!(posed[2].rot, 190.);
    assert_eq!(posed[2].scale, (10., 21.));
}

#[test]
fn parent_rotated_translate() {
    let mut doc = document(
        vec![bone("root", ""), bone("arm", "root")],
        vec![animation("slide", vec![still("root"), track("arm", &[4, 1], &[], &[])], Vec::new())],
    );
    let props = animate(&mut doc, &no_atlas(), 0, 0, 1);
    assert_eq!(props[1].translate, Sample::Tween { from: 0, to: 1, span: 4, offset: 0 });
    let bones = [Pose { rot: 90., ..IDENTITY }, IDENTITY];
    let keys = vec![Keys::default(), Keys { translate: vec![(5., 0.), (5., 0.)], ..Keys::default() }];
    let posed = evaluate(&props, &bones, &keys);
    assert!(close(posed[1].pos.0, 0.) && close(posed[1].pos.1, -5.));
}

#[test]
fn root_translate_is_not_rotated() {
    let mut doc = document(
        vec![bone("root", "")],
        vec![animation("slide", vec![track("root", &[4, 1], &[], &[])], Vec::new())],
    );
    let props = animate(&mut doc, &no_atlas(), 0, 0, 1);
    let bones = [Pose { rot: 90., ..IDENTITY }];
    let keys = vec![Keys { translate: vec![(5., 0.), (5., 0.)], ..Keys::default() }];
    let posed = evaluate(&props, &bones, &keys);
    assert!(close(posed[0].pos.0, 5.) && close(posed[0].pos.1, 0.));
}

#[test]
fn linear_tween_midpoint() {
    let mut doc = document(
        vec![bone("root", "")],
        vec![animation("slide", vec![track("root", &[10, 1], &[], &[])], Vec::new())],
    );
    let props = animate(&mut doc, &no_atlas(), 0, 5, 1);
    assert_eq!(props[0].translate, Sample::Tween { from: 0, to: 1, span: 10, offset: 5 });
    let keys = vec![Keys { translate: vec![(0., 0.), (100., 0.)], ..Keys::default() }];
    let posed = evaluate(&props, &[IDENTITY], &keys);
    assert_eq!(posed[0].pos, (50., 0.));
}

#[test]
fn speed_scaling() {
    let mut doc = document(
        vec![bone("root", "")],
        vec![animation("slide", vec![track("root", &[10, 1], &[], &[])], Vec::new())],
    );
    let keys = vec![Keys { translate: vec![(0., 0.), (100., 0.)], ..Keys::default() }];
    let slow = animate(&mut doc, &no_atlas(), 0, 10, 2);
    assert_eq!(slow[0].translate, Sample::Tween { from: 0, to: 1, span: 20, offset: 10 });
    let plain = animate(&mut doc, &no_atlas(), 0, 5, 1);
    let a = evaluate(&slow, &[IDENTITY], &keys);
    let b = evaluate(&plain, &[IDENTITY], &keys);
    assert_eq!(a[0].pos, b[0].pos);
    assert_eq!(a[0].pos, (50., 0.));
}

#[test]
fn scale_and_rotate_tracks_are_sampled() {
    let mut doc = document(
        vec![bone("root", "")],
        vec![animation("grow", vec![track("root", &[], &[4, 4], &[8, 2])], Vec::new())],
    );
    let props = animate(&mut doc, &no_atlas(), 0, 2, 1);
    assert_eq!(props[0].translate, Sample::Absent);
    assert_eq!(props[0].scale, Sample::Tween { from: 0, to: 1, span: 4, offset: 2 });
    assert_eq!(props[0].rotate, Sample::Tween { from: 0, to: 1, span: 8, offset: 2 });
    let keys =
        vec![Keys { scale: vec![(1., 1.), (3., 5.)], rotate: vec![0., 40.], ..Keys::default() }];
    let bones = [Pose { rot: 5., sc_x: 2., sc_y: 2., ..IDENTITY }];
    let posed = evaluate(&props, &bones, &keys);
    assert_eq!(posed[0].scale, (4., 6.));
    assert_eq!(posed[0].rot, 15.);
}

#[test]
fn ended_tracks_hold_their_last_keyframe() {
    let mut doc = document(
        vec![bone("root", "")],
        vec![animation("all", vec![track("root", &[10, 1], &[3, 3, 3], &[2, 2])], Vec::new())],
    );
    let props = animate(&mut doc, &no_atlas(), 0, 11, 1);
    assert_eq!(props[0].translate, Sample::Hold { key: 1 });
    assert_eq!(props[0].scale, Sample::Hold { key: 2 });
    assert_eq!(props[0].rotate, Sample::Hold { key: 1 });
    let keys = vec![Keys {
        translate: vec![(0., 0.), (100., 7.)],
        scale: vec![(1., 1.), (2., 2.), (3., 4.)],
        rotate: vec![0., 45.],
    }];
    let posed = evaluate(&props, &[IDENTITY], &keys);
    assert_eq!(posed[0].pos, (100., 7.));
    assert_eq!(posed[0].scale, (3., 4.));
    assert_eq!(posed[0].rot, 45.);
    let at_zero = animate(&mut doc, &no_atlas(), 0, 30, 0);
    assert_eq!(at_zero[0].translate, Sample::Hold { key: 1 });
    assert_eq!(at_zero[0].scale, Sample::Hold { key: 2 });
    assert_eq!(at_zero[0].rotate, Sample::Hold { key: 1 });
}

#[test]
fn single_keyframes_give_the_same_frame_at_every_time() {
    let (mut doc, atlas, _) = meshed();
    doc.armature[0].animation[0].bone =
        vec![track("body", &[1], &[2], &[3]), track("hand", &[4], &[], &[5])];
    let first = animate(&mut doc, &atlas, 0, 0, 1);
    assert_eq!(first[0].translate, Sample::Hold { key: 0 });
    assert_eq!(first[0].deforms[0].sample, Sample::Hold { key: 0 });
    for (frame, speed) in [(0, 7), (1, 1), (37, 5), (i32::MAX, i32::MAX), (12, 0)] {
        assert_eq!(animate(&mut doc, &atlas, 0, frame, speed), first);
    }
}

#[test]
fn identity_keyframes_leave_the_initial_pose() {
    let mut doc = document(
        vec![bone("root", ""), bone("arm", "root")],
        vec![animation(
            "rest",
            vec![track("root", &[1], &[1], &[1]), track("arm", &[1], &[1], &[1])],
            Vec::new(),
        )],
    );
    let bones = [
        Pose { x: 1., y: 2., rot: 30., sc_x: 2., sc_y: 2. },
        Pose { x: 3., y: 4., rot: 15., sc_x: 1., sc_y: 3. },
    ];
    let rest = Keys { translate: vec![(0., 0.)], scale: vec![(1., 1.)], rotate: vec![0.] };
    let none = [Keys::default(), Keys::default()];
    doc.armature[0].animation.push(animation("none", vec![still("root"), still("arm")], Vec::new()));
    let initial = evaluate(&animate(&mut doc, &no_atlas(), 1, 0, 1), &bones, &none);
    for speed in [1, 2, 60] {
        let props = animate(&mut doc, &no_atlas(), 0, 0, speed);
        let posed = evaluate(&props, &bones, &[rest.clone(), rest.clone()]);
        for (a, b) in posed.iter().zip(initial.iter()) {
            assert_eq!(a.pos, b.pos);
            assert_eq!(a.scale, b.scale);
            assert_eq!(a.rot, b.rot);
        }
    }
}

#[test]
fn ffd_deformation() {
    let (mut doc, atlas, base) = meshed();
    let props = animate(&mut doc, &atlas, 0, 0, 1);
    assert_eq!(props[0].name, "body");
    assert_eq!(props[0].deforms.len(), 1);
    assert_eq!(props[0].deforms[0].track, 0);
    assert_eq!(props[0].deforms[0].sample, Sample::Hold { key: 0 });
    assert_eq!(
        props[0].deforms[0].moves,
        vec![
            VertexMove { x: shift(0), y: shift(1) },
            VertexMove { x: shift(2), y: shift(3) },
            VertexMove { x: shift(4), y: shift(5) },
            VertexMove { x: shift(6), y: shift(7) },
        ]
    );
    assert!(props[1].deforms.is_empty());
    let offsets = vec![vec![vec![0.5, 0.5, 0., 0., 0., 0., 0., 0.]]];
    let verts = vertices(&props[0], &base, &offsets);
    assert_eq!(verts, vec![(0.5, 0.5), (1., 0.), (0., 1.), (1., 1.)]);
}

#[test]
fn ffd_blends_between_keyframes() {
    let (mut doc, atlas, base) = meshed();
    doc.armature[0].animation[0].ffd = vec![ffd("body", &[(8, 4), (2, 4)])];
    let props = animate(&mut doc, &atlas, 0, 2, 1);
    let d = &props[0].deforms[0];
    assert_eq!(d.sample, Sample::Tween { from: 0, to: 1, span: 4, offset: 2 });
    assert_eq!(d.moves[0], VertexMove { x: shift(0), y: shift(1) });
    assert_eq!(
        d.moves[1],
        VertexMove {
            x: Axis::Shift { at: 2, paired: false },
            y: Axis::Shift { at: 3, paired: false }
        }
    );
    let offsets = vec![vec![vec![2., 4., 8., 8., 0., 0., 0., 0.], vec![4., 0.]]];
    let verts = vertices(&props[0], &base, &offsets);
    assert_eq!(verts, vec![(3., 2.), (5., 4.), (0., 1.), (1., 1.)]);
}

#[test]
fn ffd_with_empty_active_keyframe_leaves_the_mesh() {
    let (mut doc, atlas, base) = meshed();
    doc.armature[0].animation[0].ffd = vec![ffd("body", &[(0, 4), (8, 4)])];
    let props = animate(&mut doc, &atlas, 0, 3, 1);
    assert!(props[0].deforms.is_empty());
    let offsets = vec![vec![Vec::new(), vec![9.; 8]]];
    assert_eq!(vertices(&props[0], &base, &offsets), vec![(0., 0.), (1., 0.), (0., 1.), (1., 1.)]);
    let later = animate(&mut doc, &atlas, 0, 4, 1);
    assert_eq!(later[0].deforms.len(), 1);
}

#[test]
fn ffd_without_keyframes_leaves_the_mesh() {
    let (mut doc, atlas, _) = meshed();
    doc.armature[0].animation[0].ffd = vec![ffd("body", &[])];
    let props = animate(&mut doc, &atlas, 0, 0, 1);
    assert!(props[0].deforms.is_empty());
}

#[test]
fn ffd_that_names_no_prop_is_passed_over() {
    let (mut doc, atlas, _) = meshed();
    doc.armature[0].animation[0].ffd = vec![ffd("tail", &[(8, 1)]), ffd("hand", &[(2, 1)])];
    let props = animate(&mut doc, &atlas, 0, 0, 1);
    assert!(props[0].deforms.is_empty());
    assert_eq!(
        props[1].deforms,
        vec![Deform {
            track: 1,
            sample: Sample::Hold { key: 0 },
            moves: vec![
                VertexMove { x: shift(0), y: shift(1) },
                VertexMove { x: Axis::Keep, y: Axis::Keep },
                VertexMove { x: Axis::Keep, y: Axis::Keep },
                VertexMove { x: Axis::Keep, y: Axis::Keep },
            ],
        }]
    );
}

#[test]
fn ffd_tracks_of_one_prop_apply_in_order() {
    let (mut doc, atlas, base) = meshed();
    doc.armature[0].animation[0].ffd = vec![ffd("body", &[(3, 1)]), ffd("body", &[(2, 1)])];
    let props = animate(&mut doc, &atlas, 0, 0, 1);
    assert_eq!(props[0].deforms.len(), 2);
    assert_eq!(props[0].deforms[0].track, 0);
    assert_eq!(props[0].deforms[1].track, 1);
    assert_eq!(props[0].deforms[0].moves[1], VertexMove { x: shift(2), y: Axis::Zero });
    let offsets = vec![vec![vec![1., 1., 1.]], vec![vec![10., 20.]]];
    let verts = vertices(&props[0], &base, &offsets);
    assert_eq!(verts, vec![(11., 21.), (2., 0.), (0., 1.), (1., 1.)]);
}

#[test]
fn ffd_longer_than_the_mesh_moves_no_more_than_the_mesh() {
    let (mut doc, atlas, _) = meshed();
    doc.armature[0].animation[0].ffd = vec![ffd("body", &[(20, 1)])];
    let props = animate(&mut doc, &atlas, 0, 0, 1);
    assert_eq!(props[0].deforms[0].moves.len(), 4);
    assert_eq!(props[0].verts.len(), 4);
    assert_buffers_fit(&props);
}

#[test]
fn hidden_slot() {
    let mut doc = document(
        vec![bone("hand", "")],
        vec![animation("rest", vec![still("hand")], Vec::new())],
    );
    doc.armature[0].slot = vec![slot("glove", "hand", 3, -1)];
    doc.armature[0].skin = vec![Skin {
        slot: vec![skin_slot(
            "glove",
            Display { name: "glove".to_string(), triangles: Vec::new(), vertices: 0, uvs: 0 },
        )],
        name: String::new(),
    }];
    let atlas = Texture { sub_texture: vec![entry("other", 1, 1), entry("glove", 16, 16)] };
    let props = animate(&mut doc, &atlas, 0, 0, 1);
    assert_eq!(props.len(), 1);
    assert_eq!(props[0].name, "hand");
    assert_eq!(props[0].slot, -1);
    assert_eq!(props[0].tex_idx, 0);
    assert_eq!(props[0].tex_size, Size { width: 0, height: 0 });
    assert_eq!(props[0].verts, vec![half(0, 0), half(0, 0), half(0, 0), half(0, 0)]);
    assert_eq!(props[0].tris, vec![Tri { v1: 0, v2: 1, v3: 2 }, Tri { v1: 1, v2: 2, v3: 3 }]);
    assert_eq!(props[0].z, 0);
    assert!(props[0].is_mesh);
}

#[test]
fn props_are_bound_to_what_their_bones_show() {
    let (mut doc, atlas, _) = meshed();
    let props = animate(&mut doc, &atlas, 0, 0, 1);
    assert_eq!(names(&props), vec!["body", "hand"]);
    assert_eq!((props[0].slot, props[0].skin_slot, props[0].tex_idx, props[0].z), (0, 0, 1, 1));
    assert_eq!(props[0].tex_size, Size { width: 32, height: 32 });
    assert_eq!(props[0].tris, vec![Tri { v1: 0, v2: 1, v3: 2 }, Tri { v1: 1, v2: 2, v3: 3 }]);
    assert_eq!((props[1].slot, props[1].skin_slot, props[1].tex_idx, props[1].z), (1, 1, 0, 2));
    assert_eq!(props[1].tex_size, Size { width: 6, height: 4 });
    assert_eq!(props[1].verts, vec![half(-6, -4), half(6, -4), half(-6, 4), half(6, 4)]);
    assert_eq!(props[1].verts.len(), 4);
    assert_eq!(props[1].tris.len(), 2);
    assert!(props.iter().all(|p| p.is_mesh));
    assert_buffers_fit(&props);
    assert_parents_precede(&props);
}

#[test]
fn props_come_in_the_order_of_the_tracks() {
    let mut doc = document(
        vec![bone("root", ""), bone("a", "root"), bone("b", "root"), bone("c", "a")],
        vec![animation(
            "all",
            vec![still("root"), still("b"), still("a"), still("c")],
            Vec::new(),
        )],
    );
    let props = animate(&mut doc, &no_atlas(), 0, 0, 1);
    assert_eq!(names(&props), vec!["root", "b", "a", "c"]);
    assert_eq!(props.iter().map(|p| p.bone).collect::<Vec<_>>(), vec![0, 2, 1, 3]);
    assert_eq!(props.iter().map(|p| p.track).collect::<Vec<_>>(), vec![0, 1, 2, 3]);
    assert_eq!(props.iter().map(|p| p.parent).collect::<Vec<_>>(), vec![-1, 0, 0, 2]);
    assert_parents_precede(&props);
}

#[test]
fn track_that_names_no_bone_is_passed_over() {
    let mut doc = document(
        vec![bone("root", ""), bone("arm", "root")],
        vec![animation("all", vec![still("root"), still("ghost"), still("arm")], Vec::new())],
    );
    let props = animate(&mut doc, &no_atlas(), 0, 0, 1);
    assert_eq!(names(&props), vec!["root", "arm"]);
    assert_eq!(props.iter().map(|p| p.track).collect::<Vec<_>>(), vec![0, 2]);
    assert_eq!(props[1].parent, 0);
}

#[test]
fn track_whose_parent_is_not_posed_is_passed_over() {
    let mut doc = document(
        vec![bone("root", ""), bone("arm", "root"), bone("hand", "arm")],
        vec![animation("all", vec![still("hand"), still("root"), still("arm")], Vec::new())],
    );
    let props = animate(&mut doc, &no_atlas(), 0, 0, 1);
    assert_eq!(names(&props), vec!["root", "arm"]);
    assert_parents_precede(&props);
    doc.armature[0].animation[0].bone = vec![still("arm"), still("hand")];
    assert!(animate(&mut doc, &no_atlas(), 0, 0, 1).is_empty());
}

#[test]
fn parent_is_the_first_prop_of_its_name() {
    let mut doc = document(
        vec![bone("root", ""), bone("arm", "root")],
        vec![animation(
            "all",
            vec![still("root"), still("root"), still("arm"), still("arm")],
            Vec::new(),
        )],
    );
    let props = animate(&mut doc, &no_atlas(), 0, 0, 1);
    assert_eq!(names(&props), vec!["root", "root", "arm", "arm"]);
    assert_eq!(props[2].parent, 0);
    assert_eq!(props[3].parent, 0);
    assert_parents_precede(&props);
}

#[test]
fn animation_without_tracks_gives_no_props() {
    let mut doc = document(
        vec![bone("root", "")],
        vec![animation("none", Vec::new(), vec![ffd("root", &[(2, 1)])])],
    );
    assert!(animate(&mut doc, &no_atlas(), 0, 0, 1).is_empty());
}

#[test]
fn animation_is_chosen_by_its_position() {
    let mut doc = document(
        vec![bone("root", ""), bone("arm", "root")],
        vec![
            animation("first", vec![still("root")], Vec::new()),
            animation("second", vec![still("root"), still("arm")], Vec::new()),
        ],
    );
    assert_eq!(animate(&mut doc, &no_atlas(), 0, 0, 1).len(), 1);
    assert_eq!(animate(&mut doc, &no_atlas(), 1, 0, 1).len(), 2);
}

#[test]
fn only_the_first_armature_is_animated() {
    let mut doc = document(
        vec![bone("root", "")],
        vec![animation("a", vec![still("root"), still("other")], Vec::new())],
    );
    doc.armature.push(Armature {
        animation: Vec::new(),
        bone: vec![bone("other", "")],
        slot: Vec::new(),
        skin: Vec::new(),
    });
    assert_eq!(names(&animate(&mut doc, &no_atlas(), 0, 0, 1)), vec!["root"]);
}

#[test]
fn document_stays_as_it_was() {
    let (mut doc, atlas, _) = meshed();
    let before = doc.clone();
    let first = animate(&mut doc, &atlas, 0, 0, 1);
    let second = animate(&mut doc, &atlas, 0, 0, 1);
    assert_eq!(doc, before);
    assert_eq!(first, second);
}

#[test]
fn animate_into_fills_a_list_that_is_kept() {
    let (mut doc, atlas, _) = meshed();
    let mut out: Vec<Prop> = Vec::new();
    animate_into(&doc, &atlas, 0, 0, 1, &mut out);
    assert_eq!(out, animate(&mut doc, &atlas, 0, 0, 1));
    assert_eq!(out.len(), 2);
    doc.armature[0].animation.push(animation("short", vec![still("body")], Vec::new()));
    animate_into(&doc, &atlas, 1, 3, 2, &mut out);
    assert_eq!(out, animate(&mut doc, &atlas, 1, 3, 2));
    assert_eq!(names(&out), vec!["body"]);
    assert!(out[0].deforms.is_empty());
    animate_into(&doc, &atlas, 0, 0, 1, &mut out);
    assert_eq!(out.len(), 2);
    assert_eq!(out[0].deforms.len(), 1);
}

#[test]
fn load_armature() {
    let mut root = document(
        vec![bone("root", ""), bone("legL", "root"), bone("legR", "root")],
        vec![animation(
            "walk",
            vec![
                track("root", &[20, 20], &[], &[]),
                track("legL", &[10, 10, 10], &[40], &[15, 15]),
                track("legR", &[10, 10, 10], &[40], &[15, 15]),
            ],
            Vec::new(),
        )],
    );
    let tex = no_atlas();
    let props = animate(&mut root, &tex, 0, 30, 0);
    let mut seen = Vec::new();
    for p in props {
        println!("{}", p.name);
        if p.name == "legR" {
            println!("{:?} {:?}", p.translate, p.rotate);
            assert_eq!(p.translate, Sample::Hold { key: 2 });
            assert_eq!(p.rotate, Sample::Hold { key: 1 });
        }
        seen.push(p.name);
    }
    assert_eq!(seen, vec!["root", "legL", "legR"]);
    let props = animate(&mut root, &tex, 0, 0, 60);
    assert_eq!(props.len(), 3);
    assert_eq!(props[2].name, "legR");
    assert_eq!(props[2].translate, Sample::Tween { from: 0, to: 1, span: 600, offset: 0 });
    assert_eq!(props[2].scale, Sample::Hold { key: 0 });
    assert_eq!(props[2].rotate, Sample::Tween { from: 0, to: 1, span: 900, offset: 0 });
}
