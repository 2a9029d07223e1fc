//! Where a frame falls on a track of keyframes.

use vstd::prelude::*;
use crate::model::{Frame, MeshFrame};

verus! {

/// A keyframe: something that lasts a number of frames.
pub trait Keyframe {
    spec fn spec_duration(&self) -> i32;

    fn duration(&self) -> (d: i32)
        ensures
            d == self.spec_duration(),
    ;
}

impl Keyframe for Frame {
    open spec fn spec_duration(&self) -> i32 {
        self.duration
    }

    fn duration(&self) -> (d: i32) {
        self.duration
    }
}

impl Keyframe for MeshFrame {
    open spec fn spec_duration(&self) -> i32 {
        self.duration
    }

    fn duration(&self) -> (d: i32) {
        self.duration
    }
}

/// What a track contributes at a frame.
#[derive(Clone, Copy, Debug, PartialEq, Eq, Structural)]
pub enum Sample {
    /// The track has no keyframes and contributes nothing.
    Absent,
    /// The value of keyframe `key`, as it stands.
    Hold { key: usize },
    /// The linear blend from keyframe `from` to keyframe `to`, `offset` steps
    /// into a span of `span` steps.
    Tween { from: usize, to: usize, span: i64, offset: i32 },
}

/// A track that can be sampled: its keyframes can be numbered by an `i32`, and
/// none has a negative duration.
pub open spec fn playable<T: Keyframe>(track: Seq<T>) -> bool {
    &&& track.len() <= i32::MAX
    &&& forall|i: int| 0 <= i < track.len() ==> (#[trigger] track[i]).spec_duration() >= 0
}

/// The frame at which keyframe `k` begins when every duration is multiplied by
/// `speed`: the sum of the effective durations of the keyframes before it.
pub open spec fn start_of<T: Keyframe>(track: Seq<T>, speed: int, k: int) -> int
    decreases k,
{
    if k <= 0 {
        0
    } else {
        start_of(track, speed, k - 1) + track[k - 1].spec_duration() * speed
    }
}

/// The frame at which the track ends.
pub open spec fn end_of<T: Keyframe>(track: Seq<T>, speed: int) -> int {
    start_of(track, speed, track.len() as int)
}

/// The first of the keyframes `0..n` that `frame` comes before the end of, or
/// -1 if there is none.
pub open spec fn active_below<T: Keyframe>(track: Seq<T>, frame: int, speed: int, n: int) -> int
    decreases n,
{
    if n <= 0 {
        -1
    } else if active_below(track, frame, speed, n - 1) >= 0 {
        active_below(track, frame, speed, n - 1)
    } else if frame < start_of(track, speed, n) {
        n - 1
    } else {
        -1
    }
}

/// The keyframe that is active at `frame`, or -1 once the track has ended.
pub open spec fn active_key<T: Keyframe>(track: Seq<T>, frame: int, speed: int) -> int {
    active_below(track, frame, speed, track.len() as int)
}

/// What the track contributes at `frame`. A track of one keyframe, and a track
/// that has ended, hold their last keyframe. Otherwise the active keyframe is
/// blended into the one after it; the last keyframe is blended into itself.
pub open spec fn sample_of<T: Keyframe>(track: Seq<T>, frame: int, speed: int) -> Sample {
    let k = active_key(track, frame, speed);
    if track.len() == 0 {
        Sample::Absent
    } else if k < 0 || track.len() == 1 {
        Sample::Hold { key: (track.len() - 1) as usize }
    } else {
        Sample::Tween {
            from: k as usize,
            to: (if k + 1 < track.len() {
                k + 1
            } else {
                k
            }) as usize,
            span: (track[k].spec_duration() * speed) as i64,
            offset: (frame - start_of(track, speed, k)) as i32,
        }
    }
}

/// Whether a sample names keyframes of a track of `len` keyframes, and a blend
/// lies within its span.
pub open spec fn sample_within(sample: Sample, len: int) -> bool {
    match sample {
        Sample::Absent => len == 0,
        Sample::Hold { key } => key == len - 1,
        Sample::Tween { from, to, span, offset } => {
            &&& from < len
            &&& to < len
            &&& from <= to <= from + 1
            &&& 0 <= offset < span
        },
    }
}

/// The effective duration of a keyframe is not negative and fits 62 bits.
pub proof fn lemma_effective_duration(duration: int, speed: int)
    requires
        0 <= duration <= i32::MAX,
        0 <= speed <= i32::MAX,
    ensures
        0 <= duration * speed <= 0x3fff_ffff_0000_0001,
{
    assert(0 <= duration * speed <= 0x7fff_ffff * 0x7fff_ffff) by (nonlinear_arith)
        requires
            0 <= duration <= 0x7fff_ffff,
            0 <= speed <= 0x7fff_ffff,
    ;
}

/// Keyframes begin in order.
pub proof fn lemma_start_of_monotonic<T: Keyframe>(track: Seq<T>, speed: int, i: int, j: int)
    requires
        playable(track),
        0 <= speed <= i32::MAX,
        0 <= i <= j <= track.len(),
    ensures
        0 <= start_of(track, speed, i) <= start_of(track, speed, j),
    decreases j,
{
    if j > 0 {
        lemma_effective_duration(track[j - 1].spec_duration() as int, speed);
        if i < j {
            lemma_start_of_monotonic(track, speed, i, j - 1);
        } else {
            lemma_start_of_monotonic(track, speed, i - 1, j - 1);
        }
    }
}

/// Among the keyframes `0..n`, one is active exactly when the frame comes
/// before the start of keyframe `n`, and the frame then lies within it.
pub proof fn lemma_active_below<T: Keyframe>(track: Seq<T>, frame: int, speed: int, n: int)
    requires
        playable(track),
        0 <= speed <= i32::MAX,
        0 <= frame,
        0 <= n <= track.len(),
    ensures
        -1 <= active_below(track, frame, speed, n) < n,
        active_below(track, frame, speed, n) == -1 <==> frame >= start_of(track, speed, n),
        active_below(track, frame, speed, n) >= 0 ==> start_of(
            track,
            speed,
            active_below(track, frame, speed, n),
        ) <= frame < start_of(track, speed, active_below(track, frame, speed, n) + 1),
    decreases n,
{
    if n > 0 {
        lemma_active_below(track, frame, speed, n - 1);
        lemma_start_of_monotonic(track, speed, n - 1, n);
        let k = active_below(track, frame, speed, n - 1);
        if k >= 0 {
            lemma_start_of_monotonic(track, speed, k + 1, n);
        }
    }
}

/// The active keyframe is the one the frame lies within; there is none exactly
/// when the frame is at or past the end of the track.
pub proof fn lemma_active_key<T: Keyframe>(track: Seq<T>, frame: int, speed: int)
    requires
        playable(track),
        0 <= speed <= i32::MAX,
        0 <= frame,
    ensures
        -1 <= active_key(track, frame, speed) < track.len(),
        active_key(track, frame, speed) == -1 <==> frame >= end_of(track, speed),
        active_key(track, frame, speed) >= 0 ==> start_of(
            track,
            speed,
            active_key(track, frame, speed),
        ) <= frame < start_of(track, speed, active_key(track, frame, speed) + 1),
{
    lemma_active_below(track, frame, speed, track.len() as int);
}

/// Only one keyframe holds a given frame.
pub proof fn lemma_active_key_unique<T: Keyframe>(track: Seq<T>, frame: int, speed: int, k: int)
    requires
        playable(track),
        0 <= speed <= i32::MAX,
        0 <= frame,
        0 <= k < track.len(),
        start_of(track, speed, k) <= frame < start_of(track, speed, k + 1),
    ensures
        active_key(track, frame, speed) == k,
{
    lemma_active_key(track, frame, speed);
    let a = active_key(track, frame, speed);
    if a < 0 {
        lemma_start_of_monotonic(track, speed, k + 1, track.len() as int);
    } else if a < k {
        lemma_start_of_monotonic(track, speed, a + 1, k);
    } else if a > k {
        lemma_start_of_monotonic(track, speed, k + 1, a);
    }
}

/// A sample names keyframes of its track, and a blend lies within the
/// effective duration of the keyframe it starts from.
pub proof fn lemma_sample_within<T: Keyframe>(track: Seq<T>, frame: int, speed: int)
    requires
        playable(track),
        0 <= speed <= i32::MAX,
        0 <= frame <= i32::MAX,
    ensures
        sample_within(sample_of(track, frame, speed), track.len() as int),
        sample_of(track, frame, speed) matches Sample::Tween { from, span, offset, .. } ==> {
            &&& span == track[from as int].spec_duration() * speed
            &&& offset == frame - start_of(track, speed, from as int)
        },
{
    lemma_active_key(track, frame, speed);
    let k = active_key(track, frame, speed);
    if k >= 0 {
        lemma_effective_duration(track[k].spec_duration() as int, speed);
        lemma_start_of_monotonic(track, speed, 0, k);
    }
}

/// A track that has ended holds its last keyframe: at every frame from the sum
/// of the effective durations on, the sample is the last keyframe as it
/// stands.
pub proof fn lemma_ended_track_holds_last<T: Keyframe>(track: Seq<T>, frame: int, speed: int)
    requires
        playable(track),
        0 <= speed <= i32::MAX,
        track.len() > 0,
        frame >= end_of(track, speed),
    ensures
        sample_of(track, frame, speed) == (Sample::Hold { key: (track.len() - 1) as usize }),
{
    lemma_start_of_monotonic(track, speed, 0, track.len() as int);
    lemma_active_key(track, frame, speed);
}

/// With a speed of zero every keyframe begins at frame zero.
proof fn lemma_speed_zero_starts<T: Keyframe>(track: Seq<T>, k: int)
    requires
        0 <= k <= track.len(),
    ensures
        start_of(track, 0, k) == 0,
    decreases k,
{
    if k > 0 {
        lemma_speed_zero_starts(track, k - 1);
    }
}

/// With a speed of zero a track has ended at every frame, and holds its last
/// keyframe.
pub proof fn lemma_speed_zero_holds_last<T: Keyframe>(track: Seq<T>, frame: int)
    requires
        playable(track),
        track.len() > 0,
        0 <= frame,
    ensures
        sample_of(track, frame, 0) == (Sample::Hold { key: (track.len() - 1) as usize }),
{
    lemma_speed_zero_starts(track, track.len() as int);
    lemma_ended_track_holds_last(track, frame, 0);
}

/// A track of a single keyframe holds it, whatever the frame and the speed.
pub proof fn lemma_single_keyframe_holds<T: Keyframe>(track: Seq<T>, frame: int, speed: int)
    requires
        track.len() == 1,
    ensures
        sample_of(track, frame, speed) == (Sample::Hold { key: 0 }),
{
}

/// Halfway through the first of two keyframes: where the first keyframe lasts
/// `span` frames at the given speed, with `span` above zero, the sample at
/// frame `span / 2` is the blend from the first keyframe to the second, `span
/// / 2` steps into `span`.
pub proof fn lemma_midpoint_sample<T: Keyframe>(track: Seq<T>, speed: int)
    requires
        playable(track),
        0 <= speed <= i32::MAX,
        track.len() == 2,
        track[0].spec_duration() * speed > 0,
    ensures
        sample_of(track, (track[0].spec_duration() * speed) / 2, speed) == (Sample::Tween {
            from: 0,
            to: 1,
            span: (track[0].spec_duration() * speed) as i64,
            offset: ((track[0].spec_duration() * speed) / 2) as i32,
        }),
{
    let span = track[0].spec_duration() * speed;
    assert(start_of(track, speed, 1) == span) by {
        assert(start_of(track, speed, 0) == 0);
    }
    lemma_active_key_unique(track, span / 2, speed, 0);
}

/// Multiplying the speed multiplies the frame at which every keyframe begins.
pub proof fn lemma_start_of_scales<T: Keyframe>(track: Seq<T>, speed: int, by: int, k: int)
    requires
        0 <= k <= track.len(),
    ensures
        start_of(track, speed * by, k) == start_of(track, speed, k) * by,
    decreases k,
{
    if k > 0 {
        lemma_start_of_scales(track, speed, by, k - 1);
        let d = track[k - 1].spec_duration() as int;
        assert(d * (speed * by) == (d * speed) * by) by (nonlinear_arith);
        assert((start_of(track, speed, k - 1) + d * speed) * by == start_of(track, speed, k - 1)
            * by + (d * speed) * by) by (nonlinear_arith);
    }
}

/// Multiplying the speed and the frame by the same number above zero leaves
/// the active keyframe where it was, and multiplies by that number how far the
/// frame is into it and how long it lasts.
pub proof fn lemma_speed_scales_time<T: Keyframe>(track: Seq<T>, frame: int, speed: int, by: int)
    requires
        playable(track),
        0 <= frame,
        0 <= speed,
        0 < by,
        speed * by <= i32::MAX,
    ensures
        active_key(track, frame * by, speed * by) == active_key(track, frame, speed),
        active_key(track, frame, speed) >= 0 ==> {
            let k = active_key(track, frame, speed);
            &&& frame * by - start_of(track, speed * by, k) == (frame - start_of(track, speed, k))
                * by
            &&& track[k].spec_duration() * (speed * by) == (track[k].spec_duration() * speed) * by
        },
{
    assert(0 <= speed <= speed * by && 0 <= frame * by) by (nonlinear_arith)
        requires
            0 <= speed,
            0 <= frame,
            0 < by,
    ;
    lemma_active_key(track, frame, speed);
    lemma_active_key(track, frame * by, speed * by);
    let k = active_key(track, frame, speed);
    if k >= 0 {
        lemma_start_of_scales(track, speed, by, k);
        lemma_start_of_scales(track, speed, by, k + 1);
        let a = start_of(track, speed, k);
        let b = start_of(track, speed, k + 1);
        assert(a * by <= frame * by < b * by && frame * by - a * by == (frame - a) * by)
            by (nonlinear_arith)
            requires
                a <= frame < b,
                0 < by,
        ;
        lemma_active_key_unique(track, frame * by, speed * by, k);
        let d = track[k].spec_duration() as int;
        assert(d * (speed * by) == (d * speed) * by) by (nonlinear_arith);
    } else {
        lemma_start_of_scales(track, speed, by, track.len() as int);
        let e = end_of(track, speed);
        assert(frame * by >= e * by) by (nonlinear_arith)
            requires
                frame >= e,
                0 < by,
        ;
    }
}

/// Finds the keyframe that is active at `frame` and how far the frame is into
/// it, with every duration multiplied by `speed`. Past the end of the track
/// both are -1.
pub fn get_frame_idx<T: Keyframe>(anim_frame: &Vec<T>, frame: i32, speed: i32) -> (at: (i32, i32))
    requires
        playable(anim_frame@),
        frame >= 0,
        speed >= 0,
    ensures
        at.0 == active_key(anim_frame@, frame as int, speed as int),
        at.0 == -1 <==> frame >= end_of(anim_frame@, speed as int),
        at.0 == -1 ==> at.1 == -1,
        at.0 >= 0 ==> {
            &&& at.0 < anim_frame.len()
            &&& at.1 == frame - start_of(anim_frame@, speed as int, at.0 as int)
            &&& 0 <= at.1 < anim_frame[at.0 as int].spec_duration() * speed
        },
{
    let mut time: i64 = 0;
    let mut i: usize = 0;
    while i < anim_frame.len()
        invariant
            playable(anim_frame@),
            frame >= 0,
            speed >= 0,
            i <= anim_frame.len(),
            time == start_of(anim_frame@, speed as int, i as int),
            0 <= time <= frame,
            active_below(anim_frame@, frame as int, speed as int, i as int) == -1,
        decreases anim_frame.len() - i,
    {
        let length: i64 = anim_frame[i].duration() as i64;
        proof {
            lemma_effective_duration(length as int, speed as int);
        }
        let step: i64 = length * (speed as i64);
        if (frame as i64) < time + step {
            proof {
                lemma_active_key_unique(anim_frame@, frame as int, speed as int, i as int);
                lemma_active_key(anim_frame@, frame as int, speed as int);
            }
            return (i as i32, (frame as i64 - time) as i32);
        }
        time = time + step;
        i += 1;
    }
    proof {
        lemma_active_key(anim_frame@, frame as int, speed as int);
    }
    (-1, -1)
}

/// Samples a track at `frame`, with every duration multiplied by `speed`.
///
/// A track that has ended holds its last keyframe, whatever the frame; so does
/// a track of a single keyframe, whatever the frame and the speed. With a
/// speed of zero every track has ended at every frame.
pub fn sample_track<T: Keyframe>(track: &Vec<T>, frame: i32, speed: i32) -> (s: Sample)
    requires
        playable(track@),
        frame >= 0,
        speed >= 0,
    ensures
        s == sample_of(track@, frame as int, speed as int),
        s is Absent <==> track.len() == 0,
        track.len() > 0 && frame >= end_of(track@, speed as int) ==> s == (Sample::Hold {
            key: (track.len() - 1) as usize,
        }),
        track.len() == 1 ==> s == (Sample::Hold { key: 0 }),
        s matches Sample::Hold { key } ==> key == track.len() - 1,
        s matches Sample::Tween { from, to, span, offset } ==> {
            &&& from < track.len()
            &&& to < track.len()
            &&& from <= to <= from + 1
            &&& span == track[from as int].spec_duration() * speed
            &&& offset == frame - start_of(track@, speed as int, from as int)
            &&& 0 <= offset < span
        },
{
    if track.len() == 0 {
        return Sample::Absent;
    }
    let last: usize = track.len() - 1;
    let at = get_frame_idx(track, frame, speed);
    if at.0 == -1 || track.len() == 1 {
        return Sample::Hold { key: last };
    }
    let from: usize = at.0 as usize;
    let to: usize = if from < last {
        from + 1
    } else {
        from
    };
    let length: i64 = track[from].duration() as i64;
    proof {
        lemma_effective_duration(length as int, speed as int);
    }
    Sample::Tween { from, to, span: length * (speed as i64), offset: at.1 }
}

} // verus!
