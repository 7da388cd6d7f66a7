//! Keyframe timing along an animation's playable timeline.
//!
//! Keyframe 0 is where playback starts (time 0); each later keyframe `i`
//! spans the blend *into* it, lasting `duration_ms` of keyframe `i`. So
//! keyframe `i` is fully reached at the sum of the durations of keyframes
//! `1..=i`, and the playable length is the sum over every keyframe but the
//! first.

use vstd::prelude::*;
use crate::model::{opt_map_view, opt_view, Easing, KeyframeSpec, Pose};

use crate::text::{decimal, decimal_chars, push_char};

verus! {

/// Sum of a sequence of durations.
pub open spec fn seq_sum(s: Seq<u32>) -> nat
    decreases s.len(),
{
    if s.len() == 0 {
        0
    } else {
        seq_sum(s.drop_last()) + s.last() as nat
    }
}

/// Milliseconds at which keyframe `index` is fully reached, for keyframes
/// with durations `d`.
#[verifier::opaque]
pub open spec fn arrival(d: Seq<u32>, index: int) -> nat {
    if index <= 0 || d.len() == 0 {
        0
    } else if index + 1 <= d.len() {
        seq_sum(d.subrange(1, index + 1))
    } else {
        seq_sum(d.subrange(1, d.len() as int))
    }
}

/// The playable length: every duration but the first.
pub open spec fn playable_total(d: Seq<u32>) -> nat {
    arrival(d, d.len() - 1)
}

/// The durations of a keyframe list.
pub open spec fn durations<S>(k: Seq<KeyframeSpec<S>>) -> Seq<u32> {
    k.map_values(|kf: KeyframeSpec<S>| kf.duration_ms)
}

/// Keyframe 0 is reached at time 0, and an index past the end is clamped to
/// the last keyframe.
pub proof fn lemma_arrival_basics(d: Seq<u32>, i: int)
    ensures
        arrival(d, 0) == 0,
        i <= 0 ==> arrival(d, i) == 0,
        d.len() >= 1 && i >= d.len() ==> arrival(d, i) == arrival(d, d.len() - 1),
{
    reveal(arrival);
}

pub proof fn lemma_seq_sum_push(s: Seq<u32>, x: u32)
    ensures
        seq_sum(s.push(x)) == seq_sum(s) + x,
{
    assert(s.push(x).drop_last() =~= s);
}

/// Later keyframes are reached no earlier.
pub proof fn lemma_arrival_step(d: Seq<u32>, i: int)
    requires
        1 <= i < d.len(),
    ensures
        arrival(d, i) == arrival(d, i - 1) + d[i],
{
    reveal(arrival);
    assert(d.subrange(1, i + 1) =~= d.subrange(1, i).push(d[i]));
    lemma_seq_sum_push(d.subrange(1, i), d[i]);
    if i == 1 {
        assert(d.subrange(1, 1) =~= Seq::<u32>::empty());
    }
}

pub proof fn lemma_arrival_mono(d: Seq<u32>, i: int, j: int)
    requires
        0 <= i <= j < d.len(),
    ensures
        arrival(d, i) <= arrival(d, j),
    decreases j - i,
{
    if i < j {
        lemma_arrival_mono(d, i, j - 1);
        lemma_arrival_step(d, j);
    }
}

/// Sums `d[1..=index]` (clamped to the list), failing on `u32` overflow.
fn arrival_of(d: &[u32], index: usize) -> (r: Option<u32>)
    ensures
        match r {
            Some(v) => v == arrival(d@, index as int),
            None => arrival(d@, index as int) > u32::MAX,
        },
{
    proof {
        lemma_arrival_basics(d@, index as int);
        lemma_arrival_basics(d@, 0);
        reveal(arrival);
    }
    if index == 0 || d.len() == 0 {
        return Some(0);
    }
    let end: usize = if index < d.len() {
        index
    } else {
        d.len() - 1
    };
    let mut total: u32 = 0;
    let mut i: usize = 1;
    while i <= end
        invariant
            1 <= i <= end + 1,
            end < d.len(),
            index >= 1,
            end == (if index < d.len() {
                index
            } else {
                (d.len() - 1) as usize
            }),
            total == arrival(d@, (i - 1) as int),
        decreases end + 1 - i,
    {
        proof {
            lemma_arrival_step(d@, i as int);
        }
        if d[i] > u32::MAX - total {
            proof {
                lemma_arrival_mono(d@, i as int, end as int);
                lemma_arrival_basics(d@, index as int);
            }
            return None;
        }
        total = total + d[i];
        i = i + 1;
    }
    assert(arrival(d@, index as int) == arrival(d@, end as int));
    Some(total)
}

/// The durations of `keyframes`.
pub fn keyframe_durations<S>(keyframes: &[KeyframeSpec<S>]) -> (d: Vec<u32>)
    ensures
        d@ == durations(keyframes@),
{
    let mut d: Vec<u32> = Vec::new();
    let mut i: usize = 0;
    while i < keyframes.len()
        invariant
            i <= keyframes.len(),
            d@ == durations(keyframes@.subrange(0, i as int)),
        decreases keyframes.len() - i,
    {
        d.push(keyframes[i].duration_ms);
        assert(durations(keyframes@.subrange(0, i + 1)) =~= durations(keyframes@.subrange(0, i as int)).push(
            keyframes@[i as int].duration_ms,
        ));
        i = i + 1;
    }
    assert(keyframes@.subrange(0, keyframes.len() as int) =~= keyframes@);
    d
}

/// Milliseconds along the playable timeline when keyframe `index` is fully
/// reached.
pub fn keyframe_arrival_ms<S>(keyframes: &[KeyframeSpec<S>], index: usize) -> (r: u32)
    requires
        arrival(durations(keyframes@), index as int) <= u32::MAX,
    ensures
        r == arrival(durations(keyframes@), index as int),
{
    let d = keyframe_durations(keyframes);
    match arrival_of(d.as_slice(), index) {
        Some(v) => v,
        None => 0,
    }
}

/// Length of the playable timeline (every keyframe's duration but the first).
pub fn playable_total_ms<S>(keyframes: &[KeyframeSpec<S>]) -> (r: u32)
    requires
        playable_total(durations(keyframes@)) <= u32::MAX,
    ensures
        r == playable_total(durations(keyframes@)),
{
    let d = keyframe_durations(keyframes);
    if d.len() == 0 {
        proof {
            lemma_arrival_basics(d@, -1);
        }
        return 0;
    }
    match arrival_of(d.as_slice(), d.len() - 1) {
        Some(v) => v,
        None => 0,
    }
}

/// Shortest blend segment the timeline editor lets a keyframe have.
pub const MIN_BLEND_MS: u32 = 40;

/// `ms`, raised to at least [`MIN_BLEND_MS`].
pub fn clamp_blend_ms(ms: u32) -> (r: u32)
    ensures
        r == if ms < MIN_BLEND_MS {
            MIN_BLEND_MS
        } else {
            ms
        },
{
    if ms < MIN_BLEND_MS {
        MIN_BLEND_MS
    } else {
        ms
    }
}

/// Sets the blend duration into keyframe `index` (never below
/// [`MIN_BLEND_MS`]). Keyframe 0 is pinned at time 0 and out-of-range indices
/// are ignored.
pub fn set_keyframe_duration<S>(keyframes: &mut Vec<KeyframeSpec<S>>, index: usize, duration_ms: u32)
    ensures
        final(keyframes)@.len() == old(keyframes)@.len(),
        forall|i: int|
            0 <= i < old(keyframes)@.len() && i != index ==> #[trigger] final(keyframes)@[i] == old(
                keyframes,
            )@[i],
        (index == 0 || index >= old(keyframes)@.len()) ==> final(keyframes)@ == old(keyframes)@,
        (0 < index < old(keyframes)@.len()) ==> {
            let o = old(keyframes)@[index as int];
            let n = final(keyframes)@[index as int];
            &&& n.duration_ms == (if duration_ms < MIN_BLEND_MS {
                MIN_BLEND_MS
            } else {
                duration_ms
            })
            &&& n.pose == o.pose
            &&& n.joints == o.joints
            &&& n.camera == o.camera
            &&& n.expressions == o.expressions
            &&& n.hold == o.hold
            &&& n.easing == o.easing
        },
{
    if index == 0 || index >= keyframes.len() {
        return;
    }
    let d = clamp_blend_ms(duration_ms);
    let mut kf = keyframes.remove(index);
    kf.duration_ms = d;
    keyframes.insert(index, kf);
}

/// The blend of keyframe `index` (at least 1) when its right edge is dropped
/// at `at_ms` on the timeline: the time past the previous keyframe's arrival
/// (none if the drop lies before it), raised to the minimum.
pub fn trimmed_duration_ms<S>(keyframes: &[KeyframeSpec<S>], index: usize, at_ms: u32) -> (r: u32)
    requires
        1 <= index,
        arrival(durations(keyframes@), index - 1) <= u32::MAX,
    ensures
        ({
            let prev = arrival(durations(keyframes@), index - 1);
            let past: int = if at_ms >= prev { at_ms - prev } else { 0 };
            r == if past < MIN_BLEND_MS { MIN_BLEND_MS as int } else { past }
        }),
{
    let prev = keyframe_arrival_ms(keyframes, index - 1);
    clamp_blend_ms(at_ms.saturating_sub(prev))
}

/// `ms` read as a signed 32-bit count, as a cast reads it: blends past
/// `i32::MAX` wrap to negative values.
pub open spec fn signed_ms(ms: u32) -> int {
    if ms <= i32::MAX {
        ms as int
    } else {
        ms - 0x1_0000_0000
    }
}

/// The blend of a keyframe whose block was dragged by `delta_ms` from a
/// blend of `start_ms` (read as a signed count): never below the minimum.
pub fn moved_duration_ms(start_ms: u32, delta_ms: i32) -> (r: u32)
    requires
        i32::MIN <= signed_ms(start_ms) + delta_ms <= i32::MAX,
    ensures
        r == if signed_ms(start_ms) + delta_ms < MIN_BLEND_MS {
            MIN_BLEND_MS as int
        } else {
            signed_ms(start_ms) + delta_ms
        },
{
    let start: i32 = if start_ms <= 0x7fff_ffffu32 {
        start_ms as i32
    } else {
        (start_ms - 0x8000_0000u32) as i32 - 0x7fff_ffffi32 - 1
    };
    let moved: i32 = start + delta_ms;
    if moved < MIN_BLEND_MS as i32 {
        MIN_BLEND_MS
    } else {
        moved as u32
    }
}

/// The ruler steps, in milliseconds.
pub const RULER_STEPS_MS: [u32; 10] = [10, 25, 50, 100, 250, 500, 1000, 2500, 5000, 10000];

/// The first ruler step, from position `i` on, not below `raw`; the
/// largest step if none is.
pub open spec fn first_step_from(raw: u32, i: int) -> u32
    decreases 10 - i,
{
    if i >= 10 {
        10000
    } else if RULER_STEPS_MS[i] >= raw {
        RULER_STEPS_MS[i]
    } else {
        first_step_from(raw, i + 1)
    }
}

/// The ruler's tick step for ticks at least `raw_ms` apart: the first step
/// not below it, else the largest.
pub fn ruler_tick_step_ms(raw_ms: u32) -> (r: u32)
    ensures
        r == first_step_from(raw_ms, 0),
{
    let steps = RULER_STEPS_MS;
    let mut i: usize = 0;
    while i < 10
        invariant
            i <= 10,
            steps == RULER_STEPS_MS,
            first_step_from(raw_ms, i as int) == first_step_from(raw_ms, 0),
        decreases 10 - i,
    {
        if steps[i] >= raw_ms {
            return steps[i];
        }
        i = i + 1;
    }
    10000
}

/// How a keyframe block is drawn.
#[derive(Debug, Clone, Copy, PartialEq, Eq, Structural)]
pub enum BlockFill {
    Selected,
    /// It plays a library pose.
    PoseRef,
    /// It lists its joints inline.
    Inline,
}

/// The fill of a keyframe's block, and whether it carries joint overrides
/// (drawn as a badge).
pub fn block_style<S>(kf: &KeyframeSpec<S>, selected: bool) -> (r: (BlockFill, bool))
    ensures
        r.0 == if selected {
            BlockFill::Selected
        } else if kf.pose is Some {
            BlockFill::PoseRef
        } else {
            BlockFill::Inline
        },
        r.1 == match kf.joints {
            Some(j) => j@.len() > 0,
            None => false,
        },
{
    let has_delta = match &kf.joints {
        Some(j) => !j.is_empty(),
        None => false,
    };
    let fill = if selected {
        BlockFill::Selected
    } else if kf.pose.is_some() {
        BlockFill::PoseRef
    } else {
        BlockFill::Inline
    };
    (fill, has_delta)
}

/// Where the playhead falls when splitting a segment: the keyframe whose
/// blend contains it and the two halves' durations.
pub struct SplitPoint {
    pub segment: usize,
    pub first_ms: u32,
    pub second_ms: u32,
}

/// Whether `playhead` lies strictly inside the blend into keyframe `seg` and
/// leaves at least [`MIN_BLEND_MS`] on either side.
pub open spec fn splittable_at(d: Seq<u32>, playhead: nat, seg: int) -> bool {
    &&& 1 <= seg < d.len()
    &&& arrival(d, seg - 1) < playhead < arrival(d, seg)
    &&& playhead - arrival(d, seg - 1) >= MIN_BLEND_MS
    &&& arrival(d, seg) - playhead >= MIN_BLEND_MS
}

/// A playhead strictly inside the blend into keyframe `i` is strictly inside
/// no other blend.
pub proof fn lemma_segment_unique(d: Seq<u32>, p: nat, i: int, seg: int)
    requires
        1 <= i < d.len(),
        1 <= seg < d.len(),
        arrival(d, i - 1) < p < arrival(d, i),
        arrival(d, seg - 1) < p < arrival(d, seg),
    ensures
        seg == i,
{
    if seg < i {
        lemma_arrival_mono(d, seg, i - 1);
    } else if seg > i {
        lemma_arrival_mono(d, i, seg - 1);
    }
}

/// Finds the segment the playhead falls strictly inside, if it may be split
/// there (both halves at least [`MIN_BLEND_MS`]).
pub fn find_split_point(d: &[u32], playhead_ms: u32) -> (r: Option<SplitPoint>)
    requires
        playable_total(d@) <= u32::MAX,
    ensures
        match r {
            Some(p) => splittable_at(d@, playhead_ms as nat, p.segment as int) && p.first_ms
                == playhead_ms - arrival(d@, p.segment - 1) && p.second_ms == arrival(
                d@,
                p.segment as int,
            ) - playhead_ms,
            None => forall|seg: int| !splittable_at(d@, playhead_ms as nat, seg),
        },
{
    if d.len() < 2 {
        proof {
            reveal(arrival);
        }
        return None;
    }
    proof {
        lemma_arrival_basics(d@, 0);
    }
    let mut i: usize = 1;
    let mut prev: u32 = 0;
    while i < d.len()
        invariant
            1 <= i <= d.len(),
            d.len() >= 2,
            playable_total(d@) <= u32::MAX,
            prev == arrival(d@, i - 1),
            forall|seg: int|
                1 <= seg < i ==> !(arrival(d@, seg - 1) < playhead_ms && playhead_ms
                    < #[trigger] arrival(d@, seg)),
        decreases d.len() - i,
    {
        proof {
            lemma_arrival_step(d@, i as int);
            lemma_arrival_mono(d@, i as int, d@.len() - 1);
        }
        let next: u32 = prev + d[i];
        if playhead_ms > prev && playhead_ms < next {
            let first_ms = playhead_ms - prev;
            let second_ms = next - playhead_ms;
            if first_ms < MIN_BLEND_MS || second_ms < MIN_BLEND_MS {
                proof {
                    assert forall|seg: int| !splittable_at(d@, playhead_ms as nat, seg) by {
                        if splittable_at(d@, playhead_ms as nat, seg) {
                            lemma_segment_unique(d@, playhead_ms as nat, i as int, seg);
                        }
                    }
                }
                return None;
            }
            return Some(SplitPoint { segment: i, first_ms, second_ms });
        }
        prev = next;
        i = i + 1;
    }
    None
}

/// Splits the blend under `playhead_ms` in two by inserting `sampled` (the
/// pose sampled at the playhead) as a new keyframe there. The new keyframe
/// takes the first half of the blend and the old keyframe's easing; the old
/// keyframe keeps the second half. Returns the inserted keyframe's index, or
/// `None` (and leaves `keyframes` alone) when the playhead is not strictly
/// inside a blend or either half would be shorter than [`MIN_BLEND_MS`].
pub fn split_keyframes_at_playhead<S>(
    keyframes: &mut Vec<KeyframeSpec<S>>,
    playhead_ms: u32,
    sampled: KeyframeSpec<S>,
) -> (r: Option<usize>)
    requires
        playable_total(durations(old(keyframes)@)) <= u32::MAX,
    ensures
        match r {
            None => {
                &&& final(keyframes)@ == old(keyframes)@
                &&& forall|seg: int| !splittable_at(durations(old(keyframes)@), playhead_ms as nat, seg)
            },
            Some(seg) => {
                let d = durations(old(keyframes)@);
                let o = old(keyframes)@[seg as int];
                let ins = final(keyframes)@[seg as int];
                let kept = final(keyframes)@[seg + 1];
                &&& splittable_at(d, playhead_ms as nat, seg as int)
                &&& final(keyframes)@.len() == old(keyframes)@.len() + 1
                &&& forall|i: int| 0 <= i < seg ==> #[trigger] final(keyframes)@[i] == old(keyframes)@[i]
                &&& forall|i: int|
                    seg < i < old(keyframes)@.len() ==> #[trigger] final(keyframes)@[i + 1] == old(
                        keyframes,
                    )@[i]
                &&& ins.pose == sampled.pose && ins.joints == sampled.joints && ins.camera
                    == sampled.camera && ins.expressions == sampled.expressions && ins.hold
                    == sampled.hold
                &&& ins.duration_ms == playhead_ms - arrival(d, seg - 1)
                &&& ins.easing == o.easing
                &&& kept.duration_ms == arrival(d, seg as int) - playhead_ms
                &&& kept.pose == o.pose && kept.joints == o.joints && kept.camera == o.camera
                    && kept.expressions == o.expressions && kept.hold == o.hold && kept.easing
                    == o.easing
            },
        },
{
    let d = keyframe_durations(keyframes.as_slice());
    match find_split_point(d.as_slice(), playhead_ms) {
        None => None,
        Some(p) => {
            let seg = p.segment;
            let mut old_kf = keyframes.remove(seg);
            let easing: Easing = old_kf.easing;
            old_kf.duration_ms = p.second_ms;
            let mut ins = sampled;
            ins.duration_ms = p.first_ms;
            ins.easing = easing;
            keyframes.insert(seg, old_kf);
            keyframes.insert(seg, ins);
            Some(seg)
        },
    }
}

} // verus!

verus! {

/// Where a point in time falls along an animation's playable timeline.
#[derive(Debug, Clone, Copy, PartialEq, Eq, Structural)]
pub enum AnimationTimePoint {
    /// The animation has no keyframes.
    Empty,
    /// At the first keyframe's pose (time 0, or a single-keyframe animation).
    AtFirst,
    /// `elapsed_ms` into the blend into keyframe `index`.
    InSegment { index: usize, elapsed_ms: u32 },
}

/// The time actually sampled: wrapped for a looping animation, otherwise
/// clamped to the playable length.
pub open spec fn effective_time(d: Seq<u32>, looping: bool, time: nat) -> nat {
    let total = playable_total(d);
    if looping && total > 0 {
        time % total
    } else if time <= total {
        time
    } else {
        total
    }
}

/// Whether time `t` lies in the blend into keyframe `i`.
pub open spec fn in_segment(d: Seq<u32>, t: nat, i: int) -> bool {
    1 <= i < d.len() && arrival(d, i - 1) < t <= arrival(d, i)
}

/// The keyframe whose blend contains time `t`.
pub open spec fn segment_at(d: Seq<u32>, t: nat) -> int {
    choose|i: int| in_segment(d, t, i)
}

/// Where `time` falls on the timeline of keyframes with durations `d`.
pub open spec fn time_point(d: Seq<u32>, looping: bool, time: nat) -> AnimationTimePoint {
    if d.len() == 0 {
        AnimationTimePoint::Empty
    } else if d.len() == 1 {
        AnimationTimePoint::AtFirst
    } else {
        let t = effective_time(d, looping, time);
        if t == 0 {
            AnimationTimePoint::AtFirst
        } else {
            let i = segment_at(d, t);
            AnimationTimePoint::InSegment {
                index: i as usize,
                elapsed_ms: (t - arrival(d, i - 1)) as u32,
            }
        }
    }
}

/// At most one blend contains a given time.
pub proof fn lemma_in_segment_unique(d: Seq<u32>, t: nat, i: int, j: int)
    requires
        in_segment(d, t, i),
        in_segment(d, t, j),
    ensures
        i == j,
{
    if i < j {
        lemma_arrival_mono(d, i, j - 1);
    } else if j < i {
        lemma_arrival_mono(d, j, i - 1);
    }
}

/// Finds where `time_ms` falls on the timeline of keyframes with durations
/// `d` (wrapping when `looping`), the way sampling an animation at a time
/// does: time 0 is the first keyframe's pose, then each blend in turn.
pub fn locate_animation_time(d: &[u32], looping: bool, time_ms: u32) -> (r: AnimationTimePoint)
    requires
        playable_total(d@) <= u32::MAX,
    ensures
        r == time_point(d@, looping, time_ms as nat),
{
    if d.len() == 0 {
        return AnimationTimePoint::Empty;
    }
    if d.len() == 1 {
        return AnimationTimePoint::AtFirst;
    }
    let total = match arrival_of(d, d.len() - 1) {
        Some(v) => v,
        None => 0,
    };
    let t: u32 = if looping && total > 0 {
        time_ms % total
    } else if time_ms <= total {
        time_ms
    } else {
        total
    };
    if t == 0 {
        return AnimationTimePoint::AtFirst;
    }
    proof {
        lemma_arrival_basics(d@, 0);
    }
    let mut prev: u32 = 0;
    let mut i: usize = 1;
    while i < d.len()
        invariant
            1 <= i <= d.len(),
            d.len() >= 2,
            t == effective_time(d@, looping, time_ms as nat),
            0 < t <= playable_total(d@),
            playable_total(d@) <= u32::MAX,
            prev == arrival(d@, i - 1),
            prev < t,
        decreases d.len() - i,
    {
        proof {
            lemma_arrival_step(d@, i as int);
            lemma_arrival_mono(d@, i as int, d@.len() - 1);
        }
        let next = prev + d[i];
        if t <= next {
            proof {
                assert(in_segment(d@, t as nat, i as int));
                let s = segment_at(d@, t as nat);
                lemma_in_segment_unique(d@, t as nat, i as int, s);
            }
            return AnimationTimePoint::InSegment { index: i, elapsed_ms: t - prev };
        }
        prev = next;
        i = i + 1;
    }
    proof {
        assert(false);
    }
    AnimationTimePoint::AtFirst
}

/// Law: splitting a blend keeps the timeline's length and moves no later
/// keyframe in time. Keyframe arrivals before the split are unchanged, the
/// inserted keyframe arrives at the playhead, and every keyframe after it
/// arrives exactly when it did before.
pub proof fn lemma_split_preserves_timing(d: Seq<u32>, playhead: u32, seg: int, e: Seq<u32>)
    requires
        splittable_at(d, playhead as nat, seg),
        e.len() == d.len() + 1,
        forall|i: int| 0 <= i < seg ==> #[trigger] e[i] == d[i],
        forall|i: int| seg < i < d.len() ==> #[trigger] e[i + 1] == d[i],
        e[seg] == playhead - arrival(d, seg - 1),
        e[seg + 1] == arrival(d, seg) - playhead,
    ensures
        forall|i: int| 0 <= i < seg ==> #[trigger] arrival(e, i) == arrival(d, i),
        arrival(e, seg) == playhead,
        forall|i: int| seg <= i < d.len() ==> #[trigger] arrival(e, i + 1) == arrival(d, i),
        playable_total(e) == playable_total(d),
{
    assert forall|i: int| 0 <= i < seg implies #[trigger] arrival(e, i) == arrival(d, i) by {
        lemma_arrival_prefix(d, e, i, seg);
    }
    lemma_arrival_prefix(d, e, seg - 1, seg);
    lemma_arrival_step(e, seg);
    lemma_arrival_step(e, seg + 1);
    lemma_arrival_step(d, seg);
    assert forall|i: int| seg <= i < d.len() implies #[trigger] arrival(e, i + 1) == arrival(d, i) by {
        lemma_arrival_shifted(d, e, seg, i);
    }
    let last = d.len() - 1;
    assert(arrival(e, last + 1) == arrival(d, last));
    assert(e.len() - 1 == last + 1);
}

proof fn lemma_arrival_prefix(d: Seq<u32>, e: Seq<u32>, i: int, seg: int)
    requires
        0 <= i < seg < d.len(),
        seg < e.len(),
        forall|k: int| 0 <= k < seg ==> #[trigger] e[k] == d[k],
    ensures
        arrival(e, i) == arrival(d, i),
    decreases i,
{
    lemma_arrival_basics(d, 0);
    lemma_arrival_basics(e, 0);
    if i > 0 {
        lemma_arrival_prefix(d, e, i - 1, seg);
        lemma_arrival_step(d, i);
        lemma_arrival_step(e, i);
    }
}

proof fn lemma_arrival_shifted(d: Seq<u32>, e: Seq<u32>, seg: int, i: int)
    requires
        1 <= seg <= i < d.len(),
        e.len() == d.len() + 1,
        forall|k: int| seg < k < d.len() ==> #[trigger] e[k + 1] == d[k],
        arrival(e, seg + 1) == arrival(d, seg),
    ensures
        arrival(e, i + 1) == arrival(d, i),
    decreases i - seg,
{
    if i > seg {
        lemma_arrival_shifted(d, e, seg, i - 1);
        lemma_arrival_step(d, i);
        lemma_arrival_step(e, i + 1);
    }
}

} // verus!

verus! {

// ---------------------------------------------------------------------------
// Timeline widget support

/// What the timeline widget reports back after a frame: a keyframe the user
/// selected, a new playhead position, a keyframe whose camera to preview, and
/// whether any blend duration was edited.
#[derive(Debug, Clone, Copy, PartialEq, Eq)]
pub struct AnimationTimelineResponse {
    pub selected_keyframe: Option<usize>,
    pub playhead_ms: Option<u32>,
    pub preview_camera_keyframe: Option<usize>,
    pub timing_edited: bool,
}

impl AnimationTimelineResponse {
    /// A response that reports nothing.
    pub fn none() -> (r: Self)
        ensures
            r.selected_keyframe is None,
            r.playhead_ms is None,
            r.preview_camera_keyframe is None,
            !r.timing_edited,
    {
        AnimationTimelineResponse {
            selected_keyframe: None,
            playhead_ms: None,
            preview_camera_keyframe: None,
            timing_edited: false,
        }
    }
}

/// The label of keyframe `index` on its timeline block: `#index`, then the
/// pose it names or `(inline)` for inline joints, then `[cam]` when it moves
/// the camera; `(empty)` when it has none of these. Parts are separated by a
/// space.
pub open spec fn keyframe_label_text(
    index: nat,
    pose: Option<Seq<char>>,
    has_joints: bool,
    has_camera: bool,
) -> Seq<char> {
    let head = seq!['#'] + decimal(index);
    let body = match pose {
        Some(p) => seq![' '] + p,
        None => if has_joints {
            seq![' ', '(', 'i', 'n', 'l', 'i', 'n', 'e', ')']
        } else {
            Seq::empty()
        },
    };
    let cam = if has_camera {
        seq![' ', '[', 'c', 'a', 'm', ']']
    } else {
        Seq::empty()
    };
    let empty = if pose is None && !has_joints && !has_camera {
        seq![' ', '(', 'e', 'm', 'p', 't', 'y', ')']
    } else {
        Seq::empty()
    };
    head + body + cam + empty
}

fn push_all(out: &mut String, cs: &[char])
    ensures
        final(out)@ == old(out)@ + cs@,
{
    let mut i: usize = 0;
    while i < cs.len()
        invariant
            i <= cs.len(),
            out@ == old(out)@ + cs@.subrange(0, i as int),
        decreases cs.len() - i,
    {
        push_char(out, cs[i]);
        assert(cs@.subrange(0, i + 1) =~= cs@.subrange(0, i as int).push(cs@[i as int]));
        i = i + 1;
    }
    assert(cs@.subrange(0, cs.len() as int) =~= cs@);
}

/// The timeline label of keyframe `index` (see [`keyframe_label_text`]).
pub fn keyframe_label<S>(kf: &KeyframeSpec<S>, index: usize) -> (s: String)
    ensures
        s@ == keyframe_label_text(
            index as nat,
            opt_view(kf.pose),
            kf.joints is Some,
            kf.camera is Some,
        ),
{
    let mut out = String::new();
    push_char(&mut out, '#');
    let digits = decimal_chars(index);
    push_all(&mut out, digits.as_slice());
    match &kf.pose {
        Some(p) => {
            out.append(" ");
            proof {
                reveal_strlit(" ");
            }
            out.append(p.as_str());
        },
        None => {
            if kf.joints.is_some() {
                out.append(" (inline)");
                proof {
                    reveal_strlit(" (inline)");
                }
            }
        },
    }
    if kf.camera.is_some() {
        out.append(" [cam]");
        proof {
            reveal_strlit(" [cam]");
        }
    }
    if kf.pose.is_none() && kf.joints.is_none() && kf.camera.is_none() {
        out.append(" (empty)");
        proof {
            reveal_strlit(" (empty)");
        }
    }
    assert(out@ =~= keyframe_label_text(index as nat, opt_view(kf.pose), kf.joints is Some, kf.camera is Some));
    out
}

/// A keyframe holding a captured pose: its joints and expressions when there
/// are any, its camera patch, the given blend duration and easing, and no pose
/// reference.
pub fn keyframe_spec_from_pose<S>(draft: Pose<S>, duration_ms: u32, easing: Easing) -> (k: KeyframeSpec<S>)
    ensures
        k.pose is None,
        opt_map_view(k.joints) == if draft.joints@.len() == 0 {
            None
        } else {
            Some(draft.joints@)
        },
        k.camera == draft.camera,
        opt_map_view(k.expressions) == if draft.expressions@.len() == 0 {
            None
        } else {
            Some(draft.expressions@)
        },
        k.hold is None,
        k.duration_ms == duration_ms,
        k.easing == easing,
{
    let joints = if draft.joints.is_empty() {
        None
    } else {
        Some(draft.joints)
    };
    let expressions = if draft.expressions.is_empty() {
        None
    } else {
        Some(draft.expressions)
    };
    KeyframeSpec {
        pose: None,
        joints,
        camera: draft.camera,
        expressions,
        hold: None,
        duration_ms,
        easing,
    }
}

} // verus!
