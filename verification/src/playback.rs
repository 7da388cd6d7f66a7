//! The playback clock: the timing and sequencing half of the rig's playback
//! state machine.
//!
//! A rig is either holding still (`Idle`), blending from a snapshot of its
//! live pose into a new target (`TransitioningTo`), or stepping through an
//! animation's keyframes (`Playing`). Each frame advances the clock by the
//! frame time and yields which segment to sample and how far into it; the
//! renderer blends the poses for that segment. Interrupts always start a new
//! transition from wherever the rig currently is, which is what keeps them
//! smooth.

use vstd::prelude::*;
use crate::model::{Animation, Easing};
use crate::timeline::{arrival, lemma_arrival_step, lemma_arrival_basics, lemma_arrival_mono};

verus! {

/// The timing facts of an animation the clock needs.
pub struct AnimationTimeline {
    pub name: String,
    pub keyframe_durations: Vec<u32>,
    pub looping: bool,
    pub vrm_local_rotations: bool,
}

pub struct TimelineView {
    pub name: Seq<char>,
    pub durations: Seq<u32>,
    pub looping: bool,
    pub vrm_local_rotations: bool,
}

impl View for AnimationTimeline {
    type V = TimelineView;

    open spec fn view(&self) -> TimelineView {
        TimelineView {
            name: self.name@,
            durations: self.keyframe_durations@,
            looping: self.looping,
            vrm_local_rotations: self.vrm_local_rotations,
        }
    }
}

impl AnimationTimeline {
    /// The timeline of `animation`: its name, flags and keyframe durations.
    pub fn of<S>(animation: &Animation<S>) -> (t: AnimationTimeline)
        ensures
            t.name@ == animation.name@,
            t.looping == animation.looping,
            t.vrm_local_rotations == animation.vrm_local_rotations,
            t.keyframe_durations@.len() == animation.keyframes@.len(),
            forall|i: int|
                0 <= i < animation.keyframes@.len() ==> #[trigger] t.keyframe_durations@[i]
                    == animation.keyframes@[i].duration_ms,
    {
        let mut d: Vec<u32> = Vec::new();
        let mut i: usize = 0;
        while i < animation.keyframes.len()
            invariant
                i <= animation.keyframes@.len(),
                d@.len() == i,
                forall|j: int| 0 <= j < i ==> #[trigger] d@[j] == animation.keyframes@[j].duration_ms,
            decreases animation.keyframes@.len() - i,
        {
            d.push(animation.keyframes[i].duration_ms);
            i = i + 1;
        }
        AnimationTimeline {
            name: animation.name.clone(),
            keyframe_durations: d,
            looping: animation.looping,
            vrm_local_rotations: animation.vrm_local_rotations,
        }
    }
}

/// What a transition heads toward.
pub enum ClockTarget {
    Pose,
    Animation(AnimationTimeline),
}

pub enum TargetView {
    Pose,
    Animation(TimelineView),
}

impl View for ClockTarget {
    type V = TargetView;

    open spec fn view(&self) -> TargetView {
        match self {
            ClockTarget::Pose => TargetView::Pose,
            ClockTarget::Animation(t) => TargetView::Animation(t@),
        }
    }
}

/// Coarse playback mode for introspection.
#[derive(Debug, Clone, PartialEq, Eq)]
pub enum PlaybackMode {
    Idle,
    Transitioning,
    Playing { animation: String, keyframe_index: usize },
}

/// The playback part of the published live state.
#[derive(Debug, Clone)]
pub struct PlaybackStatus {
    /// `idle`, `transitioning` or `playing`.
    pub mode: &'static str,
    pub animation: Option<String>,
    pub keyframe_index: Option<usize>,
}

impl PlaybackStatus {
    /// The status that reports `mode`.
    pub fn from_mode(mode: &PlaybackMode) -> (s: PlaybackStatus)
        ensures
            match mode {
                PlaybackMode::Idle => s.mode@ == "idle"@ && s.animation is None
                    && s.keyframe_index is None,
                PlaybackMode::Transitioning => s.mode@ == "transitioning"@ && s.animation is None
                    && s.keyframe_index is None,
                PlaybackMode::Playing { animation, keyframe_index } => {
                    &&& s.mode@ == "playing"@
                    &&& s.animation matches Some(a) && a@ == animation@
                    &&& s.keyframe_index == Some(*keyframe_index)
                },
            },
    {
        match mode {
            PlaybackMode::Idle => PlaybackStatus { mode: "idle", animation: None, keyframe_index: None },
            PlaybackMode::Transitioning => PlaybackStatus {
                mode: "transitioning",
                animation: None,
                keyframe_index: None,
            },
            PlaybackMode::Playing { animation, keyframe_index } => PlaybackStatus {
                mode: "playing",
                animation: Some(animation.clone()),
                keyframe_index: Some(*keyframe_index),
            },
        }
    }
}

/// Which segment a frame samples.
#[derive(Debug, Clone, Copy, PartialEq, Eq, Structural)]
pub enum SampleSegment {
    /// The synthesized blend from the live snapshot into the target's first pose.
    Transition,
    /// The blend into keyframe `i` of the playing animation.
    Keyframe(usize),
}

/// One frame's sampling instruction: blend the segment by
/// `elapsed_ms / duration_ms` (a zero duration means "fully arrived").
/// `completed` tells the renderer the segment's end pose becomes the next
/// segment's start.
#[derive(Debug, Clone, Copy, PartialEq, Eq, Structural)]
pub struct FrameSample {
    pub segment: SampleSegment,
    pub elapsed_ms: u32,
    pub duration_ms: u32,
    pub completed: bool,
}

/// The playback clock.
pub enum PlaybackClock {
    Idle,
    TransitioningTo { target: ClockTarget, elapsed_ms: u32, duration_ms: u32, easing: Easing },
    Playing { timeline: AnimationTimeline, keyframe_index: usize, elapsed_ms: u32 },
}

pub enum ClockView {
    Idle,
    TransitioningTo { target: TargetView, elapsed_ms: u32, duration_ms: u32, easing: Easing },
    Playing { timeline: TimelineView, keyframe_index: usize, elapsed_ms: u32 },
}

impl View for PlaybackClock {
    type V = ClockView;

    open spec fn view(&self) -> ClockView {
        match self {
            PlaybackClock::Idle => ClockView::Idle,
            PlaybackClock::TransitioningTo { target, elapsed_ms, duration_ms, easing } =>
                ClockView::TransitioningTo {
                target: target@,
                elapsed_ms: *elapsed_ms,
                duration_ms: *duration_ms,
                easing: *easing,
            },
            PlaybackClock::Playing { timeline, keyframe_index, elapsed_ms } => ClockView::Playing {
                timeline: timeline@,
                keyframe_index: *keyframe_index,
                elapsed_ms: *elapsed_ms,
            },
        }
    }
}

/// `min(e + dt, d)`.
pub open spec fn advance_elapsed(e: u32, dt: u32, d: u32) -> u32 {
    if e + dt >= d {
        d
    } else {
        (e + dt) as u32
    }
}

/// Reachable clock states: elapsed never passes the segment's duration and
/// a playing clock points at an existing keyframe.
pub open spec fn clock_wf(c: ClockView) -> bool {
    match c {
        ClockView::Idle => true,
        ClockView::TransitioningTo { elapsed_ms, duration_ms, .. } => elapsed_ms <= duration_ms,
        ClockView::Playing { timeline, keyframe_index, elapsed_ms } => keyframe_index
            < timeline.durations.len() && elapsed_ms <= timeline.durations[keyframe_index as int],
    }
}

/// The state after a completed transition into `target`.
pub open spec fn after_transition(target: TargetView) -> ClockView {
    match target {
        TargetView::Pose => ClockView::Idle,
        TargetView::Animation(tl) => if tl.durations.len() > 1 {
            ClockView::Playing { timeline: tl, keyframe_index: 1, elapsed_ms: 0 }
        } else {
            ClockView::Idle
        },
    }
}

/// The state after keyframe `i` of `tl` completes.
pub open spec fn after_keyframe(tl: TimelineView, i: int) -> ClockView {
    if i + 1 >= tl.durations.len() {
        if tl.looping {
            ClockView::Playing { timeline: tl, keyframe_index: 0, elapsed_ms: 0 }
        } else {
            ClockView::Idle
        }
    } else {
        ClockView::Playing { timeline: tl, keyframe_index: (i + 1) as usize, elapsed_ms: 0 }
    }
}

/// The clock after advancing `c` by `dt` milliseconds.
pub open spec fn clock_next(c: ClockView, dt: u32) -> ClockView {
    match c {
        ClockView::Idle => ClockView::Idle,
        ClockView::TransitioningTo { target, elapsed_ms, duration_ms, easing } => {
            let e = advance_elapsed(elapsed_ms, dt, duration_ms);
            if e >= duration_ms {
                after_transition(target)
            } else {
                ClockView::TransitioningTo { target, elapsed_ms: e, duration_ms, easing }
            }
        },
        ClockView::Playing { timeline, keyframe_index, elapsed_ms } => {
            if keyframe_index >= timeline.durations.len() {
                ClockView::Idle
            } else {
                let d = timeline.durations[keyframe_index as int];
                let e = advance_elapsed(elapsed_ms, dt, d);
                if e >= d {
                    after_keyframe(timeline, keyframe_index as int)
                } else {
                    ClockView::Playing { timeline, keyframe_index, elapsed_ms: e }
                }
            }
        },
    }
}

/// The frame advancing `c` by `dt` milliseconds renders (`None` when the
/// rig should stay where it is).
pub open spec fn clock_frame(c: ClockView, dt: u32) -> Option<FrameSample> {
    match c {
        ClockView::Idle => None,
        ClockView::TransitioningTo { elapsed_ms, duration_ms, .. } => {
            let e = advance_elapsed(elapsed_ms, dt, duration_ms);
            Some(
                FrameSample {
                    segment: SampleSegment::Transition,
                    elapsed_ms: e,
                    duration_ms,
                    completed: e >= duration_ms,
                },
            )
        },
        ClockView::Playing { timeline, keyframe_index, elapsed_ms } => {
            if keyframe_index >= timeline.durations.len() {
                None
            } else {
                let d = timeline.durations[keyframe_index as int];
                let e = advance_elapsed(elapsed_ms, dt, d);
                Some(
                    FrameSample {
                        segment: SampleSegment::Keyframe(keyframe_index),
                        elapsed_ms: e,
                        duration_ms: d,
                        completed: e >= d,
                    },
                )
            }
        },
    }
}

fn add_elapsed(e: u32, dt: u32, d: u32) -> (r: u32)
    ensures
        r == advance_elapsed(e, dt, d),
{
    if e >= d || dt >= d - e {
        d
    } else {
        e + dt
    }
}

impl PlaybackClock {
    /// A clock holding still.
    pub fn new() -> (c: Self)
        ensures
            c@ == ClockView::Idle,
    {
        PlaybackClock::Idle
    }

    pub fn is_idle(&self) -> (b: bool)
        ensures
            b == (self@ is Idle),
    {
        match self {
            PlaybackClock::Idle => true,
            _ => false,
        }
    }

    /// Coarse mode for introspection.
    pub fn mode(&self) -> (m: PlaybackMode)
        ensures
            match self@ {
                ClockView::Idle => m == PlaybackMode::Idle,
                ClockView::TransitioningTo { .. } => m == PlaybackMode::Transitioning,
                ClockView::Playing { timeline, keyframe_index, .. } => m matches PlaybackMode::Playing {
                    animation,
                    keyframe_index: k,
                } && animation@ == timeline.name && k == keyframe_index,
            },
    {
        match self {
            PlaybackClock::Idle => PlaybackMode::Idle,
            PlaybackClock::TransitioningTo { .. } => PlaybackMode::Transitioning,
            PlaybackClock::Playing { timeline, keyframe_index, .. } => PlaybackMode::Playing {
                animation: timeline.name.clone(),
                keyframe_index: *keyframe_index,
            },
        }
    }

    /// Whether joint rotations of what is playing are absolute glTF locals.
    pub fn uses_vrm_local_rotations(&self) -> (b: bool)
        ensures
            b == match self@ {
                ClockView::Idle => false,
                ClockView::TransitioningTo { target, .. } => match target {
                    TargetView::Pose => false,
                    TargetView::Animation(tl) => tl.vrm_local_rotations,
                },
                ClockView::Playing { timeline, .. } => timeline.vrm_local_rotations,
            },
    {
        match self {
            PlaybackClock::Idle => false,
            PlaybackClock::TransitioningTo { target, .. } => match target {
                ClockTarget::Pose => false,
                ClockTarget::Animation(tl) => tl.vrm_local_rotations,
            },
            PlaybackClock::Playing { timeline, .. } => timeline.vrm_local_rotations,
        }
    }

    /// The segment the rig is showing right now, for snapshotting it when a
    /// new command interrupts: `None` while idle (the held pose is current).
    pub fn current_sample(&self) -> (r: Option<FrameSample>)
        ensures
            r == match self@ {
                ClockView::Idle => None,
                ClockView::TransitioningTo { elapsed_ms, duration_ms, .. } => Some(
                    FrameSample {
                        segment: SampleSegment::Transition,
                        elapsed_ms: elapsed_ms,
                        duration_ms: duration_ms,
                        completed: elapsed_ms >= duration_ms,
                    },
                ),
                ClockView::Playing { timeline, keyframe_index, elapsed_ms } => if keyframe_index
                    >= timeline.durations.len() {
                    None
                } else {
                    let d = timeline.durations[keyframe_index as int];
                    Some(
                        FrameSample {
                            segment: SampleSegment::Keyframe(keyframe_index),
                            elapsed_ms: if elapsed_ms > d {
                                d
                            } else {
                                elapsed_ms
                            },
                            duration_ms: d,
                            completed: elapsed_ms >= d,
                        },
                    )
                },
            },
    {
        match self {
            PlaybackClock::Idle => None,
            PlaybackClock::TransitioningTo { elapsed_ms, duration_ms, .. } => Some(
                FrameSample {
                    segment: SampleSegment::Transition,
                    elapsed_ms: *elapsed_ms,
                    duration_ms: *duration_ms,
                    completed: *elapsed_ms >= *duration_ms,
                },
            ),
            PlaybackClock::Playing { timeline, keyframe_index, elapsed_ms } => {
                if *keyframe_index >= timeline.keyframe_durations.len() {
                    None
                } else {
                    let d = timeline.keyframe_durations[*keyframe_index];
                    Some(
                        FrameSample {
                            segment: SampleSegment::Keyframe(*keyframe_index),
                            elapsed_ms: if *elapsed_ms > d {
                                d
                            } else {
                                *elapsed_ms
                            },
                            duration_ms: d,
                            completed: *elapsed_ms >= d,
                        },
                    )
                }
            },
        }
    }

    /// Begins a transition into `target` over `transition_ms` (ease-in-out),
    /// starting from whatever the rig currently shows.
    pub fn interrupt(&mut self, target: ClockTarget, transition_ms: u32)
        ensures
            final(self)@ == (ClockView::TransitioningTo {
                target: target@,
                elapsed_ms: 0,
                duration_ms: transition_ms,
                easing: Easing::EaseInOut,
            }),
            clock_wf(final(self)@),
    {
        *self = PlaybackClock::TransitioningTo {
            target,
            elapsed_ms: 0,
            duration_ms: transition_ms,
            easing: Easing::EaseInOut,
        };
    }

    /// Advances the clock by `dt_ms`, returning this frame's sample (`None`
    /// while idle).
    pub fn advance(&mut self, dt_ms: u32) -> (r: Option<FrameSample>)
        ensures
            final(self)@ == clock_next(old(self)@, dt_ms),
            r == clock_frame(old(self)@, dt_ms),
    {
        let mut state = PlaybackClock::Idle;
        std::mem::swap(&mut state, self);
        match state {
            PlaybackClock::Idle => None,
            PlaybackClock::TransitioningTo { target, elapsed_ms, duration_ms, easing } => {
                let e = add_elapsed(elapsed_ms, dt_ms, duration_ms);
                let sample = FrameSample {
                    segment: SampleSegment::Transition,
                    elapsed_ms: e,
                    duration_ms,
                    completed: e >= duration_ms,
                };
                if e >= duration_ms {
                    match target {
                        ClockTarget::Pose => {},
                        ClockTarget::Animation(tl) => {
                            if tl.keyframe_durations.len() > 1 {
                                *self = PlaybackClock::Playing {
                                    timeline: tl,
                                    keyframe_index: 1,
                                    elapsed_ms: 0,
                                };
                            }
                        },
                    }
                } else {
                    *self = PlaybackClock::TransitioningTo {
                        target,
                        elapsed_ms: e,
                        duration_ms,
                        easing,
                    };
                }
                Some(sample)
            },
            PlaybackClock::Playing { timeline, keyframe_index, elapsed_ms } => {
                if keyframe_index >= timeline.keyframe_durations.len() {
                    return None;
                }
                let d = timeline.keyframe_durations[keyframe_index];
                let e = add_elapsed(elapsed_ms, dt_ms, d);
                let sample = FrameSample {
                    segment: SampleSegment::Keyframe(keyframe_index),
                    elapsed_ms: e,
                    duration_ms: d,
                    completed: e >= d,
                };
                if e >= d {
                    let next_index = keyframe_index + 1;
                    if next_index >= timeline.keyframe_durations.len() {
                        if timeline.looping {
                            *self = PlaybackClock::Playing {
                                timeline,
                                keyframe_index: 0,
                                elapsed_ms: 0,
                            };
                        }
                    } else {
                        *self = PlaybackClock::Playing {
                            timeline,
                            keyframe_index: next_index,
                            elapsed_ms: 0,
                        };
                    }
                } else {
                    *self = PlaybackClock::Playing { timeline, keyframe_index, elapsed_ms: e };
                }
                Some(sample)
            },
        }
    }
}

} // verus!

verus! {

/// The clock after advancing by each frame time of `dts` in turn.
pub open spec fn clock_run(c: ClockView, dts: Seq<u32>) -> ClockView
    decreases dts.len(),
{
    if dts.len() == 0 {
        c
    } else {
        clock_run(clock_next(c, dts[0]), dts.drop_first())
    }
}

/// Law: advancing keeps the clock in a reachable state (elapsed within the
/// segment, playing index within the animation).
pub proof fn lemma_advance_keeps_wf(c: ClockView, dt: u32)
    requires
        clock_wf(c),
    ensures
        clock_wf(clock_next(c, dt)),
{
}

/// Law: once idle, the clock stays idle and renders nothing until the next
/// interrupt.
pub proof fn lemma_idle_holds(dts: Seq<u32>)
    ensures
        clock_run(ClockView::Idle, dts) == ClockView::Idle,
    decreases dts.len(),
{
    if dts.len() > 0 {
        lemma_idle_holds(dts.drop_first());
    }
}

/// Law: a transition into a pose arrives exactly at the target (the frame
/// samples the full duration) and the clock goes idle, as soon as the frame
/// time covers what remains of the transition.
pub proof fn lemma_pose_transition_arrives(elapsed: u32, duration: u32, easing: Easing, dt: u32)
    requires
        elapsed <= duration,
        dt >= duration - elapsed,
    ensures
        clock_next(
            ClockView::TransitioningTo {
                target: TargetView::Pose,
                elapsed_ms: elapsed,
                duration_ms: duration,
                easing,
            },
            dt,
        ) == ClockView::Idle,
        clock_frame(
            ClockView::TransitioningTo {
                target: TargetView::Pose,
                elapsed_ms: elapsed,
                duration_ms: duration,
                easing,
            },
            dt,
        ) == Some(
            FrameSample {
                segment: SampleSegment::Transition,
                elapsed_ms: duration,
                duration_ms: duration,
                completed: true,
            },
        ),
{
}

/// A looping animation (with at least two keyframes) is playing or being
/// transitioned into.
pub open spec fn looping_active(c: ClockView) -> bool {
    match c {
        ClockView::Playing { timeline, .. } => timeline.looping,
        ClockView::TransitioningTo { target, .. } => match target {
            TargetView::Animation(tl) => tl.looping && tl.durations.len() > 1,
            TargetView::Pose => false,
        },
        ClockView::Idle => false,
    }
}

/// Law: a looping animation never goes idle on its own, however the frames
/// are timed. (A looping animation with a single keyframe is excluded: the
/// transition into it ends the playback.)
pub proof fn lemma_looping_never_idle(c: ClockView, dts: Seq<u32>)
    requires
        clock_wf(c),
        looping_active(c),
    ensures
        !(clock_run(c, dts) is Idle),
        looping_active(clock_run(c, dts)),
    decreases dts.len(),
{
    if dts.len() > 0 {
        let n = clock_next(c, dts[0]);
        assert(looping_active(n) && clock_wf(n));
        lemma_looping_never_idle(n, dts.drop_first());
    }
}

/// Every frame time in `dts` covers every keyframe's duration.
pub open spec fn frames_cover(dts: Seq<u32>, durations: Seq<u32>) -> bool {
    forall|k: int, j: int|
        0 <= k < dts.len() && 0 <= j < durations.len() ==> #[trigger] dts[k] >= #[trigger] durations[j]
}

/// Law: a one-shot animation finishes. Playing keyframe `i` of a
/// non-looping animation, frames each at least as long as any keyframe
/// bring the clock to idle within as many frames as keyframes remain.
pub proof fn lemma_one_shot_finishes(
    tl: TimelineView,
    index: usize,
    elapsed: u32,
    dts: Seq<u32>,
)
    requires
        !tl.looping,
        tl.durations.len() <= usize::MAX,
        index < tl.durations.len(),
        elapsed <= tl.durations[index as int],
        frames_cover(dts, tl.durations),
        dts.len() >= tl.durations.len() - index,
    ensures
        clock_run(
            ClockView::Playing { timeline: tl, keyframe_index: index, elapsed_ms: elapsed },
            dts,
        ) == ClockView::Idle,
    decreases tl.durations.len() - index,
{
    let c = ClockView::Playing { timeline: tl, keyframe_index: index, elapsed_ms: elapsed };
    assert(dts[0] >= tl.durations[index as int]);
    let rest = dts.drop_first();
    assert(frames_cover(rest, tl.durations)) by {
        assert forall|k: int, j: int|
            0 <= k < rest.len() && 0 <= j < tl.durations.len() implies #[trigger] rest[k]
            >= #[trigger] tl.durations[j] by {
            assert(rest[k] == dts[k + 1]);
        }
    }
    if index + 1 >= tl.durations.len() {
        assert(clock_next(c, dts[0]) == ClockView::Idle);
        lemma_idle_holds(rest);
    } else {
        assert(clock_next(c, dts[0]) == ClockView::Playing {
            timeline: tl,
            keyframe_index: (index + 1) as usize,
            elapsed_ms: 0,
        });
        lemma_one_shot_finishes(tl, (index + 1) as usize, 0, rest);
    }
}

/// Law: scrubbing agrees with playback. While keyframe `i` of a one-shot
/// animation plays with `e > 0` milliseconds into its blend, sampling the
/// animation at its timeline position (the arrival of keyframe `i - 1` plus
/// `e`) lands on the same segment at the same progress.
pub proof fn lemma_scrub_matches_playback(tl: TimelineView, i: usize, e: u32)
    requires
        1 <= i < tl.durations.len(),
        0 < e <= tl.durations[i as int],
        crate::timeline::playable_total(tl.durations) <= u32::MAX,
    ensures
        crate::timeline::time_point(tl.durations, false, (arrival(tl.durations, i - 1) + e) as nat)
            == (crate::timeline::AnimationTimePoint::InSegment { index: i, elapsed_ms: e }),
{
    let d = tl.durations;
    let t = (arrival(d, i - 1) + e) as nat;
    lemma_arrival_step(d, i as int);
    lemma_arrival_mono(d, i as int, d.len() - 1);
    assert(crate::timeline::effective_time(d, false, t) == t);
    assert(crate::timeline::in_segment(d, t, i as int));
    let s = crate::timeline::segment_at(d, t);
    crate::timeline::lemma_in_segment_unique(d, t, i as int, s);
}

/// The playable length of an animation: the sum of every keyframe's duration
/// but the first (the timeline once the rig has reached keyframe 1).
pub fn animation_playable_duration_ms<S>(animation: &Animation<S>) -> (r: u32)
    requires
        crate::timeline::playable_total(
            animation.keyframes@.map_values(|k: crate::model::Keyframe<S>| k.duration_ms),
        ) <= u32::MAX,
    ensures
        r == crate::timeline::playable_total(
            animation.keyframes@.map_values(|k: crate::model::Keyframe<S>| k.duration_ms),
        ),
{
    let tl = AnimationTimeline::of(animation);
    let ghost d = animation.keyframes@.map_values(|k: crate::model::Keyframe<S>| k.duration_ms);
    assert(tl.keyframe_durations@ =~= d);
    if tl.keyframe_durations.len() == 0 {
        proof {
            lemma_arrival_basics(d, -1);
        }
        return 0;
    }
    let mut total: u32 = 0;
    let mut i: usize = 1;
    proof {
        lemma_arrival_basics(d, 0);
    }
    while i < tl.keyframe_durations.len()
        invariant
            1 <= i <= d.len(),
            tl.keyframe_durations@ == d,
            crate::timeline::playable_total(d) <= u32::MAX,
            total == arrival(d, i - 1),
        decreases d.len() - i,
    {
        proof {
            lemma_arrival_step(d, i as int);
            lemma_arrival_mono(d, i as int, d.len() - 1);
        }
        total = total + tl.keyframe_durations[i];
        i = i + 1;
    }
    total
}

/// Law: keyframes play in order. When keyframe `i` completes within a
/// frame, the clock starts keyframe `i + 1` from zero; after the last
/// keyframe a looping animation starts over at keyframe 0 (blending back
/// into its pose) and a one-shot animation goes idle.
pub proof fn lemma_keyframe_completes_in_order(tl: TimelineView, i: usize, e: u32, dt: u32)
    requires
        i < tl.durations.len(),
        e + dt >= tl.durations[i as int],
    ensures
        clock_next(ClockView::Playing { timeline: tl, keyframe_index: i, elapsed_ms: e }, dt) == if i + 1
            < tl.durations.len() {
            ClockView::Playing { timeline: tl, keyframe_index: (i + 1) as usize, elapsed_ms: 0 }
        } else if tl.looping {
            ClockView::Playing { timeline: tl, keyframe_index: 0, elapsed_ms: 0 }
        } else {
            ClockView::Idle
        },
{
}

/// Law: within a keyframe the clock just moves on. While keyframe `i` has
/// not completed, a frame of `dt` stays on keyframe `i`, `dt` further in,
/// and renders keyframe `i` at that progress; the frame that reaches its
/// duration renders it fully arrived and completed.
pub proof fn lemma_keyframe_frame(tl: TimelineView, i: usize, e: u32, dt: u32)
    requires
        i < tl.durations.len(),
        e <= tl.durations[i as int],
    ensures
        e + dt < tl.durations[i as int] ==> clock_next(
            ClockView::Playing { timeline: tl, keyframe_index: i, elapsed_ms: e },
            dt,
        ) == (ClockView::Playing { timeline: tl, keyframe_index: i, elapsed_ms: (e + dt) as u32 }),
        clock_frame(ClockView::Playing { timeline: tl, keyframe_index: i, elapsed_ms: e }, dt) == Some(
            FrameSample {
                segment: SampleSegment::Keyframe(i),
                elapsed_ms: if e + dt >= tl.durations[i as int] {
                    tl.durations[i as int]
                } else {
                    (e + dt) as u32
                },
                duration_ms: tl.durations[i as int],
                completed: e + dt >= tl.durations[i as int],
            },
        ),
{
}

/// Law: a transition runs for its duration and then hands over. Before the
/// end it is `dt` further in; at the end a pose target leaves the clock
/// idle, and an animation target starts keyframe 1 from zero (keyframe 0 is
/// the pose the transition blended into), or idles when the animation has a
/// single keyframe.
pub proof fn lemma_transition_hands_over(target: TargetView, e: u32, d: u32, easing: Easing, dt: u32)
    requires
        e <= d,
    ensures
        e + dt < d ==> clock_next(
            ClockView::TransitioningTo { target, elapsed_ms: e, duration_ms: d, easing },
            dt,
        ) == (ClockView::TransitioningTo { target, elapsed_ms: (e + dt) as u32, duration_ms: d, easing }),
        e + dt >= d ==> clock_next(
            ClockView::TransitioningTo { target, elapsed_ms: e, duration_ms: d, easing },
            dt,
        ) == match target {
            TargetView::Pose => ClockView::Idle,
            TargetView::Animation(tl) => if tl.durations.len() > 1 {
                ClockView::Playing { timeline: tl, keyframe_index: 1, elapsed_ms: 0 }
            } else {
                ClockView::Idle
            },
        },
{
}

/// Playing keyframes `k..` of a looping animation with frames that each
/// complete one keyframe comes back to keyframe 0.
proof fn lemma_loop_tail(tl: TimelineView, k: usize, dts: Seq<u32>)
    requires
        tl.looping,
        tl.durations.len() <= usize::MAX,
        k < tl.durations.len(),
        dts.len() == tl.durations.len() - k,
        forall|j: int| 0 <= j < dts.len() ==> #[trigger] dts[j] >= tl.durations[k + j],
    ensures
        clock_run(ClockView::Playing { timeline: tl, keyframe_index: k, elapsed_ms: 0 }, dts)
            == (ClockView::Playing { timeline: tl, keyframe_index: 0, elapsed_ms: 0 }),
    decreases tl.durations.len() - k,
{
    let c = ClockView::Playing { timeline: tl, keyframe_index: k, elapsed_ms: 0 };
    assert(dts[0] >= tl.durations[k as int]);
    lemma_keyframe_completes_in_order(tl, k, 0, dts[0]);
    let rest = dts.drop_first();
    assert(clock_run(c, dts) == clock_run(clock_next(c, dts[0]), rest));
    if k + 1 < tl.durations.len() {
        assert forall|j: int| 0 <= j < rest.len() implies #[trigger] rest[j] >= tl.durations[(k + 1) + j] by {
            assert(rest[j] == dts[j + 1]);
        }
        lemma_loop_tail(tl, (k + 1) as usize, rest);
    } else {
        assert(rest.len() == 0);
    }
}

/// Law: a looping animation cycles through every keyframe in order. From
/// the start of keyframe 0, frames that each complete the keyframe playing
/// (one per keyframe, in order) bring the clock back to the start of
/// keyframe 0.
pub proof fn lemma_loop_cycles(tl: TimelineView, dts: Seq<u32>)
    requires
        tl.looping,
        0 < tl.durations.len() <= usize::MAX,
        dts.len() == tl.durations.len(),
        forall|j: int| 0 <= j < dts.len() ==> #[trigger] dts[j] >= tl.durations[j],
    ensures
        clock_run(ClockView::Playing { timeline: tl, keyframe_index: 0, elapsed_ms: 0 }, dts)
            == (ClockView::Playing { timeline: tl, keyframe_index: 0, elapsed_ms: 0 }),
{
    lemma_loop_tail(tl, 0, dts);
}

} // verus!
