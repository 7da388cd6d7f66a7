use paperdoll::model::{Animation, Easing, JointTarget, Keyframe, Pose};
use paperdoll::named_map::NamedMap;
use paperdoll::playback::{
    animation_playable_duration_ms, AnimationTimeline, ClockTarget, FrameSample, PlaybackClock,
    PlaybackMode, PlaybackStatus, SampleSegment,
};
use paperdoll::timeline::{locate_animation_time, AnimationTimePoint};

fn pose_with_rotation(name: &str, joint: &str, z_deg: f32) -> Pose<f32> {
    let mut joints = NamedMap::new();
    joints.insert(
        joint.chars().collect(),
        JointTarget {
            rotation_deg: Some(paperdoll::model::EulerDeg { x: 0.0, y: 0.0, z: z_deg }),
            rotation_quat: None,
            translation: None,
        },
    );
    Pose {
        name: name.into(),
        description: None,
        joints,
        camera: None,
        expressions: NamedMap::new(),
        hold_joints: false,
    }
}

fn animation(name: &str, looping: bool, keyframes: Vec<(&str, f32, u32)>) -> Animation<f32> {
    Animation {
        name: name.into(),
        description: None,
        looping,
        vrm_local_rotations: false,
        play_automatically: false,
        keyframes: keyframes
            .into_iter()
            .map(|(n, z, d)| Keyframe::for_test(pose_with_rotation(n, "right_shoulder", z), d, Easing::Linear))
            .collect(),
    }
}

#[test]
fn transition_to_pose_reaches_target_and_goes_idle() {
    let mut state = PlaybackClock::new();
    state.interrupt(ClockTarget::Pose, 500);
    // Halfway through, the frame blends halfway from the live pose to the target.
    let mid = state.advance(250).unwrap();
    assert_eq!(
        mid,
        FrameSample { segment: SampleSegment::Transition, elapsed_ms: 250, duration_ms: 500, completed: false }
    );
    assert!(!state.is_idle());
    // After the full duration, the target is reached and the clock goes idle.
    let end = state.advance(250).unwrap();
    assert_eq!(end.elapsed_ms, end.duration_ms);
    assert!(end.completed);
    assert!(state.is_idle());
    assert_eq!(state.advance(16), None);
}

#[test]
fn animation_playback_advances_through_keyframes_and_stops() {
    let anim = animation(
        "test_anim",
        false,
        vec![("start", 0.0, 100), ("mid", -45.0, 200), ("end", 0.0, 200)],
    );
    let mut state = PlaybackClock::new();
    state.interrupt(ClockTarget::Animation(AnimationTimeline::of(&anim)), 100);
    let mut last = None;
    for _ in 0..20 {
        if let Some(sample) = state.advance(50) {
            last = Some(sample);
        }
    }
    assert!(state.is_idle(), "animation should finish and go idle");
    // The last frame shows the final keyframe fully reached.
    let last = last.unwrap();
    assert_eq!(last.segment, SampleSegment::Keyframe(2));
    assert!(last.completed);
    assert_eq!(last.elapsed_ms, 200);
}

#[test]
fn looping_animation_never_goes_idle() {
    let anim = animation("loop_anim", true, vec![("a", 0.0, 100), ("b", -45.0, 100)]);
    let mut state = PlaybackClock::new();
    state.interrupt(ClockTarget::Animation(AnimationTimeline::of(&anim)), 0);
    for _ in 0..50 {
        state.advance(50);
    }
    assert!(!state.is_idle(), "looping animation should keep playing");
}

#[test]
fn pose_at_animation_time_matches_playback_mid_segment() {
    let anim = animation("scrub", false, vec![("start", 0.0, 0), ("end", -90.0, 1000)]);
    let timeline = AnimationTimeline::of(&anim);
    let at_half = locate_animation_time(&timeline.keyframe_durations, anim.looping, 500);
    let mut state = PlaybackClock::new();
    state.interrupt(ClockTarget::Animation(AnimationTimeline::of(&anim)), 0);
    state.advance(1);
    let playing_mid = state.advance(500).unwrap();
    assert_eq!(at_half, AnimationTimePoint::InSegment { index: 1, elapsed_ms: 500 });
    assert_eq!(playing_mid.segment, SampleSegment::Keyframe(1));
    assert_eq!(playing_mid.elapsed_ms, 500);
}

#[test]
fn interrupt_restarts_a_transition_from_the_live_frame() {
    let mut state = PlaybackClock::new();
    state.interrupt(ClockTarget::Pose, 1000);
    state.advance(500);
    assert_eq!(state.current_sample().unwrap().elapsed_ms, 500);
    state.interrupt(ClockTarget::Pose, 1000);
    let first = state.advance(1).unwrap();
    assert_eq!(first.segment, SampleSegment::Transition);
    assert_eq!(first.elapsed_ms, 1);
    assert_eq!(first.duration_ms, 1000);
}

#[test]
fn single_keyframe_animation_goes_idle_after_transition() {
    let anim = animation("one", false, vec![("a", 0.0, 100)]);
    let mut state = PlaybackClock::new();
    state.interrupt(ClockTarget::Animation(AnimationTimeline::of(&anim)), 10);
    let s = state.advance(10).unwrap();
    assert!(s.completed);
    assert!(state.is_idle());
}

#[test]
fn mode_and_status_follow_the_clock() {
    let anim = animation("wave", false, vec![("a", 0.0, 0), ("b", 10.0, 100)]);
    let mut state = PlaybackClock::new();
    assert_eq!(state.mode(), PlaybackMode::Idle);
    let idle = PlaybackStatus::from_mode(&state.mode());
    assert_eq!(idle.mode, "idle");
    assert_eq!(idle.animation, None);
    state.interrupt(ClockTarget::Animation(AnimationTimeline::of(&anim)), 10);
    assert_eq!(state.mode(), PlaybackMode::Transitioning);
    assert_eq!(PlaybackStatus::from_mode(&state.mode()).mode, "transitioning");
    assert!(!state.uses_vrm_local_rotations());
    state.advance(10);
    let playing = PlaybackStatus::from_mode(&state.mode());
    assert_eq!(playing.mode, "playing");
    assert_eq!(playing.animation.as_deref(), Some("wave"));
    assert_eq!(playing.keyframe_index, Some(1));
}

#[test]
fn playable_duration_skips_the_first_keyframe() {
    let anim = animation("d", false, vec![("a", 0.0, 100), ("b", 0.0, 200), ("c", 0.0, 200)]);
    assert_eq!(animation_playable_duration_ms(&anim), 400);
}

#[test]
fn keyframe_for_test_records_the_pose_inline() {
    let p = pose_with_rotation("x", "head", 5.0);
    let k = Keyframe::for_test(p, 300, Easing::EaseOut);
    assert_eq!(k.duration_ms, 300);
    assert_eq!(k.authoring.pose, None);
    assert_eq!(k.authoring.joints.as_ref().map(|j| j.len()), Some(1));
    assert!(k.authoring.expressions.is_none());
    assert_eq!(k.authoring.hold, None);
    assert_eq!(k.authoring.easing, Easing::EaseOut);
}
