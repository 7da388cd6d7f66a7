use paperdoll::model::{Easing, EulerDeg, JointTarget, KeyframeSpec, Pose};
use paperdoll::named_map::NamedMap;
use paperdoll::timeline::{
    clamp_blend_ms, find_split_point, keyframe_arrival_ms, keyframe_spec_from_pose, keyframe_durations, keyframe_label,
    locate_animation_time, playable_total_ms, set_keyframe_duration, split_keyframes_at_playhead,
    AnimationTimePoint, AnimationTimelineResponse, MIN_BLEND_MS, block_style, moved_duration_ms,
    ruler_tick_step_ms, trimmed_duration_ms, BlockFill,
};

fn kf(duration_ms: u32) -> KeyframeSpec<f32> {
    KeyframeSpec {
        pose: Some("idle".to_string()),
        joints: None,
        camera: None,
        expressions: None,
        hold: None,
        duration_ms,
        easing: Easing::Linear,
    }
}

fn inline_kf(duration_ms: u32) -> KeyframeSpec<f32> {
    KeyframeSpec {
        pose: None,
        joints: Some(NamedMap::new()),
        camera: None,
        expressions: None,
        hold: None,
        duration_ms,
        easing: Easing::EaseIn,
    }
}

#[test]
fn arrival_ms_accumulates_blend_durations() {
    let keyframes = vec![kf(0), kf(400), kf(300), kf(540)];
    assert_eq!(keyframe_arrival_ms(&keyframes, 0), 0);
    assert_eq!(keyframe_arrival_ms(&keyframes, 1), 400);
    assert_eq!(keyframe_arrival_ms(&keyframes, 2), 700);
    assert_eq!(keyframe_arrival_ms(&keyframes, 3), 1240);
}

#[test]
fn set_duration_clamps_minimum() {
    let mut keyframes = vec![kf(0), kf(400)];
    set_keyframe_duration(&mut keyframes, 1, 5);
    assert_eq!(keyframes[1].duration_ms, MIN_BLEND_MS);
}

#[test]
fn arrival_past_the_end_is_clamped_to_the_last_keyframe() {
    let keyframes = vec![kf(0), kf(400), kf(300)];
    assert_eq!(keyframe_arrival_ms(&keyframes, 9), 700);
}

#[test]
fn playable_total_skips_the_first_duration() {
    let keyframes = vec![kf(250), kf(400), kf(300)];
    assert_eq!(playable_total_ms(&keyframes), 700);
    let none: Vec<KeyframeSpec<f32>> = Vec::new();
    assert_eq!(playable_total_ms(&none), 0);
    assert_eq!(keyframe_durations(&keyframes), vec![250, 400, 300]);
}

#[test]
fn clamp_blend_keeps_longer_durations() {
    assert_eq!(clamp_blend_ms(0), 40);
    assert_eq!(clamp_blend_ms(40), 40);
    assert_eq!(clamp_blend_ms(41), 41);
}

#[test]
fn set_duration_ignores_first_and_out_of_range() {
    let mut keyframes = vec![kf(0), kf(400)];
    set_keyframe_duration(&mut keyframes, 0, 900);
    set_keyframe_duration(&mut keyframes, 5, 900);
    assert_eq!(keyframes[0].duration_ms, 0);
    assert_eq!(keyframes[1].duration_ms, 400);
    set_keyframe_duration(&mut keyframes, 1, 900);
    assert_eq!(keyframes[1].duration_ms, 900);
}

#[test]
fn split_inserts_a_keyframe_and_keeps_the_timing() {
    let mut keyframes = vec![kf(0), kf(400), kf(300)];
    let mut sampled = inline_kf(12345);
    sampled.hold = Some(true);
    let seg = split_keyframes_at_playhead(&mut keyframes, 500, sampled);
    assert_eq!(seg, Some(2));
    assert_eq!(keyframes.len(), 4);
    assert_eq!(keyframes[2].duration_ms, 100);
    assert_eq!(keyframes[2].easing, Easing::Linear);
    assert_eq!(keyframes[2].pose, None);
    assert_eq!(keyframes[2].hold, Some(true));
    assert_eq!(keyframes[3].duration_ms, 200);
    assert_eq!(keyframe_arrival_ms(&keyframes, 3), 700);
    assert_eq!(playable_total_ms(&keyframes), 700);
}

#[test]
fn split_is_refused_on_boundaries_and_short_halves() {
    let mut keyframes = vec![kf(0), kf(400), kf(300)];
    assert_eq!(split_keyframes_at_playhead(&mut keyframes, 400, inline_kf(0)), None);
    assert_eq!(split_keyframes_at_playhead(&mut keyframes, 0, inline_kf(0)), None);
    assert_eq!(split_keyframes_at_playhead(&mut keyframes, 420, inline_kf(0)), None);
    assert_eq!(split_keyframes_at_playhead(&mut keyframes, 690, inline_kf(0)), None);
    assert_eq!(split_keyframes_at_playhead(&mut keyframes, 900, inline_kf(0)), None);
    assert_eq!(keyframes.len(), 3);
    let mut single = vec![kf(0)];
    assert_eq!(split_keyframes_at_playhead(&mut single, 10, inline_kf(0)), None);
}

#[test]
fn split_point_reports_both_halves() {
    let p = find_split_point(&[0, 400, 300], 100).unwrap();
    assert_eq!(p.segment, 1);
    assert_eq!(p.first_ms, 100);
    assert_eq!(p.second_ms, 300);
}

#[test]
fn locate_time_finds_segments_and_wraps_when_looping() {
    let d = [0, 100, 200];
    assert_eq!(locate_animation_time(&[], false, 10), AnimationTimePoint::Empty);
    assert_eq!(locate_animation_time(&[50], false, 10), AnimationTimePoint::AtFirst);
    assert_eq!(locate_animation_time(&d, false, 0), AnimationTimePoint::AtFirst);
    assert_eq!(
        locate_animation_time(&d, false, 50),
        AnimationTimePoint::InSegment { index: 1, elapsed_ms: 50 }
    );
    assert_eq!(
        locate_animation_time(&d, false, 100),
        AnimationTimePoint::InSegment { index: 1, elapsed_ms: 100 }
    );
    assert_eq!(
        locate_animation_time(&d, false, 250),
        AnimationTimePoint::InSegment { index: 2, elapsed_ms: 150 }
    );
    assert_eq!(
        locate_animation_time(&d, false, 999),
        AnimationTimePoint::InSegment { index: 2, elapsed_ms: 200 }
    );
    assert_eq!(
        locate_animation_time(&d, true, 350),
        AnimationTimePoint::InSegment { index: 1, elapsed_ms: 50 }
    );
}

#[test]
fn keyframe_labels_name_the_pose_or_inline_joints() {
    let mut posed = kf(0);
    assert_eq!(keyframe_label(&posed, 0), "#0 idle");
    posed.camera = Some(paperdoll::model::CameraTarget {
        yaw_deg: Some(10.0),
        pitch_deg: None,
        distance: None,
        look_at: None,
    });
    assert_eq!(keyframe_label(&posed, 12), "#12 idle [cam]");
    assert_eq!(keyframe_label(&inline_kf(0), 3), "#3 (inline)");
    let mut empty = kf(0);
    empty.pose = None;
    assert_eq!(keyframe_label(&empty, 7), "#7 (empty)");
}

#[test]
fn timeline_response_starts_empty() {
    let r = AnimationTimelineResponse::none();
    assert_eq!(r.selected_keyframe, None);
    assert_eq!(r.playhead_ms, None);
    assert_eq!(r.preview_camera_keyframe, None);
    assert!(!r.timing_edited);
}

#[test]
fn captured_poses_become_inline_keyframes() {
    let mut joints = NamedMap::new();
    joints.insert(
        "head".chars().collect(),
        JointTarget { rotation_deg: Some(EulerDeg { x: 1.0, y: 2.0, z: 3.0 }), rotation_quat: None, translation: None },
    );
    let draft = Pose { name: "split".into(), description: None, joints, camera: None, expressions: NamedMap::new(), hold_joints: false };
    let k = keyframe_spec_from_pose(draft, 250, Easing::EaseOut);
    assert!(k.pose.is_none());
    assert_eq!(k.joints.as_ref().map(|j| j.len()), Some(1));
    assert!(k.expressions.is_none());
    assert_eq!(k.duration_ms, 250);
    assert_eq!(k.easing, Easing::EaseOut);
    assert_eq!(Easing::EaseInOut.wire_name(), "ease_in_out");
    assert_eq!(Easing::ALL.len(), 5);
}

#[test]
fn trimming_measures_from_the_previous_arrival() {
    let ks = vec![kf(0), kf(300), kf(500)];
    assert_eq!(trimmed_duration_ms(&ks, 2, 1000), 700);
    assert_eq!(trimmed_duration_ms(&ks, 2, 310), MIN_BLEND_MS);
    assert_eq!(trimmed_duration_ms(&ks, 2, 100), MIN_BLEND_MS);
    assert_eq!(trimmed_duration_ms(&ks, 1, 250), 250);
}

#[test]
fn dragging_a_block_keeps_the_minimum_blend() {
    assert_eq!(moved_duration_ms(300, 120), 420);
    assert_eq!(moved_duration_ms(300, -280), MIN_BLEND_MS);
    assert_eq!(moved_duration_ms(300, -900), MIN_BLEND_MS);
    assert_eq!(moved_duration_ms(u32::MAX, 100), 99);
    assert_eq!(moved_duration_ms(0x8000_0000, 5), MIN_BLEND_MS);
}

#[test]
fn ruler_picks_the_first_step_wide_enough() {
    assert_eq!(ruler_tick_step_ms(0), 10);
    assert_eq!(ruler_tick_step_ms(26), 50);
    assert_eq!(ruler_tick_step_ms(1000), 1000);
    assert_eq!(ruler_tick_step_ms(10_001), 10_000);
}

#[test]
fn blocks_show_selection_reference_and_overrides() {
    let mut k = kf(100);
    assert_eq!(block_style(&k, true), (BlockFill::Selected, false));
    assert_eq!(block_style(&k, false), (BlockFill::PoseRef, false));
    k.pose = None;
    let mut j = NamedMap::new();
    j.insert("head".chars().collect(), JointTarget { rotation_deg: None, rotation_quat: None, translation: None });
    k.joints = Some(j);
    assert_eq!(block_style(&k, false), (BlockFill::Inline, true));
    k.joints = Some(NamedMap::new());
    assert_eq!(block_style(&k, false), (BlockFill::Inline, false));
}
