use paperdoll::idle::auto_play_pool;
use paperdoll::model::Animation;
use paperdoll::named_map::NamedMap;
use paperdoll::doll::{is_face_joint, is_finger_joint, skip_bone, skip_marker};
use paperdoll::idle::{BoredPlay, BoredStep, IdleRevert};

#[test]
fn revert_waits_for_the_timeout_then_fires_once() {
    let mut r = IdleRevert::new();
    assert_eq!(r.default_pose_name, "idle");
    r.note_pose_command(1_000);
    assert!(!r.should_revert(5_000, false, true));
    assert!(!r.should_revert(11_000, false, false));
    assert!(!r.should_revert(11_000, true, true));
    assert!(r.should_revert(11_000, false, true));
    r.note_reverted();
    assert!(r.is_holding_default_pose());
    assert!(!r.should_revert(99_000, false, true));
    r.note_pose_command(100_000);
    assert!(!r.is_holding_default_pose());
}

#[test]
fn a_finished_animation_returns_at_once() {
    let mut r = IdleRevert::new();
    r.note_animation_command(2_000);
    r.note_frame(false);
    assert!(!r.pending_after_animation);
    r.note_frame(true);
    assert!(r.pending_after_animation);
    assert!(!r.expect_return_after_animation);
    assert!(r.should_revert(2_010, false, true));
    assert!(!r.pending_after_animation);
}

#[test]
fn the_editor_holds_the_rig() {
    let mut r = IdleRevert::new();
    r.note_animation_command(0);
    r.note_frame(true);
    r.hold_for_editor(50_000);
    assert!(!r.pending_after_animation);
    assert_eq!(r.last_activity_ms, 50_000);
    assert!(!r.should_revert(55_000, false, true));
    assert!(!r.should_revert(10, false, true));
}

#[test]
fn bored_autoplay_arms_then_plays_each_interval() {
    let mut b = BoredPlay::from_launch(true, 200);
    assert_eq!(b.interval_ms, 1_000);
    assert_eq!(b.tick(500, false, true, true, 3), BoredStep::Wait);
    assert!(b.armed);
    assert_eq!(b.last_play_ms, 500);
    assert_eq!(b.tick(1_200, false, true, true, 3), BoredStep::Wait);
    assert_eq!(b.tick(1_500, false, true, true, 3), BoredStep::PlayFromPool);
    b.note_played(1_500);
    assert_eq!(b.tick(2_000, false, true, true, 3), BoredStep::Wait);
    assert_eq!(b.tick(2_600, true, true, true, 3), BoredStep::Wait);
    assert_eq!(b.tick(2_600, false, true, true, 0), BoredStep::Wait);
    assert_eq!(b.last_play_ms, 2_600);
    b.note_directed_playback(9_000);
    assert_eq!(b.tick(9_500, false, true, true, 3), BoredStep::Wait);
    let mut off = BoredPlay::from_launch(false, 5_000);
    assert_eq!(off.tick(100_000, false, true, true, 3), BoredStep::Wait);
    assert!(!off.armed);
}

#[test]
fn procedural_doll_skips_face_finger_and_hip_segments() {
    assert!(is_face_joint("left_pupil"));
    assert!(!is_face_joint("head"));
    assert!(is_finger_joint("right_little_distal"));
    assert!(!is_finger_joint("right_wrist"));
    assert!(skip_bone("left_hip"));
    assert!(skip_bone("jaw"));
    assert!(!skip_bone("left_knee"));
    assert!(skip_marker("right_index_proximal"));
    assert!(!skip_marker("spine"));
}

#[test]
fn bored_pool_lists_auto_play_animations_in_library_order() {
    let mut lib: NamedMap<Animation<f32>> = NamedMap::new();
    for (name, auto) in [("wave_animation", true), ("say_no", false), ("happy_bounce", true)] {
        lib.insert(
            name.chars().collect(),
            Animation {
                name: name.into(),
                description: None,
                looping: false,
                vrm_local_rotations: false,
                play_automatically: auto,
                keyframes: Vec::new(),
            },
        );
    }
    assert_eq!(auto_play_pool(&lib), vec!["wave_animation".to_string(), "happy_bounce".to_string()]);
    assert!(auto_play_pool(&NamedMap::<Animation<f32>>::new()).is_empty());
}
