use paperdoll::editor::{
    bake_keyframe_inline, clear_keyframe_joint, clear_keyframe_joint_overrides, euler_for_joint,
    euler_for_keyframe_joint, guard_dirty, hint_for_joint, joint_matches_filter,
    keyframe_delta_count, keyframe_has_pose_ref, keyframe_joint_editing_enabled,
    keyframe_joint_modified, set_keyframe_joint_euler, unique_name, Confirm, JointInspectorState,
    PendingAction, StatusKind, StatusLine, focus_class, joint_can_translate, FocusReach,
};
use paperdoll::hand::{sorted_gestures, HandGesture};
use paperdoll::model::{AnimationFile, Easing, EulerDeg, JointTarget, KeyframeSpec, Pose};
use paperdoll::named_map::NamedMap;

fn key(s: &str) -> Vec<char> {
    s.chars().collect()
}

fn rot(z: f32) -> JointTarget<f32> {
    JointTarget { rotation_deg: Some(EulerDeg { x: 0.0, y: 0.0, z }), rotation_quat: None, translation: None }
}

fn kf(pose: Option<&str>) -> KeyframeSpec<f32> {
    KeyframeSpec {
        pose: pose.map(|p| p.to_string()),
        joints: None,
        camera: None,
        expressions: None,
        hold: None,
        duration_ms: 100,
        easing: Easing::Linear,
    }
}

fn library() -> NamedMap<Pose<f32>> {
    let mut joints = NamedMap::new();
    joints.insert(key("right_shoulder"), rot(-80.0));
    joints.insert(key("head"), rot(10.0));
    let mut poses = NamedMap::new();
    poses.insert(
        key("wave"),
        Pose {
            name: "wave".into(),
            description: None,
            joints,
            camera: None,
            expressions: NamedMap::new(),
            hold_joints: false,
        },
    );
    poses
}

#[test]
fn joint_filter_is_case_insensitive_substring() {
    assert!(joint_matches_filter("left_shoulder", ""));
    assert!(joint_matches_filter("left_shoulder", "SHOULD"));
    assert!(joint_matches_filter("left_shoulder", "  left "));
    assert!(!joint_matches_filter("left_shoulder", "elbow"));
}

#[test]
fn hints_cover_known_joints_only() {
    assert!(hint_for_joint("pelvis").is_some());
    assert!(hint_for_joint("left_index_proximal").is_some());
    assert_eq!(hint_for_joint("jaw"), None);
}

#[test]
fn confirm_prompts_and_labels() {
    let c = Confirm::DeletePose { name: "wave".into() };
    assert_eq!(c.prompt(), "Delete pose 'wave' (removes the YAML file from assets/poses)?");
    assert_eq!(c.confirm_label(), "Delete");
    let o = Confirm::OverwriteAnimation { name: "hop".into() };
    assert_eq!(
        o.prompt(),
        "'hop' already exists in the library and you didn't load it from there. Overwrite it?"
    );
    assert_eq!(o.confirm_label(), "Overwrite");
    assert_eq!(Confirm::ClearAllJoints.confirm_label(), "Clear");
    assert_eq!(Confirm::CaptureScene.confirm_label(), "Capture");
}

#[test]
fn dirty_drafts_ask_before_switching() {
    let mut pending: Option<Confirm> = None;
    assert!(guard_dirty(&mut pending, false, PendingAction::CloseEditor));
    assert!(pending.is_none());
    assert!(!guard_dirty(&mut pending, true, PendingAction::LoadPose("wave".into())));
    match pending {
        Some(Confirm::DiscardChanges { action: PendingAction::LoadPose(n) }) => assert_eq!(n, "wave"),
        _ => panic!("expected a discard confirmation"),
    }
}

#[test]
fn inspector_starts_clear() {
    let s = JointInspectorState::new();
    assert!(s.selected_joint.is_none());
    assert!(s.joint_filter.is_empty());
    assert!(!s.modified_only && !s.symmetrical);
}

#[test]
fn status_history_keeps_the_last_two_replaced_messages() {
    let mut s = StatusLine { status: String::new(), kind: StatusKind::Info, history: Vec::new() };
    s.set_status(StatusKind::Info, "one".into());
    assert!(s.history.is_empty());
    s.set_status(StatusKind::Success, "two".into());
    s.set_status(StatusKind::Success, "two".into());
    s.set_status(StatusKind::Error, "three".into());
    s.set_status(StatusKind::Info, "four".into());
    assert_eq!(s.status, "four");
    assert_eq!(s.kind, StatusKind::Info);
    assert_eq!(s.history, vec!["two".to_string(), "three".to_string()]);
}

#[test]
fn unique_names_count_up_from_two() {
    let existing = vec!["wave".to_string(), "wave_2".to_string()];
    assert_eq!(unique_name("hop", &existing, 77), "hop");
    assert_eq!(unique_name("wave", &existing, 77), "wave_3");
    let crowded: Vec<String> =
        std::iter::once("x".to_string()).chain((2..1000).map(|n| format!("x_{n}"))).collect();
    assert_eq!(unique_name("x", &crowded, 4242), "x_4242");
}

#[test]
fn keyframe_queries() {
    let mut draft = AnimationFile::<f32> {
        name: "a".into(),
        description: None,
        looping: false,
        vrm_local_rotations: false,
        play_automatically: false,
        keyframes: vec![],
    };
    assert!(keyframe_joint_editing_enabled(&draft));
    draft.vrm_local_rotations = true;
    assert!(!keyframe_joint_editing_enabled(&draft));
    let mut k = kf(Some("wave"));
    assert!(keyframe_has_pose_ref(&k));
    assert_eq!(keyframe_delta_count(&k), 0);
    let mut j = NamedMap::new();
    j.insert(key("head"), rot(20.0));
    k.joints = Some(j);
    assert_eq!(keyframe_delta_count(&k), 1);
    assert!(keyframe_joint_modified(&k, "head"));
    assert!(!keyframe_joint_modified(&k, "neck"));
}

#[test]
fn keyframe_rotation_prefers_overrides_then_the_pose() {
    let poses = library();
    let mut k = kf(Some("wave"));
    assert_eq!(euler_for_keyframe_joint(&k, &poses, "head").unwrap().z, 10.0);
    let mut j = NamedMap::new();
    j.insert(key("head"), rot(20.0));
    k.joints = Some(j);
    assert_eq!(euler_for_keyframe_joint(&k, &poses, "head").unwrap().z, 20.0);
    assert_eq!(euler_for_keyframe_joint(&k, &poses, "neck"), None);
    let wave = poses.get(&key("wave")).unwrap();
    assert_eq!(euler_for_joint(wave, "right_shoulder").unwrap().z, -80.0);
}

#[test]
fn symmetric_keyframe_edits_write_and_clear_both_sides() {
    let mut k = kf(None);
    let e = EulerDeg { x: 1.0, y: 2.0, z: 3.0 };
    let m = EulerDeg { x: 1.0, y: -2.0, z: -3.0 };
    set_keyframe_joint_euler(&mut k, "left_elbow", e, m, true);
    let j = k.joints.as_ref().unwrap();
    assert_eq!(j.get(&key("left_elbow")).unwrap().rotation_deg, Some(e));
    assert_eq!(j.get(&key("right_elbow")).unwrap().rotation_deg, Some(m));
    clear_keyframe_joint(&mut k, "right_elbow", false);
    assert_eq!(keyframe_delta_count(&k), 1);
    clear_keyframe_joint(&mut k, "left_elbow", true);
    assert!(k.joints.is_none());
    set_keyframe_joint_euler(&mut k, "head", e, m, true);
    assert_eq!(keyframe_delta_count(&k), 1);
    clear_keyframe_joint_overrides(&mut k);
    assert!(k.joints.is_none());
}

#[test]
fn baking_merges_the_pose_under_the_overrides() {
    let poses = library();
    let mut k = kf(Some("wave"));
    let mut j = NamedMap::new();
    j.insert(key("head"), rot(20.0));
    k.joints = Some(j);
    k.hold = Some(true);
    bake_keyframe_inline(&mut k, &poses);
    assert!(k.pose.is_none());
    assert!(k.hold.is_none());
    let j = k.joints.as_ref().unwrap();
    assert_eq!(j.len(), 2);
    assert_eq!(j.get(&key("head")).unwrap().rotation_deg.unwrap().z, 20.0);
    assert_eq!(j.get(&key("right_shoulder")).unwrap().rotation_deg.unwrap().z, -80.0);
    // Baking again changes nothing.
    bake_keyframe_inline(&mut k, &poses);
    let again = k.joints.as_ref().unwrap();
    assert_eq!(again.len(), 2);
    assert_eq!(again.get(&key("head")).unwrap().rotation_deg.unwrap().z, 20.0);
    assert_eq!(again.get(&key("right_shoulder")).unwrap().rotation_deg.unwrap().z, -80.0);
    let mut empty = kf(Some("missing"));
    bake_keyframe_inline(&mut empty, &poses);
    assert!(empty.joints.is_none() && empty.pose.is_none());
    bake_keyframe_inline(&mut empty, &poses);
    assert!(empty.joints.is_none() && empty.pose.is_none());
}

#[test]
fn move_handles_and_focus_follow_joint_names() {
    let mut p = Pose {
        name: "p".into(),
        description: None,
        joints: NamedMap::new(),
        camera: None,
        expressions: NamedMap::new(),
        hold_joints: false,
    };
    p.joints.insert(key("head"), JointTarget { rotation_deg: None, rotation_quat: None, translation: Some([0.0, 0.1, 0.0]) });
    p.joints.insert(key("neck"), rot(3.0));
    assert!(joint_can_translate(&p, "head"));
    assert!(!joint_can_translate(&p, "neck"));
    assert!(joint_can_translate(&p, "left_pupil"));
    assert!(joint_can_translate(&p, "right_blush"));
    assert!(joint_can_translate(&p, "pelvis"));
    assert!(!joint_can_translate(&p, "spine"));

    assert_eq!(focus_class("left_hand"), FocusReach::Hand);
    assert_eq!(focus_class("right_index_proximal"), FocusReach::Finger);
    assert_eq!(focus_class("head"), FocusReach::Face);
    assert_eq!(focus_class("left_eyebrow"), FocusReach::Face);
    assert_eq!(focus_class("left_knee"), FocusReach::Body);
}

#[test]
fn gestures_are_listed_by_name() {
    let mut hands = NamedMap::new();
    for n in ["peace", "fist", "point"] {
        hands.insert(key(n), HandGesture { name: n.into(), description: None, joints: NamedMap::<JointTarget<f32>>::new() });
    }
    let names: Vec<String> = sorted_gestures(&hands).into_iter().map(|g| g.name).collect();
    assert_eq!(names, vec!["fist", "peace", "point"]);
}
