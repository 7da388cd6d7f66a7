use paperdoll::resolve::references_pose;
use paperdoll::model::{AnimationFile, CameraTarget, Easing, EulerDeg, JointTarget, KeyframeSpec, Pose};
use paperdoll::named_map::NamedMap;
use paperdoll::resolve::{resolve_animation, resolve_keyframe_pose, YamlLoadError};

fn key(s: &str) -> Vec<char> {
    s.chars().collect()
}

fn pose(name: &str) -> Pose<f32> {
    Pose {
        name: name.into(),
        description: None,
        joints: NamedMap::new(),
        camera: None,
        expressions: NamedMap::new(),
        hold_joints: false,
    }
}

fn spec(pose: Option<&str>, duration_ms: u32, easing: Easing) -> KeyframeSpec<f32> {
    KeyframeSpec {
        pose: pose.map(|p| p.to_string()),
        joints: None,
        camera: None,
        expressions: None,
        hold: None,
        duration_ms,
        easing,
    }
}

fn file(name: &str, keyframes: Vec<KeyframeSpec<f32>>) -> AnimationFile<f32> {
    AnimationFile {
        name: name.into(),
        description: None,
        looping: false,
        vrm_local_rotations: false,
        play_automatically: false,
        keyframes,
    }
}

fn registry() -> NamedMap<Pose<f32>> {
    let mut poses = NamedMap::new();
    let mut wave = pose("wave");
    wave.joints.insert(
        key("right_shoulder"),
        JointTarget {
            rotation_deg: Some(EulerDeg { x: 0.0, y: 0.0, z: -80.0 }),
            rotation_quat: None,
            translation: None,
        },
    );
    poses.insert(key("wave"), wave);
    poses.insert(key("t_pose"), pose("t_pose"));
    poses
}

#[test]
fn loads_animation_and_resolves_pose_references() {
    let poses = registry();
    let f = file(
        "wave_animation",
        vec![
            spec(Some("t_pose"), 0, Easing::Linear),
            spec(Some("wave"), 500, Easing::EaseInOut),
            spec(Some("t_pose"), 600, Easing::EaseOut),
        ],
    );
    let anim = resolve_animation(f, &poses).unwrap();
    assert_eq!(anim.keyframes.len(), 3);
    assert_eq!(anim.keyframes[1].pose.name, "wave");
    assert_eq!(anim.keyframes[1].duration_ms, 500);
    assert_eq!(anim.keyframes[2].easing, Easing::EaseOut);
}

#[test]
fn resolve_animation_matches_load_animations_from_dir_for_the_same_file() {
    let mut poses = NamedMap::new();
    poses.insert(key("wave"), pose("wave"));
    let f = file("greet", vec![spec(Some("wave"), 300, Easing::Linear)]);
    let animation = resolve_animation(f, &poses).unwrap();
    assert_eq!(animation.name, "greet");
    assert_eq!(animation.keyframes[0].pose.name, "wave");
}

#[test]
fn animation_referencing_unknown_pose_fails_fast() {
    let poses = NamedMap::new();
    let f = file("broken", vec![spec(Some("does_not_exist"), 100, Easing::Linear)]);
    let err = resolve_animation(f, &poses).unwrap_err();
    assert!(matches!(err, YamlLoadError::UnknownPoseRef { .. }));
    match err {
        YamlLoadError::UnknownPoseRef { animation, index, pose_name } => {
            assert_eq!(animation, "broken");
            assert_eq!(index, 0);
            assert_eq!(pose_name, "does_not_exist");
        }
        _ => unreachable!(),
    }
}

#[test]
fn animation_keyframe_with_inline_joints_does_not_need_pose_registry() {
    let mut joints = NamedMap::new();
    joints.insert(
        key("head"),
        JointTarget {
            rotation_deg: Some(EulerDeg { x: 0.0, y: 30.0, z: 0.0 }),
            rotation_quat: None,
            translation: None,
        },
    );
    let mut k = spec(None, 200, Easing::Linear);
    k.joints = Some(joints);
    let poses = NamedMap::new();
    let anim = resolve_animation(file("inline", vec![k]), &poses).unwrap();
    assert_eq!(anim.keyframes[0].pose.joints.len(), 1);
    assert_eq!(anim.keyframes[0].pose.name, "inline#0");
    assert!(!anim.keyframes[0].pose.hold_joints);
}

#[test]
fn keyframe_expressions_overlay_pose_expressions() {
    let mut poses = NamedMap::new();
    let mut wave = pose("wave");
    wave.expressions.insert(key("happy"), 0.5);
    poses.insert(key("wave"), wave);
    let mut k = spec(Some("wave"), 200, Easing::EaseOut);
    let mut e = NamedMap::new();
    e.insert(key("happy"), 1.0);
    e.insert(key("blink"), 0.3);
    k.expressions = Some(e);
    let animation = resolve_animation(file("cheer", vec![k]), &poses).unwrap();
    let e = &animation.keyframes[0].pose.expressions;
    assert!((e.get(&key("happy")).unwrap() - 1.0).abs() < 1e-6);
    assert!((e.get(&key("blink")).unwrap() - 0.3).abs() < 1e-6);
}

#[test]
fn expression_only_keyframe_is_valid_hold() {
    let mut k = spec(None, 90, Easing::Step);
    let mut e = NamedMap::new();
    e.insert(key("blink"), 1.0);
    k.expressions = Some(e);
    k.hold = Some(true);
    let animation = resolve_animation(file("blink", vec![k]), &NamedMap::new()).unwrap();
    assert!(animation.keyframes[0].pose.hold_joints);
    assert!((animation.keyframes[0].pose.expressions.get(&key("blink")).unwrap() - 1.0).abs() < 1e-6);
}

#[test]
fn empty_or_doubly_specified_keyframes_are_invalid() {
    let poses = registry();
    let err = resolve_animation(
        file("bad", vec![spec(Some("wave"), 0, Easing::Linear), spec(None, 100, Easing::Linear)]),
        &poses,
    )
    .unwrap_err();
    assert!(matches!(err, YamlLoadError::InvalidKeyframe { ref animation, index: 1 } if animation == "bad"));
    let mut both = spec(Some("wave"), 100, Easing::Linear);
    both.joints = Some(NamedMap::new());
    let err = resolve_keyframe_pose("x", 4, &both, &poses).unwrap_err();
    assert!(matches!(err, YamlLoadError::InvalidKeyframe { index: 4, .. }));
}

#[test]
fn camera_only_keyframe_holds_joints_and_merges_the_camera() {
    let poses = registry();
    let mut k = spec(None, 100, Easing::Linear);
    k.camera = Some(CameraTarget { yaw_deg: Some(30.0), pitch_deg: None, distance: None, look_at: None });
    let p = resolve_keyframe_pose("orbit", 2, &k, &poses).unwrap();
    assert_eq!(p.name, "orbit#2");
    assert!(p.hold_joints);
    assert_eq!(p.camera.unwrap().yaw_deg, Some(30.0));
    assert_eq!(p.joints.len(), 0);
}

#[test]
fn hold_flag_turns_a_pose_reference_into_an_overlay() {
    let poses = registry();
    let mut k = spec(Some("wave"), 100, Easing::Linear);
    k.hold = Some(true);
    let p = resolve_keyframe_pose("a", 0, &k, &poses).unwrap();
    assert_eq!(p.name, "wave");
    assert!(p.hold_joints);
    assert_eq!(p.joints.len(), 1);
}

#[test]
fn animations_reference_poses_by_name() {
    let f = file("a", vec![spec(None, 0, Easing::Linear), spec(Some("wave"), 100, Easing::Linear)]);
    assert!(references_pose(&f, "wave"));
    assert!(!references_pose(&f, "wav"));
    assert!(!references_pose(&file("b", vec![]), "wave"));
}
