use paperdoll::command::{plan_rig_command, RigAction, RigCommand};
use paperdoll::model::{Animation, Easing, JointTarget, Keyframe, Pose};
use paperdoll::named_map::NamedMap;
use paperdoll::skeleton::Skeleton;
use paperdoll::variant::DollVariant;

fn key(s: &str) -> Vec<char> {
    s.chars().collect()
}

fn pose(name: &str, joints: &[&str]) -> Pose<f32> {
    let mut j = NamedMap::new();
    for n in joints {
        j.insert(key(n), JointTarget { rotation_deg: None, rotation_quat: None, translation: None });
    }
    Pose { name: name.into(), description: None, joints: j, camera: None, expressions: NamedMap::new(), hold_joints: false }
}

fn libraries() -> (NamedMap<Pose<f32>>, NamedMap<Animation<f32>>) {
    let mut poses = NamedMap::new();
    poses.insert(key("wave"), pose("wave", &["right_shoulder", "head"]));
    poses.insert(key("broken"), pose("broken", &["head", "tail"]));
    let mut animations = NamedMap::new();
    let anim = |name: &str, first: Option<Pose<f32>>| Animation {
        name: name.into(),
        description: None,
        looping: true,
        vrm_local_rotations: false,
        play_automatically: true,
        keyframes: first.into_iter().map(|p| Keyframe::for_test(p, 300, Easing::EaseOut)).collect(),
    };
    animations.insert(key("bounce"), anim("bounce", Some(pose("bounce#0", &["spine"]))));
    animations.insert(key("empty"), anim("empty", None));
    animations.insert(key("bad"), anim("bad", Some(pose("bad#0", &["wing"]))));
    (poses, animations)
}

fn ignored(a: RigAction<f32>) -> String {
    match a {
        RigAction::Ignore(m) => m,
        other => panic!("expected a warning, got {other:?}"),
    }
}

#[test]
fn variant_commands_switch_only_when_different() {
    let (poses, animations) = libraries();
    let sk = Skeleton::humanoid_default();
    let same = plan_rig_command(RigCommand::SetVariant { variant: DollVariant::V2 }, DollVariant::V2, &poses, &animations, &sk);
    assert!(matches!(same, RigAction::KeepVariant));
    let other = plan_rig_command(RigCommand::SetVariant { variant: DollVariant::V1 }, DollVariant::V2, &poses, &animations, &sk);
    assert!(matches!(other, RigAction::SwitchVariant(DollVariant::V1)));
}

#[test]
fn expression_commands_pass_their_weights_on() {
    let (poses, animations) = libraries();
    let sk = Skeleton::humanoid_default();
    let mut w = NamedMap::new();
    w.insert(key("happy"), 0.5_f32);
    match plan_rig_command(RigCommand::SetExpressions { weights: w }, DollVariant::V2, &poses, &animations, &sk) {
        RigAction::ApplyExpressions(got) => assert_eq!(got.get(&key("happy")), Some(&0.5)),
        other => panic!("{other:?}"),
    }
}

#[test]
fn pose_commands_need_a_resolvable_library_pose() {
    let (poses, animations) = libraries();
    let sk = Skeleton::humanoid_default();
    let cmd = |name: &str| RigCommand::Pose { name: name.into(), speed_deg_per_sec: Some(90.0) };
    match plan_rig_command(cmd("wave"), DollVariant::V2, &poses, &animations, &sk) {
        RigAction::PlayPose { pose, speed_deg_per_sec } => {
            assert_eq!(pose.name, "wave");
            assert_eq!(pose.joints.len(), 2);
            assert_eq!(speed_deg_per_sec, Some(90.0));
        },
        other => panic!("{other:?}"),
    }
    assert_eq!(
        ignored(plan_rig_command(cmd("nope"), DollVariant::V2, &poses, &animations, &sk)),
        "ignoring /pose command for unknown pose 'nope'"
    );
    assert_eq!(
        ignored(plan_rig_command(cmd("broken"), DollVariant::V2, &poses, &animations, &sk)),
        "ignoring /pose command: pose 'broken' failed to resolve"
    );
}

#[test]
fn animation_commands_play_once() {
    let (poses, animations) = libraries();
    let sk = Skeleton::humanoid_default();
    let cmd = |name: &str| RigCommand::Animation { name: name.into() };
    match plan_rig_command(cmd("bounce"), DollVariant::V1, &poses, &animations, &sk) {
        RigAction::PlayAnimation(a) => {
            assert!(!a.looping);
            assert_eq!(a.name, "bounce");
            assert!(a.play_automatically);
            assert_eq!(a.keyframes.len(), 1);
            assert_eq!(a.keyframes[0].duration_ms, 300);
            assert_eq!(a.keyframes[0].easing, Easing::EaseOut);
        },
        other => panic!("{other:?}"),
    }
    assert!(animations.get(&key("bounce")).unwrap().looping);
    assert_eq!(
        ignored(plan_rig_command(cmd("nope"), DollVariant::V1, &poses, &animations, &sk)),
        "ignoring /animation command for unknown animation 'nope'"
    );
    assert_eq!(
        ignored(plan_rig_command(cmd("empty"), DollVariant::V1, &poses, &animations, &sk)),
        "ignoring /animation command: 'empty' has no keyframes"
    );
    assert_eq!(
        ignored(plan_rig_command(cmd("bad"), DollVariant::V1, &poses, &animations, &sk)),
        "ignoring /animation command: 'bad' first keyframe failed to resolve"
    );
}

#[test]
fn registered_pose_is_immediately_playable() {
    let (mut poses, animations) = libraries();
    let sk = Skeleton::humanoid_default();
    let cmd = || RigCommand::Pose { name: "salute".into(), speed_deg_per_sec: None };
    assert!(matches!(plan_rig_command(cmd(), DollVariant::V2, &poses, &animations, &sk), RigAction::Ignore(_)));
    poses.insert(key("salute"), pose("salute", &["right_shoulder", "right_elbow"]));
    assert!(matches!(plan_rig_command(cmd(), DollVariant::V2, &poses, &animations, &sk), RigAction::PlayPose { .. }));
}
