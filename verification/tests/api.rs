use paperdoll::api::{
    check_animation_trigger, check_expression_command, check_import_request_path, check_pose_trigger,
    check_variant_request, register_animation, register_pose, registration_status, ExpressionSnapshot,
    SharedExpressionState, EDITOR_CONFLICT_MESSAGE, STATUS_CONFLICT,
};
use paperdoll::model::{Animation, AnimationFile, Easing, JointTarget, KeyframeSpec, Pose};
use paperdoll::skeleton::Skeleton;
use paperdoll::named_map::NamedMap;
use paperdoll::resolve::hold_overlay_expressions;
use paperdoll::variant::DollVariant;

fn key(s: &str) -> Vec<char> {
    s.chars().collect()
}

fn weights(pairs: &[(&str, f32)]) -> NamedMap<f32> {
    let mut m = NamedMap::new();
    for (k, v) in pairs {
        m.insert(key(k), *v);
    }
    m
}

fn catalog(names: &[&str]) -> ExpressionSnapshot<f32> {
    let mut s = ExpressionSnapshot::new();
    s.set_catalog(names.iter().map(|n| n.to_string()).collect(), 0.0);
    s
}

#[test]
fn registrations_answer_created_or_ok() {
    assert_eq!(registration_status(false), 201);
    assert_eq!(registration_status(true), 200);
    assert_eq!(STATUS_CONFLICT, 409);
    assert!(EDITOR_CONFLICT_MESSAGE.contains("(F2)"));
}

#[test]
fn variant_switch_needs_the_v2_character() {
    assert_eq!(check_variant_request(DollVariant::V1, false, "c.vrm").unwrap(), 202);
    assert_eq!(check_variant_request(DollVariant::V2, true, "c.vrm").unwrap(), 202);
    let e = check_variant_request(DollVariant::V2, false, "characters/c.vrm").unwrap_err();
    assert_eq!(e.status, 503);
    assert_eq!(e.message, "variant v2 requires VRM at assets/characters/c.vrm — file not found");
}

#[test]
fn import_requests_stay_under_motions() {
    assert_eq!(check_import_request_path(" motions/Clap.vrma ").unwrap(), "motions/Clap.vrma");
    let e = check_import_request_path("poses/x.vrma").unwrap_err();
    assert_eq!(e.status, 400);
    assert_eq!(e.message, "import path must be under `motions/` (relative to assets/), got 'poses/x.vrma'");
    let e = check_import_request_path("motions/../../etc").unwrap_err();
    assert_eq!(e.message, "path must be relative to assets/ without '..'");
}

#[test]
fn catalog_starts_every_expression_at_zero() {
    let s = catalog(&["happy", "blink"]);
    assert!(s.ready);
    assert_eq!(s.weights.len(), 2);
    assert_eq!(*s.weights.get(&key("blink")).unwrap(), 0.0);
    let empty = catalog(&[]);
    assert!(!empty.ready);
    let mut c = catalog(&["happy"]);
    c.clear();
    assert!(!c.ready && c.available.is_empty() && c.weights.is_empty());
}

#[test]
fn applying_weights_checks_the_catalog() {
    let mut none: ExpressionSnapshot<f32> = ExpressionSnapshot::new();
    assert_eq!(
        none.apply_weights(&weights(&[("happy", 1.0)])).unwrap_err(),
        "expressions not available (v2 VRM not bound, or model has none)"
    );
    let mut s = catalog(&["happy", "blink"]);
    s.apply_weights(&weights(&[("happy", 0.7)])).unwrap();
    assert!(s.pending);
    assert_eq!(*s.weights.get(&key("happy")).unwrap(), 0.7);
    let mut t = catalog(&["happy", "blink"]);
    assert_eq!(
        t.apply_weights(&weights(&[("blink", 0.4), ("wink", 1.0), ("happy", 1.0)])).unwrap_err(),
        "unknown expression 'wink'"
    );
    assert_eq!(*t.weights.get(&key("blink")).unwrap(), 0.4);
    assert_eq!(*t.weights.get(&key("happy")).unwrap(), 0.0);
    assert!(!t.pending);
}

#[test]
fn expression_commands_reset_then_apply() {
    let s = catalog(&["happy", "blink"]);
    let w = check_expression_command(&s, true, &weights(&[("blink", 1.0)]), 0.0).unwrap();
    assert_eq!(w.len(), 2);
    assert_eq!(*w.get(&key("happy")).unwrap(), 0.0);
    assert_eq!(*w.get(&key("blink")).unwrap(), 1.0);
    let w = check_expression_command(&s, false, &weights(&[("happy", 0.5)]), 0.0).unwrap();
    assert_eq!(w.len(), 1);
    let e = check_expression_command(&s, false, &weights(&[]), 0.0).unwrap_err();
    assert_eq!((e.status, e.message.as_str()), (400, "provide weights and/or reset: true"));
    let e = check_expression_command(&s, true, &weights(&[("grin", 1.0)]), 0.0).unwrap_err();
    assert_eq!(e.status, 400);
    assert_eq!(e.message, "unknown expression 'grin'; see GET /expressions for available presets");
    let none: ExpressionSnapshot<f32> = ExpressionSnapshot::new();
    let unavailable = check_expression_command(&none, true, &weights(&[]), 0.0).unwrap_err();
    assert_eq!(unavailable.status, 503);
    assert_eq!(
        unavailable.message,
        "expressions require variant v2 with a bound VRM that has VRMC_vrm.expressions (try POST /variant {\"variant\":\"v2\"} first)"
    );
}

#[test]
fn shared_catalog_round_trip() {
    let shared: SharedExpressionState<f32> = SharedExpressionState::new();
    assert!(!shared.snapshot().ready);
    assert_eq!(
        shared.apply_weights(&weights(&[("happy", 1.0)])).unwrap_err(),
        "expressions not available (v2 VRM not bound, or model has none)"
    );
    shared.set_catalog(vec!["happy".to_string()], 0.0);
    shared.apply_weights(&weights(&[("happy", 1.0)])).unwrap();
    assert_eq!(shared.apply_weights(&weights(&[("sad", 1.0)])).unwrap_err(), "unknown expression 'sad'");
    let snap = shared.snapshot();
    assert!(snap.ready && snap.pending);
    assert_eq!(*snap.weights.get(&key("happy")).unwrap(), 1.0);
    shared.clear();
    assert!(shared.snapshot().weights.is_empty());
}

#[test]
fn expression_hold_overlay_keeps_unlisted_weights() {
    let from = weights(&[("happy", 0.8)]);
    let listed = weights(&[("blink", 1.0)]);
    let to = hold_overlay_expressions(&from, &listed);
    assert!((to.get(&key("happy")).unwrap() - 0.8).abs() < 1e-5);
    assert!((to.get(&key("blink")).unwrap() - 1.0).abs() < 1e-5);
    let kept = hold_overlay_expressions(&from, &weights(&[]));
    assert_eq!(kept.len(), 1);
}

fn api_pose(name: &str, joints: &[&str]) -> Pose<f32> {
    let mut j = NamedMap::new();
    for n in joints {
        j.insert(key(n), JointTarget { rotation_deg: None, rotation_quat: None, translation: None });
    }
    Pose { name: name.into(), description: None, joints: j, camera: None, expressions: NamedMap::new(), hold_joints: false }
}

fn keyframe(pose: &str) -> KeyframeSpec<f32> {
    KeyframeSpec { pose: Some(pose.into()), joints: None, camera: None, expressions: None, hold: None, duration_ms: 200, easing: Easing::EaseOut }
}

fn animation_file(name: &str, poses: &[&str]) -> AnimationFile<f32> {
    AnimationFile {
        name: name.into(),
        description: None,
        looping: false,
        vrm_local_rotations: false,
        play_automatically: false,
        keyframes: poses.iter().map(|p| keyframe(p)).collect(),
    }
}

#[test]
fn trigger_requests_need_a_closed_editor_and_a_known_name() {
    let mut poses = NamedMap::new();
    poses.insert(key("wave"), api_pose("wave", &[]));
    let conflict = check_pose_trigger(true, &poses, "wave").unwrap_err();
    assert_eq!((conflict.status, conflict.message.as_str()), (STATUS_CONFLICT, EDITOR_CONFLICT_MESSAGE));
    let missing = check_pose_trigger(false, &poses, "nope").unwrap_err();
    assert_eq!((missing.status, missing.message.as_str()), (404, "unknown pose 'nope'"));
    assert_eq!(check_pose_trigger(false, &poses, "wave").unwrap(), 202);

    let animations: NamedMap<Animation<f32>> = NamedMap::new();
    let missing = check_animation_trigger(false, &animations, "say_yes").unwrap_err();
    assert_eq!((missing.status, missing.message.as_str()), (404, "unknown animation 'say_yes'"));
    assert_eq!(check_animation_trigger(true, &animations, "say_yes").unwrap_err().status, 409);
}

#[test]
fn registered_poses_are_validated_against_the_skeleton() {
    let sk = Skeleton::humanoid_default();
    let mut poses = NamedMap::new();
    assert_eq!(register_pose(api_pose("salute", &["right_shoulder"]), &sk, &mut poses).unwrap(), 201);
    assert_eq!(register_pose(api_pose("salute", &["right_elbow"]), &sk, &mut poses).unwrap(), 200);
    assert_eq!(poses.get(&key("salute")).unwrap().joints.len(), 1);
    let e = register_pose(api_pose("bad", &["head", "tail", "fin"]), &sk, &mut poses).unwrap_err();
    assert_eq!((e.status, e.message.as_str()), (400, "pose references unknown joint 'tail'"));
    assert!(!poses.contains_key(&key("bad")));
}

#[test]
fn registered_animations_resolve_against_live_poses() {
    let sk = Skeleton::humanoid_default();
    let mut poses = NamedMap::new();
    let mut animations = NamedMap::new();
    let e = register_animation(animation_file("greet", &["salute"]), &poses, &mut animations).unwrap_err();
    assert_eq!((e.status, e.message.as_str()), (400, "animation 'greet' keyframe 0 references unknown pose 'salute'"));
    assert!(animations.is_empty());
    register_pose(api_pose("salute", &["right_shoulder"]), &sk, &mut poses).unwrap();
    assert_eq!(register_animation(animation_file("greet", &["salute", "salute"]), &poses, &mut animations).unwrap(), 201);
    let a = animations.get(&key("greet")).unwrap();
    assert_eq!(a.keyframes.len(), 2);
    assert_eq!(a.keyframes[1].pose.name, "salute");
    assert_eq!(register_animation(animation_file("greet", &["salute"]), &poses, &mut animations).unwrap(), 200);
    let mut flagged = animation_file("clap", &["salute"]);
    flagged.description = Some("claps".into());
    flagged.vrm_local_rotations = true;
    flagged.play_automatically = true;
    flagged.looping = true;
    assert_eq!(register_animation(flagged, &poses, &mut animations).unwrap(), 201);
    let c = animations.get(&key("clap")).unwrap();
    assert_eq!(c.description.as_deref(), Some("claps"));
    assert!(c.vrm_local_rotations && c.play_automatically && c.looping);
    assert_eq!(c.keyframes[0].authoring.pose.as_deref(), Some("salute"));
}
