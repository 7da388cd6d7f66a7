use paperdoll::catalog::{
    animation_pattern, build_animation_catalog, finger_joints, build_example_animations, build_example_poses,
    build_pose_catalog, is_on_animation_board, is_on_pose_board, keyframe_outline, total_duration_ms,
    EXAMPLE_ANIMATION_BOARD, EXAMPLE_POSE_BOARD, VRMA_BOARD_NOTE,
};
use paperdoll::model::{Animation, CameraTarget, Easing, JointTarget, Keyframe, Pose};
use paperdoll::named_map::NamedMap;

fn pose(name: &str, joints: &[&str], hold: bool) -> Pose<f32> {
    let mut j = NamedMap::new();
    for n in joints {
        j.insert(n.chars().collect(), JointTarget { rotation_deg: None, rotation_quat: None, translation: None });
    }
    Pose { name: name.into(), description: None, joints: j, camera: None, expressions: NamedMap::new(), hold_joints: hold }
}

fn anim(vrm: bool, poses: Vec<Pose<f32>>) -> Animation<f32> {
    Animation {
        name: "a".into(),
        description: None,
        looping: false,
        vrm_local_rotations: vrm,
        play_automatically: false,
        keyframes: poses.into_iter().map(|p| Keyframe::for_test(p, 100, Easing::Linear)).collect(),
    }
}

fn library() -> NamedMap<Pose<f32>> {
    let mut m = NamedMap::new();
    m.insert("wave".chars().collect(), pose("wave", &["head"], false));
    m
}

#[test]
fn patterns_classify_how_an_animation_was_authored() {
    let lib = library();
    assert_eq!(animation_pattern(&anim(true, vec![pose("wave", &[], false)]), &lib), "vrma_import");
    assert_eq!(animation_pattern(&anim(false, vec![pose("a#0", &["head"], false)]), &lib), "inline_joints");
    assert_eq!(animation_pattern(&anim(false, vec![pose("a#0", &[], true)]), &lib), "camera_only");
    assert_eq!(
        animation_pattern(&anim(false, vec![pose("wave", &[], false), pose("a#1", &[], true)]), &lib),
        "pose_ref_plus_camera"
    );
    assert_eq!(animation_pattern(&anim(false, vec![pose("wave", &[], false)]), &lib), "pose_ref_choreography");
    assert_eq!(animation_pattern(&anim(false, vec![]), &lib), "pose_ref_choreography");
}

const SHIPPED_POSES: [&str; 13] = [
    "wave", "hands_on_hips", "idle", "victory", "think", "shrug", "point", "peace_sign_right",
    "head_turn_left", "head_nod_down", "squat", "cross_arms", "contrapposto",
];

const SHIPPED_ANIMATIONS: [&str; 8] = [
    "wave_animation", "say_yes", "say_no", "happy_bounce", "finger_emote", "point_hero",
    "orbit_victory", "vrma_clapping",
];

fn shipped_library() -> (NamedMap<Pose<f32>>, NamedMap<Animation<f32>>) {
    let mut poses = NamedMap::new();
    for n in SHIPPED_POSES {
        poses.insert(n.chars().collect(), pose(n, &["head"], false));
    }
    poses.insert("extra".chars().collect(), pose("extra", &[], false));
    let mut animations = NamedMap::new();
    for n in SHIPPED_ANIMATIONS {
        let mut a = anim(n == "vrma_clapping", vec![pose("wave", &[], false), pose(&format!("{n}#1"), &[], true)]);
        a.name = n.into();
        animations.insert(n.chars().collect(), a);
    }
    (poses, animations)
}

#[test]
fn example_boards_cover_shipped_exemplars() {
    let (poses, animations) = shipped_library();
    let ex_poses = build_example_poses(&poses);
    assert!(ex_poses.len() >= EXAMPLE_POSE_BOARD.len() - 1, "pose board entries should resolve (got {})", ex_poses.len());
    let ex_anims = build_example_animations(&animations, &poses);
    assert_eq!(ex_anims.len(), EXAMPLE_ANIMATION_BOARD.len(), "every animation board entry must exist in assets");
}

#[test]
fn catalogs_include_vrma_and_say_clips() {
    let (poses, animations) = shipped_library();
    let catalog = build_animation_catalog(&animations, &poses);
    let names: Vec<&str> = catalog.iter().map(|e| e.name.as_str()).collect();
    for need in ["vrma_clapping", "say_yes", "say_no", "wave_animation"] {
        assert!(names.contains(&need), "missing {need} in catalog");
    }
}

#[test]
fn pose_board_keeps_board_order_and_skips_missing_poses() {
    let mut poses = NamedMap::new();
    poses.insert("victory".chars().collect(), pose("victory", &["head", "neck"], false));
    poses.insert("wave".chars().collect(), pose("wave", &[], false));
    poses.insert("unlisted".chars().collect(), pose("unlisted", &[], false));
    let board = build_example_poses(&poses);
    let names: Vec<&str> = board.iter().map(|e| e.name.as_str()).collect();
    assert_eq!(names, vec!["wave", "victory"]);
    assert_eq!(board[0].demonstrates, EXAMPLE_POSE_BOARD[0].1);
    assert_eq!(board[1].joints.len(), 2);
}

#[test]
fn animation_board_outlines_keyframes_and_notes_imports() {
    let (poses, animations) = shipped_library();
    let board = build_example_animations(&animations, &poses);
    let wave = &board[0];
    assert_eq!(wave.name, "wave_animation");
    assert_eq!(wave.pattern, "pose_ref_choreography");
    assert_eq!(wave.keyframe_count, 2);
    assert_eq!(wave.total_duration_ms, 200);
    assert_eq!(wave.keyframes_outline.len(), 2);
    assert_eq!(wave.keyframes_outline[0].pose_ref.as_deref(), Some("wave"));
    assert!(wave.keyframes_outline[1].hold);
    assert_eq!(wave.keyframes_outline[1].pose_ref, None);
    assert!(wave.note.is_none());
    let clap = board.iter().find(|e| e.name == "vrma_clapping").unwrap();
    assert_eq!(clap.pattern, "vrma_import");
    assert!(clap.keyframes_outline.is_empty());
    assert_eq!(clap.note, Some(VRMA_BOARD_NOTE));
}

#[test]
fn outlines_report_inline_joints_camera_and_faces() {
    let lib = library();
    let mut p = pose("a#2", &["head", "neck"], false);
    p.camera = Some(CameraTarget { yaw_deg: Some(30.0), pitch_deg: None, distance: None, look_at: None });
    p.expressions.insert("happy".chars().collect(), 0.7);
    let o = keyframe_outline(&Keyframe::for_test(p, 250, Easing::Step), &lib);
    assert_eq!(o.duration_ms, 250);
    assert_eq!(o.easing, Easing::Step);
    assert_eq!(o.inline_joint_count, Some(2));
    assert!(!o.hold);
    assert_eq!(o.camera.unwrap().yaw_deg, Some(30.0));
    assert_eq!(o.expressions.as_ref().map(|e| e.len()), Some(1));

    let mut bare = pose("wave", &[], false);
    bare.camera = Some(CameraTarget { yaw_deg: None, pitch_deg: None, distance: None, look_at: None });
    let o = keyframe_outline(&Keyframe::for_test(bare, 10, Easing::Linear), &lib);
    assert_eq!(o.pose_ref.as_deref(), Some("wave"));
    assert!(o.camera.is_none());
    assert!(o.expressions.is_none());
}

#[test]
fn catalogs_are_sorted_by_name() {
    let mut poses = NamedMap::new();
    for n in ["wave", "Zed", "apple", "wav", "idle"] {
        poses.insert(n.chars().collect(), pose(n, &[], false));
    }
    let mut p = pose("cam", &["head"], false);
    p.camera = Some(CameraTarget { yaw_deg: None, pitch_deg: None, distance: Some(2.0), look_at: None });
    poses.insert("cam".chars().collect(), p);
    let catalog = build_pose_catalog(&poses);
    let names: Vec<&str> = catalog.iter().map(|e| e.name.as_str()).collect();
    assert_eq!(names, vec!["Zed", "apple", "cam", "idle", "wav", "wave"]);
    let cam = &catalog[2];
    assert_eq!(cam.joint_count, 1);
    assert!(cam.has_camera);
    assert!(!cam.has_expressions);
    assert!(!cam.on_pose_board);
    assert!(catalog[3].on_pose_board);

    let mut animations = NamedMap::new();
    let mut placeholder = anim(false, vec![pose("wave", &[], false)]);
    placeholder.name = "new_animation".into();
    animations.insert("new_animation".chars().collect(), placeholder);
    let mut clip = anim(true, vec![]);
    clip.name = "vrma_jump".into();
    animations.insert("vrma_jump".chars().collect(), clip);
    let mut say = anim(false, vec![pose("wave", &[], false)]);
    say.name = "say_yes".into();
    animations.insert("say_yes".chars().collect(), say);
    let cat = build_animation_catalog(&animations, &poses);
    let names: Vec<&str> = cat.iter().map(|e| e.name.as_str()).collect();
    assert_eq!(names, vec!["new_animation", "say_yes", "vrma_jump"]);
    assert_eq!(cat[0].authoring_hint, "placeholder — prefer wave_animation or say_yes");
    assert_eq!(cat[1].authoring_hint, "compose pose refs when possible");
    assert!(cat[1].on_animation_board);
    assert_eq!(cat[1].total_duration_ms, 100);
    assert_eq!(cat[2].authoring_hint, "play_only — import via VRMA");
    assert_eq!(cat[2].pattern, "vrma_import");
}

#[test]
fn totals_sum_every_keyframe() {
    let a = anim(false, vec![pose("a", &[], false), pose("b", &[], false), pose("c", &[], false)]);
    assert_eq!(total_duration_ms(&a), 300);
    assert_eq!(total_duration_ms(&anim(false, vec![])), 0);
    assert!(is_on_pose_board("squat"));
    assert!(!is_on_pose_board("squats"));
    assert!(is_on_animation_board("orbit_victory"));
}

#[test]
fn finger_joints_keep_only_finger_names_in_order() {
    let names: Vec<String> = ["pelvis", "left_thumb_proximal", "left_hand", "right_little_distal", "left_index_intermediate", "ring_finger"]
        .iter()
        .map(|s| s.to_string())
        .collect();
    assert_eq!(
        finger_joints(&names),
        vec!["left_thumb_proximal".to_string(), "right_little_distal".to_string(), "left_index_intermediate".to_string()]
    );
    assert!(finger_joints(&[]).is_empty());
}
