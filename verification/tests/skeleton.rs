use paperdoll::model::{JointTarget, Pose};
use paperdoll::named_map::NamedMap;
use paperdoll::pose::PoseError;
use paperdoll::skeleton::{JointId, Skeleton, SkeletonBuilder};

fn key(s: &str) -> Vec<char> {
    s.chars().collect()
}

fn empty_target() -> JointTarget<f32> {
    JointTarget { rotation_deg: None, rotation_quat: None, translation: None }
}

#[test]
fn humanoid_default_has_expected_joint_count_and_names() {
    let skeleton = Skeleton::humanoid_default();
    assert_eq!(skeleton.len(), 35);
    for name in [
        "pelvis",
        "spine",
        "chest",
        "upper_chest",
        "neck",
        "head",
        "left_clavicle",
        "left_shoulder",
        "left_elbow",
        "left_wrist",
        "left_hand",
        "right_clavicle",
        "right_shoulder",
        "right_elbow",
        "right_wrist",
        "right_hand",
        "left_hip",
        "left_knee",
        "left_ankle",
        "left_toe",
        "right_hip",
        "right_knee",
        "right_ankle",
        "right_toe",
        "jaw",
        "left_eye",
        "right_eye",
        "left_pupil",
        "right_pupil",
        "left_eyelid",
        "right_eyelid",
        "left_eyebrow",
        "right_eyebrow",
        "left_blush",
        "right_blush",
    ] {
        assert!(skeleton.joint_by_name(name).is_some(), "missing joint '{name}'");
    }
}

#[test]
fn rest_pose_world_transforms_stack_translations_up_the_spine() {
    let skeleton = Skeleton::humanoid_default();
    let world = skeleton.world_rest_positions_mm();
    let head_id = skeleton.joint_by_name("head").unwrap();
    let head_pos = world[head_id.0 as usize];
    // pelvis(0) + spine(170) + chest(180) + upper_chest(130) + neck(85) + head(130) = 695 mm
    assert_eq!(head_pos[1], 695, "head_pos.y = {}", head_pos[1]);
}

#[test]
fn left_and_right_ankles_match_height_at_rest() {
    let skeleton = Skeleton::humanoid_default();
    let world = skeleton.world_rest_positions_mm();
    let left = world[skeleton.joint_by_name("left_ankle").unwrap().0 as usize];
    let right = world[skeleton.joint_by_name("right_ankle").unwrap().0 as usize];
    assert_eq!(left[1], right[1], "ankle height mismatch: left.y={} right.y={}", left[1], right[1]);
    assert_eq!(left[0], -right[0]);
}

#[test]
fn unknown_names_and_the_root() {
    let skeleton = Skeleton::humanoid_default();
    assert_eq!(skeleton.joint_by_name("tail"), None);
    assert_eq!(skeleton.root(), JointId(0));
    assert_eq!(skeleton.joint(skeleton.root()).name, "pelvis");
    assert!(!skeleton.is_empty());
    let spine = skeleton.joint_by_name("spine").unwrap();
    assert_eq!(skeleton.joint(spine).parent, Some(JointId(0)));
    assert!(skeleton.joint(JointId(0)).children.contains(&spine));
}

#[test]
fn builder_links_children_and_keeps_the_last_name() {
    let mut b = SkeletonBuilder::new();
    let root = b.add_joint("root", None, [0, 0, 0], 10, 5);
    let a = b.add_joint("arm", Some(root), [100, 0, 0], 10, 5);
    let a2 = b.add_joint("arm", Some(a), [0, 50, 0], 10, 5);
    assert_eq!(b.len(), 3);
    let s = b.build();
    assert_eq!(s.joint_by_name("arm"), Some(a2));
    assert_eq!(s.joint(root).children, vec![a]);
    assert_eq!(s.world_rest_positions_mm()[2], [100, 50, 0]);
}

#[test]
fn resolve_rejects_unknown_joint_names() {
    let skeleton = Skeleton::humanoid_default();
    let mut joints = NamedMap::new();
    joints.insert(key("not_a_real_joint"), empty_target());
    let pose = Pose {
        name: "bad".into(),
        description: None,
        joints,
        camera: None,
        expressions: NamedMap::new(),
        hold_joints: false,
    };
    assert!(matches!(pose.resolve_joint_ids(&skeleton), Err(PoseError::UnknownJoint(_))));
}

#[test]
fn resolve_binds_names_to_ids_in_order() {
    let skeleton = Skeleton::humanoid_default();
    let mut joints = NamedMap::new();
    let mut t = empty_target();
    t.translation = Some([1.0, 2.0, 3.0]);
    joints.insert(key("head"), t);
    joints.insert(key("pelvis"), empty_target());
    joints.insert(key("no_such"), empty_target());
    joints.insert(key("also_missing"), empty_target());
    let mut pose = Pose {
        name: "p".into(),
        description: None,
        joints,
        camera: None,
        expressions: NamedMap::new(),
        hold_joints: false,
    };
    match pose.resolve_joint_ids(&skeleton) {
        Err(PoseError::UnknownJoint(n)) => assert_eq!(n, "no_such"),
        Ok(_) => panic!("expected an unknown joint"),
    }
    pose.joints.remove(&key("no_such"));
    pose.joints.remove(&key("also_missing"));
    let bound = pose.resolve_joint_ids(&skeleton).unwrap();
    assert_eq!(bound.len(), 2);
    assert_eq!(bound[0].0, skeleton.joint_by_name("head").unwrap());
    assert_eq!(bound[0].1.translation, Some([1.0, 2.0, 3.0]));
    assert_eq!(bound[1].0, JointId(0));
}
