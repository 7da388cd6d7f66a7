use paperdoll::hand::{apply_hand_gesture, capture_hand_gesture};
use paperdoll::hand::{HandGesture, HAND_GESTURE_JOINT_KEYS};
use paperdoll::model::{EulerDeg, JointTarget, Pose};
use paperdoll::named_map::NamedMap;
use paperdoll::symmetry::{
    clear_side_joints, counterpart_joint, mirror_joint_map_to_other_side,
    set_joint_euler_with_symmetry, side_from_joint, BodySide,
};

fn key(s: &str) -> Vec<char> {
    s.chars().collect()
}

fn rot(z: f32) -> JointTarget<f32> {
    JointTarget { rotation_deg: Some(EulerDeg { x: 0.0, y: 0.0, z }), rotation_quat: None, translation: None }
}

fn pose_with(names: &[&str]) -> Pose<f32> {
    let mut joints = NamedMap::new();
    for (i, n) in names.iter().enumerate() {
        joints.insert(key(n), rot(i as f32));
    }
    Pose { name: "p".into(), description: None, joints, camera: None, expressions: NamedMap::new(), hold_joints: false }
}

#[test]
fn sides_and_counterparts() {
    assert_eq!(side_from_joint("left_shoulder"), Some(BodySide::Left));
    assert_eq!(side_from_joint("right_knee"), Some(BodySide::Right));
    assert_eq!(side_from_joint("left_"), None);
    assert_eq!(side_from_joint("head"), None);
    assert_eq!(counterpart_joint("left_shoulder").as_deref(), Some("right_shoulder"));
    assert_eq!(counterpart_joint("right_index_distal").as_deref(), Some("left_index_distal"));
    assert_eq!(counterpart_joint("left_").as_deref(), Some("right_"));
    assert_eq!(counterpart_joint("spine"), None);
    assert_eq!(BodySide::Left.prefix(), "left_");
    assert_eq!(BodySide::Right.opposite(), BodySide::Left);
    let twice = counterpart_joint(&counterpart_joint("left_toe").unwrap()).unwrap();
    assert_eq!(twice, "left_toe");
}

#[test]
fn symmetric_edit_writes_the_mirror_image() {
    let mut p = pose_with(&["left_wrist"]);
    let e = EulerDeg { x: 5.0, y: 6.0, z: 7.0 };
    let m = EulerDeg { x: 5.0, y: -6.0, z: -7.0 };
    set_joint_euler_with_symmetry(&mut p, "left_wrist", e, m, true);
    assert_eq!(p.joints.get(&key("left_wrist")).unwrap().rotation_deg, Some(e));
    assert_eq!(p.joints.get(&key("right_wrist")).unwrap().rotation_deg, Some(m));
    set_joint_euler_with_symmetry(&mut p, "neck", e, m, true);
    assert_eq!(p.joints.len(), 3);
    set_joint_euler_with_symmetry(&mut p, "left_knee", e, m, false);
    assert!(p.joints.get(&key("right_knee")).is_none());
}

#[test]
fn mirrored_maps_move_to_the_other_side() {
    let mut m = NamedMap::new();
    m.insert(key("left_shoulder"), rot(1.0));
    m.insert(key("right_elbow"), rot(2.0));
    m.insert(key("head"), rot(3.0));
    let out = mirror_joint_map_to_other_side(&m);
    assert_eq!(out.len(), 2);
    assert_eq!(out.get(&key("right_shoulder")).unwrap().rotation_deg.unwrap().z, 1.0);
    assert_eq!(out.get(&key("left_elbow")).unwrap().rotation_deg.unwrap().z, 2.0);
    assert!(out.get(&key("head")).is_none());
    let back = mirror_joint_map_to_other_side(&out);
    assert_eq!(back.len(), 2);
    assert_eq!(back.get(&key("left_shoulder")).unwrap().rotation_deg.unwrap().z, 1.0);
}

#[test]
fn clearing_a_side_removes_only_the_named_chains() {
    let mut p = pose_with(&[
        "left_index_proximal",
        "left_index",
        "left_indexer",
        "right_index_proximal",
        "left_thumb_distal",
        "head",
    ]);
    clear_side_joints(&mut p, BodySide::Left, &["index", "thumb"]);
    assert!(p.joints.get(&key("left_index_proximal")).is_none());
    assert!(p.joints.get(&key("left_index")).is_none());
    assert!(p.joints.get(&key("left_thumb_distal")).is_none());
    assert!(p.joints.get(&key("left_indexer")).is_some());
    assert!(p.joints.get(&key("right_index_proximal")).is_some());
    assert!(p.joints.get(&key("head")).is_some());
    assert_eq!(p.joints.len(), 3);
}

#[test]
fn gestures_round_trip_through_a_hand_prefix() {
    assert_eq!(HAND_GESTURE_JOINT_KEYS.len(), 15);
    let mut joints = NamedMap::new();
    joints.insert(key("index_proximal"), rot(30.0));
    joints.insert(key("thumb_distal"), rot(10.0));
    let g = HandGesture { name: "point".into(), description: None, joints };
    let on_hand = g.resolve_for_prefix("right_");
    assert_eq!(on_hand.len(), 2);
    assert_eq!(on_hand.get(&key("right_index_proximal")).unwrap().rotation_deg.unwrap().z, 30.0);
    let mut captured = on_hand;
    captured.insert(key("right_wrist"), rot(5.0));
    captured.insert(key("left_index_proximal"), rot(5.0));
    let back = HandGesture::strip_prefix_to_keys("right_", &captured);
    assert_eq!(back.len(), 2);
    assert_eq!(back.get(&key("index_proximal")).unwrap().rotation_deg.unwrap().z, 30.0);
    assert!(back.get(&key("wrist")).is_none());
}

#[test]
fn capturing_and_applying_hand_gestures() {
    let p = pose_with(&["right_index_proximal", "right_thumb_distal", "right_wrist", "head"]);
    let g = capture_hand_gesture(&p, BodySide::Right, "grip".into()).unwrap();
    assert_eq!(g.name, "grip");
    assert_eq!(g.joints.len(), 2);
    assert!(capture_hand_gesture(&p, BodySide::Left, "none".into()).is_none());
    assert!(capture_hand_gesture(&pose_with(&[]), BodySide::Left, "none".into()).is_none());

    let mut target = pose_with(&["left_wrist", "left_ring_distal", "right_little_distal", "neck"]);
    let n = apply_hand_gesture(&mut target, BodySide::Left, &g, None);
    assert_eq!(n, 2);
    assert!(target.joints.get(&key("left_wrist")).is_none());
    assert!(target.joints.get(&key("left_ring_distal")).is_none());
    assert!(target.joints.get(&key("left_index_proximal")).is_some());
    assert!(target.joints.get(&key("right_little_distal")).is_some());
    assert!(target.joints.get(&key("neck")).is_some());

    let mut both = pose_with(&["right_little_distal"]);
    let n = apply_hand_gesture(&mut both, BodySide::Left, &g, Some(&g));
    assert_eq!(n, 4);
    assert!(both.joints.get(&key("right_little_distal")).is_none());
    assert!(both.joints.get(&key("right_index_proximal")).is_some());
    assert!(both.joints.get(&key("left_thumb_distal")).is_some());
}
