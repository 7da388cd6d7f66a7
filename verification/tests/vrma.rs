use paperdoll::model::{Easing, JointTarget, KeyframeSpec};
use paperdoll::named_map::NamedMap;
use paperdoll::skeleton::Skeleton;
use paperdoll::symmetry::counterpart_joint;
use paperdoll::vrma::{
    demo_motions, expression_node_map, finish_import_keyframes, glb_json_chunk, glb_json_text,
    humanoid_node_map, joint_strength_group, retain_sampled_keyframes, sample_durations,
    sample_times_ms, sampled_keyframe, vrm_bone_to_paperdoll, vrm_expression_to_paperdoll,
    vrma_node_maps, classify_channel, ChannelProperty, ChannelUse, HumanBonesField, VRM_BONE_TABLE, StrengthGroup, VrmaImportError, DEMO_VRMA_BASE_URL,
};

fn key(s: &str) -> Vec<char> {
    s.chars().collect()
}

fn glb(json: &[u8], declared_len: u32) -> Vec<u8> {
    let mut b = Vec::new();
    b.extend_from_slice(b"glTF");
    b.extend_from_slice(&2u32.to_le_bytes());
    b.extend_from_slice(&0u32.to_le_bytes());
    b.extend_from_slice(&declared_len.to_le_bytes());
    b.extend_from_slice(b"JSON");
    b.extend_from_slice(json);
    b
}

fn quat(w: f32) -> JointTarget<f32> {
    JointTarget { rotation_deg: None, rotation_quat: Some([0.0, 0.0, 0.0, w]), translation: None }
}

fn sample(joints: &[&str], expressions: &[&str], duration_ms: u32) -> KeyframeSpec<f32> {
    let mut j = NamedMap::new();
    for n in joints {
        j.insert(key(n), quat(duration_ms as f32));
    }
    let mut e = NamedMap::new();
    for n in expressions {
        e.insert(key(n), 0.5f32);
    }
    sampled_keyframe(j, e, duration_ms)
}

#[test]
fn glb_header_is_checked_before_parsing() {
    assert!(matches!(glb_json_text(b"glTF"), Err(VrmaImportError::InvalidGlb(m)) if m == "missing glTF magic"));
    let mut bad_magic = glb(b"{}", 2);
    bad_magic[0] = b'x';
    assert!(matches!(glb_json_text(&bad_magic), Err(VrmaImportError::InvalidGlb(m)) if m == "missing glTF magic"));
    let truncated = glb(b"{}", 40);
    assert!(matches!(glb_json_text(&truncated), Err(VrmaImportError::InvalidGlb(m)) if m == "json chunk truncated"));
    assert!(matches!(glb_json_chunk(&glb(b"{\"a\":1}", 7)), Ok((20, 27))));
}

#[test]
fn glb_json_chunk_is_parsed_as_json() {
    let mut ok = glb(b"{\"asset\":{\"version\":\"2.0\"}}", 27);
    ok.extend_from_slice(b"BIN chunk follows");
    let text = glb_json_text(&ok).unwrap();
    assert_eq!(text, b"{\"asset\":{\"version\":\"2.0\"}}".to_vec());
    let broken = glb(b"{not json", 9);
    match glb_json_text(&broken) {
        Err(VrmaImportError::InvalidGlb(m)) => assert!(m.contains("line 1"), "{m}"),
        other => panic!("unexpected {other:?}"),
    }
}

#[test]
fn bone_and_expression_names() {
    assert_eq!(vrm_bone_to_paperdoll("hips"), Some("pelvis"));
    assert_eq!(vrm_bone_to_paperdoll("leftUpperArm"), Some("left_shoulder"));
    assert_eq!(vrm_bone_to_paperdoll("rightLittleDistal"), Some("right_little_distal"));
    assert_eq!(vrm_bone_to_paperdoll("leftEye"), None);
    assert_eq!(vrm_expression_to_paperdoll("blinkLeft").as_deref(), Some("blink"));
    assert_eq!(vrm_expression_to_paperdoll("aa").as_deref(), Some("aa"));
    assert_eq!(vrm_expression_to_paperdoll("Happy").as_deref(), Some("Happy"));
    assert_eq!(vrm_expression_to_paperdoll("AA"), None);
    assert_eq!(vrm_expression_to_paperdoll("lookUp"), None);
}

#[test]
fn strength_groups() {
    assert_eq!(joint_strength_group("left_index_proximal"), StrengthGroup::Finger);
    assert_eq!(joint_strength_group("right_elbow"), StrengthGroup::Arm);
    assert_eq!(joint_strength_group("left_hand"), StrengthGroup::Arm);
    assert_eq!(joint_strength_group("spine"), StrengthGroup::Body);
}

#[test]
fn humanoid_bones_map_to_nodes() {
    assert!(matches!(
        humanoid_node_map(&HumanBonesField::Missing),
        Err(VrmaImportError::Extension(m)) if m == "missing humanoid.humanBones"
    ));
    assert!(matches!(
        humanoid_node_map(&HumanBonesField::NotAnObject),
        Err(VrmaImportError::Extension(m)) if m == "humanBones not an object"
    ));
    let entries = vec![
        ("hips".to_string(), Ok(3usize)),
        ("leftEye".to_string(), Err("ignored".to_string())),
        ("head".to_string(), Ok(9usize)),
    ];
    let pairs = humanoid_node_map(&HumanBonesField::Entries(entries)).unwrap();
    assert_eq!(pairs, vec![(3, "pelvis".to_string()), (9, "head".to_string())]);
    let broken = vec![("neck".to_string(), Err("missing field `node`".to_string()))];
    assert!(matches!(
        humanoid_node_map(&HumanBonesField::Entries(broken)),
        Err(VrmaImportError::Extension(m)) if m == "missing field `node`"
    ));
    let unmapped = vec![("leftEye".to_string(), Ok(1usize))];
    assert!(matches!(
        humanoid_node_map(&HumanBonesField::Entries(unmapped)),
        Err(VrmaImportError::NoMappedBones)
    ));
}

#[test]
fn expression_nodes_skip_unknown_names_and_unreadable_nodes() {
    let entries = vec![
        ("blinkRight".to_string(), Some(4usize)),
        ("lookLeft".to_string(), Some(5usize)),
        ("happy".to_string(), None),
        ("sad".to_string(), Some(6usize)),
    ];
    assert_eq!(
        expression_node_map(&entries),
        vec![(4, "blink".to_string()), (6, "sad".to_string())]
    );
}

#[test]
fn schedule_samples_every_interval_and_the_end() {
    assert_eq!(sample_times_ms(350, 100), vec![0, 100, 200, 300, 350]);
    assert_eq!(sample_times_ms(300, 100), vec![0, 100, 200, 300]);
    assert_eq!(sample_times_ms(0, 100), vec![0]);
    assert_eq!(sample_times_ms(3, 0), vec![0, 1, 2, 3]);
    assert_eq!(sample_times_ms(50, 100), vec![0, 50]);
    let t = sample_times_ms(350, 100);
    let d = sample_durations(&t);
    assert_eq!(d, vec![0, 100, 100, 100, 50]);
    assert_eq!(d.iter().sum::<u32>(), 350);
    assert_eq!(sample_durations(&[10, 5]), vec![0, 0]);
}

#[test]
fn sampled_keyframes_omit_what_did_not_move() {
    let still = sample(&[], &[], 100);
    assert!(still.joints.is_none() && still.expressions.is_none());
    assert_eq!(still.easing, Easing::Linear);
    let face = sample(&[], &["blink"], 100);
    assert_eq!(face.joints.as_ref().map(|j| j.len()), Some(0));
    assert_eq!(face.expressions.as_ref().map(|e| e.len()), Some(1));
    let body = sample(&["head"], &[], 100);
    assert_eq!(body.joints.as_ref().map(|j| j.len()), Some(1));
    assert!(body.expressions.is_none());
}

#[test]
fn retain_keeps_moving_samples_and_the_opening_frame() {
    let mut ks = vec![sample(&[], &[], 0), sample(&[], &[], 100), sample(&["head"], &[], 100)];
    retain_sampled_keyframes(&mut ks);
    assert_eq!(ks.len(), 2);
    assert_eq!(ks[0].duration_ms, 0);
    assert!(ks[1].joints.is_some());
}

#[test]
fn finishing_carries_followed_joints_forward() {
    let followed = vec![("head".to_string(), quat(-1.0)), ("neck".to_string(), quat(-2.0))];
    let ks = vec![
        sample(&[], &[], 0),
        sample(&["head"], &[], 100),
        sample(&[], &[], 100),
        sample(&["neck"], &[], 100),
    ];
    let out = finish_import_keyframes(ks, &followed).unwrap();
    assert_eq!(out.len(), 3);
    let j0 = out[0].joints.as_ref().unwrap();
    assert_eq!(j0.get(&key("head")).unwrap().rotation_quat.unwrap()[3], -1.0);
    assert_eq!(j0.get(&key("neck")).unwrap().rotation_quat.unwrap()[3], -2.0);
    let j1 = out[1].joints.as_ref().unwrap();
    assert_eq!(j1.len(), 1);
    assert_eq!(j1.get(&key("head")).unwrap().rotation_quat.unwrap()[3], 100.0);
    let j2 = out[2].joints.as_ref().unwrap();
    assert_eq!(j2.len(), 2);
    assert_eq!(j2.get(&key("head")).unwrap().rotation_quat.unwrap()[3], 100.0);
    assert!(matches!(
        finish_import_keyframes(vec![sample(&[], &[], 100)], &followed),
        Err(VrmaImportError::EmptyKeyframes)
    ));
}

#[test]
fn demo_catalog() {
    let d = demo_motions();
    assert_eq!(d.len(), 3);
    assert_eq!(d[0].file_name, "Clapping.vrma");
    assert_eq!(d[0].animation_name, "vrma_clapping");
    assert_eq!(d[1].sample_interval_ms, 100);
    assert_eq!(d[2].animation_name, "vrma_goodbye");
    assert!(DEMO_VRMA_BASE_URL.ends_with("/VRMA/"));
}

fn vrma(json: &str) -> Vec<u8> {
    glb(json.as_bytes(), json.len() as u32)
}

fn extension_error(r: Result<(Vec<(usize, String)>, Vec<(usize, String)>), VrmaImportError>) -> String {
    match r {
        Err(VrmaImportError::Extension(m)) => m,
        other => panic!("expected an extension error, got {other:?}"),
    }
}

#[test]
fn vrma_node_maps_read_the_animation_extension() {
    let json = r#"{"extensions":{"VRMC_vrm_animation":{
        "humanoid":{"humanBones":{"hips":{"node":4},"leftEye":{"node":9},"rightUpperArm":{"node":7}}},
        "expressions":{"preset":{"blinkLeft":{"node":11},"happy":{"node":"x"}},"custom":{"Happy":{"node":12}}}}}}"#;
    let (mut joints, mut expressions) = vrma_node_maps(&vrma(json)).unwrap();
    joints.sort();
    expressions.sort();
    assert_eq!(joints, vec![(4, "pelvis".to_string()), (7, "right_shoulder".to_string())]);
    assert_eq!(expressions, vec![(11, "blink".to_string()), (12, "Happy".to_string())]);
}

#[test]
fn vrma_node_maps_refuse_a_missing_or_malformed_extension() {
    assert!(matches!(vrma_node_maps(b"glTF"), Err(VrmaImportError::InvalidGlb(m)) if m == "missing glTF magic"));
    assert!(matches!(vrma_node_maps(&vrma("{oops")), Err(VrmaImportError::InvalidGlb(_))));
    assert_eq!(extension_error(vrma_node_maps(&vrma(r#"{"asset":{}}"#))), "missing VRMC_vrm_animation");
    assert_eq!(
        extension_error(vrma_node_maps(&vrma(r#"{"extensions":{"VRMC_vrm_animation":{}}}"#))),
        "missing humanoid.humanBones"
    );
    assert_eq!(
        extension_error(vrma_node_maps(&vrma(r#"{"extensions":{"VRMC_vrm_animation":{"humanoid":{"humanBones":[1]}}}}"#))),
        "humanBones not an object"
    );
    assert_eq!(
        extension_error(vrma_node_maps(&vrma(
            r#"{"extensions":{"VRMC_vrm_animation":{"humanoid":{"humanBones":{"hips":{"bone":1}}}}}}"#
        ))),
        "missing field `node`"
    );
    assert_eq!(
        extension_error(vrma_node_maps(&vrma(
            r#"{"extensions":{"VRMC_vrm_animation":{"humanoid":{"humanBones":{"hips":{"node":-1}}}}}}"#
        ))),
        "invalid value: integer `-1`, expected usize"
    );
    assert_eq!(
        extension_error(vrma_node_maps(&vrma(
            r#"{"extensions":{"VRMC_vrm_animation":{"humanoid":{"humanBones":{"hips":3}}}}}"#
        ))),
        "invalid type: integer `3`, expected struct HumanBoneRef"
    );
    assert!(matches!(
        vrma_node_maps(&vrma(r#"{"extensions":{"VRMC_vrm_animation":{"humanoid":{"humanBones":{"leftEye":{"node":1}}}}}}"#)),
        Err(VrmaImportError::NoMappedBones)
    ));
}

#[test]
fn an_unreadable_unmapped_bone_is_skipped() {
    let json = r#"{"extensions":{"VRMC_vrm_animation":{"humanoid":{"humanBones":{"hips":{"node":2},"leftEye":"?"}}}}}"#;
    let (joints, expressions) = vrma_node_maps(&vrma(json)).unwrap();
    assert_eq!(joints, vec![(2, "pelvis".to_string())]);
    assert!(expressions.is_empty());
}

#[test]
fn bone_table_mirrors_sides_and_never_repeats_a_joint() {
    let skeleton = Skeleton::humanoid_default();
    let mut seen: Vec<&str> = Vec::new();
    for (bone, joint) in VRM_BONE_TABLE {
        assert_eq!(vrm_bone_to_paperdoll(bone), Some(joint));
        assert!(!seen.contains(&joint), "{joint} twice");
        seen.push(joint);
        if let Some(rest) = bone.strip_prefix("left") {
            let other = vrm_bone_to_paperdoll(&format!("right{rest}")).map(String::from);
            assert_eq!(other, counterpart_joint(joint));
        }
        let finger = ["_thumb_", "_index_", "_middle_", "_ring_", "_little_"].iter().any(|f| joint.contains(f));
        if !finger {
            assert!(skeleton.joint_by_name(joint).is_some(), "{joint} not in the humanoid");
        }
    }
    assert_eq!(vrm_bone_to_paperdoll("leftUpperLeg"), Some("left_hip"));
    assert_eq!(vrm_bone_to_paperdoll("rightUpperLeg"), Some("right_hip"));
}

fn hips_ref(node: &str) -> Result<(Vec<(usize, String)>, Vec<(usize, String)>), VrmaImportError> {
    let json = format!(r#"{{"extensions":{{"VRMC_vrm_animation":{{"humanoid":{{"humanBones":{{"hips":{node}}}}}}}}}}}"#);
    vrma_node_maps(&vrma(&json))
}

#[test]
fn bone_references_read_as_serde_reads_them() {
    assert_eq!(hips_ref("[5]").unwrap().0, vec![(5, "pelvis".to_string())]);
    assert_eq!(hips_ref(r#"{"node":6,"extra":true}"#).unwrap().0, vec![(6, "pelvis".to_string())]);
    assert_eq!(extension_error(hips_ref("[]")), "invalid length 0, expected struct HumanBoneRef with 1 element");
    assert_eq!(extension_error(hips_ref("[1,2]")), "invalid length 2, expected fewer elements in array");
    assert_eq!(extension_error(hips_ref(r#"["x"]"#)), r#"invalid type: string "x", expected usize"#);
    assert_eq!(extension_error(hips_ref("null")), "invalid type: null, expected struct HumanBoneRef");
    assert_eq!(extension_error(hips_ref(r#""hips""#)), r#"invalid type: string "hips", expected struct HumanBoneRef"#);
    assert_eq!(extension_error(hips_ref(r#"{"node":1.5}"#)), "invalid type: floating point `1.5`, expected usize");
}

#[test]
fn channels_are_classified_by_node_and_property() {
    let skeleton = Skeleton::humanoid_default();
    let joints = vec![(1, "pelvis".to_string()), (2, "left_shoulder".to_string()), (3, "left_thumb_distal".to_string()), (2, "right_shoulder".to_string())];
    let expressions = vec![(9, "blink".to_string()), (1, "aa".to_string())];
    let use_of = |node, property| classify_channel(&joints, &expressions, &skeleton, node, property);
    assert!(matches!(use_of(2, ChannelProperty::Rotation), ChannelUse::Joint(j) if j == "right_shoulder"));
    assert!(matches!(use_of(3, ChannelProperty::Rotation), ChannelUse::Skip));
    assert!(matches!(use_of(1, ChannelProperty::Rotation), ChannelUse::Skip));
    assert!(matches!(use_of(1, ChannelProperty::Translation), ChannelUse::Expression(e) if e == "aa"));
    assert!(matches!(use_of(9, ChannelProperty::Translation), ChannelUse::Expression(e) if e == "blink"));
    assert!(matches!(use_of(2, ChannelProperty::Translation), ChannelUse::Skip));
    assert!(matches!(use_of(7, ChannelProperty::Rotation), ChannelUse::Skip));
    assert!(matches!(use_of(2, ChannelProperty::Other), ChannelUse::Skip));
    let pelvis_only = vec![(1, "pelvis".to_string())];
    assert!(matches!(classify_channel(&pelvis_only, &[], &skeleton, 1, ChannelProperty::Translation), ChannelUse::Pelvis));
    assert!(matches!(classify_channel(&pelvis_only, &[], &skeleton, 1, ChannelProperty::Rotation), ChannelUse::Joint(j) if j == "pelvis"));
}
