use paperdoll::named_map::NamedMap;
use paperdoll::json::{element_pointer, member_pointer};
use paperdoll::vrm::{expression_specs, vrm_expression_presets, vrm_json_text};

fn glb(chunk_type: &[u8; 4], json: &[u8], claimed_len: u32) -> Vec<u8> {
    let mut b = Vec::new();
    b.extend_from_slice(b"glTF");
    b.extend_from_slice(&2u32.to_le_bytes());
    b.extend_from_slice(&(20 + json.len() as u32).to_le_bytes());
    b.extend_from_slice(&claimed_len.to_le_bytes());
    b.extend_from_slice(chunk_type);
    b.extend_from_slice(json);
    b
}

#[test]
fn vrm_container_is_checked_before_parsing() {
    assert_eq!(vrm_json_text(b"glTF").unwrap_err(), "file too small to be a GLB/VRM");
    let mut bad = glb(b"JSON", b"{}", 2);
    bad[0] = b'x';
    assert_eq!(vrm_json_text(&bad).unwrap_err(), "not a GLB/VRM (missing glTF magic)");
    assert_eq!(vrm_json_text(&glb(b"BIN\0", b"{}", 2)).unwrap_err(), "GLB first chunk is not JSON");
    assert_eq!(vrm_json_text(&glb(b"JSON", b"{}", 9)).unwrap_err(), "GLB JSON chunk truncated");
    assert!(vrm_json_text(&glb(b"JSON", b"{oops", 5)).unwrap_err().starts_with("VRM JSON: "));
}

#[test]
fn vrm_json_reads_only_the_json_chunk() {
    let mut bytes = glb(b"JSON", br#"{"nodes":[{"name":"Face"}]}"#, 27);
    bytes.extend_from_slice(b"trailing binary chunk");
    let text = vrm_json_text(&bytes).unwrap();
    assert_eq!(text, br#"{"nodes":[{"name":"Face"}]}"#.to_vec());
}

#[test]
fn expression_specs_keep_named_binds_sorted_by_name() {
    let nodes = vec![Some("Face".to_string()), None, Some(String::new())];
    let mut presets: NamedMap<Vec<(usize, usize)>> = NamedMap::new();
    presets.insert("happy".chars().collect(), vec![(0, 3), (1, 2)]);
    presets.insert("blink".chars().collect(), vec![(2, 1)]);
    presets.insert("angry".chars().collect(), vec![(0, 5), (9, 1), (0, 6)]);
    presets.insert("relaxed".chars().collect(), vec![]);
    let specs = expression_specs(&nodes, &presets);
    let names: Vec<&str> = specs.iter().map(|s| s.name.as_str()).collect();
    assert_eq!(names, vec!["angry", "happy"]);
    let angry: Vec<(&str, usize)> = specs[0].binds.iter().map(|b| (b.node_name.as_str(), b.morph_index)).collect();
    assert_eq!(angry, vec![("Face", 5), ("Face", 6)]);
    assert_eq!(specs[1].binds.len(), 1);
    assert_eq!(specs[1].binds[0].morph_index, 3);
}

fn vrm(json: &str) -> Vec<u8> {
    glb(b"JSON", json.as_bytes(), json.len() as u32)
}

#[test]
fn json_pointers_escape_keys() {
    assert_eq!(member_pointer("/a", "x/y~z"), "/a/x~1y~0z");
    assert_eq!(member_pointer("", "nodes"), "/nodes");
    assert_eq!(element_pointer("/nodes", 12), "/nodes/12");
}

#[test]
fn vrm_expression_presets_read_named_binds_sorted() {
    let json = r#"{"nodes":[{"name":"Face"},{"mesh":0},{"name":""},{"name":"Body"}],
        "extensions":{"VRMC_vrm":{"expressions":{"preset":{
            "happy":{"morphTargetBinds":[{"node":0,"index":3,"weight":1.0},{"node":1,"index":2}]},
            "blink":{"morphTargetBinds":[{"node":2,"index":1}]},
            "angry":{"morphTargetBinds":[{"node":3,"index":5},{"node":9,"index":1},{"node":0,"index":6}]},
            "relaxed":{},
            "odd/name":{"morphTargetBinds":[{"node":0,"index":0}]}}}}}}"#;
    let specs = vrm_expression_presets(&vrm(json)).unwrap();
    let names: Vec<&str> = specs.iter().map(|s| s.name.as_str()).collect();
    assert_eq!(names, vec!["angry", "happy", "odd/name"]);
    let angry: Vec<(&str, usize)> = specs[0].binds.iter().map(|b| (b.node_name.as_str(), b.morph_index)).collect();
    assert_eq!(angry, vec![("Body", 5), ("Face", 6)]);
    let happy: Vec<(&str, usize)> = specs[1].binds.iter().map(|b| (b.node_name.as_str(), b.morph_index)).collect();
    assert_eq!(happy, vec![("Face", 3)]);
}

#[test]
fn vrm_expression_presets_report_what_is_missing() {
    assert_eq!(vrm_expression_presets(b"glTF").unwrap_err(), "file too small to be a GLB/VRM");
    assert!(vrm_expression_presets(&vrm("[")).unwrap_err().starts_with("VRM JSON: "));
    assert_eq!(vrm_expression_presets(&vrm(r#"{"extensions":{}}"#)).unwrap_err(), "VRM missing nodes[]");
    assert_eq!(vrm_expression_presets(&vrm(r#"{"nodes":{}}"#)).unwrap_err(), "VRM missing nodes[]");
    assert_eq!(
        vrm_expression_presets(&vrm(r#"{"nodes":[],"extensions":{"VRMC_materials_mtoon":{}}}"#)).unwrap_err(),
        "missing extensions.VRMC_vrm (need VRM 1.0)"
    );
    assert_eq!(
        vrm_expression_presets(&vrm(r#"{"nodes":[],"extensions":{"VRMC_vrm":{"expressions":{}}}}"#)).unwrap_err(),
        "VRM has no expressions.preset"
    );
    assert_eq!(
        vrm_expression_presets(&vrm(r#"{"nodes":[],"extensions":{"VRMC_vrm":{"expressions":{"preset":[]}}}}"#))
            .unwrap_err(),
        "VRM has no expressions.preset"
    );
}

#[test]
fn vrm_expression_presets_report_the_preset_that_does_not_read() {
    let with = |preset: &str| {
        let json = format!(r#"{{"nodes":[{{"name":"Face"}}],"extensions":{{"VRMC_vrm":{{"expressions":{{"preset":{{"sad":{preset}}}}}}}}}}}"#);
        vrm_expression_presets(&vrm(&json))
    };
    assert_eq!(with(r#"{"morphTargetBinds":[{"index":1}]}"#).unwrap_err(), "expression 'sad': missing field `node`");
    assert_eq!(with(r#"{"morphTargetBinds":[{"node":0}]}"#).unwrap_err(), "expression 'sad': missing field `index`");
    assert_eq!(
        with(r#"{"morphTargetBinds":[{"node":"0","index":1}]}"#).unwrap_err(),
        r#"expression 'sad': invalid type: string "0", expected usize"#
    );
    assert_eq!(
        with(r#"{"morphTargetBinds":[{"node":"x","index":"y"}]}"#).unwrap_err(),
        r#"expression 'sad': invalid type: string "y", expected usize"#
    );
    assert_eq!(
        with(r#"{"morphTargetBinds":[{"node":0,"index":1,"weight":"full"}]}"#).unwrap_err(),
        r#"expression 'sad': invalid type: string "full", expected f32"#
    );
    assert_eq!(
        with(r#"{"morphTargetBinds":[{"weight":null}]}"#).unwrap_err(),
        "expression 'sad': invalid type: null, expected f32"
    );
    assert_eq!(
        with(r#"{"morphTargetBinds":{"node":0}}"#).unwrap_err(),
        "expression 'sad': invalid type: map, expected a sequence"
    );
    assert_eq!(with(r#"[1]"#).unwrap_err(), "expression 'sad': invalid type: integer `1`, expected a sequence");
    assert_eq!(with(r#"true"#).unwrap_err(), "expression 'sad': invalid type: boolean `true`, expected struct Preset");
    assert_eq!(with(r#"{"morphTargetBinds":[7]}"#).unwrap_err(), "expression 'sad': invalid type: integer `7`, expected struct MorphBind");
    assert_eq!(
        with(r#"{"morphTargetBinds":[[0]]}"#).unwrap_err(),
        "expression 'sad': invalid length 1, expected struct MorphBind with 3 elements"
    );
    assert_eq!(
        with(r#"{"morphTargetBinds":[[0,1,0.5,9]]}"#).unwrap_err(),
        "expression 'sad': invalid length 4, expected fewer elements in array"
    );
    assert_eq!(with(r#"[[[0,2]]]"#).unwrap()[0].binds[0].morph_index, 2);
    assert!(with(r#"[]"#).unwrap().is_empty());
    assert_eq!(with(r#"{"morphTargetBinds":[{"node":0,"index":4}]}"#).unwrap()[0].binds[0].morph_index, 4);
}
