use paperdoll::variant::{
    v2_character_disk_path, DollVariant, LaunchConfig, LaunchRequest, SharedEditorState,
    SharedVariantState, VariantSnapshot, DEFAULT_V2_CHARACTER,
};

fn args(a: &[&str]) -> Vec<String> {
    a.iter().map(|s| s.to_string()).collect()
}

#[test]
fn parse_variant_aliases() {
    assert_eq!(DollVariant::parse("v1").unwrap(), DollVariant::V1);
    assert_eq!(DollVariant::parse("V2").unwrap(), DollVariant::V2);
    assert_eq!(DollVariant::parse("procedural").unwrap(), DollVariant::V1);
    assert_eq!(DollVariant::parse("vrm").unwrap(), DollVariant::V2);
    assert!(DollVariant::parse("v3").is_err());
}

#[test]
fn parse_variant_trims_and_reports_the_normalized_text() {
    assert_eq!(DollVariant::parse("  1 ").unwrap(), DollVariant::V1);
    assert_eq!(DollVariant::parse("2").unwrap(), DollVariant::V2);
    assert_eq!(
        DollVariant::parse(" V3 ").unwrap_err(),
        "unknown variant 'v3' (expected v1 or v2)"
    );
    assert_eq!(DollVariant::V1.as_str(), "v1");
    assert_eq!(DollVariant::V2.as_str(), "v2");
}

#[test]
fn disk_path_is_under_assets_unless_absolute() {
    assert_eq!(v2_character_disk_path("characters/default.vrm"), "assets/characters/default.vrm");
    assert_eq!(v2_character_disk_path("/tmp/x.vrm"), "/tmp/x.vrm");
}

#[test]
fn launch_defaults_to_v2_with_the_default_character() {
    match LaunchConfig::from_env_and_args(None, None, &[]).unwrap() {
        LaunchRequest::Launch(c) => {
            assert_eq!(c.variant, DollVariant::V2);
            assert_eq!(c.v2_character, DEFAULT_V2_CHARACTER);
        }
        LaunchRequest::ShowHelp => panic!("expected a launch"),
    }
}

#[test]
fn launch_arguments_override_the_environment() {
    let r = LaunchConfig::from_env_and_args(
        Some("v2".to_string()),
        Some("characters/alt.vrm".to_string()),
        &args(&["--variant", "v1"]),
    )
    .unwrap();
    match r {
        LaunchRequest::Launch(c) => {
            assert_eq!(c.variant, DollVariant::V1);
            assert_eq!(c.v2_character, "characters/alt.vrm");
        }
        LaunchRequest::ShowHelp => panic!("expected a launch"),
    }
    let r = LaunchConfig::from_env_and_args(None, None, &args(&["--variant=procedural", "-v", "vrm"])).unwrap();
    assert!(matches!(r, LaunchRequest::Launch(c) if c.variant == DollVariant::V2));
    let r = LaunchConfig::from_env_and_args(Some("1".to_string()), None, &[]).unwrap();
    assert!(matches!(r, LaunchRequest::Launch(c) if c.variant == DollVariant::V1));
}

#[test]
fn launch_argument_errors_and_help() {
    assert_eq!(
        LaunchConfig::from_env_and_args(None, None, &args(&["--variant"])).unwrap_err(),
        "--variant requires a value (v1 or v2)"
    );
    assert_eq!(
        LaunchConfig::from_env_and_args(None, None, &args(&["--bogus"])).unwrap_err(),
        "unknown argument '--bogus' (try --help)"
    );
    assert_eq!(
        LaunchConfig::from_env_and_args(Some("v9".to_string()), None, &args(&["--help"])).unwrap_err(),
        "unknown variant 'v9' (expected v1 or v2)"
    );
    assert!(matches!(
        LaunchConfig::from_env_and_args(None, None, &args(&["-h", "--bogus"])).unwrap(),
        LaunchRequest::ShowHelp
    ));
    assert!(LaunchConfig::from_env_and_args(None, None, &args(&["--variant=v7"])).is_err());
}

#[test]
fn v2_launch_needs_its_character_file() {
    let c = LaunchConfig { variant: DollVariant::V2, v2_character: "characters/x.vrm".to_string() };
    assert!(c.ensure_assets_for_launch(true).is_ok());
    assert_eq!(
        c.ensure_assets_for_launch(false).unwrap_err(),
        "variant v2 requires VRM at 'assets/characters/x.vrm' (Bevy path 'characters/x.vrm'). \
         Place a VRM 1.0 humanoid there, or start with --variant v1."
    );
    let v1 = LaunchConfig { variant: DollVariant::V1, v2_character: "characters/x.vrm".to_string() };
    assert!(v1.ensure_assets_for_launch(false).is_ok());
}

#[test]
fn shared_variant_state_reports_and_switches() {
    let c = LaunchConfig { variant: DollVariant::V1, v2_character: "characters/x.vrm".to_string() };
    let state = SharedVariantState::new(&c, false);
    let snap = state.snapshot();
    assert_eq!(snap.variant, DollVariant::V1);
    assert!(!state.v2_ready());
    assert_eq!(state.v2_character(), "characters/x.vrm");
    state.set_active(DollVariant::V2, true);
    assert_eq!(state.snapshot().variant, DollVariant::V2);
    assert!(state.v2_ready());
    let after = state.snapshot();
    assert_eq!(after.v2_character, "characters/x.vrm");
    assert_eq!(after.available, vec!["v1", "v2"]);
    assert_eq!(after.description, snap.description);
    let s = VariantSnapshot::new(DollVariant::V2, "c.vrm".to_string(), true);
    assert_eq!(s.available, vec!["v1", "v2"]);
}

#[test]
fn shared_editor_state_toggles() {
    let e = SharedEditorState::new();
    assert!(!e.is_active());
    e.set_active(true);
    assert!(e.is_active());
    e.set_active(false);
    assert!(!e.is_active());
}
