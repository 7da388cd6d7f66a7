use paperdoll::cli::{choose_asset_root, AssetRoot};
use paperdoll::cli::{
    ensure_vrma_extension, join_path_str, parse_import_vrma_args, resolve_vrma_input_path,
    safe_assets_relative_path, ImportVrmaRequest,
};

fn args(a: &[&str]) -> Vec<String> {
    a.iter().map(|s| s.to_string()).collect()
}

#[test]
fn import_args_defaults_and_flags() {
    match parse_import_vrma_args(&args(&["clip.vrma"])).unwrap() {
        ImportVrmaRequest::Import(c) => {
            assert_eq!(c.path, "clip.vrma");
            assert_eq!(c.name, None);
            assert_eq!(c.sample_interval_ms, 100);
            assert!(c.write_yaml);
            assert!(!c.looping);
        }
        ImportVrmaRequest::ShowHelp => panic!("expected an import"),
    }
    match parse_import_vrma_args(&args(&[
        "motions/Clap", "--name", "clap", "--interval-ms", "+150", "--no-write", "--loop",
    ]))
    .unwrap()
    {
        ImportVrmaRequest::Import(c) => {
            assert_eq!(c.path, "motions/Clap.vrma");
            assert_eq!(c.name.as_deref(), Some("clap"));
            assert_eq!(c.sample_interval_ms, 150);
            assert!(!c.write_yaml);
            assert!(c.looping);
        }
        ImportVrmaRequest::ShowHelp => panic!("expected an import"),
    }
}

#[test]
fn import_args_errors_and_help() {
    assert_eq!(parse_import_vrma_args(&[]).unwrap_err(), "import-vrma requires a .vrma file path");
    assert_eq!(parse_import_vrma_args(&args(&["a", "--name"])).unwrap_err(), "--name requires a value");
    assert_eq!(
        parse_import_vrma_args(&args(&["a", "--interval-ms"])).unwrap_err(),
        "--interval-ms requires a value"
    );
    assert_eq!(
        parse_import_vrma_args(&args(&["a", "--interval-ms", "-5"])).unwrap_err(),
        "invalid --interval-ms"
    );
    assert_eq!(
        parse_import_vrma_args(&args(&["a", "--interval-ms", "99999999999"])).unwrap_err(),
        "invalid --interval-ms"
    );
    assert_eq!(
        parse_import_vrma_args(&args(&["a", "--fast"])).unwrap_err(),
        "unknown import-vrma argument '--fast'"
    );
    assert!(matches!(parse_import_vrma_args(&args(&["a", "-h", "--fast"])).unwrap(), ImportVrmaRequest::ShowHelp));
}

#[test]
fn vrma_extension_follows_path_rules() {
    assert_eq!(ensure_vrma_extension("clip"), "clip.vrma");
    assert_eq!(ensure_vrma_extension("clip.VRMA"), "clip.VRMA");
    assert_eq!(ensure_vrma_extension("clip.glb"), "clip.vrma");
    assert_eq!(ensure_vrma_extension("dir.v1/clip"), "dir.v1/clip.vrma");
    assert_eq!(ensure_vrma_extension(".hidden"), ".hidden.vrma");
    assert_eq!(ensure_vrma_extension("clip."), "clip.vrma");
    assert_eq!(ensure_vrma_extension("a/b/"), "a/b.vrma");
    assert_eq!(ensure_vrma_extension("a/b/."), "a/b.vrma");
    assert_eq!(ensure_vrma_extension("a/.."), "a/..");
    assert_eq!(ensure_vrma_extension("/"), "/");
    assert_eq!(ensure_vrma_extension(""), "");
}

#[test]
fn input_paths_resolve_against_the_asset_root() {
    assert_eq!(resolve_vrma_input_path("/srv/doll", "/abs/x.vrma", false), "/abs/x.vrma");
    assert_eq!(resolve_vrma_input_path("/srv/doll", "x.vrma", true), "x.vrma");
    assert_eq!(resolve_vrma_input_path("/srv/doll", "x.vrma", false), "/srv/doll/x.vrma");
    assert_eq!(resolve_vrma_input_path("/srv/doll/", "x.vrma", false), "/srv/doll/x.vrma");
    assert_eq!(join_path_str("", "x"), "x");
    assert_eq!(join_path_str("a", "/b"), "/b");
}

#[test]
fn asset_relative_paths_are_trimmed_and_confined() {
    assert_eq!(safe_assets_relative_path("  motions/clap.vrma \n").unwrap(), "motions/clap.vrma");
    assert_eq!(safe_assets_relative_path("   ").unwrap_err(), "path must not be empty");
    assert_eq!(
        safe_assets_relative_path("../secret").unwrap_err(),
        "path must be relative to assets/ without '..'"
    );
    assert_eq!(
        safe_assets_relative_path("/etc/passwd").unwrap_err(),
        "path must be relative to assets/ without '..'"
    );
    assert!(safe_assets_relative_path("a..b").is_err());
}

#[test]
fn asset_root_lookup_order() {
    assert_eq!(choose_asset_root(Some("/srv/doll"), true, false, false).unwrap(), AssetRoot::Env);
    assert_eq!(
        choose_asset_root(Some("/srv/doll"), false, true, true).unwrap_err(),
        "PAPERDOLL_ROOT='/srv/doll' does not contain 'assets/poses'"
    );
    assert_eq!(choose_asset_root(None, false, true, true).unwrap(), AssetRoot::WorkingDir);
    assert_eq!(choose_asset_root(None, false, false, true).unwrap(), AssetRoot::Installed);
    assert!(choose_asset_root(None, false, false, false).unwrap_err().starts_with("could not find 'assets/poses'"));
}
