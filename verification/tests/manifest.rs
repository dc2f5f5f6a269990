use animus_subject_sqlite::manifest::{manifest, manifest_requested};

fn asked(args: &[&str]) -> bool {
    manifest_requested(&args.iter().map(|arg| arg.to_string()).collect())
}

#[test]
fn the_manifest_is_asked_for_by_a_flag_after_the_program() {
    assert!(asked(&["plugin", "--manifest"]));
    assert!(asked(&["plugin", "x", "-m"]));
    assert!(!asked(&["--manifest"]));
    assert!(!asked(&["plugin", "--manifests"]));
    assert!(!asked(&[]));
}

#[test]
fn the_manifest_says_what_the_plugin_is() {
    let m = manifest("n", "1.2.3", "d", "0.4");
    assert_eq!(m.name, "n");
    assert_eq!(m.version, "1.2.3");
    assert_eq!(m.description, "d");
    assert_eq!(m.protocol_version, "0.4");
    assert_eq!(m.plugin_kind, "subject_backend");
    assert_eq!(m.capabilities.len(), 12);
    assert_eq!(m.capabilities[0], "task/list");
    assert_eq!(m.capabilities[11], "subject_kind:task");
    let names: Vec<&str> = m.env_required.iter().map(|v| v.name.as_str()).collect();
    assert_eq!(
        names,
        [
            "ANIMUS_SQLITE_DB_PATH",
            "ANIMUS_SQLITE_KINDS",
            "ANIMUS_SQLITE_AUTO_MIGRATE"
        ]
    );
    assert!(m.env_required.iter().all(|v| !v.required));
    assert_eq!(m.env_required[2].description, "Run schema migrations on startup.");
}
