use animus_subject_sqlite::config::{
    parse_bool, parse_kinds, ConfigError, SqliteConfig, DEFAULT_DB_PATH, DEFAULT_KIND,
};

#[test]
fn new_yields_default_kind() {
    let cfg = SqliteConfig::new("/tmp/test.db");
    assert_eq!(cfg.kinds, vec![DEFAULT_KIND.to_string()]);
    assert!(cfg.auto_migrate);
    assert!(cfg.accepts_kind("task"));
    assert!(!cfg.accepts_kind("issue"));
}

#[test]
fn with_kinds_overrides_default() {
    let cfg = SqliteConfig::new("/tmp/test.db")
        .with_kinds(vec!["task".to_string(), "issue".to_string()]);
    assert_eq!(cfg.kinds, vec!["task".to_string(), "issue".to_string()]);
    assert!(cfg.accepts_kind("issue"));
}

#[test]
fn with_kinds_ignores_empty_input() {
    let cfg = SqliteConfig::new("/tmp/test.db").with_kinds(Vec::<String>::new());
    assert_eq!(cfg.kinds, vec![DEFAULT_KIND.to_string()]);
}

#[test]
fn parse_kinds_trims_whitespace_and_drops_empties() {
    let parsed = parse_kinds(" task , issue ,, custom-thing").unwrap();
    assert_eq!(
        parsed,
        vec![
            "task".to_string(),
            "issue".to_string(),
            "custom-thing".to_string()
        ]
    );
}

#[test]
fn parse_kinds_rejects_all_whitespace() {
    assert!(parse_kinds("  ,  , ").is_err());
}

#[test]
fn parse_bool_accepts_canonical_forms() {
    assert!(parse_bool("true").unwrap());
    assert!(parse_bool("1").unwrap());
    assert!(parse_bool("YES").unwrap());
    assert!(!parse_bool("false").unwrap());
    assert!(!parse_bool("0").unwrap());
    assert!(parse_bool("not-a-bool").is_err());
}

fn loaded(
    path: Option<&str>,
    kinds: Option<&str>,
    migrate: Option<&str>,
) -> Result<SqliteConfig, ConfigError> {
    SqliteConfig::from_env(
        path.map(String::from),
        kinds.map(String::from),
        migrate.map(String::from),
    )
}

#[test]
fn unset_variables_have_defaults() {
    let cfg = loaded(None, None, None).unwrap();
    assert_eq!(cfg.db_path, DEFAULT_DB_PATH);
    assert_eq!(cfg.kinds, vec![DEFAULT_KIND.to_string()]);
    assert!(cfg.auto_migrate);
}

#[test]
fn set_variables_are_taken() {
    let cfg = loaded(Some("/data/s.db"), Some("task,issue"), Some("Off")).unwrap();
    assert_eq!(cfg.db_path, "/data/s.db");
    assert_eq!(cfg.kinds, vec!["task".to_string(), "issue".to_string()]);
    assert!(!cfg.auto_migrate);
}

#[test]
fn an_empty_path_or_flag_counts_as_unset() {
    let cfg = loaded(Some(""), None, Some("")).unwrap();
    assert_eq!(cfg.db_path, DEFAULT_DB_PATH);
    assert!(cfg.auto_migrate);
}

#[test]
fn an_empty_list_of_kinds_is_refused() {
    assert_eq!(loaded(None, Some(""), None), Err(ConfigError::NoKinds));
    assert_eq!(loaded(None, Some(" ,"), None), Err(ConfigError::NoKinds));
    assert_eq!(
        ConfigError::NoKinds.message(),
        "ANIMUS_SQLITE_KINDS must be a non-empty comma-separated list"
    );
}

#[test]
fn a_flag_that_is_no_boolean_is_refused() {
    let error = loaded(None, None, Some(" MayBe\"")).unwrap_err();
    assert_eq!(error, ConfigError::NotABoolean("maybe\"".to_string()));
    assert_eq!(
        error.message(),
        "ANIMUS_SQLITE_AUTO_MIGRATE must be a boolean (\"maybe\\\"\")"
    );
    for (raw, flag) in [
        ("on", true),
        ("yes", true),
        ("\t1\n", true),
        ("OFF", false),
        ("no", false),
    ] {
        assert_eq!(parse_bool(raw), Ok(flag));
    }
}

#[test]
fn kinds_keep_their_order_and_repetitions() {
    assert_eq!(
        parse_kinds("b,a,\u{3000}b\u{a0}").unwrap(),
        vec!["b".to_string(), "a".to_string(), "b".to_string()]
    );
}
