use portainer_mcp::models::{EnvVar, Stack};
use portainer_mcp::redact::{
    matches_sensitive_pattern, redact_stack, redact_stacks, EnvDisplayMode, RedactConfig,
};

fn sorted(v: &Vec<String>) -> Vec<String> {
    let mut v = v.clone();
    v.sort();
    v
}

#[test]
fn mode_from_env_values() {
    assert_eq!(EnvDisplayMode::from_env("filtered"), EnvDisplayMode::Filtered);
    assert_eq!(EnvDisplayMode::from_env("FILTERED"), EnvDisplayMode::Filtered);
    assert_eq!(EnvDisplayMode::from_env("Full"), EnvDisplayMode::Full);
    assert_eq!(EnvDisplayMode::from_env("full"), EnvDisplayMode::Full);
    assert_eq!(EnvDisplayMode::from_env(""), EnvDisplayMode::Masked);
    assert_eq!(EnvDisplayMode::from_env("masked"), EnvDisplayMode::Masked);
    assert_eq!(EnvDisplayMode::from_env("everything"), EnvDisplayMode::Masked);
    assert_eq!(EnvDisplayMode::from_env(" full"), EnvDisplayMode::Masked);
}

#[test]
fn labels_and_descriptions() {
    assert_eq!(EnvDisplayMode::Masked.label(), "masked");
    assert_eq!(EnvDisplayMode::Filtered.label(), "filtered");
    assert_eq!(EnvDisplayMode::Full.label(), "full");
    assert_eq!(
        EnvDisplayMode::Masked.description(),
        "all environment variable values are hidden"
    );
    assert_eq!(
        EnvDisplayMode::Filtered.description(),
        "values matching sensitive patterns are redacted, others are visible"
    );
    assert_eq!(
        EnvDisplayMode::Full.description(),
        "all environment variable values are shown in cleartext"
    );
}

#[test]
fn label_reads_back_as_its_mode() {
    for m in [EnvDisplayMode::Masked, EnvDisplayMode::Filtered, EnvDisplayMode::Full] {
        assert_eq!(EnvDisplayMode::from_env(m.label()), m);
    }
}

#[test]
fn config_from_env_values_parses_lists() {
    let cfg = RedactConfig::from_env("Filtered", " My_Url , ,other,MY_URL", "db_password,");
    assert_eq!(cfg.mode(), EnvDisplayMode::Filtered);
    assert_eq!(
        sorted(cfg.custom_sensitive_names()),
        vec!["my_url".to_string(), "other".to_string()]
    );
    assert_eq!(sorted(cfg.custom_visible_names()), vec!["db_password".to_string()]);
    assert!(cfg.should_redact("MY_URL"));
    assert!(cfg.should_redact("Other"));
    assert!(!cfg.should_redact("DB_PASSWORD"));
}

#[test]
fn config_from_env_unset_values() {
    let cfg = RedactConfig::from_env("", "", "");
    assert_eq!(cfg.mode(), EnvDisplayMode::Masked);
    assert!(cfg.custom_sensitive_names().is_empty());
    assert!(cfg.custom_visible_names().is_empty());
}

#[test]
fn name_list_trims_unicode_whitespace() {
    let cfg = RedactConfig::from_env("full", "\u{a0}\tSECRET_THING\u{3000}", "");
    assert_eq!(cfg.custom_sensitive_names(), &vec!["secret_thing".to_string()]);
}

#[test]
fn new_config_keeps_each_name_once() {
    let cfg = RedactConfig::new(
        EnvDisplayMode::Filtered,
        vec!["a".to_string(), "b".to_string(), "a".to_string()],
        vec!["c".to_string(), "c".to_string()],
    );
    assert_eq!(sorted(cfg.custom_sensitive_names()), vec!["a".to_string(), "b".to_string()]);
    assert_eq!(cfg.custom_visible_names(), &vec!["c".to_string()]);
    let copy = cfg.clone();
    assert_eq!(sorted(copy.custom_sensitive_names()), vec!["a".to_string(), "b".to_string()]);
}

#[test]
fn sensitive_pattern_substrings_and_suffixes() {
    assert!(matches_sensitive_pattern("my_passwd"));
    assert!(matches_sensitive_pattern("connection_string_main"));
    assert!(matches_sensitive_pattern("signing_key"));
    assert!(matches_sensitive_pattern("sentry_dsn"));
    assert!(!matches_sensitive_pattern("key_file"));
    assert!(!matches_sensitive_pattern("dsn_host"));
    assert!(!matches_sensitive_pattern("PASSWORD"));
    assert!(!matches_sensitive_pattern(""));
}

#[test]
fn should_redact_ignores_case() {
    let cfg = RedactConfig::new(EnvDisplayMode::Filtered, Vec::new(), Vec::new());
    assert_eq!(cfg.should_redact("Db_PassWord"), cfg.should_redact("db_password"));
    assert_eq!(cfg.should_redact("Home"), cfg.should_redact("HOME"));
}

fn stack_with(vars: &[(Option<&str>, &str)]) -> Stack {
    Stack {
        id: 7,
        name: "web".to_string(),
        env: vars
            .iter()
            .map(|(n, v)| EnvVar {
                name: n.map(|n| n.to_string()),
                value: Some(v.to_string()),
            })
            .collect(),
        ..Default::default()
    }
}

fn values(s: &Stack) -> Vec<Option<String>> {
    s.env.iter().map(|v| v.value.clone()).collect()
}

#[test]
fn redacting_twice_equals_once() {
    for mode in [EnvDisplayMode::Masked, EnvDisplayMode::Filtered, EnvDisplayMode::Full] {
        let cfg = RedactConfig::new(mode, Vec::new(), Vec::new());
        let mut once = stack_with(&[(Some("TOKEN"), "t"), (None, "x"), (Some("PORT"), "80")]);
        redact_stack(&mut once, &cfg);
        let mut twice = once.clone();
        redact_stack(&mut twice, &cfg);
        assert_eq!(values(&once), values(&twice));
    }
}

#[test]
fn redaction_keeps_names_and_other_fields() {
    let cfg = RedactConfig::new(EnvDisplayMode::Masked, Vec::new(), Vec::new());
    let mut s = stack_with(&[(Some("A"), "1"), (None, "2")]);
    redact_stack(&mut s, &cfg);
    assert_eq!(s.id, 7);
    assert_eq!(s.name, "web");
    assert_eq!(s.env.len(), 2);
    assert_eq!(s.env[0].name.as_deref(), Some("A"));
    assert_eq!(s.env[1].name, None);
}

#[test]
fn redact_stacks_applies_to_each() {
    let cfg = RedactConfig::new(EnvDisplayMode::Filtered, Vec::new(), Vec::new());
    let mut stacks = vec![
        stack_with(&[(Some("API_KEY"), "k")]),
        stack_with(&[(Some("PORT"), "80"), (Some("DB_PASSWORD"), "p")]),
    ];
    redact_stacks(&mut stacks, &cfg);
    assert_eq!(values(&stacks[0]), vec![Some("[REDACTED]".to_string())]);
    assert_eq!(
        values(&stacks[1]),
        vec![Some("80".to_string()), Some("[REDACTED]".to_string())]
    );
}

#[test]
fn redact_stacks_full_mode_changes_nothing() {
    let cfg = RedactConfig::new(EnvDisplayMode::Full, Vec::new(), Vec::new());
    let mut stacks = vec![stack_with(&[(Some("API_KEY"), "k")])];
    redact_stacks(&mut stacks, &cfg);
    assert_eq!(values(&stacks[0]), vec![Some("k".to_string())]);
}
