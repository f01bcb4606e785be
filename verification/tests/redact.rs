use portainer_mcp::models::{EnvVar, Stack};
use portainer_mcp::redact::{redact_stack, EnvDisplayMode, RedactConfig};

fn default_config() -> RedactConfig {
    RedactConfig::new(EnvDisplayMode::Filtered, Vec::new(), Vec::new())
}

fn config_with_mode(mode: EnvDisplayMode) -> RedactConfig {
    RedactConfig::new(mode, Vec::new(), Vec::new())
}

#[test]
fn builtin_sensitive_patterns() {
    let cfg = default_config();
    assert!(cfg.should_redact("DB_PASSWORD"));
    assert!(cfg.should_redact("jwt_secret"));
    assert!(cfg.should_redact("GITHUB_TOKEN"));
    assert!(cfg.should_redact("AWS_SECRET_ACCESS_KEY"));
    assert!(cfg.should_redact("api_key"));
    assert!(cfg.should_redact("STRIPE_API_KEY"));
    assert!(cfg.should_redact("DATABASE_URL"));
    assert!(cfg.should_redact("REDIS_DSN"));
    assert!(cfg.should_redact("MY_PRIVATE_KEY"));
    assert!(cfg.should_redact("SERVICE_CREDENTIAL"));
}

#[test]
fn builtin_non_sensitive_patterns() {
    let cfg = default_config();
    assert!(!cfg.should_redact("NODE_ENV"));
    assert!(!cfg.should_redact("LOG_LEVEL"));
    assert!(!cfg.should_redact("PORT"));
    assert!(!cfg.should_redact("RUST_LOG"));
    assert!(!cfg.should_redact("TZ"));
}

#[test]
fn custom_sensitive_name() {
    let cfg = RedactConfig::new(
        EnvDisplayMode::Filtered,
        vec!["my_internal_url".to_string()],
        Vec::new(),
    );
    assert!(cfg.should_redact("MY_INTERNAL_URL"));
    assert!(!cfg.should_redact("NODE_ENV"));
}

#[test]
fn custom_visible_overrides_pattern() {
    let cfg = RedactConfig::new(
        EnvDisplayMode::Filtered,
        Vec::new(),
        vec!["auth_provider_token".to_string()],
    );
    // Would match "token" pattern, but explicit visible wins.
    assert!(!cfg.should_redact("AUTH_PROVIDER_TOKEN"));
}

#[test]
fn visible_overrides_sensitive() {
    let cfg = RedactConfig::new(
        EnvDisplayMode::Filtered,
        vec!["ambiguous_var".to_string()],
        vec!["ambiguous_var".to_string()],
    );
    assert!(!cfg.should_redact("AMBIGUOUS_VAR"));
}

fn make_env(vars: &[(&str, &str)]) -> Vec<EnvVar> {
    vars.iter()
        .map(|(n, v)| EnvVar {
            name: Some(n.to_string()),
            value: Some(v.to_string()),
        })
        .collect()
}

fn make_stack(env: Vec<EnvVar>) -> Stack {
    Stack {
        env,
        ..Default::default()
    }
}

#[test]
fn masked_mode_hides_all() {
    let cfg = config_with_mode(EnvDisplayMode::Masked);
    let mut stack = make_stack(make_env(&[
        ("NODE_ENV", "production"),
        ("DB_PASSWORD", "hunter2"),
    ]));
    redact_stack(&mut stack, &cfg);
    assert!(
        stack
            .env
            .iter()
            .all(|v| v.value.as_deref() == Some("[MASKED]"))
    );
}

#[test]
fn filtered_mode_redacts_sensitive_only() {
    let cfg = config_with_mode(EnvDisplayMode::Filtered);
    let mut stack = make_stack(make_env(&[
        ("NODE_ENV", "production"),
        ("DB_PASSWORD", "hunter2"),
    ]));
    redact_stack(&mut stack, &cfg);
    assert_eq!(stack.env[0].value.as_deref(), Some("production"));
    assert_eq!(stack.env[1].value.as_deref(), Some("[REDACTED]"));
}

#[test]
fn filtered_mode_with_custom_sensitive() {
    let cfg = RedactConfig::new(
        EnvDisplayMode::Filtered,
        vec!["node_env".to_string()],
        Vec::new(),
    );
    let mut stack = make_stack(make_env(&[
        ("NODE_ENV", "production"),
        ("LOG_LEVEL", "debug"),
    ]));
    redact_stack(&mut stack, &cfg);
    assert_eq!(stack.env[0].value.as_deref(), Some("[REDACTED]"));
    assert_eq!(stack.env[1].value.as_deref(), Some("debug"));
}

#[test]
fn filtered_mode_with_custom_visible() {
    let cfg = RedactConfig::new(
        EnvDisplayMode::Filtered,
        Vec::new(),
        vec!["db_password".to_string()],
    );
    let mut stack = make_stack(make_env(&[("DB_PASSWORD", "hunter2")]));
    redact_stack(&mut stack, &cfg);
    assert_eq!(stack.env[0].value.as_deref(), Some("hunter2"));
}

#[test]
fn full_mode_shows_all() {
    let cfg = config_with_mode(EnvDisplayMode::Full);
    let mut stack = make_stack(make_env(&[
        ("NODE_ENV", "production"),
        ("DB_PASSWORD", "hunter2"),
    ]));
    redact_stack(&mut stack, &cfg);
    assert_eq!(stack.env[0].value.as_deref(), Some("production"));
    assert_eq!(stack.env[1].value.as_deref(), Some("hunter2"));
}

#[test]
fn filtered_mode_redacts_unknown_names() {
    let cfg = config_with_mode(EnvDisplayMode::Filtered);
    let mut stack = Stack {
        env: vec![EnvVar {
            name: None,
            value: Some("mystery".to_string()),
        }],
        ..Default::default()
    };
    redact_stack(&mut stack, &cfg);
    assert_eq!(stack.env[0].value.as_deref(), Some("[REDACTED]"));
}
