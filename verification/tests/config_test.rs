use ai_surfer::config::{parse_duration, parse_u64, Config, ConfigError, EnvVars};
use ai_surfer::error::AppError;

fn vars() -> EnvVars {
    EnvVars {
        ras_home: None,
        home: Some("/home/me".to_string()),
        config_dir: None,
        extensions_dir: None,
        profiles_dir: None,
        anthropic_api_key: None,
        claude_code_oauth: None,
        cdp_timeout_s: None,
        action_timeout_s: None,
        anonymized_telemetry: None,
        cloud_sync: None,
    }
}

#[test]
fn defaults_from_home() {
    let c = Config::from_vars(&vars()).expect("config");
    assert_eq!(c.home_dir, "/home/me");
    assert_eq!(c.config_dir, "/home/me/.config/rust-ai-surfer");
    assert_eq!(c.extensions_dir, "/home/me/.config/rust-ai-surfer/extensions");
    assert_eq!(c.profiles_dir, "/home/me/.config/rust-ai-surfer/profiles");
    assert_eq!(c.cdp_timeout_secs, 60);
    assert_eq!(c.action_timeout_secs, 180);
    assert!(c.claude_code_oauth_enabled);
    assert!(c.anonymized_telemetry);
    assert!(!c.cloud_sync);
    assert!(c.anthropic_api_key.is_none());
}

#[test]
fn explicit_settings_win() {
    let mut v = vars();
    v.ras_home = Some("/srv/ras/".to_string());
    v.profiles_dir = Some("/p".to_string());
    v.claude_code_oauth = Some("0".to_string());
    v.anonymized_telemetry = Some("1".to_string());
    v.cloud_sync = Some("1".to_string());
    v.cdp_timeout_s = Some("+15".to_string());
    v.anthropic_api_key = Some("SECRET-REDACTED".to_string());
    let c = Config::from_vars(&v).expect("config");
    assert_eq!(c.home_dir, "/srv/ras/");
    assert_eq!(c.config_dir, "/srv/ras/.config/rust-ai-surfer");
    assert_eq!(c.profiles_dir, "/p");
    assert!(!c.claude_code_oauth_enabled);
    assert!(c.anonymized_telemetry);
    assert!(c.cloud_sync);
    assert_eq!(c.cdp_timeout_secs, 15);
    assert_eq!(c.anthropic_api_key.as_deref(), Some("SECRET-REDACTED"));
}

#[test]
fn missing_home_is_an_error() {
    let mut v = vars();
    v.home = None;
    match Config::from_vars(&v) {
        Err(ConfigError::MissingEnv(k)) => assert_eq!(k, "RAS_HOME"),
        other => panic!("unexpected {other:?}"),
    }
}

#[test]
fn bad_timeouts_report_the_first_bad_variable() {
    let mut v = vars();
    v.cdp_timeout_s = Some("soon".to_string());
    v.action_timeout_s = Some("-1".to_string());
    match Config::from_vars(&v) {
        Err(ConfigError::InvalidValue(k, val)) => {
            assert_eq!(k, "RAS_CDP_TIMEOUT_S");
            assert_eq!(val, "soon");
        }
        other => panic!("unexpected {other:?}"),
    }
    v.cdp_timeout_s = None;
    let e = Config::from_vars(&v).expect_err("action timeout");
    assert_eq!(e.message(), "invalid value for RAS_ACTION_TIMEOUT_S: -1");
    match e.into_app_error() {
        AppError::ValidationError(m) => assert_eq!(m, "invalid value for RAS_ACTION_TIMEOUT_S: -1"),
        other => panic!("unexpected {other:?}"),
    }
}

#[test]
fn u64_parsing_matches_std() {
    for s in ["0", "42", "+7", "", "+", "-1", " 1", "1 ", "18446744073709551615", "18446744073709551616", "99999999999999999999", "007", "1_000"] {
        assert_eq!(parse_u64(s), s.parse::<u64>().ok(), "input {s:?}");
    }
}

#[test]
fn parse_duration_default_and_error() {
    assert_eq!(parse_duration("K", &None, 9).ok(), Some(9));
    assert_eq!(parse_duration("K", &Some("3".to_string()), 9).ok(), Some(3));
    assert!(matches!(parse_duration("K", &Some("x".to_string()), 9), Err(ConfigError::InvalidValue(_, _))));
    assert_eq!(ConfigError::MissingEnv("A".to_string()).message(), "missing required env var: A");
}
