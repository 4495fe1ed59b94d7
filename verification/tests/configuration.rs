use health_tracker::config::{get_config, parse_bool, parse_i64, Config, ConfigFile, EnvValues};
use health_tracker::security::validate_api_key;

fn empty_env() -> EnvValues {
    EnvValues {
        database_url: None,
        api_port: None,
        enable_swagger_ui: None,
        api_hostname: None,
        api_token: None,
    }
}

fn full_env() -> EnvValues {
    EnvValues {
        database_url: Some("sqlite://env.db".to_string()),
        api_port: Some("8080".to_string()),
        enable_swagger_ui: Some("yes".to_string()),
        api_hostname: Some("http://localhost:8080".to_string()),
        api_token: Some("SECRET-REDACTED".to_string()),
    }
}

fn full_file() -> ConfigFile {
    ConfigFile {
        database_url: Some("sqlite://file.db".to_string()),
        api_port: Some(9090),
        enable_swagger_ui: Some(false),
        api_hostname: Some("http://file:9090".to_string()),
        api_token: Some("file-token".to_string()),
    }
}

#[test]
fn parse_i64_accepts_decimal_and_rejects_the_rest() {
    assert_eq!(parse_i64("0"), Some(0));
    assert_eq!(parse_i64("123"), Some(123));
    assert_eq!(parse_i64("+42"), Some(42));
    assert_eq!(parse_i64("-17"), Some(-17));
    assert_eq!(parse_i64("9223372036854775807"), Some(i64::MAX));
    assert_eq!(parse_i64("-9223372036854775808"), Some(i64::MIN));
    assert_eq!(parse_i64("9223372036854775808"), None);
    assert_eq!(parse_i64("-9223372036854775809"), None);
    assert_eq!(parse_i64("99999999999999999999999999"), None);
    assert_eq!(parse_i64(""), None);
    assert_eq!(parse_i64("+"), None);
    assert_eq!(parse_i64("-"), None);
    assert_eq!(parse_i64("12a"), None);
    assert_eq!(parse_i64(" 12"), None);
    assert_eq!(parse_i64("1 2"), None);
}

#[test]
fn parse_bool_matches_tokens_case_insensitively() {
    assert_eq!(parse_bool("y"), Some(true));
    assert_eq!(parse_bool("YES"), Some(true));
    assert_eq!(parse_bool("TrUe"), Some(true));
    assert_eq!(parse_bool("n"), Some(false));
    assert_eq!(parse_bool("No"), Some(false));
    assert_eq!(parse_bool("FALSE"), Some(false));
    assert_eq!(parse_bool("maybe"), None);
    assert_eq!(parse_bool(""), None);
}

#[test]
fn environment_overrides_file() {
    let config = get_config(&full_env(), &Some(full_file())).unwrap();
    assert_eq!(config.database_url, "sqlite://env.db");
    assert_eq!(config.api_port, 8080);
    assert!(config.enable_swagger_ui);
    assert_eq!(config.api_hostname, "http://localhost:8080");
    assert_eq!(config.api_token, "SECRET-REDACTED");
}

#[test]
fn file_supplies_missing_settings() {
    let config = get_config(&empty_env(), &Some(full_file())).unwrap();
    assert_eq!(config.database_url, "sqlite://file.db");
    assert_eq!(config.api_port, 9090);
    assert!(!config.enable_swagger_ui);
    assert_eq!(config.api_hostname, "http://file:9090");
    assert_eq!(config.api_token, "file-token");
}

#[test]
fn missing_database_url_is_reported_first() {
    let err = get_config(&empty_env(), &None).unwrap_err();
    assert_eq!(
        err.reason,
        "health-tracker database URL is not set, please add it to \
         ~/.config/health-tracker/config.yaml or as DATABASE_URL"
    );
}

#[test]
fn unreadable_port_falls_back_to_file_or_fails() {
    let mut env = full_env();
    env.api_port = Some("eighty".to_string());
    let with_file = get_config(&env, &Some(full_file())).unwrap();
    assert_eq!(with_file.api_port, 9090);
    let err = get_config(&env, &None).unwrap_err();
    assert_eq!(
        err.reason,
        "expected API_PORT to be a number, but got eighty instead"
    );
}

#[test]
fn unreadable_swagger_switch_fails_even_with_file() {
    let mut env = full_env();
    env.enable_swagger_ui = Some("definitely".to_string());
    let err = get_config(&env, &Some(full_file())).unwrap_err();
    assert_eq!(
        err.reason,
        "environment variable definitely has an unsupported value "
    );
    // an absent switch defaults to off
    let mut absent = full_env();
    absent.enable_swagger_ui = None;
    assert!(!get_config(&absent, &None).unwrap().enable_swagger_ui);
}

#[test]
fn empty_token_from_environment_is_rejected() {
    let mut env = full_env();
    env.api_token = Some("".to_string());
    let err = get_config(&env, &Some(full_file())).unwrap_err();
    assert_eq!(
        err.reason,
        "health-tracker API token is an empty string, please use a valid API token"
    );
}

#[test]
fn api_key_gate_accepts_only_the_configured_token() {
    let config = Config {
        database_url: "sqlite::memory:".to_string(),
        api_port: 8080,
        enable_swagger_ui: false,
        api_hostname: "http://localhost:8080".to_string(),
        api_token: "SECRET-REDACTED".to_string(),
    };
    assert!(validate_api_key(&"SECRET-REDACTED".to_string(), &config).is_ok());
    assert!(validate_api_key(&"wrong".to_string(), &config).is_err());
    assert!(validate_api_key(&"".to_string(), &config).is_err());
}
