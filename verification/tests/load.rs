use basevn_migro::data::record::Value;
use basevn_migro::config::target::{AuthConfig, AuthType, BaseVnConfig, BaseVnOptions, TargetConfig};
use basevn_migro::error::types::{ConfigError, LoadError};
use basevn_migro::load::basevn::{backoff_secs, reduced_rate, BaseVnLoader, RetryState, RetryStep};
use basevn_migro::load::rate_limiter::RateRecovery;
use basevn_migro::load::traits::LoadResult;

fn success_rate(r: &LoadResult) -> f64 {
    if r.total == 0 {
        return 100.0;
    }
    (r.success as f64 / r.total as f64) * 100.0
}

fn basevn_config(token: Option<&str>) -> BaseVnConfig {
    BaseVnConfig {
        base_url: "https://api.base.vn".into(),
        app: "test_app".into(),
        entity: "users".into(),
        auth: AuthConfig { auth_type: AuthType::AccessToken, token: token.map(|t| t.to_string()) },
        options: BaseVnOptions::default(),
    }
}

#[test]
fn test_basevn_loader_creation() {
    let loader = BaseVnLoader::new();
    assert_eq!(loader.name(), "basevn");
}

#[test]
fn test_validate_config_success() {
    let loader = BaseVnLoader::new();
    let config = TargetConfig::BaseVn { basevn: basevn_config(Some("test_token")) };
    assert!(loader.validate_config(&config).is_ok());
}

#[test]
fn test_validate_config_missing_token() {
    let loader = BaseVnLoader::new();
    let config = TargetConfig::BaseVn { basevn: basevn_config(None) };
    assert!(loader.validate_config(&config).is_err());
}

#[test]
fn validate_config_reports_each_problem_in_order() {
    let loader = BaseVnLoader::new();
    let mut c = basevn_config(None);
    c.app = String::new();
    match loader.validate_config(&TargetConfig::BaseVn { basevn: c.clone() }) {
        Err(ConfigError::Validation(m)) => assert_eq!(m, "Base.vn app name cannot be empty"),
        _ => panic!("expected a validation error"),
    }
    c.app = "a".into();
    c.entity = String::new();
    match loader.validate_config(&TargetConfig::BaseVn { basevn: c.clone() }) {
        Err(ConfigError::Validation(m)) => assert_eq!(m, "Base.vn entity name cannot be empty"),
        _ => panic!("expected a validation error"),
    }
    c.entity = "e".into();
    match loader.validate_config(&TargetConfig::BaseVn { basevn: c.clone() }) {
        Err(ConfigError::Validation(m)) => assert_eq!(m, "Access token is required for access_token auth type"),
        _ => panic!("expected a validation error"),
    }
    c.auth.token = Some("t".into());
    c.options.batch_size = 0;
    match loader.validate_config(&TargetConfig::BaseVn { basevn: c }) {
        Err(ConfigError::Validation(m)) => assert_eq!(m, "Batch size must be > 0"),
        _ => panic!("expected a validation error"),
    }
}

#[test]
fn test_parse_response_detailed_format_all_success() {
    let loader = BaseVnLoader::new();
    let response = r#"{
        "results": [
            {"index": 0, "id": "12345", "status": "success"},
            {"index": 1, "id": "12346", "status": "success"}
        ]
    }"#;

    let result = loader.parse_response(response, 2).unwrap();

    assert_eq!(result.total, 2);
    assert_eq!(result.success, 2);
    assert_eq!(result.failed, 0);
    assert!(result.failures.is_empty());
    assert!(result.is_complete_success());
}

#[test]
fn test_parse_response_detailed_format_mixed() {
    let loader = BaseVnLoader::new();
    let response = r#"{
        "results": [
            {"index": 0, "id": "12345", "status": "success"},
            {"index": 1, "status": "error", "error": "Validation failed: email required"},
            {"index": 2, "id": "12346", "status": "success"}
        ]
    }"#;

    let result = loader.parse_response(response, 3).unwrap();

    assert_eq!(result.total, 3);
    assert_eq!(result.success, 2);
    assert_eq!(result.failed, 1);
    assert_eq!(result.failures.len(), 1);
    assert_eq!(result.failures[0].index, 1);
    assert_eq!(result.failures[0].error, "Validation failed: email required");
    assert!(!result.is_complete_success());
    assert_eq!(success_rate(&result), 66.66666666666666);
}

#[test]
fn test_parse_response_simple_format() {
    let loader = BaseVnLoader::new();
    let response = r#"{
        "created": 2,
        "failed": 1,
        "errors": [
            {"index": 1, "id": "user_123", "error": "Duplicate email"}
        ]
    }"#;

    let result = loader.parse_response(response, 3).unwrap();

    assert_eq!(result.total, 3);
    assert_eq!(result.success, 2);
    assert_eq!(result.failed, 1);
    assert_eq!(result.failures.len(), 1);
    assert_eq!(result.failures[0].index, 1);
    assert_eq!(result.failures[0].id, Some("user_123".to_string()));
    assert_eq!(result.failures[0].error, "Duplicate email");
}

#[test]
fn test_parse_response_non_json_fallback() {
    let loader = BaseVnLoader::new();
    let response = "OK";

    let result = loader.parse_response(response, 5).unwrap();

    assert_eq!(result.total, 5);
    assert_eq!(result.success, 5);
    assert_eq!(result.failed, 0);
    assert!(result.failures.is_empty());
}

#[test]
fn test_parse_response_unrecognized_format_fallback() {
    let loader = BaseVnLoader::new();
    let response = r#"{
        "status": "ok",
        "message": "Records processed"
    }"#;

    let result = loader.parse_response(response, 3).unwrap();

    assert_eq!(result.total, 3);
    assert_eq!(result.success, 3);
    assert_eq!(result.failed, 0);
    assert!(result.failures.is_empty());
}

#[test]
fn parse_response_defaults_for_missing_entry_fields() {
    let loader = BaseVnLoader::new();
    let result = loader.parse_response(r#"{"results": [{"status": 5}, {"status": "bad"}]}"#, 2).unwrap();
    assert_eq!(result.success, 1);
    assert_eq!(result.failed, 1);
    assert_eq!(result.failures[0].index, 1);
    assert_eq!(result.failures[0].error, "Unknown error");
    assert_eq!(result.failures[0].id, None);

    let result = loader.parse_response(r#"{"errors": [{"error": "x"}, {"index": 7}], "created": "two"}"#, 4).unwrap();
    assert_eq!(result.success, 0);
    assert_eq!(result.failed, 2);
    assert_eq!(result.failures[0].index, 0);
    assert_eq!(result.failures[1].index, 7);
    assert_eq!(result.failures[1].error, "Unknown error");

    let result = loader.parse_response(r#"{"results": "not a list", "errors": []}"#, 4).unwrap();
    assert_eq!(result.success, 0);
    assert_eq!(result.failed, 0);
}

#[test]
fn load_result_counts() {
    let mut r = LoadResult::new(3);
    assert!(!r.is_complete_success());
    r.add_success();
    r.add_success();
    r.add_failure(2, Some("id".into()), "bad".into());
    assert_eq!(r.success, 2);
    assert_eq!(r.failed, 1);
    assert_eq!(r.failures[0].index, 2);
    let all = LoadResult::success(4);
    assert!(all.is_complete_success());
    assert_eq!(all.success, 4);
    assert_eq!(success_rate(&LoadResult::new(0)), 100.0);
}

#[test]
fn request_url_authorization_and_status() {
    let loader = BaseVnLoader::new();
    let c = basevn_config(Some("tok"));
    assert_eq!(loader.batch_url(&c), "https://api.base.vn/api/test_app/users");
    assert_eq!(loader.authorization(&c).unwrap(), "Bearer tok");
    match loader.authorization(&basevn_config(None)) {
        Err(LoadError::Auth(m)) => assert_eq!(m, "Access token not provided"),
        _ => panic!("expected an auth error"),
    }
    assert!(loader.check_status(200, "").is_ok());
    assert!(matches!(loader.check_status(429, ""), Err(LoadError::RateLimit { retry_after: None })));
    match loader.check_status(403, "denied") {
        Err(LoadError::Auth(m)) => assert_eq!(m, "Authentication failed: denied"),
        _ => panic!("expected an auth error"),
    }
    match loader.check_status(500, "oops") {
        Err(LoadError::ApiRequest(m)) => {
            assert_eq!(m, "API request failed with status 500 Internal Server Error: oops")
        }
        _ => panic!("expected an API error"),
    }
}

#[test]
fn retry_waits_double_and_lowers_rate_after_rate_limit() {
    assert_eq!(backoff_secs(1), 1);
    assert_eq!(backoff_secs(4), 8);
    assert_eq!(reduced_rate(10), 7);
    assert_eq!(reduced_rate(1), 1);
    assert_eq!(reduced_rate(0), 1);

    let mut state = RetryState::new(3);
    let err = LoadError::RateLimit { retry_after: None };
    match state.on_failure(&err, 10, true) {
        RetryStep::Retry { delay_secs, adjusted_rate } => {
            assert_eq!(delay_secs, 1);
            assert_eq!(adjusted_rate, Some(7));
        }
        RetryStep::GiveUp => panic!("expected a retry"),
    }
    match state.on_failure(&LoadError::ApiRequest("x".into()), 10, true) {
        RetryStep::Retry { delay_secs, adjusted_rate } => {
            assert_eq!(delay_secs, 2);
            assert_eq!(adjusted_rate, None);
        }
        RetryStep::GiveUp => panic!("expected a retry"),
    }
    assert!(matches!(state.on_failure(&err, 10, true), RetryStep::GiveUp));

    let mut state = RetryState::new(5);
    assert!(matches!(state.on_failure(&LoadError::Auth("no".into()), 10, true), RetryStep::GiveUp));
}

#[test]
fn test_adjust_rate_tracks_current_rate() {
    let mut limiter = RateRecovery::new(10);
    assert_eq!(limiter.get_rate(), 10);

    limiter.adjust_rate(5);
    assert_eq!(limiter.get_rate(), 5);

    limiter.adjust_rate(8);
    assert_eq!(limiter.get_rate(), 8);
}

#[test]
fn test_original_rate_preserved() {
    let mut limiter = RateRecovery::new(10);
    assert_eq!(limiter.original_rate(), 10);

    limiter.adjust_rate(5);
    assert_eq!(limiter.original_rate(), 10);
}

#[test]
fn test_success_streak_reset() {
    let mut limiter = RateRecovery::new(10);

    for _ in 0..5 {
        limiter.record_success();
    }

    limiter.reset_success_streak();

    limiter.adjust_rate(5);
    for _ in 0..9 {
        limiter.record_success();
    }
    assert_eq!(limiter.get_rate(), 5);
}

#[test]
fn test_recovery_after_threshold() {
    let mut limiter = RateRecovery::new(10);

    limiter.adjust_rate(5);
    assert_eq!(limiter.get_rate(), 5);

    for _ in 0..10 {
        limiter.record_success();
    }

    let rate = limiter.get_rate();
    assert!(rate >= 5);
}

#[test]
fn test_recovery_caps_at_original() {
    let mut limiter = RateRecovery::new(10);

    limiter.adjust_rate(9);

    for _ in 0..10 {
        limiter.record_success();
    }

    let rate = limiter.get_rate();
    assert!(rate <= 10);
}

#[test]
fn recovery_raises_by_a_tenth_and_stops_at_original() {
    let mut limiter = RateRecovery::new(100);
    limiter.adjust_rate(50);
    for _ in 0..9 {
        assert_eq!(limiter.record_success(), None);
    }
    assert_eq!(limiter.record_success(), Some(55));
    assert_eq!(limiter.get_rate(), 55);

    let mut limiter = RateRecovery::new(100);
    limiter.adjust_rate(95);
    for _ in 0..9 {
        limiter.record_success();
    }
    assert_eq!(limiter.record_success(), Some(100));
    for _ in 0..10 {
        limiter.record_success();
    }
    assert_eq!(limiter.get_rate(), 100);
}

#[test]
fn retry_with_no_retries_gives_up_after_one_attempt() {
    let mut state = RetryState::new(0);
    assert!(matches!(state.on_failure(&LoadError::ApiRequest("x".into()), 10, false), RetryStep::GiveUp));
    let mut state = RetryState::new(2);
    assert!(matches!(state.on_failure(&LoadError::ApiRequest("x".into()), 10, false), RetryStep::Retry { delay_secs: 1, .. }));
    assert!(matches!(state.on_failure(&LoadError::ApiRequest("x".into()), 10, false), RetryStep::GiveUp));
    assert_eq!(state.attempt, 2);
}

#[test]
fn recovery_raises_a_small_rate_by_at_least_one() {
    let mut limiter = RateRecovery::new(10);
    limiter.adjust_rate(5);
    for _ in 0..9 {
        assert_eq!(limiter.record_success(), None);
    }
    assert_eq!(limiter.record_success(), Some(6));
    assert!(5 < limiter.get_rate() && limiter.get_rate() <= limiter.original_rate());

    let mut limiter = RateRecovery::new(2);
    limiter.adjust_rate(1);
    for _ in 0..10 {
        limiter.record_success();
    }
    assert_eq!(limiter.get_rate(), 2);
    for _ in 0..10 {
        assert_eq!(limiter.record_success(), None);
    }
}

#[test]
fn response_result_reads_parsed_json() {
    let detailed = Value::Object(vec![(
        "results".to_string(),
        Value::Array(vec![
            Value::Object(vec![("status".to_string(), Value::String("success".into()))]),
            Value::Object(vec![
                ("index".to_string(), Value::Number("1".into())),
                ("status".to_string(), Value::String("error".into())),
                ("error".to_string(), Value::String("dup".into())),
            ]),
        ]),
    )]);
    let r = BaseVnLoader::response_result(Some(&detailed), 2);
    assert_eq!((r.total, r.success, r.failed), (2, 1, 1));
    assert_eq!(r.failures[0].index, 1);
    assert_eq!(r.failures[0].error, "dup");
    let r = BaseVnLoader::response_result(None, 4);
    assert_eq!((r.total, r.success, r.failed), (4, 4, 0));
    let simple = Value::Object(vec![
        ("created".to_string(), Value::Number("3".into())),
        ("errors".to_string(), Value::Array(vec![Value::String("bad".into())])),
    ]);
    let r = BaseVnLoader::response_result(Some(&simple), 4);
    assert_eq!((r.success, r.failed), (3, 1));
}
