use meri_bot::config::{config_file_missing, LoaderKind, load_command_config, parse_config, parse_i32, parse_i64, parse_u64, parse_usize, strip_bom, validate_lm_config, ConfigError, TemperatureCheck};

const FULL: &str = "# settings\nLM_STUDIO_BASE_URL = http://localhost:1234\nLM_STUDIO_TIMEOUT=300\nDEFAULT_MODEL=test-model\nDEFAULT_REASON_MODEL=reason-model\nDEFAULT_SUMMARIZATION_MODEL=sum-model\nDEFAULT_RANKING_MODEL=rank-model\nDEFAULT_TEMPERATURE=0.7\nDEFAULT_MAX_TOKENS=2000\nMAX_DISCORD_MESSAGE_LENGTH=2000\nRESPONSE_FORMAT_PADDING=100\nDEFAULT_VISION_MODEL=vision-model\nDEFAULT_SEED=42\n";

#[test]
fn config_lines_are_read() {
    let m = parse_config("  KEY = a=b  \n#comment\nnoequals\n\nKEY=second\r\nOTHER=");
    assert_eq!(m.get("KEY"), Some("second".to_string()));
    assert_eq!(m.get("OTHER"), Some("".to_string()));
    assert!(m.get("noequals").is_none());
    assert!(!m.contains_key("#comment"));
}

#[test]
fn bom_is_removed() {
    assert_eq!(strip_bom("\u{feff}A=1"), "A=1");
    assert_eq!(strip_bom("A=1"), "A=1");
}

#[test]
fn integers_parse_like_std() {
    assert_eq!(parse_u64("+42"), Some(42));
    assert_eq!(parse_u64("-0"), None);
    assert_eq!(parse_u64("18446744073709551615"), Some(u64::MAX));
    assert_eq!(parse_u64("18446744073709551616"), None);
    assert_eq!(parse_u64(" 1"), None);
    assert_eq!(parse_u64(""), None);
    assert_eq!(parse_usize("100"), Some(100));
    assert_eq!(parse_i64("-9223372036854775808"), Some(i64::MIN));
    assert_eq!(parse_i64("9223372036854775808"), None);
    assert_eq!(parse_i32("-5"), Some(-5));
    assert_eq!(parse_i32("3000000000"), None);
    assert_eq!(parse_i32("-"), None);
}

#[test]
fn full_settings_are_accepted() {
    let m = parse_config(FULL);
    let s = validate_lm_config(&m, TemperatureCheck::Valid).ok().unwrap();
    assert_eq!(s.base_url, "http://localhost:1234");
    assert_eq!(s.timeout, 300);
    assert_eq!(s.default_model, "test-model");
    assert_eq!(s.default_reason_model, "reason-model");
    assert_eq!(s.default_summarization_model, "sum-model");
    assert_eq!(s.default_ranking_model, "rank-model");
    assert_eq!(s.default_vision_model, "vision-model");
    assert_eq!(s.default_temperature_text, "0.7");
    assert_eq!(s.default_max_tokens, 2000);
    assert_eq!(s.max_discord_message_length, 2000);
    assert_eq!(s.response_format_padding, 100);
    assert_eq!(s.default_seed, Some(42));
}

#[test]
fn settings_errors_come_in_order() {
    let m = parse_config("LM_STUDIO_TIMEOUT=1\nDEFAULT_MODEL=x");
    match validate_lm_config(&m, TemperatureCheck::Valid) {
        Err(ConfigError::MissingKeys(keys)) => {
            assert_eq!(keys[0], "LM_STUDIO_BASE_URL");
            assert_eq!(keys.len(), 9);
        }
        _ => panic!("expected missing keys"),
    }
    let bad_url = FULL.replace("http://localhost:1234", "localhost:1234");
    assert!(matches!(validate_lm_config(&parse_config(&bad_url), TemperatureCheck::Valid), Err(ConfigError::InvalidBaseUrl(_))));
    let bad_timeout = FULL.replace("TIMEOUT=300", "TIMEOUT=601");
    assert!(matches!(validate_lm_config(&parse_config(&bad_timeout), TemperatureCheck::Valid), Err(ConfigError::TimeoutOutOfRange(601))));
    assert!(matches!(validate_lm_config(&parse_config(FULL), TemperatureCheck::NotNumber), Err(ConfigError::TemperatureNotNumber)));
    let bad_tokens = FULL.replace("TOKENS=2000", "TOKENS=0");
    assert!(matches!(validate_lm_config(&parse_config(&bad_tokens), TemperatureCheck::Valid), Err(ConfigError::MaxTokensOutOfRange(0))));
    let blank_seed = FULL.replace("DEFAULT_SEED=42", "DEFAULT_SEED=  ");
    assert_eq!(validate_lm_config(&parse_config(&blank_seed), TemperatureCheck::Valid).ok().unwrap().default_seed, None);
    let bad_seed = FULL.replace("DEFAULT_SEED=42", "DEFAULT_SEED=x");
    assert!(matches!(validate_lm_config(&parse_config(&bad_seed), TemperatureCheck::Valid), Err(ConfigError::SeedNotInteger)));
}

#[test]
fn refusals_are_explained() {
    let m = parse_config("LM_STUDIO_BASE_URL=http://h\nDEFAULT_MODEL=x");
    let e = validate_lm_config(&m, TemperatureCheck::Valid).err().unwrap();
    let text = e.message("lmapiconf.txt");
    assert!(text.starts_with("❌ **Missing Configuration Keys**\n\nThe following required keys are missing from `lmapiconf.txt`:\n• LM_STUDIO_TIMEOUT\n• DEFAULT_REASON_MODEL\n"));
    assert!(text.ends_with("• DEFAULT_VISION_MODEL\n\n**Solution:** Add these keys to your lmapiconf.txt file. See example_lmapiconf.txt for reference."));
    assert_eq!(
        ConfigError::TimeoutOutOfRange(900).message("f"),
        "❌ **Invalid Timeout Value**\n\nLM_STUDIO_TIMEOUT must be between 1 and 600 seconds\nCurrent value: 900 seconds\n\n**Recommended:** 30-120 seconds"
    );
    assert_eq!(
        ConfigError::MaxTokensOutOfRange(-3).message("f"),
        "❌ **Invalid Max Tokens Value**\n\nDEFAULT_MAX_TOKENS must be between 1 and 32768\nCurrent value: -3\n\n**Recommended:** 1000-8000 for most use cases"
    );
    assert_eq!(
        ConfigError::TemperatureOutOfRange("2.5".to_string()).message("f"),
        "❌ **Invalid Temperature Value**\n\nDEFAULT_TEMPERATURE must be between 0.0 and 2.0\nCurrent value: 2.5\n\n**Recommended:** 0.1-1.0 (0.7-0.8 is typical)"
    );
    assert!(ConfigError::InvalidBaseUrl("ftp://x".to_string()).message("f").contains("Current value: `ftp://x`"));
    assert_eq!(ConfigError::SeedNotInteger.message("f"), "DEFAULT_SEED must be a valid integer if specified");
}

#[test]
fn command_loaders_check_keys_and_values() {
    let m = parse_config(FULL);
    let s = load_command_config(&m, LoaderKind::Ranking, "lmapiconf.txt", TemperatureCheck::Valid).ok().unwrap();
    assert_eq!(s.default_model, "test-model");
    assert_eq!(s.default_ranking_model, "rank-model");
    assert_eq!(s.timeout, 300);
    assert_eq!(s.default_seed, Some(42));
    let a = load_command_config(&m, LoaderKind::Agent, "lmapiconf.txt", TemperatureCheck::Valid).ok().unwrap();
    assert_eq!(a.default_model, "reason-model");
    assert_eq!(a.default_vision_model, "");
    let short = parse_config("LM_STUDIO_BASE_URL=http://h\nLM_STUDIO_TIMEOUT=5");
    assert_eq!(
        load_command_config(&short, LoaderKind::Reasoning, "../lmapiconf.txt", TemperatureCheck::Valid).err(),
        Some("Required setting 'DEFAULT_MODEL' not found in ../lmapiconf.txt (reasoning command)".to_string())
    );
    assert_eq!(
        load_command_config(&short, LoaderKind::Agent, "x", TemperatureCheck::Valid).err(),
        Some("Required setting 'DEFAULT_REASON_MODEL' not found in x (agent)".to_string())
    );
    let slow = parse_config(&FULL.replace("LM_STUDIO_TIMEOUT=300", "LM_STUDIO_TIMEOUT=900"));
    assert_eq!(
        load_command_config(&slow, LoaderKind::Ranking, "x", TemperatureCheck::Valid).err(),
        Some("❌ **Invalid Timeout Value**\n\nLM_STUDIO_TIMEOUT must be between 1 and 600 seconds\nCurrent value: 900 seconds\nRecommended: 300 seconds for complex ranking operations".to_string())
    );
    assert!(load_command_config(&slow, LoaderKind::Reasoning, "x", TemperatureCheck::Valid).is_ok());
    let bad = parse_config(&FULL.replace("LM_STUDIO_TIMEOUT=300", "LM_STUDIO_TIMEOUT=abc"));
    assert_eq!(load_command_config(&bad, LoaderKind::Ranking, "x", TemperatureCheck::Valid).err(), Some("LM_STUDIO_TIMEOUT must be a valid number (seconds)".to_string()));
    assert_eq!(load_command_config(&bad, LoaderKind::Agent, "x", TemperatureCheck::Valid).err(), Some("Invalid LM_STUDIO_TIMEOUT value".to_string()));
    assert_eq!(load_command_config(&m, LoaderKind::Reasoning, "x", TemperatureCheck::NotNumber).err(), Some("Invalid DEFAULT_TEMPERATURE value".to_string()));
    assert!(load_command_config(&m, LoaderKind::Reasoning, "x", TemperatureCheck::OutOfRange("9".to_string())).is_ok());
    let blank_seed = parse_config(&FULL.replace("DEFAULT_SEED=42", "DEFAULT_SEED="));
    assert_eq!(load_command_config(&blank_seed, LoaderKind::Ranking, "x", TemperatureCheck::Valid).err(), Some("DEFAULT_SEED must be a valid integer if specified".to_string()));
    assert!(validate_lm_config(&blank_seed, TemperatureCheck::Valid).is_ok());
}

#[test]
fn missing_settings_file_messages() {
    assert!(config_file_missing(None).starts_with("❌ **Configuration File Not Found**"));
    assert_eq!(
        config_file_missing(Some(LoaderKind::Agent)),
        "lmapiconf.txt file not found in any expected location for agent"
    );
    assert!(config_file_missing(Some(LoaderKind::Ranking)).ends_with("for ranking command"));
}
