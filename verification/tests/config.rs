use lexi::config::{
    api_key_preview, can_preview, list_config, parse_key, parse_u32, read_token_limit, u32_text,
    Config, ConfigKey, DEFAULT_MAX_TOKENS, DEFAULT_TEMPERATURE,
};
use lexi::error::ConfigError;

#[test]
fn default_config_asks_openai() {
    let c = Config::default();
    assert_eq!(c.provider, "openai");
    assert_eq!(c.model, "gpt-4");
    assert_eq!(c.api_key, "");
    assert_eq!(c.base_url, "");
    assert_eq!(c.max_tokens, 2000);
    assert_eq!(f32::from_bits(c.temperature), 0.1f32);
    assert_eq!(DEFAULT_TEMPERATURE, 0.1f32.to_bits());
    assert_eq!(DEFAULT_MAX_TOKENS, 2000);
}

#[test]
fn clone_keeps_every_setting() {
    let mut c = Config::default();
    c.api_key = String::from("sk-1");
    c.max_tokens = 7;
    assert_eq!(c.clone(), c);
}

#[test]
fn parse_key_knows_six_keys() {
    assert_eq!(parse_key("provider"), Some(ConfigKey::Provider));
    assert_eq!(parse_key("model"), Some(ConfigKey::Model));
    assert_eq!(parse_key("api_key"), Some(ConfigKey::ApiKey));
    assert_eq!(parse_key("base_url"), Some(ConfigKey::BaseUrl));
    assert_eq!(parse_key("temperature"), Some(ConfigKey::Temperature));
    assert_eq!(parse_key("max_tokens"), Some(ConfigKey::MaxTokens));
    assert_eq!(parse_key("Provider"), None);
    assert_eq!(parse_key("apikey"), None);
    assert_eq!(parse_key(""), None);
}

#[test]
fn parse_u32_agrees_with_str_parse() {
    let texts = [
        "", "+", "-", "0", "+0", "-0", "7", "+7", "-7", "++7", "007", "2000", "4294967295",
        "4294967296", "42949672950", "99999999999999999999", "00000000000000000000005", " 5",
        "5 ", "5_000", "1e3", "0x10", "١٢٣", "12a", "a12", "+ 5", "４２",
    ];
    for t in texts {
        assert_eq!(parse_u32(t), t.parse::<u32>().ok(), "{:?}", t);
    }
}

#[test]
fn parse_u32_reads_the_limits() {
    assert_eq!(parse_u32("0"), Some(0));
    assert_eq!(parse_u32("4294967295"), Some(u32::MAX));
    assert_eq!(parse_u32("4294967296"), None);
    assert_eq!(parse_u32("+12"), Some(12));
}

#[test]
fn u32_text_agrees_with_to_string() {
    for n in [0u32, 1, 9, 10, 11, 99, 100, 101, 2000, 65535, 1_000_000, u32::MAX - 1, u32::MAX] {
        assert_eq!(u32_text(n), n.to_string());
        assert_eq!(parse_u32(&u32_text(n)), Some(n));
    }
}

#[test]
fn set_config_changes_the_setting_named() {
    let mut c = Config::default();
    assert_eq!(c.set_config("provider", "anthropic", None), Ok(()));
    assert_eq!(c.set_config("model", "big-model", None), Ok(()));
    assert_eq!(c.set_config("api_key", "sk-secret", None), Ok(()));
    assert_eq!(c.set_config("base_url", "http://host:1", None), Ok(()));
    assert_eq!(c.set_config("max_tokens", "512", None), Ok(()));
    assert_eq!(c.set_config("temperature", "0.7", Some(0.7f32.to_bits())), Ok(()));
    assert_eq!(
        c,
        Config {
            provider: String::from("anthropic"),
            model: String::from("big-model"),
            api_key: String::from("sk-secret"),
            base_url: String::from("http://host:1"),
            temperature: 0.7f32.to_bits(),
            max_tokens: 512,
        }
    );
}

#[test]
fn set_config_falls_back_to_the_defaults() {
    let mut c = Config::default();
    c.max_tokens = 1;
    c.temperature = 1.5f32.to_bits();
    assert_eq!(c.set_config("max_tokens", "many", None), Ok(()));
    assert_eq!(c.max_tokens, 2000);
    assert_eq!(c.set_config("max_tokens", "-1", None), Ok(()));
    assert_eq!(c.max_tokens, 2000);
    assert_eq!(c.set_config("temperature", "warm", None), Ok(()));
    assert_eq!(f32::from_bits(c.temperature), 0.1f32);
}

#[test]
fn set_config_ignores_the_number_for_other_keys() {
    let mut c = Config::default();
    assert_eq!(c.set_config("model", "0.5", Some(0.5f32.to_bits())), Ok(()));
    assert_eq!(c.model, "0.5");
    assert_eq!(c.temperature, DEFAULT_TEMPERATURE);
}

#[test]
fn set_config_refuses_an_unknown_key() {
    let mut c = Config::default();
    let r = c.set_config("colour", "blue", None);
    assert_eq!(r, Err(ConfigError::UnknownKey { key: String::from("colour") }));
    assert_eq!(c, Config::default());
    assert_eq!(r.unwrap_err().message(), "Unknown config key: colour");
}

#[test]
fn assign_sets_by_key() {
    let mut c = Config::default();
    c.assign(ConfigKey::BaseUrl, "https://x", None);
    c.assign(ConfigKey::MaxTokens, "+64", None);
    assert_eq!(c.base_url, "https://x");
    assert_eq!(c.max_tokens, 64);
}

#[test]
fn api_key_preview_shows_eight_bytes() {
    assert_eq!(api_key_preview(""), "(not set)");
    assert_eq!(api_key_preview("abc"), "abc...");
    assert_eq!(api_key_preview("12345678"), "12345678...");
    assert_eq!(api_key_preview("sk-1234567890"), "sk-12345...");
    assert_eq!(api_key_preview("ääää-rest"), "ääää...");
    assert_eq!(api_key_preview("äää"), "äää...");
}

#[test]
fn list_config_shows_every_setting() {
    let mut c = Config::default();
    c.api_key = String::from("sk-1234567890");
    let lines = list_config("work", &c, "0.1");
    assert_eq!(
        lines,
        vec![
            "🔧 Lexi Configuration (Profile: work):",
            "   provider: openai",
            "   model: gpt-4",
            "   api_key: sk-12345...",
            "   base_url: (not set)",
            "   temperature: 0.1",
            "   max_tokens: 2000",
        ]
    );
    c.api_key = String::new();
    c.base_url = String::from("http://localhost:11434");
    let lines = list_config("default", &c, "0.1");
    assert_eq!(lines[3], "   api_key: (not set)");
    assert_eq!(lines[4], "   base_url: http://localhost:11434");
}

#[test]
fn can_preview_agrees_with_the_slice_of_std() {
    for key in ["", "abc", "12345678", "123456789", "ääää-rest", "äää", "1234567ä9", "ä234567ä9", "1234567€"] {
        let cut = key.len().min(8);
        assert_eq!(can_preview(key), key.is_char_boundary(cut), "{:?}", key);
        if can_preview(key) && !key.is_empty() {
            assert_eq!(api_key_preview(key), format!("{}...", &key[..cut]));
        }
    }
    assert!(!can_preview("1234567ä9"));
    assert!(!can_preview("1234567ä"));
    assert!(can_preview("123456ä"));
    assert!(can_preview("123456ä9"));
}

#[test]
fn token_limit_of_zero_becomes_the_default() {
    for zero in ["0", "+0", "000", "+0000"] {
        let mut c = Config::default();
        c.max_tokens = 7;
        assert_eq!(c.set_config("max_tokens", zero, None), Ok(()));
        assert_eq!(c.max_tokens, 2000, "{:?}", zero);
        assert_eq!(read_token_limit(zero), 2000);
    }
}

#[test]
fn token_limit_is_taken_as_written_from_one_up() {
    for n in [1u32, 2, 9, 10, 512, 2000, 65536, u32::MAX - 1, u32::MAX] {
        let mut c = Config::default();
        c.assign(ConfigKey::MaxTokens, &n.to_string(), None);
        assert_eq!(c.max_tokens, n);
        assert_eq!(read_token_limit(&format!("+{}", n)), n);
        assert_eq!(read_token_limit(&format!("00{}", n)), n);
    }
}

#[test]
fn token_limit_is_never_zero() {
    let texts = ["", "0", "-0", "-1", "many", "4294967296", " 5", "1", "0x0", "00", "+", "0.0"];
    for text in texts {
        assert!(read_token_limit(text) >= 1, "{:?}", text);
        let want = match text.parse::<u32>() {
            Ok(n) if n >= 1 => n,
            _ => DEFAULT_MAX_TOKENS,
        };
        assert_eq!(read_token_limit(text), want, "{:?}", text);
    }
}
