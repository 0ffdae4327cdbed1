use ai_shell::config::{
    config_path, default_base_url, history_path, Config, Location, Setting, CONFIG_TEMPLATE,
};
use ai_shell::error::AiError;

#[test]
fn config_default_base_url_is_openai() {
    let config = Config::parse(
        r#"
api_key = "test"
model = "gpt-4.1-mini"
"#,
    )
    .unwrap();

    assert_eq!(config.base_url, "https://api.openai.com/v1");
    assert_eq!(config.api_key, "test");
    assert_eq!(config.model, "gpt-4.1-mini");
    assert_eq!(config.temperature, None);
    assert_eq!(default_base_url(), "https://api.openai.com/v1");
}

#[test]
fn writes_config_template() {
    let raw = CONFIG_TEMPLATE;
    assert!(raw.contains("api_key = \"replace-me\""));
    assert!(raw.contains("model = \"gpt-4.1-mini\""));
    assert_eq!(
        Config::load("p", Some(raw.to_string())),
        Ok(Config {
            api_key: "replace-me".to_string(),
            model: "gpt-4.1-mini".to_string(),
            base_url: "https://api.openai.com/v1".to_string(),
            temperature: Some("0.2".to_string()),
        })
    );
}

#[test]
fn settings_are_read_as_they_stand() {
    let config = Config::parse(
        "# c\nbase_url = 'http://localhost/'\nmodel = \"\\u0061\"\napi_key = ''\ntemperature = 0x1_0\nother = { a = [1, 2979-05-27] }\nbig = 18446744073709551615\n",
    )
    .unwrap();
    assert_eq!(config.base_url, "http://localhost/");
    assert_eq!(config.model, "a");
    assert_eq!(config.api_key, "");
    assert_eq!(config.temperature, Some("0x10".to_string()));
}

#[test]
fn settings_of_another_kind_are_refused() {
    for text in [
        "",
        "api_key = 'k'",
        "model = 'm'",
        "api_key = 1\nmodel = 'm'",
        "api_key = 'k'\nmodel = ['m']",
        "api_key = 'k'\nmodel = 'm'\nbase_url = 1",
        "api_key = 'k'\nmodel = 'm'\ntemperature = '0.2'",
        "api_key = 'k'\nmodel = 'm'\ntemperature = true",
        "api_key = 'k'\nmodel = 'm'\ntemperature = 1e999",
        "api_key = 'k'\nmodel = 'm'\ntemperature = 99999999999999999999",
        "api_key = 'k'\nmodel = 'm'\ntemperature = 18446744073709551616",
        "api_key = 'k'\nmodel = 'm'\ntemperature = -9223372036854775809",
        "api_key = 'k'\nmodel = 'm'\ntemperature = 0x1_0000_0000_0000_0000",
        "api_key = 'k'\nmodel = 'm'\nother = 1e999",
        "api_key = 'k'\nmodel = 'm'\nmodel = 'm'",
        "api_key = 'k'\nmodel = 'm'\nnonsense",
        "[t]\napi_key = 'k'\nmodel = 'm'",
    ] {
        assert_eq!(Config::parse(text), None, "{text}");
        assert_eq!(
            Config::load("/c", Some(text.to_string())),
            Err(AiError::ConfigNotParsed("/c".to_string()))
        );
    }
}

#[test]
fn an_integer_is_a_temperature_where_it_fits() {
    for (written, read) in [
        ("1", "1"),
        ("+1", "+1"),
        ("-0", "-0"),
        ("1_000", "1000"),
        ("18446744073709551615", "18446744073709551615"),
        ("-9223372036854775808", "-9223372036854775808"),
        ("0xFFFF_ffff_FFFF_ffff", "0xFFFFffffFFFFffff"),
        ("0o17", "0o17"),
        ("0b101", "0b101"),
        ("-inf", "-inf"),
        ("1e-6", "1e-6"),
    ] {
        let text = format!("api_key = 'k'\nmodel = 'm'\ntemperature = {written}\n");
        assert_eq!(Config::parse(&text).unwrap().temperature, Some(read.to_string()), "{written}");
    }
    let ignored = "api_key = 'k'\nmodel = 'm'\nother = 99999999999999999999\n";
    assert!(Config::parse(ignored).is_some());
    let digits = |s: &str, radix: u32| Setting::Integer { digits: s.to_string(), radix }.number();
    assert_eq!(digits("12", 10), Some("12".to_string()));
    assert_eq!(digits("12", 2), None);
    assert_eq!(digits("", 10), None);
    assert_eq!(digits("-", 10), None);
    assert_eq!(digits("ff", 16), Some("0xff".to_string()));
}

#[test]
fn plain_lines_are_read_as_they_stand() {
    let text = "#\n# a \"b\" = 'c'\n\napi_key = \"k # ' = ~\"\nmodel = \"\"\n1-_Z = \"x\"\ntemperature = 0.00\n";
    let config = Config::parse(text).unwrap();
    assert_eq!(config.api_key, "k # ' = ~");
    assert_eq!(config.model, "");
    assert_eq!(config.base_url, default_base_url());
    assert_eq!(config.temperature, Some("0.00".to_string()));
}

#[test]
fn a_missing_file_is_told() {
    let error = Config::load("/c", None).unwrap_err();
    assert_eq!(
        error.message(),
        "created config template at /c. Fill in api_key and model, then run ai again"
    );
}

#[test]
fn settings_make_up_a_configuration() {
    let text = |s: &str| Some(Setting::Text(s.to_string()));
    let config =
        Config::from_settings(text("k"), text("m"), None, Some(Setting::Float("1.0".to_string())));
    assert_eq!(
        config,
        Some(Config {
            api_key: "k".to_string(),
            model: "m".to_string(),
            base_url: default_base_url(),
            temperature: Some("1.0".to_string()),
        })
    );
    assert_eq!(Config::from_settings(text("k"), Some(Setting::Other), None, None), None);
    assert_eq!(Config::from_settings(text("k"), text("m"), Some(Setting::Other), None), None);
    assert_eq!(Config::from_settings(text("k"), text("m"), None, text("1")), None);
}

#[test]
fn files_lie_below_the_directories_of_the_environment() {
    let at = |base: &'static str, relative: &str| Ok(Location { base, relative: relative.to_string() });
    assert_eq!(config_path(Some("/x"), Some("/h")), at("/x", "ai-shell/config.toml"));
    assert_eq!(config_path(None, Some("/h")), at("/h", ".config/ai-shell/config.toml"));
    assert_eq!(config_path(None::<&str>, None), Err(AiError::HomeNotSet));
    assert_eq!(history_path(Some("/x"), None), at("/x", "ai-shell/history.sqlite"));
    assert_eq!(history_path(None, Some("/h")), at("/h", ".local/share/ai-shell/history.sqlite"));
    assert_eq!(history_path(None::<&str>, None), Err(AiError::HomeNotSet));
}
