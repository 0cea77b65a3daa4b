use g_type::config::{
    default_currency, default_hotkey, default_language, default_model, default_sound_enabled,
    default_timeout_secs, transcription_prompt, Config,
};

fn cfg_with(api_key: &str, model: &str, timeout_secs: u64) -> Config {
    Config {
        api_key: api_key.to_string(),
        model: model.to_string(),
        hotkey: default_hotkey(),
        timeout_secs,
        language: default_language(),
        sound_enabled: default_sound_enabled(),
        currency: default_currency(),
    }
}

#[test]
fn test_api_url_construction() {
    let cfg = Config {
        api_key: "test-key-123".to_string(),
        model: default_model(),
        hotkey: default_hotkey(),
        timeout_secs: 3,
        language: default_language(),
        sound_enabled: default_sound_enabled(),
        currency: default_currency(),
    };
    let url = cfg.api_url();
    // API key must NOT appear in the URL (sent via header).
    assert!(!url.contains("test-key-123"), "API key must not be in URL");
    assert!(url.contains("gemini-2.0-flash"));
    assert!(url.contains("generateContent"));
    assert!(url.starts_with("https://"));
}

#[test]
fn test_api_url_no_key_leak() {
    let cfg = cfg_with("AIzaSySECRET", "models/gemini-2.0-flash", 10);
    let url = cfg.api_url();
    assert!(!url.contains("SECRET"), "API key must not appear in URL");
    assert!(!url.contains("key="), "No key= querystring allowed");
}

#[test]
fn test_api_url_strips_model_prefix() {
    let cfg = cfg_with("k", "models/gemini-2.5-flash", 10);
    assert!(cfg.api_url().contains("gemini-2.5-flash:generateContent"));
}

#[test]
fn test_api_url_without_prefix() {
    let cfg = cfg_with("k", "gemini-2.0-pro", 10);
    assert!(cfg.api_url().contains("gemini-2.0-pro:generateContent"));
}

#[test]
fn test_api_url_exact() {
    let cfg = cfg_with("k", "models/gemini-2.0-flash", 10);
    assert_eq!(
        cfg.api_url(),
        "https://generativelanguage.googleapis.com/v1beta/models/gemini-2.0-flash:generateContent"
    );
}

#[test]
fn test_defaults_values() {
    assert_eq!(default_model(), "models/gemini-2.0-flash");
    assert_eq!(default_hotkey(), "ctrl+shift+space");
    assert_eq!(default_timeout_secs(), 10);
    assert_eq!(default_language(), "auto");
    assert!(default_sound_enabled());
    assert_eq!(default_currency(), "USD");
}

#[test]
fn test_prompt_auto_has_no_language_hint() {
    let p = transcription_prompt("auto");
    assert!(p.starts_with("Trascrivi"));
    assert!(!p.contains("The audio is in"));
    assert_eq!(p, transcription_prompt(""));
}

#[test]
fn test_prompt_known_language() {
    let p = transcription_prompt("it");
    assert!(p.contains("The audio is in Italiano (it). Transcribe in that language."));
}

#[test]
fn test_prompt_unknown_language_uses_code() {
    let p = transcription_prompt("xx");
    assert!(p.contains("The audio is in xx (xx). Transcribe in that language."));
}
