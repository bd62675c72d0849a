use hinaview::config::app_config::{AppConfig, WindowConfig};
use hinaview::config::store::{locale_exists, locale_from_env, resolve_supported_locale};
use hinaview::i18n::localizer::{LangMeta, Localizer};

fn shipped() -> Vec<String> {
    vec!["en".to_string(), "ko".to_string(), "zh-TW".to_string(), "ja".to_string()]
}

#[test]
fn locales_resolve_to_shipped_languages() {
    assert_eq!(resolve_supported_locale("zh_TW", &shipped()), "zh-TW");
    assert_eq!(resolve_supported_locale("ko-KR", &shipped()), "ko");
    assert_eq!(resolve_supported_locale("ja", &shipped()), "ja");
    assert_eq!(resolve_supported_locale("fr_FR", &shipped()), "en");
    assert_eq!(resolve_supported_locale("", &shipped()), "en");
    assert!(locale_exists("ko", &shipped()));
    assert!(!locale_exists("kr", &shipped()));
}

#[test]
fn lang_variable_is_resolved_without_its_encoding() {
    assert_eq!(locale_from_env(Some("ko_KR.UTF-8"), &shipped()), "ko");
    assert_eq!(locale_from_env(Some("zh_TW"), &shipped()), "zh-TW");
    assert_eq!(locale_from_env(Some("C"), &shipped()), "en");
    assert_eq!(locale_from_env(None, &shipped()), "en");
}

#[test]
fn default_configuration() {
    let w = WindowConfig::default();
    assert_eq!((w.width, w.height, w.x, w.y), (1280, 720, 100, 100));
    let c = AppConfig::default();
    assert_eq!(c.locale, "en");
    assert_eq!(c.window, w);
}

#[test]
fn languages_are_offered_by_name() {
    let none = Localizer::load_available_languages(Vec::new());
    assert_eq!(none.len(), 1);
    assert_eq!(none[0].name, "English");
    assert_eq!(none[0].code, "en");
    let found = vec![
        LangMeta { name: "한국어".to_string(), code: "ko".to_string() },
        LangMeta { name: "English".to_string(), code: "en".to_string() },
        LangMeta { name: "Deutsch".to_string(), code: "de".to_string() },
        LangMeta { name: "English".to_string(), code: "en-GB".to_string() },
    ];
    let sorted = Localizer::load_available_languages(found);
    let codes: Vec<&str> = sorted.iter().map(|l| l.code.as_str()).collect();
    assert_eq!(codes, vec!["de", "en", "en-GB", "ko"]);
}
