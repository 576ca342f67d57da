use lzcr::config::{
    dates_are_readable, ensure_translation_config, get_legacy_llc_info_path, get_lzcr_info_path,
    get_translation_config_path, installed_release_date, installed_voice_update_date, load_config, should_update,
    update_version_info, update_voice_update_date, Config, StoredConfig, TranslationConfig,
};
use lzcr::error::AppError;
use lzcr::paths::HostPath;

fn fields(c: &Config) -> Vec<Option<String>> {
    vec![
        Some(c.repo_owner.clone()),
        Some(c.repo_name.clone()),
        Some(c.source_folder.clone()),
        Some(c.output_base.clone()),
        c.last_commit_hash.clone(),
        c.last_release_tag.clone(),
        c.last_release_date.clone(),
        c.last_voice_update_date.clone(),
    ]
}

fn written(path: &HostPath) -> (String, Vec<String>) {
    (path.base.clone(), path.names.clone())
}

#[test]
fn a_first_start_has_default_settings() {
    let c = Config::default(None);
    assert_eq!(c.repo_owner, "LocalizeLimbusCompany");
    assert_eq!(c.repo_name, "LocalizeLimbusCompany");
    assert_eq!(c.source_folder, "Lang/LLC_zh-CN");
    assert_eq!(c.output_base, "LLC_zh-Hant");
    assert_eq!(c.last_commit_hash, None);
    assert_eq!(c.last_release_tag, None);
    assert_eq!(c.last_release_date, None);
    assert_eq!(c.last_voice_update_date, None);
    assert_eq!(Config::default(Some("/game/Lang/LLC_zh-Hant".to_string())).output_base, "/game/Lang/LLC_zh-Hant");
    let t = TranslationConfig::default();
    assert_eq!((t.lang.as_str(), t.title_font.as_str(), t.context_font.as_str()), ("LLC_zh-Hant", "", ""));
    assert_eq!((t.sampling_point_size, t.padding), (78, 5));
}

#[test]
fn settings_files_stand_in_the_language_folder() {
    let lang = Some(HostPath::new("/game").join("Lang"));
    assert_eq!(
        written(&get_lzcr_info_path(&lang).unwrap()),
        ("/game".to_string(), vec!["Lang".to_string(), "lzcr-info.json".to_string()])
    );
    assert_eq!(written(&get_lzcr_info_path(&None).unwrap()), ("lzcr-info.json".to_string(), vec![]));
    assert_eq!(written(&get_legacy_llc_info_path(&None).unwrap()).0, "llc-info.json");
    assert_eq!(written(&get_translation_config_path(&lang).unwrap()).1[1], "config.json");
}

#[test]
fn translation_settings_are_made_once() {
    assert!(ensure_translation_config(true).is_none());
    assert_eq!(ensure_translation_config(false).unwrap().lang, "LLC_zh-Hant");
}

#[test]
fn the_newer_settings_file_counts() {
    let mut newer = Config::default(None);
    newer.repo_owner = "newer".to_string();
    let mut older = Config::default(None);
    older.repo_owner = "older".to_string();
    let stored = |config: &Config, output_is_absolute| Some(Ok(StoredConfig { config: config.clone(), output_is_absolute }));
    let folder = Some("/game/out".to_string());

    let loaded = load_config(stored(&newer, false), stored(&older, false), folder.clone()).unwrap();
    assert_eq!((loaded.config.repo_owner.as_str(), loaded.save), ("newer", false));
    assert_eq!(loaded.config.output_base, "/game/out");

    let loaded = load_config(stored(&newer, true), None, folder.clone()).unwrap();
    assert_eq!(loaded.config.output_base, "LLC_zh-Hant");

    let loaded = load_config(None, stored(&older, false), None).unwrap();
    assert_eq!((loaded.config.repo_owner.as_str(), loaded.save), ("older", true));
    assert_eq!(loaded.config.output_base, "LLC_zh-Hant");

    let loaded = load_config(None, None, folder.clone()).unwrap();
    assert_eq!((loaded.config.output_base.as_str(), loaded.save), ("/game/out", true));

    let broken = Some(Err(AppError::Json("expected value".to_string())));
    let error = load_config(broken, stored(&older, false), folder).unwrap_err();
    assert_eq!(error.message(), "JSON parse error: expected value");
    let error = load_config(None, Some(Err(AppError::Io("denied".to_string()))), None).unwrap_err();
    assert_eq!(error.message(), "File I/O error: denied");
}

#[test]
fn a_recorded_release_is_installed() {
    let config = Config::default(None);
    assert!(should_update(&config, "v1"));
    let config = update_version_info(config, "v1", Some("2024-05-06"));
    assert!(!should_update(&config, "v1"));
    assert!(should_update(&config, "v2"));
    assert_eq!(config.last_commit_hash.as_deref(), Some("v1"));
    assert_eq!(config.last_release_tag.as_deref(), Some("v1"));
    assert_eq!(installed_release_date(&config).as_deref(), Some("2024-05-06"));

    let mut old = Config::default(None);
    old.last_commit_hash = Some("v1".to_string());
    assert!(!should_update(&old, "v1"));
    old.last_release_tag = Some("v2".to_string());
    assert!(should_update(&old, "v1"));
}

#[test]
fn records_do_not_disturb_each_other() {
    let one = update_voice_update_date(update_version_info(Config::default(None), "v1", None), Some("2024-01-02"));
    let two = update_version_info(update_voice_update_date(Config::default(None), Some("2024-01-02")), "v1", None);
    assert_eq!(fields(&one), fields(&two));
    assert_eq!(installed_voice_update_date(&one).as_deref(), Some("2024-01-02"));
    let three = update_voice_update_date(one, None);
    assert_eq!(three.last_voice_update_date, None);
}

#[test]
fn the_installed_date_has_three_sources() {
    let mut c = Config::default(None);
    assert_eq!(installed_release_date(&c), None);
    c.last_commit_hash = Some("release-20220304".to_string());
    assert_eq!(installed_release_date(&c).as_deref(), Some("2022-03-04"));
    c.last_release_tag = Some("20230405".to_string());
    assert_eq!(installed_release_date(&c).as_deref(), Some("2023-04-05"));
    c.last_release_date = Some("unknown date".to_string());
    assert_eq!(installed_release_date(&c).as_deref(), Some("2023-04-05"));
    c.last_release_date = Some("2024-05-06T00:00:00Z".to_string());
    assert_eq!(installed_release_date(&c).as_deref(), Some("2024-05-06"));
    assert_eq!(installed_voice_update_date(&c), None);
}

#[test]
fn unreadable_dates_are_noticed() {
    let mut c = Config::default(None);
    assert!(dates_are_readable(&c));
    c.last_voice_update_date = Some("語語語語".to_string());
    assert!(!dates_are_readable(&c));
    c.last_voice_update_date = Some("語語語-語".to_string());
    assert!(dates_are_readable(&c));
    c.last_release_date = Some("語語語語".to_string());
    assert!(!dates_are_readable(&c));
}

#[test]
fn errors_tell_where_they_come_from() {
    let x = || "x".to_string();
    assert_eq!(AppError::Network(x()).message(), "Network error: x");
    assert_eq!(AppError::Io(x()).message(), "File I/O error: x");
    assert_eq!(AppError::Json(x()).message(), "JSON parse error: x");
    assert_eq!(AppError::Zip(x()).message(), "ZIP extraction error: x");
    assert_eq!(AppError::Other(x()).message(), "Other error: x");
    assert_eq!(AppError::other("what: ", "detail").message(), "Other error: what: detail");
}
