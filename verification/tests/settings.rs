use ecp_clipboard::config::{holds_legacy_history, legacy_count, settle_loaded, AppConfig, Language};

#[test]
fn defaults_of_a_new_installation() {
    let c = AppConfig::default();
    assert_eq!(c.max_history, 200);
    assert_eq!(c.max_image_bytes, 500 * 1024 * 1024);
    assert_eq!(c.poll_interval_ms, 500);
    assert!(c.hide_after_copy && c.hide_to_tray_on_close && c.dark_mode);
    assert!(!c.start_on_boot && !c.use_win_v_hotkey);
    assert_eq!(c.language, Language::ZhCn);
    assert_eq!(Language::default(), Language::ZhCn);
}

#[test]
fn loaded_limits_are_brought_within_bounds() {
    let mut c = AppConfig::default();
    c.max_history = 3;
    c.max_image_bytes = 10;
    c.normalize();
    assert_eq!((c.max_history, c.max_image_bytes), (20, 1024 * 1024));
    c.max_history = 1_000_000;
    c.normalize();
    assert_eq!(c.max_history, 100_000);
    let before = (c.max_history, c.max_image_bytes);
    c.normalize();
    assert_eq!((c.max_history, c.max_image_bytes), before);
}

#[test]
fn an_old_history_raises_the_limit() {
    let mut c = AppConfig::default();
    assert_eq!(c.adopt_legacy_count(Some(150)), Ok(false));
    assert_eq!(c.max_history, 200);
    assert_eq!(c.adopt_legacy_count(Some(350)), Ok(true));
    assert_eq!(c.max_history, 350);
    assert_eq!(c.adopt_legacy_count(None), Ok(false));
    assert_eq!(
        c.adopt_legacy_count(Some(100_001)),
        Err("旧库有 100001 条记录，超过安全迁移上限 100000；未修改历史库".to_string())
    );
    assert_eq!(c.max_history, 350);
}

#[test]
fn settling_loaded_settings() {
    let mut c = AppConfig::default();
    c.max_history = 5;
    let (settled, save) = settle_loaded(c.clone(), Some(30)).unwrap();
    assert_eq!(settled.max_history, 30);
    assert!(save);
    let (settled, save) = settle_loaded(c, Some(10)).unwrap();
    assert_eq!(settled.max_history, 20);
    assert!(!save);
}

#[test]
fn polling_is_never_faster_than_a_tenth_of_a_second() {
    let mut c = AppConfig::default();
    assert_eq!(c.poll_interval(), 500);
    c.poll_interval_ms = 5;
    assert_eq!(c.poll_interval(), 100);
}

#[test]
fn database_lives_in_the_data_directory() {
    let c = AppConfig::default();
    let sep = std::path::MAIN_SEPARATOR;
    assert_eq!(c.database_path("data"), format!("data{sep}clipboard.sqlite3"));
    assert_eq!(c.database_path("data/"), "data/clipboard.sqlite3");
    assert_eq!(c.database_path(""), "clipboard.sqlite3");
    let expected = std::path::Path::new("/tmp/ecp").join("clipboard.sqlite3");
    assert_eq!(c.database_path("/tmp/ecp"), expected.to_str().unwrap());
}

#[test]
fn only_unversioned_databases_hold_an_old_history() {
    assert!(holds_legacy_history(2));
    assert!(!holds_legacy_history(3));
    assert_eq!(legacy_count(3), Some(3));
    assert_eq!(legacy_count(-1), None);
}
