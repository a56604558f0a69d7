use ecp_clipboard::background::{
    hotkey_status, icon_pixels, migration_next, open_failure_message, tray_labels, write_report,
    MigrationNext, WriteReport,
};
use ecp_clipboard::config::Language;
use ecp_clipboard::db::{ClipboardEntry, EntryKind, InsertOutcome};
use ecp_clipboard::ipc::Signal;
use ecp_clipboard::startup::{reg_outcome, set_enabled, unsupported_platform, RegRun};
use ecp_clipboard::ui::i18n;
use ecp_clipboard::ui::search_input::SearchInput;
use ecp_clipboard::ui::{
    card_preview, filter_entries, launch_result, next_history_limit, next_image_budget, press_clear,
    url_to_open, KindFilter, LaunchOutcome,
};

fn entry(kind: EntryKind, content: &str) -> ClipboardEntry {
    ClipboardEntry {
        id: 1,
        kind,
        content: content.to_string(),
        image_width: None,
        image_height: None,
        image_rgba: None,
        created_at: 0,
        updated_at: 0,
        asset_hash: None,
        legacy_preview: false,
    }
}

#[test]
fn utf16_offsets_follow_chinese_ime_surrogate_boundaries() {
    assert_eq!(SearchInput::utf16_prefix_bytes("中😀文", 0), 0);
    assert_eq!(SearchInput::utf16_prefix_bytes("中😀文", 1), 3);
    assert_eq!(SearchInput::utf16_prefix_bytes("中😀文", 3), 7);
    assert_eq!(SearchInput::utf16_prefix_bytes("中😀文", 4), 10);
}

#[test]
fn input_method_edits_in_utf16_offsets() {
    let mut input = SearchInput::new();
    input.replace_and_mark_text_in_range(None, "zhong", Some((5, 5)));
    assert_eq!(input.value(), "zhong");
    assert_eq!(input.marked_text_range(), Some((0, 5)));
    input.replace_text_in_range(None, "中😀");
    assert_eq!(input.value(), "中😀");
    assert_eq!(input.marked_text_range(), None);
    assert_eq!(input.selected_text_range(), (3, 3));
    assert_eq!(input.selection_bytes(), (7, 7));
    assert_eq!(input.text_length_utf16(), 3);
    assert_eq!(input.utf16_to_utf8(1), 3);
    assert_eq!(input.utf16_to_utf8(2), 7);
    assert_eq!(input.utf8_to_utf16(3), 1);
    let (text, adjusted) = input.text_for_range(1, 3);
    assert_eq!(text.as_deref(), Some("😀"));
    assert_eq!(adjusted, (1, 3));
    assert_eq!(input.text_for_range(3, 1).0, None);
}

#[test]
fn editing_keys_move_by_characters() {
    let mut input = SearchInput::new();
    input.paste("a\nb文");
    assert_eq!(input.value(), "a b文");
    input.move_left();
    assert_eq!(input.selection_bytes(), (3, 3));
    input.backspace();
    assert_eq!(input.value(), "a 文");
    assert_eq!(input.selection_bytes(), (2, 2));
    input.move_right();
    assert_eq!(input.selection_bytes(), (5, 5));
    input.move_right();
    assert_eq!(input.selection_bytes(), (5, 5));
    input.select_all();
    assert_eq!(input.selected_text_range(), (0, 3));
    input.backspace();
    assert_eq!(input.value(), "");
    input.backspace();
    assert_eq!(input.value(), "");
}

#[test]
fn clicks_land_on_character_starts() {
    let mut input = SearchInput::new();
    input.paste("中文");
    input.click_at(4);
    assert_eq!(input.selection_bytes(), (3, 3));
    input.click_at(100);
    assert_eq!(input.selection_bytes(), (6, 6));
    input.set_selected_text_range(0, 1);
    assert_eq!(input.selection_bytes(), (0, 3));
    input.unmark_text();
    assert_eq!(input.value(), "中文");
}

#[test]
fn filters_match_their_kind() {
    assert!(KindFilter::All.matches(&entry(EntryKind::Image, "")));
    assert!(KindFilter::Url.matches(&entry(EntryKind::Url, "")));
    assert!(!KindFilter::Text.matches(&entry(EntryKind::Url, "")));
    let list = vec![entry(EntryKind::Text, "a"), entry(EntryKind::Image, "b"), entry(EntryKind::Text, "c")];
    let shown: Vec<String> = filter_entries(&list, KindFilter::Text).into_iter().map(|e| e.content).collect();
    assert_eq!(shown, vec!["a", "c"]);
}

#[test]
fn limit_buttons_cycle() {
    assert_eq!(next_history_limit(200), 500);
    assert_eq!(next_history_limit(2000), 200);
    assert_eq!(next_history_limit(333), 500);
    let mib = 1024 * 1024;
    assert_eq!(next_image_budget(100 * mib), 500 * mib);
    assert_eq!(next_image_budget(1024 * mib), 100 * mib);
    assert_eq!(next_image_budget(7), 500 * mib);
    assert_eq!(press_clear(false), (true, false));
    assert_eq!(press_clear(true), (false, true));
}

#[test]
fn card_preview_flattens_and_cuts() {
    assert_eq!(card_preview("a\nb", 10), "a b");
    assert_eq!(card_preview("abcdef", 3), "abc...");
    assert_eq!(card_preview("abc", 3), "abc");
}

#[test]
fn only_web_addresses_are_opened() {
    assert_eq!(url_to_open("  https://example.com ", Language::En), Ok("https://example.com".to_string()));
    assert_eq!(url_to_open("ftp://x", Language::En), Err("Not a valid http/https URL".to_string()));
    assert_eq!(url_to_open("http://a b", Language::ZhCn), Err("不是有效的 http/https 网址".to_string()));
    assert_eq!(launch_result(Language::En, LaunchOutcome::Exited { success: true, status: String::new() }), Ok(()));
    assert_eq!(
        launch_result(Language::En, LaunchOutcome::Exited { success: false, status: "exit 1".into() }),
        Err("Open command returned a failed status: exit 1".to_string())
    );
    assert_eq!(
        launch_result(Language::ZhCn, LaunchOutcome::Unavailable("none".into())),
        Err("无法调用系统浏览器: none".to_string())
    );
}

#[test]
fn texts_follow_the_language() {
    assert_eq!(i18n::app_title(Language::ZhCn), "剪贴板");
    assert_eq!(i18n::settings(Language::En), "Settings");
    assert_eq!(i18n::filter_label(Language::En, KindFilter::Image), "Images");
    assert_eq!(i18n::kind_label(Language::En, &EntryKind::Image), "Image");
    assert_eq!(i18n::record_count(Language::En, 1), "1 record");
    assert_eq!(i18n::record_count(Language::En, 3), "3 records");
    assert_eq!(i18n::record_count(Language::ZhCn, 3), "3 条记录");
    assert_eq!(i18n::database_read_failed(Language::En, "locked"), "Failed to read database: locked");
    assert_eq!(i18n::delete_failed(Language::ZhCn, "x"), "删除失败: x");
}

#[test]
fn detail_lines_of_entries() {
    assert_eq!(i18n::meta_text(Language::En, &entry(EntryKind::Text, "中文ab")), "4 chars");
    assert_eq!(i18n::meta_text(Language::ZhCn, &entry(EntryKind::Url, "x")), "点击打开网址");
    assert_eq!(i18n::meta_text(Language::En, &entry(EntryKind::FilePaths, "a")), "1 path");
    let mut files = entry(EntryKind::FilePaths, "a\nb");
    files.image_rgba = Some(vec![0; 4]);
    assert_eq!(i18n::meta_text(Language::En, &files), "2 paths · image thumbnail");
    assert_eq!(i18n::meta_text(Language::ZhCn, &files), "2 个路径 · 含图片缩略图");
    let mut image = entry(EntryKind::Image, "img");
    assert_eq!(i18n::meta_text(Language::En, &image), "Thumbnail unavailable");
    image.image_width = Some(12);
    image.image_height = Some(34);
    assert_eq!(i18n::meta_text(Language::ZhCn, &image), "缩略图 12x34");
    assert_eq!(i18n::image_meta_en(&image), "Thumbnail 12x34");
}

#[test]
fn hotkey_status_lines() {
    assert_eq!(hotkey_status(true, true, true, None, None), "Win+V 已接管；Ctrl+Alt+V 可用");
    assert_eq!(hotkey_status(true, false, false, None, Some("busy")), "Win+V 接管失败；Ctrl+Alt+V 注册失败（busy）");
    assert_eq!(hotkey_status(false, false, true, None, None), "Ctrl+Alt+V 可用；Win+V 接管未启用");
    assert_eq!(hotkey_status(false, false, true, Some("e"), None), "Win+V 遗留设置恢复失败: e");
}

#[test]
fn tray_menu_and_icon() {
    assert_eq!(tray_labels(Language::En), ("Show / Hide", "Exit"));
    let icon = icon_pixels();
    assert_eq!(icon.len(), 16 * 16 * 4);
    assert_eq!(&icon[0..4], &[76, 110, 245, 255]);
    let center = (8 * 16 + 8) * 4;
    assert_eq!(&icon[center..center + 4], &[92, 225, 230, 255]);
    let ground = (2 * 16 + 2) * 4;
    assert_eq!(&icon[ground..ground + 4], &[24, 28, 37, 255]);
}

#[test]
fn write_reports_and_migration_steps() {
    assert!(matches!(write_report(Ok(Some(InsertOutcome::Stored))), WriteReport::Clear));
    match write_report(Ok(Some(InsertOutcome::ImageTooLarge))) {
        WriteReport::Report(m) => assert_eq!(m, "图片超过历史容量上限，未保存"),
        WriteReport::Clear => panic!("expected a report"),
    }
    match write_report(Err("disk".into())) {
        WriteReport::Report(m) => assert_eq!(m, "历史写入失败: disk"),
        WriteReport::Clear => panic!("expected a report"),
    }
    assert!(matches!(migration_next(Ok(0)), MigrationNext::Finished));
    assert!(matches!(migration_next(Ok(3)), MigrationNext::Continue));
    assert!(matches!(migration_next(Err("x".into())), MigrationNext::Failed(m) if m == "旧图片迁移失败: x"));
    assert_eq!(open_failure_message("gone"), "历史数据库打开失败: gone");
}

#[test]
fn start_on_boot_runs_reg() {
    let args = set_enabled(true, Ok("C:\\ecp.exe".into())).unwrap();
    assert_eq!(
        args,
        vec!["add", "HKCU\\Software\\Microsoft\\Windows\\CurrentVersion\\Run", "/v", "Ecp Clipboard", "/t", "REG_SZ", "/d", "\"C:\\ecp.exe\"", "/f"]
    );
    let args = set_enabled(false, Ok("ignored".into())).unwrap();
    assert_eq!(args, vec!["delete", "HKCU\\Software\\Microsoft\\Windows\\CurrentVersion\\Run", "/v", "Ecp Clipboard", "/f"]);
    assert_eq!(set_enabled(true, Err("no".into())), Err("无法获取当前程序路径: no".to_string()));
    assert_eq!(reg_outcome(RegRun::Exited { success: false, status: "1".into() }), Err("reg.exe 返回失败状态: 1".to_string()));
    assert_eq!(reg_outcome(RegRun::Unavailable("x".into())), Err("无法调用 reg.exe: x".to_string()));
    assert_eq!(reg_outcome(RegRun::Exited { success: true, status: "0".into() }), Ok(()));
    assert_eq!(unsupported_platform(), Err("当前平台暂不支持开机自启".to_string()));
}

#[test]
fn signals_have_their_event_names() {
    assert_eq!(Signal::Show.event_name(), "Local\\EcpClipboard.Ui.Show");
    assert_eq!(Signal::Reload.event_name(), "Local\\EcpClipboard.Background.Reload");
}

use ecp_clipboard::background::{
    attempt_result, loop_action, reload_plan, release_result, LoopAction, LoopMessage, ReloadPlan,
    TakeoverAttempt, CTRL_ALT_V, WIN_V,
};
use ecp_clipboard::clipboard::WatcherState;
use ecp_clipboard::ui::window::{
    boot_button, budget_button, empty_state, headline, history_button, hotkey_tone, listed_count,
    row_tile, status_tone, PreviewCache, Tone,
};

#[test]
fn event_loop_actions() {
    assert_eq!(loop_action(LoopMessage::Hotkey(CTRL_ALT_V)), LoopAction::ToggleWindow);
    assert_eq!(loop_action(LoopMessage::Hotkey(WIN_V)), LoopAction::ToggleWindow);
    assert_eq!(loop_action(LoopMessage::Hotkey(1)), LoopAction::Ignore);
    assert_eq!(loop_action(LoopMessage::ClipboardUpdate), LoopAction::NotifyWatcher);
    assert_eq!(loop_action(LoopMessage::TrayExit), LoopAction::Exit);
    assert_eq!(reload_plan(true, false), ReloadPlan::TakeOver);
    assert_eq!(reload_plan(false, true), ReloadPlan::Release);
    assert_eq!(reload_plan(true, true), ReloadPlan::Keep);
    assert_eq!(attempt_result(TakeoverAttempt::Registered), (true, None));
    assert_eq!(
        attempt_result(TakeoverAttempt::Refused(Ok(()))),
        (false, Some("系统未允许注册 Win+V".to_string()))
    );
    assert_eq!(
        attempt_result(TakeoverAttempt::Refused(Err("x".into()))),
        (false, Some("回滚系统设置失败: x".to_string()))
    );
    assert_eq!(release_result(Some(Err("y".into()))), Some("恢复系统设置失败: y".to_string()));
    assert_eq!(release_result(Some(Ok(()))), None);
}

#[test]
fn watcher_skips_unchanged_sequence_numbers() {
    let mut w = WatcherState::new();
    assert!(w.clipboard_changed(5));
    assert!(!w.clipboard_changed(5));
    assert!(w.clipboard_changed(6));
    assert!(w.clipboard_changed(0));
    assert!(w.clipboard_changed(0));
    w.forget_sequence();
    assert!(w.clipboard_changed(6));
}

#[test]
fn window_texts_and_tones() {
    assert_eq!(empty_state(false, true, ""), ("正在加载历史", "请稍候…"));
    assert_eq!(empty_state(true, true, "").0, "还没有剪贴板记录");
    assert_eq!(empty_state(true, true, "x").0, "没有匹配的记录");
    assert_eq!(status_tone("删除失败: x"), Tone::Danger);
    assert_eq!(status_tone("已复制"), Tone::Muted);
    assert_eq!(hotkey_tone("Win+V 已接管；Ctrl+Alt+V 可用"), Tone::Good);
    assert_eq!(hotkey_tone("Ctrl+Alt+V 注册失败；Win+V 接管未启用"), Tone::Danger);
    assert_eq!(hotkey_tone("后台未报告热键状态"), Tone::Muted);
    assert_eq!(row_tile(EntryKind::Url), ("网址", "链", 0xeaf0ff, 0x365bd7));
    assert_eq!(history_button(500), "历史 500");
    assert_eq!(budget_button(500 * 1024 * 1024), "图片 500 MB");
    assert_eq!(boot_button(true), "开机启动  开");
    assert_eq!(listed_count(7), "7 条记录");
    let mut e = entry(EntryKind::Image, "line one\nline two");
    assert_eq!(headline(&e), "line one");
    e.legacy_preview = true;
    assert_eq!(headline(&e), "旧记录仅缩略图 · line one");
    let long = entry(EntryKind::Text, &"x".repeat(100));
    assert_eq!(headline(&long).chars().count(), 90);
}

#[test]
fn preview_cache_keeps_the_latest_twenty_four() {
    let mut cache = PreviewCache::new();
    for i in 0..24 {
        assert!(cache.touch(&format!("p{i}")).is_empty());
    }
    assert!(cache.touch("p3").is_empty());
    assert_eq!(cache.touch("p24"), vec!["p0".to_string()]);
    assert_eq!(cache.touch("p25"), vec!["p1".to_string()]);
}

use ecp_clipboard::ui::startup_result;
use ecp_clipboard::ui::window::{
    boot_status, clear_status, copied_status, delete_status, format_timestamp, local_text, row_meta,
    time_requests, timestamp_label, win_v_status, TimeFormat, FIRST_LOCAL_TIMESTAMP,
    LAST_LOCAL_TIMESTAMP,
};

#[test]
fn entry_times() {
    assert_eq!(timestamp_label(Some("05-01 10:00".into()), Some("04-30".into()), false), "05-01 10:00 · first 04-30");
    assert_eq!(timestamp_label(Some("05-01 10:00".into()), Some("05-01".into()), true), "05-01 10:00");
    assert_eq!(timestamp_label(None, Some("x".into()), false), "--");
    let mut e = entry(EntryKind::Text, "x");
    e.updated_at = 86_400 * 40;
    e.created_at = 86_400 * 40;
    let shown = format_timestamp(&e);
    assert_eq!(shown.chars().count(), 11);
    assert!(!shown.contains('%'));
    e.created_at = 0;
    assert!(format_timestamp(&e).contains(" · first "));
}

fn has_time_shape(text: &str, format: TimeFormat) -> bool {
    let chars: Vec<char> = text.chars().collect();
    let pattern: Vec<char> = match format {
        TimeFormat::MonthDayTime => "00-00 00:00".chars().collect(),
        TimeFormat::MonthDay => "00-00".chars().collect(),
    };
    chars.len() == pattern.len()
        && chars.iter().zip(pattern.iter()).all(|(c, p)| if *p == '0' { c.is_ascii_digit() } else { c == p })
}

#[test]
fn local_times_have_their_format_shape() {
    let at = local_text(1_714_557_600, TimeFormat::MonthDayTime).unwrap();
    assert!(has_time_shape(&at, TimeFormat::MonthDayTime), "{at}");
    let day = local_text(1_714_557_600, TimeFormat::MonthDay).unwrap();
    assert!(has_time_shape(&day, TimeFormat::MonthDay), "{day}");
    assert!(at.starts_with(&day));
    assert!(local_text(-86_400 * 365, TimeFormat::MonthDay).is_some());
    assert!(local_text(LAST_LOCAL_TIMESTAMP, TimeFormat::MonthDayTime).is_some());
    assert_eq!(local_text(LAST_LOCAL_TIMESTAMP + 1, TimeFormat::MonthDay), None);
    assert!(local_text(FIRST_LOCAL_TIMESTAMP, TimeFormat::MonthDayTime).is_some());
    assert_eq!(local_text(FIRST_LOCAL_TIMESTAMP - 1, TimeFormat::MonthDay), None);
    assert_eq!(local_text(i64::MIN, TimeFormat::MonthDayTime), None);
}

#[test]
fn entry_time_line_asks_for_update_and_first_copy() {
    let mut e = entry(EntryKind::Text, "x");
    e.updated_at = 500;
    e.created_at = 100;
    assert_eq!(time_requests(&e), ((500, TimeFormat::MonthDayTime), (100, TimeFormat::MonthDay)));
    e.updated_at = i64::MAX;
    assert_eq!(format_timestamp(&e), "--");
    e.updated_at = 500;
    e.created_at = i64::MIN;
    let shown = format_timestamp(&e);
    assert!(has_time_shape(&shown, TimeFormat::MonthDayTime), "{shown}");
    e.updated_at = i64::MAX;
    assert!(row_meta(&e).ends_with("  ·  ?"));
}

#[test]
fn window_status_lines() {
    assert_eq!(copied_status(7), "已复制 #7");
    assert_eq!(delete_status(7, Ok(true)), "已删除 #7");
    assert_eq!(delete_status(7, Ok(false)), "条目已不存在");
    assert_eq!(delete_status(7, Err("busy".into())), "删除失败: busy");
    assert_eq!(clear_status(None), "再次点击“确认清空”将删除所有历史");
    assert_eq!(clear_status(Some(Ok(3))), "已清空 3 条历史");
    assert_eq!(clear_status(Some(Err("x".into()))), "清空失败: x");
    assert_eq!(win_v_status(false), "已关闭 Win+V 接管；Ctrl+Alt+V 继续可用");
    assert_eq!(boot_status(true), "已启用开机启动");
    assert_eq!(startup_result(Language::En, true, Ok(())), (true, "Start on boot enabled".to_string(), true));
    assert_eq!(
        startup_result(Language::ZhCn, true, Err("denied".into())),
        (false, "开机自启设置失败: denied".to_string(), false)
    );
}

#[test]
fn row_detail_line_names_kind_and_id() {
    let mut e = entry(EntryKind::Url, "https://x");
    e.id = 42;
    e.updated_at = 86_400 * 40;
    let line = row_meta(&e);
    assert!(line.starts_with("网址  ·  #42  ·  "));
    assert!(!line.contains('%'));
    assert_eq!(line.chars().count(), "网址  ·  #42  ·  ".chars().count() + 11);
}
