use doit::types::{AppSettings, ShortcutConfig};
use doit::settings::{is_cert_error, shortcut_keystroke, sync_state_text, RecordStep, Section, SettingsPanel};
use doit::session::KeyPress;
use doit::http::{set_trust_self_signed, ClientKind, HttpTrust};
use doit::webdav::TransferState;
use doit::todos::DoitApp;

fn key(k: &str, ctrl: bool) -> KeyPress {
    KeyPress { key: k.to_string(), ctrl, shift: false, alt: false, platform: false }
}

#[test]
fn sections_in_order() {
    let all = Section::all();
    let labels: Vec<&str> = all.iter().map(|s| s.label()).collect();
    assert_eq!(labels, vec!["外观", "交互", "同步", "分类与标签", "数据", "关于"]);
    let idx: Vec<u32> = all.iter().map(|s| s.index()).collect();
    assert_eq!(idx, vec![0, 1, 2, 3, 4, 5]);
}

#[test]
fn new_panel_shows_the_settings() {
    let p = SettingsPanel::new(AppSettings::default());
    assert_eq!(p.active, Section::Appearance);
    assert!(!p.recording);
    assert_eq!(p.sync_test, TransferState::Idle);
    assert_eq!(p.categories.editor.items.len(), 2);
    assert_eq!(p.categories.default_id.as_deref(), Some("cat-work"));
    assert_eq!(p.tags.editor.items.len(), 2);
    let t = p.input_texts();
    assert_eq!(t.keep_recent, "3");
    assert_eq!(t.backup_interval, "30");
    assert_eq!(t.restore_interval, "30");
    assert_eq!(t.url, "");
}

#[test]
fn number_fields_fall_back_to_defaults() {
    let mut p = SettingsPanel::new(AppSettings::default());
    p.set_keep_recent("12");
    assert_eq!(p.local.cloud_sync.keep_recent, 12);
    p.set_keep_recent("twelve");
    assert_eq!(p.local.cloud_sync.keep_recent, 0);
    p.set_backup_interval("45");
    assert_eq!(p.local.auto_backup.interval, 45);
    p.set_backup_interval("");
    assert_eq!(p.local.auto_backup.interval, 30);
    p.set_restore_interval("+5");
    assert_eq!(p.local.auto_restore.interval, 5);
    p.set_restore_interval("-5");
    assert_eq!(p.local.auto_restore.interval, 30);
    p.set_keep_recent("7");
    let t = p.input_texts();
    p.set_keep_recent(&t.keep_recent);
    assert_eq!(p.local.cloud_sync.keep_recent, 7);
}

#[test]
fn theme_and_completion_options() {
    let mut p = SettingsPanel::new(AppSettings::default());
    assert_eq!(p.theme_index(), 0);
    p.choose_theme(2);
    assert_eq!(p.local.theme, "dark");
    assert_eq!(p.theme_index(), 2);
    p.choose_theme(1);
    assert_eq!(p.local.theme, "light");
    p.choose_theme(9);
    assert_eq!(p.local.theme, "system");
    assert_eq!(p.completion_index(), 0);
    p.choose_completion(1);
    assert_eq!(p.local.completion_mode, "longpress");
    assert_eq!(p.completion_index(), 1);
    p.choose_completion(0);
    assert_eq!(p.local.completion_mode, "checkbox");
    p.set_long_press_duration(5);
    assert_eq!(p.long_press_caption(), "5 秒");
}

#[test]
fn shortcut_recorder() {
    let mut p = SettingsPanel::new(AppSettings::default());
    assert_eq!(p.record_key(key("k", true)), RecordStep::Ignored);
    assert_eq!(p.local.add_todo_shortcut.key, "Enter");
    assert_eq!(p.record_button_label(), "改键");
    p.start_recording();
    assert_eq!(p.record_button_label(), "请按下组合键…");
    assert_eq!(p.record_key(key("shift", false)), RecordStep::Ignored);
    assert!(p.recording);
    assert_eq!(p.record_key(key("escape", false)), RecordStep::Cancelled);
    assert!(!p.recording);
    assert_eq!(p.local.add_todo_shortcut.key, "Enter");
    p.start_recording();
    assert_eq!(p.record_key(key("n", true)), RecordStep::Recorded);
    assert!(!p.recording);
    assert_eq!(p.local.add_todo_shortcut.key, "n");
    assert!(p.local.add_todo_shortcut.ctrl);
    assert!(!p.local.add_todo_shortcut.meta);
}

#[test]
fn sync_switches_and_certificate_trust() {
    let mut p = SettingsPanel::new(AppSettings::default());
    let mut trust = HttpTrust::new();
    assert_eq!(trust.client_for_request(), ClientKind::Strict);
    p.set_cloud_enabled(true);
    p.set_fetch_on_startup(false);
    p.set_upload_on_exit(false);
    assert!(p.local.cloud_sync.enabled);
    assert!(!p.local.cloud_sync.fetch_on_startup);
    assert!(!p.local.cloud_sync.upload_on_exit);
    p.set_trust(&mut trust, true);
    assert!(p.local.cloud_sync.trust_self_signed);
    assert_eq!(trust.client_for_request(), ClientKind::Relaxed);
    set_trust_self_signed(&mut trust, false);
    assert_eq!(trust.client_for_request(), ClientKind::Strict);
}

#[test]
fn schedules() {
    let mut p = SettingsPanel::new(AppSettings::default());
    p.set_schedule_enabled(true, true);
    assert!(p.local.auto_backup.enabled);
    assert!(!p.local.auto_restore.enabled);
    p.choose_unit(false, 2);
    assert_eq!(p.local.auto_restore.unit, "day");
    assert_eq!(p.local.auto_backup.unit, "minute");
    p.choose_unit(true, 1);
    assert_eq!(p.local.auto_backup.unit, "hour");
    p.choose_unit(true, 7);
    assert_eq!(p.local.auto_backup.unit, "minute");
}

#[test]
fn connection_test_state() {
    let mut p = SettingsPanel::new(AppSettings::default());
    p.set_url("  https://nas.local/dav  ");
    p.set_user("me");
    p.set_pass("pw");
    assert_eq!(p.test_button_label(), "测试连接");
    let cfg = p.start_sync_test();
    assert_eq!(cfg, ("https://nas.local/dav".to_string(), "me".to_string(), "pw".to_string()));
    assert_eq!(p.sync_test, TransferState::Busy);
    assert_eq!(p.test_button_label(), "测试中…");
    p.finish_sync_test(Err("连接失败：服务器证书不受信任".into()));
    assert!(is_cert_error(&p.sync_test));
    p.finish_sync_test(Ok("ok".into()));
    assert_eq!(p.sync_test, TransferState::Done("ok".into()));
    assert!(!is_cert_error(&p.sync_test));
}

#[test]
fn certificate_failures_are_recognised() {
    assert!(is_cert_error(&TransferState::Failed("x UnknownIssuer y".into())));
    assert!(is_cert_error(&TransferState::Failed("invalid peer certificate".into())));
    assert!(!is_cert_error(&TransferState::Failed("timed out".into())));
    assert!(!is_cert_error(&TransferState::Done("证书".into())));
    assert!(!is_cert_error(&TransferState::Idle));
}

#[test]
fn status_lines() {
    assert_eq!(sync_state_text(&TransferState::Idle), "填写后点击「测试连接」验证地址与凭据。");
    assert_eq!(sync_state_text(&TransferState::Busy), "正在请求…");
    assert_eq!(sync_state_text(&TransferState::Done("好".into())), "好");
    assert_eq!(sync_state_text(&TransferState::Failed("坏".into())), "坏");
}

#[test]
fn shortcut_as_keys() {
    let sc = ShortcutConfig { key: "n".into(), ctrl: true, shift: false, alt: true, meta: false };
    let k = shortcut_keystroke(&sc);
    assert_eq!(k.key, "n");
    assert!(k.ctrl && k.alt && !k.shift && !k.platform);
}

#[test]
fn sections_sync_and_push() {
    let mut p = SettingsPanel::new(AppSettings::default());
    p.select_section(Section::Data);
    p.start_recording();
    p.choose_theme(2);
    let mut app = DoitApp::new();
    p.push_to(&mut app);
    assert_eq!(app.settings.theme, "dark");
    p.sync_from(AppSettings::default());
    assert_eq!(p.active, Section::Appearance);
    assert!(!p.recording);
    assert_eq!(p.local.theme, "system");
    let mut imported = AppSettings::default();
    imported.tags.clear();
    p.reload_after_import(imported);
    assert!(p.tags.editor.items.is_empty());
}

#[test]
fn clearing_data_resets_dialog_and_app() {
    let mut p = SettingsPanel::new(AppSettings::default());
    p.choose_theme(2);
    p.select_section(Section::Data);
    let theme = p.local.theme.clone();
    let shortcut_key = p.local.add_todo_shortcut.key.clone();
    assert_ne!(theme, "system");
    let mut app = DoitApp::new();
    app.settings.theme = "dark".to_string();
    p.clear_data(&mut app);
    assert!(app.todos.is_empty());
    assert!(app.settings.tags.is_empty());
    assert!(app.settings.categories.is_empty());
    assert_eq!(app.settings.theme, "dark");
    assert_eq!(p.local.theme, theme);
    assert_eq!(p.local.add_todo_shortcut.key, shortcut_key);
    assert!(p.local.tags.is_empty());
    assert!(p.local.categories.is_empty());
    assert_eq!(p.local.default_category_id, None);
    assert_eq!(p.active, Section::Appearance);
}
