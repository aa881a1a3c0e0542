use doit::types::{AppSettings, SyncSnapshot, TodoItem};
use doit::backup::{action_status, merge_for_upload, stamp_for_upload, sync_outcome, BackupPanel};
use doit::webdav::TransferState;
use doit::todos::DoitApp;

fn todo(id: &str) -> TodoItem {
    TodoItem {
        id: id.into(),
        content: id.into(),
        completed: false,
        created_at: "2024-01-01T00:00:00".into(),
        completed_at: None,
        order: 0,
        tag_id: None,
        cat_id: None,
        parent_id: None,
        remind_at: None,
    }
}

fn cloud(stamp: &str, ids: &[&str]) -> SyncSnapshot {
    SyncSnapshot {
        version: 1,
        exported_at: stamp.into(),
        todos: ids.iter().map(|i| todo(i)).collect(),
        settings: AppSettings::default(),
    }
}

#[test]
fn dialog_starts_from_settings() {
    let mut s = AppSettings::default();
    s.cloud_sync.webdav_url = "https://x".into();
    s.cloud_sync.webdav_username = "me".into();
    let p = BackupPanel::new(&s);
    assert_eq!(p.config(), ("https://x".to_string(), "me".to_string(), "".to_string()));
    assert_eq!(p.test_state, TransferState::Idle);
    assert!(!p.sync_disabled());
    assert_eq!(p.test_button_label(), "测试连接");
    assert_eq!(p.sync_button_label(), "立即同步");
    let empty = BackupPanel::new(&AppSettings::default());
    assert!(empty.sync_disabled());
}

#[test]
fn test_action_mirrors_account() {
    let mut p = BackupPanel::new(&AppSettings::default());
    p.url = "https://dav".into();
    p.user = "u".into();
    p.pass = "p".into();
    let mut app = DoitApp::new();
    let cfg = p.begin_test(&mut app);
    assert_eq!(cfg.0, "https://dav");
    assert_eq!(p.test_state, TransferState::Busy);
    assert_eq!(p.test_button_label(), "测试中…");
    assert!(app.settings.cloud_sync.enabled);
    assert_eq!(app.settings.cloud_sync.webdav_url, "https://dav");
    p.finish_test(Err("bad".into()));
    assert_eq!(p.test_state, TransferState::Failed("bad".into()));
    assert_eq!(p.sync_state, TransferState::Idle);
    p.sync_from(&app.settings);
    assert_eq!(p.test_state, TransferState::Idle);
    assert_eq!(p.url, "https://dav");
}

#[test]
fn newer_local_data_is_kept() {
    let mut app = DoitApp::new();
    app.todos = vec![todo("local")];
    app.last_modified = "2024-05-02T00:00:00".into();
    let merged = merge_for_upload(&app, Ok(Some(cloud("2024-05-01T00:00:00", &["remote"])))).unwrap();
    assert_eq!(merged.exported_at, "2024-05-02T00:00:00");
    assert_eq!(merged.todos.len(), 1);
    assert_eq!(merged.todos[0].id, "local");
}

#[test]
fn newer_cloud_data_is_taken() {
    let mut app = DoitApp::new();
    app.todos = vec![todo("local")];
    app.last_modified = "2024-04-30T00:00:00".into();
    let merged = merge_for_upload(&app, Ok(Some(cloud("2024-05-01T00:00:00", &["remote"])))).unwrap();
    assert_eq!(merged.todos[0].id, "remote");
    assert_eq!(merge_for_upload(&app, Err("下载失败".into())).unwrap_err(), "下载失败");
}

#[test]
fn a_second_sync_settles() {
    let mut app = DoitApp::new();
    app.todos = vec![todo("local")];
    app.last_modified = "2024-05-02T00:00:00".into();
    let mut p = BackupPanel::new(&AppSettings::default());
    p.url = "https://dav".into();
    p.begin_sync(&mut app);
    assert_eq!(p.sync_state, TransferState::Busy);
    assert!(p.sync_disabled());
    assert_eq!(p.sync_button_label(), "同步中…");
    let merged = merge_for_upload(&app, Ok(Some(cloud("2024-05-01T00:00:00", &["remote"])))).unwrap();
    let stamped = stamp_for_upload(merged);
    assert_eq!(stamped.exported_at.len(), 19);
    let uploaded = stamped.clone();
    let outcome = sync_outcome(stamped, Ok("上传成功（HTTP 201）".into()));
    p.finish_sync(&mut app, outcome);
    assert_eq!(p.sync_state, TransferState::Done("已同步，本地与云端均为最新".into()));
    assert_eq!(app.last_modified, uploaded.exported_at);
    assert_eq!(app.todos[0].id, "local");
    let again = merge_for_upload(&app, Ok(Some(uploaded.clone()))).unwrap();
    assert_eq!(again.exported_at, uploaded.exported_at);
}

#[test]
fn failed_sync_keeps_local_data() {
    let mut app = DoitApp::new();
    app.todos = vec![todo("keep")];
    let mut p = BackupPanel::new(&AppSettings::default());
    let outcome = sync_outcome(cloud("x", &["other"]), Err("上传失败（HTTP 500）".into()));
    p.finish_sync(&mut app, outcome);
    assert_eq!(p.sync_state, TransferState::Failed("上传失败（HTTP 500）".into()));
    assert_eq!(app.todos[0].id, "keep");
}

#[test]
fn result_lines() {
    assert_eq!(action_status(&TransferState::Idle), None);
    assert_eq!(action_status(&TransferState::Busy), None);
    assert_eq!(action_status(&TransferState::Done("ok".into())), Some((true, "ok".to_string())));
    assert_eq!(action_status(&TransferState::Failed("no".into())), Some((false, "no".to_string())));
}

#[test]
fn a_local_deletion_is_not_undone_by_an_older_cloud_copy() {
    let mut app = DoitApp::new();
    app.todos = vec![todo("keep"), todo("gone")];
    app.delete_todo("gone");
    let merged = merge_for_upload(&app, Ok(Some(cloud("2000-01-01T00:00:00", &["keep", "gone"])))).unwrap();
    assert!(merged.todos.iter().all(|t| t.id != "gone"));
    assert_eq!(merged.todos.len(), 1);
}

#[test]
fn first_sync_without_cloud_backup_uploads_local_data() {
    let mut app = DoitApp::new();
    app.todos = vec![todo("local")];
    app.last_modified = "2024-05-02T00:00:00".into();
    let merged = merge_for_upload(&app, Ok(None)).unwrap();
    assert_eq!(merged.version, 1);
    assert_eq!(merged.exported_at, "2024-05-02T00:00:00");
    assert_eq!(merged.todos.len(), 1);
    assert_eq!(merged.todos[0].id, "local");
    let stamped = stamp_for_upload(merged);
    assert_eq!(stamped.exported_at.len(), 19);
    let (snap, msg) = sync_outcome(stamped, Ok("上传成功（HTTP 201）".into())).unwrap();
    assert_eq!(msg, "已同步，本地与云端均为最新");
    assert_eq!(snap.todos[0].id, "local");
}
