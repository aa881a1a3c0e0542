use doit::types::{AppSettings, Category, CatFilter, SyncSnapshot, TodoItem};
use doit::todos::DoitApp;
use doit::dates::Ymd;

fn item(id: &str, completed: bool, order: u32, created: &str, done: Option<&str>) -> TodoItem {
    TodoItem {
        id: id.to_string(),
        content: format!("content of {}", id),
        completed,
        created_at: created.to_string(),
        completed_at: done.map(|d| d.to_string()),
        order,
        tag_id: None,
        cat_id: None,
        parent_id: None,
        remind_at: None,
    }
}

fn app_with(todos: Vec<TodoItem>) -> DoitApp {
    let mut app = DoitApp::new();
    app.todos = todos;
    app
}

fn ids(list: &[TodoItem]) -> Vec<String> {
    list.iter().map(|t| t.id.clone()).collect()
}

#[test]
fn add_todo_appends_open_item_with_next_id() {
    let mut app = app_with(Vec::new());
    app.cat_filter = CatFilter::Id("cat-work".to_string());
    app.add_todo("Buy milk".to_string());
    assert_eq!(app.next_id, 11);
    assert_eq!(app.todos.len(), 1);
    let t = &app.todos[0];
    assert_eq!(t.id, "t10");
    assert_eq!(t.content, "Buy milk");
    assert!(!t.completed);
    assert_eq!(t.completed_at, None);
    assert_eq!(t.order, 0);
    assert_eq!(t.cat_id.as_deref(), Some("cat-work"));
    assert_eq!(t.tag_id, None);
    assert_eq!(t.created_at.len(), 19);
}

#[test]
fn toggle_twice_restores_open_todo() {
    let mut app = app_with(vec![item("a", false, 0, "2024-05-01T08:00:00", None)]);
    app.toggle_todo("a");
    assert!(app.todos[0].completed);
    let stamp = app.todos[0].completed_at.clone().expect("stamped");
    assert_eq!(stamp.len(), 19);
    assert_eq!(&stamp[10..11], "T");
    app.toggle_todo("a");
    assert!(!app.todos[0].completed);
    assert_eq!(app.todos[0].completed_at, None);
    assert_eq!(app.todos[0].created_at, "2024-05-01T08:00:00");
}

#[test]
fn toggle_of_unknown_id_only_resorts() {
    let mut app = app_with(vec![
        item("done", true, 0, "2024-05-01T08:00:00", Some("2024-05-01T09:00:00")),
        item("open", false, 1, "2024-05-01T08:00:00", None),
    ]);
    app.toggle_todo("missing");
    assert_eq!(ids(&app.todos), vec!["open", "done"]);
    assert!(app.todos[1].completed);
}

#[test]
fn resort_puts_open_first_then_by_order() {
    let mut app = app_with(vec![
        item("c2", true, 2, "2024-05-01T08:00:00", Some("2024-05-02T08:00:00")),
        item("o3", false, 3, "2024-05-01T08:00:00", None),
        item("c0", true, 0, "2024-05-01T08:00:00", Some("2024-05-02T08:00:00")),
        item("o1", false, 1, "2024-05-01T08:00:00", None),
        item("o1b", false, 1, "2024-05-01T08:00:00", None),
    ]);
    app.resort();
    assert_eq!(ids(&app.todos), vec!["o1", "o1b", "o3", "c0", "c2"]);
    app.resort();
    assert_eq!(ids(&app.todos), vec!["o1", "o1b", "o3", "c0", "c2"]);
}

#[test]
fn delete_removes_every_todo_with_the_id() {
    let mut app = app_with(vec![
        item("x", false, 0, "2024-05-01T08:00:00", None),
        item("y", false, 1, "2024-05-01T08:00:00", None),
        item("x", false, 2, "2024-05-01T08:00:00", None),
    ]);
    app.delete_todo("x");
    assert_eq!(ids(&app.todos), vec!["y"]);
    app.delete_todo("nothing");
    assert_eq!(ids(&app.todos), vec!["y"]);
}

#[test]
fn set_categories_keeps_only_valid_default_and_filter() {
    let mut app = app_with(Vec::new());
    app.cat_filter = CatFilter::Id("cat-life".to_string());
    let cats = vec![Category { id: "cat-a".into(), name: "A".into(), color: "#000000".into() }];
    app.set_categories(cats.clone(), Some("cat-zzz".to_string()));
    assert_eq!(app.settings.categories.len(), 1);
    assert_eq!(app.settings.default_category_id, None);
    assert_eq!(app.cat_filter, CatFilter::Uncategorized);
    app.cat_filter = CatFilter::Id("cat-a".to_string());
    app.set_categories(cats, Some("cat-a".to_string()));
    assert_eq!(app.settings.default_category_id.as_deref(), Some("cat-a"));
    assert_eq!(app.cat_filter, CatFilter::Id("cat-a".to_string()));
}

#[test]
fn set_tag_and_cat_change_only_the_first_match() {
    let mut app = app_with(vec![
        item("x", false, 0, "2024-05-01T08:00:00", None),
        item("x", false, 1, "2024-05-01T08:00:00", None),
    ]);
    app.set_tag("x", Some("tag-w".to_string()));
    app.set_cat("x", Some("cat-life".to_string()));
    assert_eq!(app.todos[0].tag_id.as_deref(), Some("tag-w"));
    assert_eq!(app.todos[0].cat_id.as_deref(), Some("cat-life"));
    assert_eq!(app.todos[1].tag_id, None);
    assert_eq!(app.todos[1].cat_id, None);
    app.set_tag("x", None);
    assert_eq!(app.todos[0].tag_id, None);
}

#[test]
fn commit_edit_applies_trimmed_nonempty_text() {
    let mut app = app_with(vec![item("x", false, 0, "2024-05-01T08:00:00", None)]);
    app.start_edit("x");
    assert_eq!(app.editing_id.as_deref(), Some("x"));
    app.commit_edit("   \t ");
    assert_eq!(app.editing_id, None);
    assert_eq!(app.todos[0].content, "content of x");
    app.start_edit("x");
    app.commit_edit("  New text  ");
    assert_eq!(app.todos[0].content, "New text");
    assert_eq!(app.editing_id, None);
    app.commit_edit("ignored");
    assert_eq!(app.todos[0].content, "New text");
    app.start_edit("x");
    app.cancel_edit();
    assert_eq!(app.editing_id, None);
}

#[test]
fn clear_all_keeps_preferences() {
    let mut app = DoitApp::new();
    app.settings.theme = "dark".to_string();
    app.cat_filter = CatFilter::Id("cat-work".into());
    app.clear_all();
    assert!(app.todos.is_empty());
    assert!(app.settings.tags.is_empty());
    assert!(app.settings.categories.is_empty());
    assert_eq!(app.settings.default_category_id, None);
    assert_eq!(app.settings.theme, "dark");
    assert_eq!(app.cat_filter, CatFilter::Uncategorized);
}

#[test]
fn export_then_import_restores_sorted_data() {
    let mut app = app_with(vec![
        item("o", false, 0, "2024-05-01T08:00:00", None),
        item("c", true, 1, "2024-05-01T08:00:00", Some("2024-05-03T10:00:00")),
    ]);
    app.last_modified = "2024-05-03T10:00:00".to_string();
    let snap = app.export_snapshot();
    assert_eq!(snap.version, 1);
    assert_eq!(snap.exported_at, "2024-05-03T10:00:00");
    let mut other = app_with(Vec::new());
    other.apply_snapshot(snap);
    assert_eq!(ids(&other.todos), vec!["o", "c"]);
    assert_eq!(other.last_modified, "2024-05-03T10:00:00");
    assert_eq!(other.settings.categories.len(), app.settings.categories.len());
}

#[test]
fn apply_snapshot_resorts_and_drops_stale_filter() {
    let mut app = app_with(Vec::new());
    app.cat_filter = CatFilter::Id("cat-gone".into());
    let mut settings = AppSettings::default();
    settings.theme = "light".into();
    let snap = SyncSnapshot {
        version: 1,
        exported_at: "2024-01-01T00:00:00".into(),
        todos: vec![
            item("c", true, 0, "2024-01-01T00:00:00", Some("2024-01-01T00:00:00")),
            item("o", false, 5, "2024-01-01T00:00:00", None),
        ],
        settings,
    };
    app.apply_snapshot(snap);
    assert_eq!(ids(&app.todos), vec!["o", "c"]);
    assert_eq!(app.settings.theme, "light");
    assert_eq!(app.cat_filter, CatFilter::Uncategorized);
    assert_eq!(app.last_modified, "2024-01-01T00:00:00");
}

#[test]
fn snapshot_data_copies_todos_and_settings() {
    let app = app_with(vec![item("a", false, 0, "2024-05-01T08:00:00", None)]);
    let (todos, settings) = app.snapshot_data();
    assert_eq!(ids(&todos), vec!["a"]);
    assert_eq!(settings.theme, app.settings.theme);
}

#[test]
fn push_config_turns_sync_on() {
    let mut app = DoitApp::new();
    app.push_config("https://dav.example", "me", "secret");
    assert_eq!(app.settings.cloud_sync.webdav_url, "https://dav.example");
    assert_eq!(app.settings.cloud_sync.webdav_username, "me");
    assert_eq!(app.settings.cloud_sync.webdav_password, "secret");
    assert!(app.settings.cloud_sync.enabled);
}

#[test]
fn filtered_and_active_views() {
    let mut a = item("a", false, 0, "2024-05-01T08:00:00", None);
    a.cat_id = Some("cat-work".into());
    let b = item("b", true, 1, "2000-01-01T08:00:00", Some("2000-01-02T08:00:00"));
    let c = item("c", false, 2, "2024-05-01T08:00:00", None);
    let mut app = app_with(vec![a, b, c]);
    assert_eq!(app.cat_filter, CatFilter::Uncategorized);
    assert_eq!(ids(&app.filtered_todos()), vec!["b", "c"]);
    assert_eq!(ids(&app.active_todos()), vec!["c"]);
    app.cat_filter = CatFilter::Id("cat-work".into());
    assert_eq!(ids(&app.active_todos()), vec!["a"]);
    assert_eq!(ids(&app.filtered_todos()), vec!["a"]);
    app.cat_filter = CatFilter::Id("cat-life".into());
    assert!(app.filtered_todos().is_empty());
}

#[test]
fn completed_today_stays_in_active_view() {
    let mut app = app_with(vec![item("a", false, 0, "2024-05-01T08:00:00", None)]);
    app.toggle_todo("a");
    assert_eq!(ids(&app.active_todos()), vec!["a"]);
}

#[test]
fn counts_over_ranges() {
    let app = app_with(vec![
        item("d1", true, 0, "2024-04-20T08:00:00", Some("2024-05-01T09:00:00")),
        item("d2", true, 1, "2024-04-20T08:00:00", Some("2024-05-31T23:59:59")),
        item("d3", true, 2, "2024-04-20T08:00:00", Some("2024-06-01T00:00:00")),
        item("d4", true, 3, "2024-04-20T08:00:00", None),
        item("o1", false, 4, "2024-05-15T08:00:00", None),
        item("o2", false, 5, "2024-04-15T08:00:00", None),
        item("bad", true, 6, "x", Some("not a date")),
    ]);
    let s = Ymd { year: 2024, month: 5, day: 1 };
    let e = Ymd { year: 2024, month: 5, day: 31 };
    assert_eq!(app.completed_in_range(s, e), 2);
    assert_eq!(app.completed_in_month(2024, 5), 2);
    assert_eq!(app.completed_in_month(2024, 6), 1);
    assert_eq!(app.incomplete_in_range(s, e), 1);
    assert_eq!(ids(&app.completed_on("2024-05-01")), vec!["d1"]);
    assert!(app.completed_on("2024-05-02").is_empty());
}

#[test]
fn daily_counts_cover_each_day_of_the_range() {
    let app = app_with(vec![
        item("d1", true, 0, "2024-04-20T08:00:00", Some("2024-02-28T09:00:00")),
        item("d2", true, 1, "2024-04-20T08:00:00", Some("2024-02-29T09:00:00")),
        item("d3", true, 2, "2024-04-20T08:00:00", Some("2024-02-29T10:00:00")),
    ]);
    let daily = app.daily_completed(
        Ymd { year: 2024, month: 2, day: 27 },
        Ymd { year: 2024, month: 3, day: 1 },
    );
    let got: Vec<(String, usize)> = daily;
    assert_eq!(
        got,
        vec![
            ("02-27".to_string(), 0),
            ("02-28".to_string(), 1),
            ("02-29".to_string(), 2),
            ("03-01".to_string(), 0),
        ]
    );
    let empty = app.daily_completed(
        Ymd { year: 2024, month: 3, day: 2 },
        Ymd { year: 2024, month: 3, day: 1 },
    );
    assert!(empty.is_empty());
    let last = app.daily_completed(
        Ymd { year: 262142, month: 12, day: 31 },
        Ymd { year: 262142, month: 12, day: 31 },
    );
    assert_eq!(last, vec![("12-31".to_string(), 0)]);
}

#[test]
fn timeline_groups_latest_day_first() {
    let app = app_with(vec![
        item("a", true, 0, "2024-05-01T08:00:00", Some("2024-05-01T09:00:00")),
        item("b", true, 1, "2024-05-01T08:00:00", Some("2024-05-03T07:00:00")),
        item("open", false, 2, "2024-05-01T08:00:00", None),
        item("c", true, 3, "2024-05-01T08:00:00", Some("2024-05-01T18:30:00")),
        item("d", true, 4, "2024-05-01T08:00:00", Some("2024-05-03T07:00:00")),
        item("nostamp", true, 5, "2024-05-01T08:00:00", None),
    ]);
    let groups = app.completed_by_day();
    let days: Vec<&str> = groups.iter().map(|g| g.0.as_str()).collect();
    assert_eq!(days, vec!["2024-05-03", "2024-05-01"]);
    assert_eq!(ids(&groups[0].1), vec!["b", "d"]);
    assert_eq!(ids(&groups[1].1), vec!["c", "a"]);
}

#[test]
fn toggle_at_stamps_the_given_time() {
    let mut app = app_with(vec![
        item("a", false, 0, "2024-05-01T08:00:00", None),
        item("b", false, 1, "2024-05-01T08:00:00", None),
    ]);
    app.toggle_todo_at("a", "2024-05-03T10:15:00".to_string());
    assert_eq!(ids(&app.todos), vec!["b", "a"]);
    assert!(app.todos[1].completed);
    assert_eq!(app.todos[1].completed_at.as_deref(), Some("2024-05-03T10:15:00"));
    assert_eq!(app.last_modified, "2024-05-03T10:15:00");
    app.toggle_todo_at("a", "2024-05-04T07:00:00".to_string());
    assert_eq!(ids(&app.todos), vec!["a", "b"]);
    assert_eq!(app.todos[0].completed_at, None);
    assert_eq!(app.last_modified, "2024-05-04T07:00:00");
}

#[test]
fn add_at_uses_the_given_time() {
    let mut app = app_with(vec![item("a", false, 0, "2024-05-01T08:00:00", None)]);
    app.add_todo_at("Call mom".to_string(), "2024-06-01T12:00:00".to_string());
    assert_eq!(app.todos.len(), 2);
    assert_eq!(app.todos[1].id, "t10");
    assert_eq!(app.todos[1].created_at, "2024-06-01T12:00:00");
    assert_eq!(app.todos[1].order, 1);
    assert_eq!(app.last_modified, "2024-06-01T12:00:00");
}

#[test]
fn active_view_on_a_given_day() {
    let a = item("a", false, 0, "2024-05-01T08:00:00", None);
    let b = item("b", true, 1, "2024-05-01T08:00:00", Some("2024-05-02T21:30:00"));
    let c = item("c", true, 2, "2024-05-01T08:00:00", Some("2024-05-01T09:00:00"));
    let app = app_with(vec![a, b, c]);
    assert_eq!(ids(&app.active_todos_on("2024-05-02")), vec!["a", "b"]);
    assert_eq!(ids(&app.active_todos_on("2024-05-01")), vec!["a", "c"]);
    assert_eq!(ids(&app.active_todos_on("2024-05-03")), vec!["a"]);
}

fn child(id: &str, parent: &str, completed: bool, order: u32) -> TodoItem {
    let mut t = item(id, completed, order, "2024-05-01T08:00:00", if completed { Some("2024-05-01T09:00:00") } else { None });
    t.parent_id = Some(parent.to_string());
    t
}

#[test]
fn parent_completes_with_its_last_open_child() {
    let mut app = app_with(vec![
        item("p", false, 0, "2024-05-01T08:00:00", None),
        child("c1", "p", true, 1),
        child("c2", "p", false, 2),
    ]);
    app.toggle_todo_at("c2", "2024-05-03T10:00:00".to_string());
    let p = app.todos.iter().find(|t| t.id == "p").unwrap();
    assert!(p.completed);
    assert_eq!(p.completed_at.as_deref(), Some("2024-05-03T10:00:00"));
    let c2 = app.todos.iter().find(|t| t.id == "c2").unwrap();
    assert!(c2.completed);
}

#[test]
fn parent_stays_open_while_a_child_is_open() {
    let mut app = app_with(vec![
        item("p", false, 0, "2024-05-01T08:00:00", None),
        child("c1", "p", false, 1),
        child("c2", "p", false, 2),
    ]);
    app.toggle_todo_at("c2", "2024-05-03T10:00:00".to_string());
    let p = app.todos.iter().find(|t| t.id == "p").unwrap();
    assert!(!p.completed);
    assert_eq!(p.completed_at, None);
}

#[test]
fn completion_climbs_the_chain_of_parents() {
    let mut app = app_with(vec![
        item("g", false, 0, "2024-05-01T08:00:00", None),
        child("p", "g", false, 1),
        child("c", "p", false, 2),
    ]);
    app.toggle_todo_at("c", "2024-05-03T10:00:00".to_string());
    assert!(app.todos.iter().all(|t| t.completed));
    assert!(app.todos.iter().all(|t| t.completed_at.as_deref() == Some("2024-05-03T10:00:00")));
}

#[test]
fn reopening_a_child_leaves_the_parent() {
    let mut app = app_with(vec![
        item("p", true, 0, "2024-05-01T08:00:00", Some("2024-05-01T09:00:00")),
        child("c", "p", true, 1),
    ]);
    app.toggle_todo_at("c", "2024-05-03T10:00:00".to_string());
    let p = app.todos.iter().find(|t| t.id == "p").unwrap();
    assert!(p.completed);
    let c = app.todos.iter().find(|t| t.id == "c").unwrap();
    assert!(!c.completed);
}

#[test]
fn uncategorized_filter_shows_only_todos_without_category() {
    let mut a = item("a", false, 0, "2024-05-01T08:00:00", None);
    a.cat_id = Some("cat-work".into());
    let b = item("b", false, 1, "2024-05-01T08:00:00", None);
    let app = app_with(vec![a, b]);
    assert_eq!(app.cat_filter, CatFilter::Uncategorized);
    assert_eq!(ids(&app.filtered_todos()), vec!["b"]);
}

#[test]
fn open_todos_with_uncut_creation_stamps_still_show() {
    let a = item("a", false, 0, "2024年5月1日", None);
    let app = app_with(vec![a]);
    assert_eq!(ids(&app.active_todos_on("2024-05-01")), vec!["a"]);
    assert!(app.completed_by_day().is_empty());
}
