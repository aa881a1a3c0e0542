use doit::types::{AppSettings, Category, CatFilter, ShortcutConfig, Tag, ViewMode};
use doit::session::{
    add_shortcut_matches, calendar_caption, category_select_items, day_heading, done_count_caption,
    sample_todos, tag_for_display, theme_is_dark, KeyPress,
};
use doit::dates::{StatsPeriod, Ymd};
use doit::todos::DoitApp;

fn press(k: &str, ctrl: bool, shift: bool, alt: bool, platform: bool) -> KeyPress {
    KeyPress { key: k.to_string(), ctrl, shift, alt, platform }
}

#[test]
fn demo_data() {
    let todos = sample_todos();
    let ids: Vec<&str> = todos.iter().map(|t| t.id.as_str()).collect();
    assert_eq!(ids, vec!["demo-1", "demo-2", "demo-3", "demo-c1", "demo-c2", "demo-c3", "demo-c4"]);
    let orders: Vec<u32> = todos.iter().map(|t| t.order).collect();
    assert_eq!(orders, vec![0, 1, 2, 3, 4, 5, 6]);
    assert_eq!(todos.iter().filter(|t| t.completed).count(), 4);
    assert_eq!(todos[0].content, "欢迎使用 Doit！");
    assert_eq!(todos[0].tag_id.as_deref(), Some("tag-w"));
    assert_eq!(todos[1].cat_id.as_deref(), Some("cat-life"));
    assert!(todos[3].completed_at.as_deref().unwrap().ends_with("T09:15:00"));
    assert!(todos[3].created_at.ends_with("T08:30:00"));
    assert!(todos[6].completed_at.as_deref().unwrap().ends_with("T10:30:00"));
}

#[test]
fn fresh_application() {
    let app = DoitApp::new();
    assert_eq!(app.next_id, 10);
    assert_eq!(app.view_mode, ViewMode::Today);
    assert_eq!(app.cat_filter, CatFilter::Uncategorized);
    assert_eq!(app.selected_cal_date.len(), 10);
    assert_eq!(app.stats_period, StatsPeriod::Month);
    assert_eq!(app.stats_week_offset, 0);
    assert_eq!(app.editing_id, None);
    assert_eq!(app.last_modified, "");
    assert_eq!(app.todos.len(), 7);
    assert_eq!(app.settings.theme, AppSettings::default().theme);
    assert_eq!(app.completed_by_day().iter().map(|g| g.1.len()).sum::<usize>(), 4);
}

#[test]
fn bare_enter_always_confirms() {
    let default_sc = AppSettings::default().add_todo_shortcut;
    let custom = ShortcutConfig { key: "n".into(), ctrl: true, shift: false, alt: false, meta: false };
    assert!(add_shortcut_matches(&press("enter", false, false, false, false), &default_sc));
    assert!(add_shortcut_matches(&press("ENTER", false, false, false, false), &custom));
    assert!(add_shortcut_matches(&press("N", true, false, false, false), &custom));
    assert!(!add_shortcut_matches(&press("n", false, false, false, false), &custom));
    assert!(!add_shortcut_matches(&press("enter", true, false, false, false), &default_sc));
    assert!(!add_shortcut_matches(&press("enter", false, false, false, true), &custom));
}

#[test]
fn theme_choice() {
    assert!(theme_is_dark("dark", false));
    assert!(!theme_is_dark("light", true));
    assert!(theme_is_dark("system", true));
    assert!(!theme_is_dark("system", false));
    assert!(theme_is_dark("anything", true));
}

#[test]
fn category_dropdown_options() {
    let cats = vec![
        Category { id: "a".into(), name: "A".into(), color: "#1".into() },
        Category { id: "b".into(), name: "B".into(), color: "#2".into() },
    ];
    let items = category_select_items(&cats);
    assert_eq!(items.len(), 3);
    assert_eq!(items[0].id, None);
    assert_eq!(items[0].name, "全部");
    assert_eq!(items[0].color, "");
    assert_eq!(items[2].id.as_deref(), Some("b"));
    assert_eq!(items[2].name, "B");
    assert_eq!(items[2].color, "#2");
}

#[test]
fn tag_chips() {
    let tags = vec![
        Tag { id: "t".into(), name: "first".into(), color: "#1".into() },
        Tag { id: "t".into(), name: "second".into(), color: "#2".into() },
    ];
    assert_eq!(tag_for_display(&Some("t".into()), &tags), Some(("first".to_string(), "#1".to_string())));
    assert_eq!(tag_for_display(&Some("u".into()), &tags), None);
    assert_eq!(tag_for_display(&None, &tags), None);
}

#[test]
fn long_press_completes_after_the_duration() {
    let mut app = DoitApp::new();
    app.settings.long_press_duration = 3;
    assert!(!app.is_longpress_mode());
    app.settings.completion_mode = "longpress".into();
    assert!(app.is_longpress_mode());
    app.press_start("demo-1");
    assert!(!app.press_end("demo-1", 2));
    assert_eq!(app.long_press, None);
    assert!(app.todos.iter().all(|t| t.id != "demo-1" || !t.completed));
    app.press_start("demo-1");
    assert!(!app.press_end("demo-2", 10));
    app.press_start("demo-1");
    assert!(app.press_end("demo-1", 3));
    assert!(app.todos.iter().any(|t| t.id == "demo-1" && t.completed));
}

#[test]
fn typing_a_new_todo() {
    let mut app = DoitApp::new();
    let before = app.todos.len();
    assert!(!app.submit_new_todo("   "));
    assert_eq!(app.todos.len(), before);
    assert!(app.submit_new_todo("  write tests  "));
    assert_eq!(app.todos.len(), before + 1);
    assert_eq!(app.todos.last().unwrap().content, "write tests");
    assert_eq!(app.todos.last().unwrap().id, "t10");
}

#[test]
fn views_and_filters() {
    let mut app = DoitApp::new();
    app.press_start("demo-1");
    app.set_view_mode(ViewMode::Stats);
    assert_eq!(app.view_mode, ViewMode::Stats);
    assert_eq!(app.long_press, None);
    app.select_category(Some("cat-work".into()));
    assert_eq!(app.cat_filter, CatFilter::Id("cat-work".into()));
    assert_eq!(app.selected_category().as_deref(), Some("cat-work"));
    app.select_category(None);
    assert_eq!(app.cat_filter, CatFilter::Uncategorized);
    assert_eq!(app.selected_category(), None);
    app.select_day(Ymd { year: 2024, month: 5, day: 6 });
    assert_eq!(app.selected_cal_date, "2024-05-06");
    app.start_edit("demo-2");
    assert!(app.is_editing("demo-2"));
    assert!(!app.is_editing("demo-1"));
}

#[test]
fn view_mode_labels() {
    let modes = [ViewMode::Today, ViewMode::Calendar, ViewMode::Timeline, ViewMode::Stats];
    let labels: Vec<&str> = modes.iter().map(|m| m.label()).collect();
    assert_eq!(labels, vec!["今日待办", "日历浏览", "时间轴", "统计"]);
    let idx: Vec<u32> = modes.iter().map(|m| m.index()).collect();
    assert_eq!(idx, vec![0, 1, 2, 3]);
}

#[test]
fn captions() {
    assert_eq!(day_heading("2024-05-06"), "05-06 · 周一");
    assert_eq!(done_count_caption(3), "完成 3 个待办");
    assert_eq!(calendar_caption("2024-05-12", 0), "周日 · 完成 0 个待办");
    assert_eq!(calendar_caption("bad", 2), " · 完成 2 个待办");
}
