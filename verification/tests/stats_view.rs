use doit::types::TodoItem;
use doit::dates::{StatsPeriod, Ymd};
use doit::todos::DoitApp;

fn done(id: &str, at: &str) -> TodoItem {
    TodoItem {
        id: id.into(),
        content: id.into(),
        completed: true,
        created_at: "2024-01-01T00:00:00".into(),
        completed_at: Some(at.into()),
        order: 0,
        tag_id: None,
        cat_id: None,
        parent_id: None,
        remind_at: None,
    }
}

fn open(id: &str, created: &str) -> TodoItem {
    TodoItem {
        id: id.into(),
        content: id.into(),
        completed: false,
        created_at: created.into(),
        completed_at: None,
        order: 0,
        tag_id: None,
        cat_id: None,
        parent_id: None,
        remind_at: None,
    }
}

fn app() -> DoitApp {
    let mut a = DoitApp::new();
    a.todos = vec![
        done("a", "2024-05-02T10:00:00"),
        done("b", "2024-05-02T11:00:00"),
        done("c", "2023-06-30T11:00:00"),
        done("d", "2023-05-31T11:00:00"),
        done("e", "2024-05-14T08:00:00"),
        open("o1", "2024-05-14T08:00:00"),
        open("o2", "2024-04-30T08:00:00"),
    ];
    a
}

#[test]
fn twelve_months_of_completions() {
    let a = app();
    let bars = a.monthly_completed(2024, 5);
    assert_eq!(bars.len(), 12);
    assert_eq!(bars[0], ("2023-06".to_string(), 1));
    assert_eq!(bars[11], ("2024-05".to_string(), 3));
    assert_eq!(bars[10], ("2024-04".to_string(), 0));
    assert_eq!(bars.iter().map(|b| b.1).sum::<usize>(), 4);
    let early = a.monthly_completed(1, 3);
    assert_eq!(early[0].0, "0000-04");
    assert_eq!(early[11].0, "0001-03");
}

#[test]
fn recent_months_use_the_clock() {
    let a = app();
    let bars = a.recent_months_completed();
    assert_eq!(bars.len(), 12);
}

#[test]
fn month_statistics() {
    let mut a = app();
    a.show_month((2024, 5));
    let v = a.stats_view(Ymd { year: 2024, month: 5, day: 15 }, (2024, 5));
    assert_eq!(v.start, Ymd { year: 2024, month: 5, day: 1 });
    assert_eq!(v.end, Ymd { year: 2024, month: 5, day: 31 });
    assert_eq!(v.daily.len(), 31);
    assert_eq!(v.daily[1], ("05-02".to_string(), 2));
    assert_eq!(v.daily[13], ("05-14".to_string(), 1));
    assert_eq!(v.done, 3);
    assert_eq!(v.open, 1);
    assert_eq!(v.caption, "2024年05月");
    assert_eq!(v.bars.len(), 12);
}

#[test]
fn week_statistics() {
    let mut a = app();
    a.show_week(0);
    let v = a.stats_view(Ymd { year: 2024, month: 5, day: 15 }, (2024, 5));
    assert_eq!(v.start, Ymd { year: 2024, month: 5, day: 13 });
    assert_eq!(v.end, Ymd { year: 2024, month: 5, day: 19 });
    assert_eq!(v.daily.len(), 7);
    assert_eq!(v.done, 1);
    assert_eq!(v.open, 1);
    assert_eq!(v.caption, "2024年05月");
    a.show_week(-2);
    let w = a.stats_view(Ymd { year: 2024, month: 5, day: 15 }, (2024, 5));
    assert_eq!(w.start, Ymd { year: 2024, month: 4, day: 29 });
    assert_eq!(w.caption, "04月29日 至 05月05日");
    assert_eq!(w.done, 2);
    assert_eq!(w.open, 1);
}

#[test]
fn statistics_now() {
    let a = app();
    let (day, v) = a.stats_now();
    let v = v.expect("the clock is in range");
    assert_eq!(v.today, day);
    assert_eq!(v.cur, (day.year, day.month));
    assert_eq!(v.bars.len(), 12);
}

#[test]
fn range_buttons_and_month_navigation() {
    let mut a = app();
    a.show_month((2024, 12));
    a.next_month();
    assert_eq!(a.stats_month, (2025, 1));
    a.prev_month();
    a.prev_month();
    assert_eq!(a.stats_month, (2024, 11));
    assert_eq!(a.stats_month_caption(), "2024年11月");
    let sel = a.stats_selection((2024, 12));
    assert!(!sel.this_month && sel.last_month && !sel.this_week && !sel.last_week);
    a.show_week(-1);
    a.next_month();
    assert_eq!(a.stats_month, (2024, 11));
    let sel = a.stats_selection((2024, 12));
    assert!(sel.last_week && !sel.this_week && !sel.last_month);
    a.show_this_month();
    assert_eq!(a.stats_period, StatsPeriod::Month);
    assert_eq!(a.stats_week_offset, 0);
    let cur = a.stats_month;
    a.show_last_month();
    let (y, m) = a.stats_month;
    assert!(y * 12 + m as i32 + 1 == cur.0 * 12 + cur.1 as i32);
}

#[test]
fn statistics_at_a_given_day() {
    let a = app();
    let today = Ymd { year: 2024, month: 5, day: 3 };
    let v = a.stats_at(today, (2024, 5)).expect("buildable");
    assert_eq!(v.today, today);
    assert_eq!(v.bars.len(), 12);
    assert!(a.stats_at(today, (2024, 13)).is_none());
    assert!(a.stats_at(today, (-262143, 5)).is_none());
}
