//! Starting the application and reacting to the user: the demo data, view
//! and filter selection, key presses, long presses and display choices.

use vstd::prelude::*;
use vstd::utf8::is_ascii_chars;
use crate::types::{TodoItem, Tag, Category, ShortcutConfig, AppSettings, CatFilter, ViewMode, opt_str, filter_id, is_default_settings};
use crate::text::{string_of, str_eq, eq_ignore_ascii_case, eq_ascii_nocase, trim, trim_seq, push_str, push_decimal, dec};
use crate::dates::{
    Ymd, StatsPeriod, valid_ymd, ymd_text, datetime_text, min_year, max_year, now_iso, ts, today,
    current_ym, date_text, lemma_ascii_date_part_ok, month_day, month_day_ok, month_day_text,
    weekday_cn, weekday_cn_text,
};
use crate::todos::{DoitApp, stamps_ok, stamps_sound, stamp_sound, lemma_sound_stamps_ok, toggled_list};

verus! {

/// `s` is the date-and-time text of `h:m:00` on some supported day.
pub open spec fn stamped_at(s: Seq<char>, h: nat, m: nat) -> bool {
    exists|d: Ymd| valid_ymd(d) && s == datetime_text(d, h, m, 0)
}

/// The todo has the given id, content, order, tag and category, and no parent or reminder.
pub open spec fn is_demo(
    t: TodoItem,
    id: Seq<char>,
    content: Seq<char>,
    order: u32,
    tag: Option<Seq<char>>,
    cat: Option<Seq<char>>,
) -> bool {
    &&& t.id@ == id
    &&& t.content@ == content
    &&& t.order == order
    &&& opt_str(t.tag_id) == tag
    &&& opt_str(t.cat_id) == cat
    &&& t.parent_id is None
    &&& t.remind_at is None
}

/// An open demo todo, created at an ASCII time.
pub open spec fn open_demo(t: TodoItem) -> bool {
    &&& !t.completed
    &&& is_ascii_chars(t.created_at@)
    &&& t.completed_at is None
}

/// A completed demo todo, created at `ch:cm` and completed at `dh:dm` of some day.
pub open spec fn done_demo(t: TodoItem, ch: nat, cm: nat, dh: nat, dm: nat) -> bool {
    &&& t.completed
    &&& stamped_at(t.created_at@, ch, cm)
    &&& is_ascii_chars(t.created_at@)
    &&& t.completed_at matches Some(c) && stamped_at(c@, dh, dm) && is_ascii_chars(c@)
}

/// The demo todos a fresh start shows: three open ones and four completed
/// over the last three days.
pub open spec fn is_sample(s: Seq<TodoItem>) -> bool {
    &&& s.len() == 7
    &&& is_demo(s[0], "demo-1"@, "欢迎使用 Doit！"@, 0, Some("tag-w"@), Some("cat-work"@))
    &&& open_demo(s[0])
    &&& is_demo(s[1], "demo-2"@, "点击复选框完成待办"@, 1, Some("tag-p"@), Some("cat-life"@))
    &&& open_demo(s[1])
    &&& is_demo(s[2], "demo-3"@, "在「设置」里切换主题与完成方式"@, 2, None, None)
    &&& open_demo(s[2])
    &&& is_demo(s[3], "demo-c1"@, "完成今日早间计划"@, 3, Some("tag-w"@), Some("cat-work"@))
    &&& done_demo(s[3], 8, 30, 9, 15)
    &&& is_demo(s[4], "demo-c2"@, "整理下午会议记录"@, 4, None, None)
    &&& done_demo(s[4], 13, 0, 14, 40)
    &&& is_demo(s[5], "demo-c3"@, "阅读《原子习惯》30 分钟"@, 5, Some("tag-p"@), Some("cat-life"@))
    &&& done_demo(s[5], 19, 30, 20, 5)
    &&& is_demo(s[6], "demo-c4"@, "完成项目周报"@, 6, None, None)
    &&& done_demo(s[6], 9, 0, 10, 30)
}

fn opt_string(s: Option<&str>) -> (r: Option<String>)
    ensures
        opt_str(r) == match s {
            Some(t) => Some(t@),
            None => None::<Seq<char>>,
        },
{
    match s {
        Some(t) => Some(string_of(t)),
        None => None,
    }
}

fn open_item(id: &str, content: &str, order: u32, tag: Option<&str>, cat: Option<&str>) -> (r: TodoItem)
    ensures
        is_demo(r, id@, content@, order, match tag {
            Some(t) => Some(t@),
            None => None,
        }, match cat {
            Some(c) => Some(c@),
            None => None,
        }),
        open_demo(r),
{
    TodoItem {
        id: string_of(id),
        content: string_of(content),
        completed: false,
        created_at: now_iso(),
        completed_at: None,
        order,
        tag_id: opt_string(tag),
        cat_id: opt_string(cat),
        parent_id: None,
        remind_at: None,
    }
}

fn done_item(
    id: &str,
    content: &str,
    order: u32,
    tag: Option<&str>,
    cat: Option<&str>,
    days_ago: i64,
    ch: u32,
    cm: u32,
    dh: u32,
    dm: u32,
) -> (r: TodoItem)
    requires
        0 <= days_ago <= 2,
        ch < 24 && cm < 60 && dh < 24 && dm < 60,
    ensures
        is_demo(r, id@, content@, order, match tag {
            Some(t) => Some(t@),
            None => None,
        }, match cat {
            Some(c) => Some(c@),
            None => None,
        }),
        done_demo(r, ch as nat, cm as nat, dh as nat, dm as nat),
{
    TodoItem {
        id: string_of(id),
        content: string_of(content),
        completed: true,
        created_at: ts(days_ago, ch, cm),
        completed_at: Some(ts(days_ago, dh, dm)),
        order,
        tag_id: opt_string(tag),
        cat_id: opt_string(cat),
        parent_id: None,
        remind_at: None,
    }
}

/// The demo todos of a fresh start.
pub fn sample_todos() -> (r: Vec<TodoItem>)
    ensures
        is_sample(r@),
{
    let mut todos: Vec<TodoItem> = Vec::new();
    todos.push(open_item("demo-1", "欢迎使用 Doit！", 0, Some("tag-w"), Some("cat-work")));
    todos.push(open_item("demo-2", "点击复选框完成待办", 1, Some("tag-p"), Some("cat-life")));
    todos.push(open_item("demo-3", "在「设置」里切换主题与完成方式", 2, None, None));
    todos.push(done_item("demo-c1", "完成今日早间计划", 3, Some("tag-w"), Some("cat-work"), 0, 8, 30, 9, 15));
    todos.push(done_item("demo-c2", "整理下午会议记录", 4, None, None, 0, 13, 0, 14, 40));
    todos.push(done_item("demo-c3", "阅读《原子习惯》30 分钟", 5, Some("tag-p"), Some("cat-life"), 1, 19, 30, 20, 5));
    todos.push(done_item("demo-c4", "完成项目周报", 6, None, None, 2, 9, 0, 10, 30));
    todos
}

impl DoitApp {
    /// The application as it starts: default settings, the demo todos, the
    /// today view without a filter, today selected in the calendar and the
    /// current month in the statistics; nothing changed yet.
    pub fn new() -> (r: Self)
        ensures
            is_default_settings(r.settings),
            is_sample(r.todos@),
            stamps_sound(r.todos@),
            stamps_ok(r.todos@),
            r.next_id == 10,
            r.view_mode == ViewMode::Today,
            r.cat_filter == CatFilter::Uncategorized,
            exists|d: Ymd| valid_ymd(d) && r.selected_cal_date@ == #[trigger] ymd_text(d),
            r.stats_period == StatsPeriod::Month,
            min_year() <= r.stats_month.0 <= max_year(),
            1 <= r.stats_month.1 <= 12,
            r.stats_week_offset == 0,
            r.editing_id is None,
            r.last_modified@.len() == 0,
            r.long_press is None,
    {
        let settings = AppSettings::default();
        let todos = sample_todos();
        let day = today();
        let selected_cal_date = date_text(day);
        let stats_month = current_ym();
        proof {
            assert forall|i: int| 0 <= i < todos@.len() implies stamp_sound(#[trigger] todos@[i]) by {
                lemma_ascii_date_part_ok(todos@[i].created_at@);
                if let Some(c) = todos@[i].completed_at {
                    lemma_ascii_date_part_ok(c@);
                }
            }
            lemma_sound_stamps_ok(todos@);
        }
        DoitApp {
            todos,
            settings,
            next_id: 10,
            view_mode: ViewMode::Today,
            cat_filter: CatFilter::Uncategorized,
            selected_cal_date,
            stats_period: StatsPeriod::Month,
            stats_month,
            stats_week_offset: 0,
            editing_id: None,
            last_modified: String::new(),
            long_press: None,
        }
    }

    /// The category the dropdown shows as chosen (`None`: no category chosen, the un-categorized todos).
    pub fn selected_category(&self) -> (r: Option<String>)
        ensures
            opt_str(r) == filter_id(self.cat_filter),
    {
        match &self.cat_filter {
            CatFilter::Uncategorized => None,
            CatFilter::Id(id) => Some(string_of(id.as_str())),
        }
    }

    /// Switches to view `v` (a pending long press is dropped).
    pub fn set_view_mode(&mut self, v: ViewMode)
        ensures
            *final(self) == (DoitApp { view_mode: v, long_press: None, ..*old(self) }),
    {
        self.view_mode = v;
        self.long_press = None;
    }

    /// Applies the choice of the category dropdown: a category id, or none
    /// for the un-categorized todos (a pending long press is dropped).
    pub fn select_category(&mut self, choice: Option<String>)
        ensures
            filter_id(final(self).cat_filter) == opt_str(choice),
            *final(self) == (DoitApp { cat_filter: final(self).cat_filter, long_press: None, ..*old(self) }),
    {
        self.cat_filter = match choice {
            Some(id) => CatFilter::Id(id),
            None => CatFilter::Uncategorized,
        };
        self.long_press = None;
    }

    /// Selects the day shown in the calendar view.
    pub fn select_day(&mut self, day: Ymd)
        ensures
            final(self).selected_cal_date@ == ymd_text(day),
            *final(self) == (DoitApp { selected_cal_date: final(self).selected_cal_date, ..*old(self) }),
    {
        self.selected_cal_date = date_text(day);
    }

    /// Whether todos are completed by holding them down rather than by a checkbox.
    pub fn is_longpress_mode(&self) -> (r: bool)
        ensures
            r == (self.settings.completion_mode@ == "longpress"@),
    {
        str_eq(self.settings.completion_mode.as_str(), "longpress")
    }

    /// Whether the todo `id` is being edited inline.
    pub fn is_editing(&self, id: &str) -> (r: bool)
        ensures
            r == (opt_str(self.editing_id) == Some(id@)),
    {
        match &self.editing_id {
            Some(e) => str_eq(e.as_str(), id),
            None => false,
        }
    }

    /// A row was pressed down: remember it as the pending long press.
    pub fn press_start(&mut self, id: &str)
        ensures
            opt_str(final(self).long_press) == Some(id@),
            *final(self) == (DoitApp { long_press: final(self).long_press, ..*old(self) }),
    {
        self.long_press = Some(string_of(id));
    }

    /// A row was released after being held `held_secs` seconds. When it is
    /// the pending row and was held at least the configured duration, the
    /// todo is toggled; the pending press is dropped either way. Returns
    /// whether the todo was toggled.
    pub fn press_end(&mut self, id: &str, held_secs: u64) -> (r: bool)
        ensures
            r == (opt_str(old(self).long_press) == Some(id@) && held_secs >= old(self).settings.long_press_duration),
            r ==> toggled_list(old(self).todos@, final(self).todos@, id@),
            r ==> *final(self) == (DoitApp {
                todos: final(self).todos,
                last_modified: final(self).last_modified,
                long_press: None,
                ..*old(self)
            }),
            !r ==> *final(self) == (DoitApp { long_press: None, ..*old(self) }),
            stamps_sound(old(self).todos@) ==> stamps_sound(final(self).todos@),
    {
        let complete = match &self.long_press {
            Some(p) => str_eq(p.as_str(), id) && held_secs >= self.settings.long_press_duration as u64,
            None => false,
        };
        self.long_press = None;
        if complete {
            self.toggle_todo(id);
        }
        complete
    }

    /// Adds the typed text as a new todo when, trimmed, it is not empty.
    /// Returns whether a todo was added (the input is then cleared).
    pub fn submit_new_todo(&mut self, input: &str) -> (r: bool)
        requires
            old(self).next_id < u64::MAX,
        ensures
            r == (trim_seq(input@).len() != 0),
            !r ==> *final(self) == *old(self),
            r ==> *final(self) == (DoitApp {
                todos: final(self).todos,
                next_id: final(self).next_id,
                last_modified: final(self).last_modified,
                ..*old(self)
            }),
            r ==> final(self).next_id == old(self).next_id + 1,
            r ==> final(self).todos@.drop_last() == old(self).todos@,
            r ==> final(self).todos@.last().content@ == trim_seq(input@),
            r ==> final(self).todos@.last().id@ == "t"@ + dec(old(self).next_id as nat),
            r ==> !final(self).todos@.last().completed,
            r ==> opt_str(final(self).todos@.last().cat_id) == filter_id(old(self).cat_filter),
            stamps_sound(old(self).todos@) ==> stamps_sound(final(self).todos@),
    {
        let value = trim(input);
        if value.as_str().unicode_len() == 0 {
            false
        } else {
            self.add_todo(value);
            true
        }
    }
}

/// A key press: the key's name and the modifiers held.
#[derive(Clone, Debug)]
pub struct KeyPress {
    pub key: String,
    pub ctrl: bool,
    pub shift: bool,
    pub alt: bool,
    /// The platform key (Command, Windows).
    pub platform: bool,
}

/// The key press confirms an "add": a bare Enter, or the configured shortcut.
pub open spec fn confirms_add(ks: KeyPress, sc: ShortcutConfig) -> bool {
    ||| (eq_ascii_nocase(ks.key@, "enter"@) && !ks.ctrl && !ks.shift && !ks.alt && !ks.platform)
    ||| (eq_ascii_nocase(ks.key@, sc.key@) && ks.ctrl == sc.ctrl && ks.shift == sc.shift && ks.alt
        == sc.alt && ks.platform == sc.meta)
}

/// Whether a key press should confirm an "add": a bare Enter always does,
/// and so does the shortcut configured in the settings (Enter by default).
pub fn add_shortcut_matches(ks: &KeyPress, sc: &ShortcutConfig) -> (r: bool)
    ensures
        r == confirms_add(*ks, *sc),
{
    let bare_enter = eq_ignore_ascii_case(ks.key.as_str(), "enter") && !ks.ctrl && !ks.shift
        && !ks.alt && !ks.platform;
    bare_enter || (eq_ignore_ascii_case(ks.key.as_str(), sc.key.as_str()) && ks.ctrl == sc.ctrl
        && ks.shift == sc.shift && ks.alt == sc.alt && ks.platform == sc.meta)
}

/// Whether the dark theme applies: the chosen theme, or for any other
/// choice ("system") the system's appearance.
pub fn theme_is_dark(theme: &str, system_dark: bool) -> (r: bool)
    ensures
        r == (theme@ == "dark"@ || (theme@ != "light"@ && system_dark)),
{
    if str_eq(theme, "dark") {
        true
    } else if str_eq(theme, "light") {
        false
    } else {
        system_dark
    }
}

/// An option of the category dropdown (`None` id: no category chosen).
#[derive(Clone, Debug)]
pub struct CategoryItem {
    pub id: Option<String>,
    pub name: String,
    pub color: String,
}

/// The dropdown options for the categories: "全部" first, then each category.
pub fn category_select_items(cats: &Vec<Category>) -> (r: Vec<CategoryItem>)
    ensures
        r@.len() == cats@.len() + 1,
        r@[0].id is None && r@[0].name@ == "全部"@ && r@[0].color@.len() == 0,
        forall|i: int| 0 <= i < cats@.len() ==> opt_str(#[trigger] r@[i + 1].id) == Some(cats@[i].id@)
            && r@[i + 1].name@ == cats@[i].name@ && r@[i + 1].color@ == cats@[i].color@,
{
    let mut items: Vec<CategoryItem> = Vec::new();
    items.push(CategoryItem { id: None, name: string_of("全部"), color: String::new() });
    let n = cats.len();
    let mut i: usize = 0;
    while i < n
        invariant
            n == cats.len(),
            i <= n,
            items@.len() == i + 1,
            items@[0].id is None && items@[0].name@ == "全部"@ && items@[0].color@.len() == 0,
            forall|j: int| 0 <= j < i ==> opt_str(#[trigger] items@[j + 1].id) == Some(cats@[j].id@)
                && items@[j + 1].name@ == cats@[j].name@ && items@[j + 1].color@ == cats@[j].color@,
        decreases n - i,
    {
        let c = &cats[i];
        items.push(CategoryItem { id: Some(c.id.clone()), name: c.name.clone(), color: c.color.clone() });
        i = i + 1;
    }
    items
}

/// The name and color of the first tag of `tags` with id `id`.
pub open spec fn find_tag(id: Seq<char>, tags: Seq<Tag>) -> Option<(Seq<char>, Seq<char>)>
    decreases tags.len(),
{
    if tags.len() == 0 {
        None
    } else if tags[0].id@ == id {
        Some((tags[0].name@, tags[0].color@))
    } else {
        find_tag(id, tags.drop_first())
    }
}

/// What a todo's tag shows as: the name and color of the tag it names, if known.
pub open spec fn tag_display(tag_id: Option<Seq<char>>, tags: Seq<Tag>) -> Option<(Seq<char>, Seq<char>)> {
    match tag_id {
        None => None,
        Some(id) => find_tag(id, tags),
    }
}

/// The name and color of the tag a todo carries, when it names a known tag.
pub fn tag_for_display(tag_id: &Option<String>, tags: &Vec<Tag>) -> (r: Option<(String, String)>)
    ensures
        match r {
            Some(p) => tag_display(opt_str(*tag_id), tags@) == Some((p.0@, p.1@)),
            None => tag_display(opt_str(*tag_id), tags@) is None,
        },
{
    match tag_id {
        None => None,
        Some(tid) => {
            let n = tags.len();
            let mut i: usize = 0;
            assert(tags@.skip(0) =~= tags@);
            while i < n
                invariant
                    n == tags.len(),
                    i <= n,
                    find_tag(tid@, tags@) == find_tag(tid@, tags@.skip(i as int)),
                    opt_str(*tag_id) == Some(tid@),
                decreases n - i,
            {
                if str_eq(tags[i].id.as_str(), tid.as_str()) {
                    assert(tags@.skip(i as int)[0] == tags@[i as int]);
                    let name = tags[i].name.clone();
                    let color = tags[i].color.clone();
                    assert(name@ == tags@[i as int].name@ && color@ == tags@[i as int].color@);
                    assert(tags@.skip(i as int).len() > 0);
                    assert(find_tag(tid@, tags@.skip(i as int)) == Some((name@, color@)));
                    return Some((name, color));
                }
                assert(tags@.skip(i as int).drop_first() =~= tags@.skip(i + 1));
                i = i + 1;
            }
            None
        },
    }
}

/// `MM-DD · 周X` for a day of the timeline.
pub open spec fn day_heading_text(day: Seq<char>) -> Seq<char> {
    month_day_text(day) + " · "@ + weekday_cn_text(day)
}

/// The heading of a day of the timeline.
pub fn day_heading(day: &str) -> (r: String)
    requires
        month_day_ok(day@),
    ensures
        r@ == day_heading_text(day@),
{
    let mut s = month_day(day);
    push_str(&mut s, " · ");
    push_str(&mut s, weekday_cn(day));
    s
}

/// `完成 N 个待办`.
pub open spec fn done_count_text(n: nat) -> Seq<char> {
    "完成 "@ + dec(n) + " 个待办"@
}

/// The number of todos completed, as a caption.
pub fn done_count_caption(n: usize) -> (r: String)
    ensures
        r@ == done_count_text(n as nat),
{
    let mut s = string_of("完成 ");
    push_decimal(&mut s, n as u64);
    push_str(&mut s, " 个待办");
    s
}

/// `周X · 完成 N 个待办` for the day selected in the calendar.
pub fn calendar_caption(day: &str, n: usize) -> (r: String)
    ensures
        r@ == weekday_cn_text(day@) + " · "@ + done_count_text(n as nat),
{
    let mut s = string_of(weekday_cn(day));
    push_str(&mut s, " · ");
    let c = done_count_caption(n);
    push_str(&mut s, c.as_str());
    s
}

} // verus!
