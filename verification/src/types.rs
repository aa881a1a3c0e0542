use vstd::prelude::*;
use crate::text::{string_of, clone_opt};

verus! {

/// A single todo item.
#[derive(Clone, Debug)]
pub struct TodoItem {
    pub id: String,
    pub content: String,
    pub completed: bool,
    pub created_at: String,
    pub completed_at: Option<String>,
    pub order: u32,
    pub tag_id: Option<String>,
    pub cat_id: Option<String>,
    pub parent_id: Option<String>,
    pub remind_at: Option<String>,
}

impl TodoItem {
    /// A field-by-field copy.
    pub fn duplicate(&self) -> (r: Self)
        ensures
            r == *self,
    {
        TodoItem {
            id: self.id.clone(),
            content: self.content.clone(),
            completed: self.completed,
            created_at: self.created_at.clone(),
            completed_at: clone_opt(&self.completed_at),
            order: self.order,
            tag_id: clone_opt(&self.tag_id),
            cat_id: clone_opt(&self.cat_id),
            parent_id: clone_opt(&self.parent_id),
            remind_at: clone_opt(&self.remind_at),
        }
    }
}

/// A tag that can be attached to todos.
#[derive(Clone, Debug)]
pub struct Tag {
    pub id: String,
    pub name: String,
    pub color: String,
}

/// A category for grouping todos.
#[derive(Clone, Debug)]
pub struct Category {
    pub id: String,
    pub name: String,
    pub color: String,
}

/// Shortcut key configuration.
#[derive(Clone, Debug)]
pub struct ShortcutConfig {
    pub key: String,
    pub ctrl: bool,
    pub shift: bool,
    pub alt: bool,
    pub meta: bool,
}

/// Schedule configuration for automatic backup / restore.
#[derive(Clone, Debug)]
pub struct ScheduleConfig {
    pub enabled: bool,
    pub interval: u32,
    pub unit: String,
}

/// Cloud sync configuration (WebDAV).
#[derive(Clone, Debug)]
pub struct CloudSyncConfig {
    pub enabled: bool,
    /// Accept self-signed / privately-signed certificates (for intranet NAS).
    pub trust_self_signed: bool,
    pub provider: String,
    pub webdav_url: String,
    pub webdav_username: String,
    pub webdav_password: String,
    pub fetch_on_startup: bool,
    pub upload_on_exit: bool,
    pub keep_recent: u32,
}

/// Full application settings.
#[derive(Clone, Debug)]
pub struct AppSettings {
    pub completion_mode: String,
    pub long_press_duration: u32,
    pub theme: String,
    pub add_todo_shortcut: ShortcutConfig,
    pub tags: Vec<Tag>,
    pub categories: Vec<Category>,
    pub default_category_id: Option<String>,
    pub cloud_sync: CloudSyncConfig,
    pub auto_backup: ScheduleConfig,
    pub auto_restore: ScheduleConfig,
}

impl Tag {
    /// A field-by-field copy.
    pub fn duplicate(&self) -> (r: Self)
        ensures
            r == *self,
    {
        Tag { id: self.id.clone(), name: self.name.clone(), color: self.color.clone() }
    }
}

impl Category {
    /// A field-by-field copy.
    pub fn duplicate(&self) -> (r: Self)
        ensures
            r == *self,
    {
        Category { id: self.id.clone(), name: self.name.clone(), color: self.color.clone() }
    }
}

/// A copy of a list of tags.
pub fn copy_tags(v: &Vec<Tag>) -> (r: Vec<Tag>)
    ensures
        r@ == v@,
{
    let mut r: Vec<Tag> = Vec::new();
    let mut i: usize = 0;
    while i < v.len()
        invariant
            i <= v.len(),
            r@ == v@.take(i as int),
        decreases v.len() - i,
    {
        r.push(v[i].duplicate());
        assert(r@ =~= v@.take(i + 1));
        i = i + 1;
    }
    assert(v@.take(v.len() as int) =~= v@);
    r
}

/// A copy of a list of categories.
pub fn copy_categories(v: &Vec<Category>) -> (r: Vec<Category>)
    ensures
        r@ == v@,
{
    let mut r: Vec<Category> = Vec::new();
    let mut i: usize = 0;
    while i < v.len()
        invariant
            i <= v.len(),
            r@ == v@.take(i as int),
        decreases v.len() - i,
    {
        r.push(v[i].duplicate());
        assert(r@ =~= v@.take(i + 1));
        i = i + 1;
    }
    assert(v@.take(v.len() as int) =~= v@);
    r
}

/// A copy of a list of todos.
pub fn copy_todos(v: &Vec<TodoItem>) -> (r: Vec<TodoItem>)
    ensures
        r@ == v@,
{
    let mut r: Vec<TodoItem> = Vec::new();
    let mut i: usize = 0;
    while i < v.len()
        invariant
            i <= v.len(),
            r@ == v@.take(i as int),
        decreases v.len() - i,
    {
        r.push(v[i].duplicate());
        assert(r@ =~= v@.take(i + 1));
        i = i + 1;
    }
    assert(v@.take(v.len() as int) =~= v@);
    r
}

impl ShortcutConfig {
    /// A field-by-field copy.
    pub fn duplicate(&self) -> (r: Self)
        ensures
            r == *self,
    {
        ShortcutConfig {
            key: self.key.clone(),
            ctrl: self.ctrl,
            shift: self.shift,
            alt: self.alt,
            meta: self.meta,
        }
    }
}

impl ScheduleConfig {
    /// A field-by-field copy.
    pub fn duplicate(&self) -> (r: Self)
        ensures
            r == *self,
    {
        ScheduleConfig { enabled: self.enabled, interval: self.interval, unit: self.unit.clone() }
    }
}

impl CloudSyncConfig {
    /// A field-by-field copy.
    pub fn duplicate(&self) -> (r: Self)
        ensures
            r == *self,
    {
        CloudSyncConfig {
            enabled: self.enabled,
            trust_self_signed: self.trust_self_signed,
            provider: self.provider.clone(),
            webdav_url: self.webdav_url.clone(),
            webdav_username: self.webdav_username.clone(),
            webdav_password: self.webdav_password.clone(),
            fetch_on_startup: self.fetch_on_startup,
            upload_on_exit: self.upload_on_exit,
            keep_recent: self.keep_recent,
        }
    }
}

/// The preferences (everything but the label lists and the default category) agree.
pub open spec fn same_preferences(a: AppSettings, b: AppSettings) -> bool {
    &&& a.completion_mode == b.completion_mode
    &&& a.long_press_duration == b.long_press_duration
    &&& a.theme == b.theme
    &&& a.add_todo_shortcut == b.add_todo_shortcut
    &&& a.cloud_sync == b.cloud_sync
    &&& a.auto_backup == b.auto_backup
    &&& a.auto_restore == b.auto_restore
}

/// Two settings values hold the same data.
pub open spec fn same_settings(a: AppSettings, b: AppSettings) -> bool {
    &&& same_preferences(a, b)
    &&& a.tags@ == b.tags@
    &&& a.categories@ == b.categories@
    &&& a.default_category_id == b.default_category_id
}

impl AppSettings {
    /// A copy holding the same data.
    pub fn duplicate(&self) -> (r: Self)
        ensures
            same_settings(r, *self),
    {
        AppSettings {
            completion_mode: self.completion_mode.clone(),
            long_press_duration: self.long_press_duration,
            theme: self.theme.clone(),
            add_todo_shortcut: self.add_todo_shortcut.duplicate(),
            tags: copy_tags(&self.tags),
            categories: copy_categories(&self.categories),
            default_category_id: clone_opt(&self.default_category_id),
            cloud_sync: self.cloud_sync.duplicate(),
            auto_backup: self.auto_backup.duplicate(),
            auto_restore: self.auto_restore.duplicate(),
        }
    }
}

/// The view of an optional string.
pub open spec fn opt_str(o: Option<String>) -> Option<Seq<char>> {
    match o {
        Some(s) => Some(s@),
        None => None,
    }
}

pub open spec fn is_label(id: Seq<char>, name: Seq<char>, color: Seq<char>, lid: Seq<char>, lname: Seq<char>, lcolor: Seq<char>) -> bool {
    id == lid && name == lname && color == lcolor
}

/// A schedule that is off and runs every 30 minutes once turned on.
pub open spec fn is_default_schedule(s: ScheduleConfig) -> bool {
    !s.enabled && s.interval == 30 && s.unit@ == "minute"@
}

/// The settings a fresh installation starts with.
pub open spec fn is_default_settings(s: AppSettings) -> bool {
    &&& s.completion_mode@ == "checkbox"@
    &&& s.long_press_duration == 3
    &&& s.theme@ == "system"@
    &&& s.add_todo_shortcut.key@ == "Enter"@
    &&& !s.add_todo_shortcut.ctrl && !s.add_todo_shortcut.shift
    &&& !s.add_todo_shortcut.alt && !s.add_todo_shortcut.meta
    &&& s.tags@.len() == 2
    &&& is_label(s.tags@[0].id@, s.tags@[0].name@, s.tags@[0].color@, "tag-w"@, "工作"@, "#3B82F6"@)
    &&& is_label(s.tags@[1].id@, s.tags@[1].name@, s.tags@[1].color@, "tag-p"@, "个人"@, "#22C55E"@)
    &&& s.categories@.len() == 2
    &&& is_label(s.categories@[0].id@, s.categories@[0].name@, s.categories@[0].color@, "cat-work"@, "工作"@, "#3B82F6"@)
    &&& is_label(s.categories@[1].id@, s.categories@[1].name@, s.categories@[1].color@, "cat-life"@, "生活"@, "#22C55E"@)
    &&& opt_str(s.default_category_id) == Some("cat-work"@)
    &&& !s.cloud_sync.enabled && !s.cloud_sync.trust_self_signed
    &&& s.cloud_sync.provider@ == "webdav"@
    &&& s.cloud_sync.webdav_url@ == ""@
    &&& s.cloud_sync.webdav_username@ == ""@
    &&& s.cloud_sync.webdav_password@ == ""@
    &&& s.cloud_sync.fetch_on_startup && s.cloud_sync.upload_on_exit
    &&& s.cloud_sync.keep_recent == 3
    &&& is_default_schedule(s.auto_backup)
    &&& is_default_schedule(s.auto_restore)
}

fn default_schedule() -> (r: ScheduleConfig)
    ensures
        is_default_schedule(r),
{
    ScheduleConfig { enabled: false, interval: 30, unit: string_of("minute") }
}

impl Default for AppSettings {
    fn default() -> (r: Self)
        ensures
            is_default_settings(r),
    {
        let mut tags: Vec<Tag> = Vec::new();
        tags.push(Tag { id: string_of("tag-w"), name: string_of("工作"), color: string_of("#3B82F6") });
        tags.push(Tag { id: string_of("tag-p"), name: string_of("个人"), color: string_of("#22C55E") });
        let mut categories: Vec<Category> = Vec::new();
        categories.push(
            Category { id: string_of("cat-work"), name: string_of("工作"), color: string_of("#3B82F6") },
        );
        categories.push(
            Category { id: string_of("cat-life"), name: string_of("生活"), color: string_of("#22C55E") },
        );
        AppSettings {
            completion_mode: string_of("checkbox"),
            long_press_duration: 3,
            theme: string_of("system"),
            add_todo_shortcut: ShortcutConfig {
                key: string_of("Enter"),
                ctrl: false,
                shift: false,
                alt: false,
                meta: false,
            },
            tags,
            categories,
            default_category_id: Some(string_of("cat-work")),
            cloud_sync: CloudSyncConfig {
                enabled: false,
                trust_self_signed: false,
                provider: string_of("webdav"),
                webdav_url: string_of(""),
                webdav_username: string_of(""),
                webdav_password: string_of(""),
                fetch_on_startup: true,
                upload_on_exit: true,
                keep_recent: 3,
            },
            auto_backup: default_schedule(),
            auto_restore: default_schedule(),
        }
    }
}

/// Filter for which category's todos to show.
#[derive(Clone, Debug)]
pub enum CatFilter {
    /// No category selected: the un-categorized items show.
    Uncategorized,
    /// Show items in a specific category.
    Id(String),
}

/// The category a filter selects, if any.
pub open spec fn filter_id(f: CatFilter) -> Option<Seq<char>> {
    match f {
        CatFilter::Uncategorized => None,
        CatFilter::Id(id) => Some(id@),
    }
}

impl PartialEq for CatFilter {
    fn eq(&self, other: &Self) -> (r: bool) {
        match (self, other) {
            (CatFilter::Uncategorized, CatFilter::Uncategorized) => true,
            (CatFilter::Id(a), CatFilter::Id(b)) => *a == *b,
            _ => false,
        }
    }
}

impl vstd::std_specs::cmp::PartialEqSpecImpl for CatFilter {
    open spec fn obeys_eq_spec() -> bool {
        true
    }

    open spec fn eq_spec(&self, other: &Self) -> bool {
        filter_id(*self) == filter_id(*other)
    }
}

/// A portable snapshot of all user data, used for WebDAV sync and file export.
#[derive(Clone, Debug)]
pub struct SyncSnapshot {
    /// Snapshot format version.
    pub version: u32,
    /// Local export time (ISO-8601).
    pub exported_at: String,
    pub todos: Vec<TodoItem>,
    pub settings: AppSettings,
}

/// The file WebDAV sync reads and writes.
pub const SYNC_FILE: &'static str = "doit-snapshot.json";

/// The four main view modes.
#[derive(Clone, Copy, Debug, PartialEq, Eq, Structural)]
pub enum ViewMode {
    Today,
    Calendar,
    Timeline,
    Stats,
}

impl ViewMode {
    /// The position of the mode in the title bar.
    pub open spec fn spec_index(self) -> u32 {
        match self {
            ViewMode::Today => 0,
            ViewMode::Calendar => 1,
            ViewMode::Timeline => 2,
            ViewMode::Stats => 3,
        }
    }

    /// The caption shown on the mode's title bar button.
    pub open spec fn spec_label(self) -> Seq<char> {
        match self {
            ViewMode::Today => "今日待办"@,
            ViewMode::Calendar => "日历浏览"@,
            ViewMode::Timeline => "时间轴"@,
            ViewMode::Stats => "统计"@,
        }
    }

    pub fn label(&self) -> (r: &'static str)
        ensures
            r@ == self.spec_label(),
    {
        match self {
            ViewMode::Today => "今日待办",
            ViewMode::Calendar => "日历浏览",
            ViewMode::Timeline => "时间轴",
            ViewMode::Stats => "统计",
        }
    }

    pub fn index(&self) -> (r: u32)
        ensures
            r == self.spec_index(),
    {
        match self {
            ViewMode::Today => 0,
            ViewMode::Calendar => 1,
            ViewMode::Timeline => 2,
            ViewMode::Stats => 3,
        }
    }
}

} // verus!
