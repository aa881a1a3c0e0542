//! The todo list and everything the views compute from it.

use vstd::prelude::*;
use vstd::utf8::is_ascii_chars;
use crate::types::{TodoItem, Tag, Category, AppSettings, CloudSyncConfig, CatFilter, SyncSnapshot, ViewMode, opt_str, filter_id, same_settings, copy_todos};
use crate::text::{dec, push_decimal, string_of, str_eq, trim, trim_seq, clone_opt};
use crate::dates::{lemma_ascii_date_part_ok, now_iso, is_datetime_text, StatsPeriod, date_part, date_part_text, date_part_ok, lemma_ascii_boundary, iso_in_range, iso_in_range_spec, Ymd, month_bounds, month_range_fits, first_day, last_day, valid_ymd, day_number, max_date, md_dash, md_dash_text, lemma_day_number_order, lemma_day_number_bounds, date_add_days};
use crate::sort::{TotalPreorder, stable_sort, stable_sort_of, sorted};

verus! {

/// Todos are listed open before completed, each group by `order`.
impl TotalPreorder for TodoItem {
    open spec fn le(a: Self, b: Self) -> bool {
        (!a.completed && b.completed) || (a.completed == b.completed && a.order <= b.order)
    }

    proof fn le_total(a: Self, b: Self) {
    }

    proof fn le_trans(a: Self, b: Self, c: Self) {
    }

    fn le_exec(&self, other: &Self) -> (r: bool) {
        (!self.completed && other.completed) || (self.completed == other.completed && self.order
            <= other.order)
    }
}

/// The data of the application: the todos, the settings and the state of the views.
pub struct DoitApp {
    pub todos: Vec<TodoItem>,
    pub settings: AppSettings,
    /// The number used for the next todo id (`t{n}`).
    pub next_id: u64,
    pub view_mode: ViewMode,
    pub cat_filter: CatFilter,
    /// The date selected in the calendar view (`YYYY-MM-DD`).
    pub selected_cal_date: String,
    pub stats_period: StatsPeriod,
    pub stats_month: (i32, u32),
    pub stats_week_offset: i32,
    /// The todo whose content is being edited inline.
    pub editing_id: Option<String>,
    /// When the user data last changed (ISO-8601, local time).
    pub last_modified: String,
    /// The todo row being held down to complete it.
    pub long_press: Option<String>,
}

/// `k` is the first index of a todo with id `id`.
pub open spec fn is_first_with_id(s: Seq<TodoItem>, id: Seq<char>, k: int) -> bool {
    &&& 0 <= k < s.len()
    &&& s[k].id@ == id
    &&& forall|j: int| 0 <= j < k ==> s[j].id@ != id
}

/// The todo's id is not `id`.
pub open spec fn other_id(id: Seq<char>) -> spec_fn(TodoItem) -> bool {
    |t: TodoItem| t.id@ != id
}

/// No todo has id `id`.
pub open spec fn no_id(s: Seq<TodoItem>, id: Seq<char>) -> bool {
    forall|j: int| 0 <= j < s.len() ==> s[j].id@ != id
}

/// The todo with its completion flipped: completed now (at `now`) or reopened.
pub open spec fn toggled(t: TodoItem, now: String) -> TodoItem {
    TodoItem {
        id: t.id,
        content: t.content,
        completed: !t.completed,
        created_at: t.created_at,
        completed_at: if !t.completed { Some(now) } else { None },
        order: t.order,
        tag_id: t.tag_id,
        cat_id: t.cat_id,
        parent_id: t.parent_id,
        remind_at: t.remind_at,
    }
}

/// `snap` holds the data of `app`: its todos in order, its settings and
/// the time they last changed.
pub open spec fn is_export_of(snap: SyncSnapshot, app: DoitApp) -> bool {
    &&& snap.exported_at == app.last_modified
    &&& snap.todos@ == app.todos@
    &&& same_settings(snap.settings, app.settings)
}

/// `app` holds the data of `snap`: its todos re-sorted, its settings, and its
/// stamp as the time they last changed.
pub open spec fn holds_snapshot(app: DoitApp, snap: SyncSnapshot) -> bool {
    &&& stable_sort_of(app.todos@, snap.todos@)
    &&& app.settings == snap.settings
    &&& app.last_modified == snap.exported_at
}

/// `after` is `before` after its data was replaced by `snap`: the todos
/// re-sorted, the settings and the change time taken over, and a category
/// filter whose category is gone dropped.
pub open spec fn took_snapshot(after: DoitApp, before: DoitApp, snap: SyncSnapshot) -> bool {
    &&& holds_snapshot(after, snap)
    &&& after == (DoitApp {
        todos: after.todos,
        settings: snap.settings,
        last_modified: snap.exported_at,
        cat_filter: filter_after(before.cat_filter, snap.settings.categories@),
        ..before
    })
}

/// `after` is `before` with all todos, tags and categories deleted and the
/// category filter dropped; the other preferences stay.
pub open spec fn is_cleared(after: DoitApp, before: DoitApp) -> bool {
    &&& after.todos@.len() == 0
    &&& after.settings.tags@.len() == 0
    &&& after.settings.categories@.len() == 0
    &&& after == (DoitApp {
        todos: after.todos,
        settings: AppSettings {
            tags: after.settings.tags,
            categories: after.settings.categories,
            default_category_id: None,
            ..before.settings
        },
        cat_filter: CatFilter::Uncategorized,
        last_modified: after.last_modified,
        ..before
    })
    &&& is_ascii_chars(after.last_modified@)
    &&& is_datetime_text(after.last_modified@)
}

/// `after` is `before` with the WebDAV account `url`, `user`, `pass` and
/// cloud sync turned on.
pub open spec fn has_config(after: DoitApp, before: DoitApp, url: Seq<char>, user: Seq<char>, pass: Seq<char>) -> bool {
    &&& after.settings.cloud_sync.webdav_url@ == url
    &&& after.settings.cloud_sync.webdav_username@ == user
    &&& after.settings.cloud_sync.webdav_password@ == pass
    &&& after == (DoitApp {
        settings: AppSettings {
            cloud_sync: CloudSyncConfig {
                webdav_url: after.settings.cloud_sync.webdav_url,
                webdav_username: after.settings.cloud_sync.webdav_username,
                webdav_password: after.settings.cloud_sync.webdav_password,
                enabled: true,
                ..before.settings.cloud_sync
            },
            ..before.settings
        },
        last_modified: after.last_modified,
        ..before
    })
    &&& is_ascii_chars(after.last_modified@)
    &&& is_datetime_text(after.last_modified@)
}

/// `after` is `before` with the first todo with id `id` (if any) toggled at
/// time `now` (its parents completing with their last open child), then
/// stably re-sorted.
pub open spec fn toggled_list_at(before: Seq<TodoItem>, after: Seq<TodoItem>, id: Seq<char>, now: String) -> bool {
    &&& no_id(before, id) ==> stable_sort_of(after, before)
    &&& forall|k: int| #[trigger] is_first_with_id(before, id, k) ==> stable_sort_of(
        after,
        toggle_with_parents(before, k, now),
    )
}

/// `after` is `before` with the first todo with id `id` (if any) toggled at
/// some clock time (its parents completing with their last open child),
/// then stably re-sorted.
pub open spec fn toggled_list(before: Seq<TodoItem>, after: Seq<TodoItem>, id: Seq<char>) -> bool {
    &&& no_id(before, id) ==> stable_sort_of(after, before)
    &&& forall|k: int| #[trigger] is_first_with_id(before, id, k) ==> exists|now: String|
        is_ascii_chars(now@) && is_datetime_text(now@) && stable_sort_of(after, toggle_with_parents(before, k, now))
}

/// The index of the first todo with id `id`, if any.
pub open spec fn first_with_id(s: Seq<TodoItem>, id: Seq<char>) -> Option<int> {
    if exists|k: int| is_first_with_id(s, id, k) {
        Some(choose|k: int| is_first_with_id(s, id, k))
    } else {
        None
    }
}

/// Every todo whose parent is `p` is completed.
pub open spec fn children_done(s: Seq<TodoItem>, p: Seq<char>) -> bool {
    forall|i: int| 0 <= i < s.len() && opt_str((#[trigger] s[i]).parent_id) == Some(p) ==> s[i].completed
}

/// Completes, at `now`, the parent `pid` once all its children are
/// completed, then that parent's parent in the same way, and so on up the
/// chain (at most `fuel` steps): a parent completes itself when its last
/// open child completes.
pub open spec fn complete_parents(s: Seq<TodoItem>, pid: Option<Seq<char>>, now: String, fuel: nat) -> Seq<TodoItem>
    decreases fuel,
{
    if fuel == 0 {
        s
    } else {
        match pid {
            None => s,
            Some(p) => match first_with_id(s, p) {
                None => s,
                Some(j) => if !s[j].completed && children_done(s, p) {
                    complete_parents(s.update(j, toggled(s[j], now)), opt_str(s[j].parent_id), now, (fuel - 1) as nat)
                } else {
                    s
                },
            },
        }
    }
}

/// The todo at `k` toggled at `now`; when that completes it, its parents
/// complete as their last open child does.
pub open spec fn toggle_with_parents(s: Seq<TodoItem>, k: int, now: String) -> Seq<TodoItem> {
    let s1 = s.update(k, toggled(s[k], now));
    if s1[k].completed {
        complete_parents(s1, opt_str(s[k].parent_id), now, s.len())
    } else {
        s1
    }
}

/// `first_with_id` names the index `find_todo` finds.
pub proof fn lemma_first_with_id(s: Seq<TodoItem>, id: Seq<char>)
    ensures
        forall|k: int| #[trigger] is_first_with_id(s, id, k) ==> first_with_id(s, id) == Some(k),
        no_id(s, id) ==> first_with_id(s, id) is None,
{
    assert forall|k: int| #[trigger] is_first_with_id(s, id, k) implies first_with_id(s, id) == Some(k) by {
        let c = choose|c: int| is_first_with_id(s, id, c);
        assert(is_first_with_id(s, id, c));
        if c < k {
            assert(s[c].id@ != id);
        } else if k < c {
            assert(s[k].id@ != id);
        }
    }
    if no_id(s, id) {
        assert forall|k: int| !is_first_with_id(s, id, k) by {
            if 0 <= k < s.len() {
                assert(s[k].id@ != id);
            }
        }
    }
}

/// Completing parents leaves completed todos as they were, and leaves the
/// length of the list.
pub proof fn lemma_complete_parents_keeps_done(s: Seq<TodoItem>, pid: Option<Seq<char>>, now: String, fuel: nat)
    ensures
        complete_parents(s, pid, now, fuel).len() == s.len(),
        forall|i: int| 0 <= i < s.len() && (#[trigger] s[i]).completed ==> complete_parents(s, pid, now, fuel)[i] == s[i],
        forall|i: int| 0 <= i < s.len() ==> (#[trigger] complete_parents(s, pid, now, fuel)[i]).id == s[i].id,
    decreases fuel,
{
    if fuel > 0 {
        if let Some(p) = pid {
            if let Some(j) = first_with_id(s, p) {
                if !s[j].completed && children_done(s, p) {
                    let s2 = s.update(j, toggled(s[j], now));
                    lemma_complete_parents_keeps_done(s2, opt_str(s[j].parent_id), now, (fuel - 1) as nat);
                    assert forall|i: int| 0 <= i < s.len() && (#[trigger] s[i]).completed implies complete_parents(s, pid, now, fuel)[i] == s[i] by {
                        assert(s2[i] == s[i]);
                    }
                    assert forall|i: int| 0 <= i < s.len() implies (#[trigger] complete_parents(s, pid, now, fuel)[i]).id == s[i].id by {
                        assert(s2[i].id == s[i].id);
                    }
                }
            }
        }
    }
}

/// Completing parents at a well-formed time keeps every stamp sound.
pub proof fn lemma_complete_parents_sound(s: Seq<TodoItem>, pid: Option<Seq<char>>, now: String, fuel: nat)
    requires
        stamps_sound(s),
        date_part_ok(now@),
    ensures
        stamps_sound(complete_parents(s, pid, now, fuel)),
    decreases fuel,
{
    if fuel > 0 {
        if let Some(p) = pid {
            if let Some(j) = first_with_id(s, p) {
                if !s[j].completed && children_done(s, p) {
                    let s2 = s.update(j, toggled(s[j], now));
                    assert(0 <= j < s.len()) by {
                        let c = choose|c: int| is_first_with_id(s, p, c);
                        assert(is_first_with_id(s, p, c));
                    }
                    assert(stamp_sound(s[j]));
                    assert forall|i: int| 0 <= i < s2.len() implies stamp_sound(#[trigger] s2[i]) by {
                        if i != j {
                            assert(s2[i] == s[i]);
                        }
                    }
                    lemma_complete_parents_sound(s2, opt_str(s[j].parent_id), now, (fuel - 1) as nat);
                }
            }
        }
    }
}

/// The view state (everything but the todos, the settings and the change time) is the same.
pub open spec fn same_view_state(a: DoitApp, b: DoitApp) -> bool {
    &&& a.next_id == b.next_id
    &&& a.view_mode == b.view_mode
    &&& a.cat_filter == b.cat_filter
    &&& a.selected_cal_date == b.selected_cal_date
    &&& a.stats_period == b.stats_period
    &&& a.stats_month == b.stats_month
    &&& a.stats_week_offset == b.stats_week_offset
    &&& a.editing_id == b.editing_id
    &&& a.long_press == b.long_press
}

/// A category with id `id` is in the list.
pub open spec fn has_category_id(cats: Seq<Category>, id: Seq<char>) -> bool {
    exists|i: int| 0 <= i < cats.len() && #[trigger] cats[i].id@ == id
}

/// Whether a category with id `id` is in the list.
pub fn has_category(cats: &Vec<Category>, id: &str) -> (r: bool)
    ensures
        r == has_category_id(cats@, id@),
{
    let n = cats.len();
    let mut i: usize = 0;
    while i < n
        invariant
            n == cats.len(),
            i <= n,
            forall|j: int| 0 <= j < i ==> cats@[j].id@ != id@,
        decreases n - i,
    {
        if str_eq(cats[i].id.as_str(), id) {
            assert(cats@[i as int].id@ == id@);
            return true;
        }
        i = i + 1;
    }
    false
}

/// The filter after the category list became `cats`: a filter on a category
/// that is gone falls back to the un-categorized todos.
pub open spec fn filter_after(f: CatFilter, cats: Seq<Category>) -> CatFilter {
    match f {
        CatFilter::Id(id) => if has_category_id(cats, id@) { f } else { CatFilter::Uncategorized },
        CatFilter::Uncategorized => CatFilter::Uncategorized,
    }
}

/// The first index of a todo with id `id`, if any.
pub fn find_todo(todos: &Vec<TodoItem>, id: &str) -> (r: Option<usize>)
    ensures
        r matches Some(k) ==> is_first_with_id(todos@, id@, k as int),
        r is None ==> no_id(todos@, id@),
{
    let n = todos.len();
    let mut i: usize = 0;
    while i < n
        invariant
            n == todos.len(),
            i <= n,
            forall|j: int| 0 <= j < i ==> todos@[j].id@ != id@,
        decreases n - i,
    {
        if str_eq(todos[i].id.as_str(), id) {
            return Some(i);
        }
        i = i + 1;
    }
    None
}

/// Whether every todo whose parent is `p` is completed.
fn children_all_done(todos: &Vec<TodoItem>, p: &str) -> (r: bool)
    ensures
        r == children_done(todos@, p@),
{
    let n = todos.len();
    let mut i: usize = 0;
    while i < n
        invariant
            n == todos.len(),
            i <= n,
            forall|j: int| 0 <= j < i && opt_str((#[trigger] todos@[j]).parent_id) == Some(p@) ==> todos@[j].completed,
        decreases n - i,
    {
        let t = &todos[i];
        let is_child = match &t.parent_id {
            Some(q) => str_eq(q.as_str(), p),
            None => false,
        };
        if is_child && !t.completed {
            assert(opt_str(todos@[i as int].parent_id) == Some(p@));
            return false;
        }
        i = i + 1;
    }
    true
}

/// Completes, at `now`, the parent `cur` once all its children are
/// completed, and so on up the chain, for at most `fuel` steps.
fn cascade_parents(todos: &mut Vec<TodoItem>, cur: Option<String>, now: &String, fuel: usize)
    ensures
        final(todos)@ == complete_parents(old(todos)@, opt_str(cur), *now, fuel as nat),
    decreases fuel,
{
    if fuel == 0 {
        return;
    }
    match cur {
        None => {},
        Some(p) => {
            proof {
                lemma_first_with_id(todos@, p@);
            }
            match find_todo(todos, p.as_str()) {
                None => {},
                Some(j) => {
                    if !todos[j].completed && children_all_done(todos, p.as_str()) {
                        let ghost s0 = todos@;
                        let t = todos.remove(j);
                        let next = clone_opt(&t.parent_id);
                        let t2 = TodoItem {
                            id: t.id,
                            content: t.content,
                            completed: true,
                            created_at: t.created_at,
                            completed_at: Some(now.clone()),
                            order: t.order,
                            tag_id: t.tag_id,
                            cat_id: t.cat_id,
                            parent_id: t.parent_id,
                            remind_at: t.remind_at,
                        };
                        todos.insert(j, t2);
                        assert(todos@ =~= s0.update(j as int, toggled(s0[j as int], *now)));
                        cascade_parents(todos, next, now, fuel - 1);
                    }
                },
            }
        },
    }
}

impl DoitApp {
    /// Marks the user data as changed now.
    fn touch(&mut self)
        ensures
            *final(self) == (DoitApp { last_modified: final(self).last_modified, ..*old(self) }),
            is_ascii_chars(final(self).last_modified@),
            is_datetime_text(final(self).last_modified@),
    {
        self.last_modified = now_iso();
    }

    /// Re-sorts the todos: open before completed, each by `order`; items that
    /// compare equal keep their relative order.
    pub fn resort(&mut self)
        ensures
            stamps_sound(old(self).todos@) ==> stamps_sound(final(self).todos@),
            stable_sort_of(final(self).todos@, old(self).todos@),
            final(self).settings == old(self).settings,
            final(self).last_modified == old(self).last_modified,
            same_view_state(*final(self), *old(self)),
    {
        let mut list: Vec<TodoItem> = Vec::new();
        std::mem::swap(&mut list, &mut self.todos);
        self.todos = stable_sort(list);
        proof {
            if stamps_sound(old(self).todos@) {
                lemma_stamps_sound_reordered(self.todos@, old(self).todos@);
            }
        }
    }

    /// Flips the completion of the first todo with id `id` (stamping the
    /// completion time `now`, or clearing it); a parent whose last open
    /// child completes completes too, up the chain of parents. Then
    /// re-sorts; the data is marked as changed at `now`.
    pub fn toggle_todo_at(&mut self, id: &str, now: String)
        ensures
            stamps_sound(old(self).todos@) && is_ascii_chars(now@) ==> stamps_sound(final(self).todos@),
            toggled_list_at(old(self).todos@, final(self).todos@, id@, now),
            *final(self) == (DoitApp { todos: final(self).todos, last_modified: now, ..*old(self) }),
    {
        let ghost now_g = now;
        match find_todo(&self.todos, id) {
            Some(k) => {
                let t = self.todos.remove(k);
                let completed = !t.completed;
                let completed_at = if completed { Some(now.clone()) } else { None };
                let t2 = TodoItem {
                    id: t.id,
                    content: t.content,
                    completed,
                    created_at: t.created_at,
                    completed_at,
                    order: t.order,
                    tag_id: t.tag_id,
                    cat_id: t.cat_id,
                    parent_id: t.parent_id,
                    remind_at: t.remind_at,
                };
                let parent = clone_opt(&t2.parent_id);
                self.todos.insert(k, t2);
                let ghost s1 = self.todos@;
                proof {
                    assert(s1 =~= old(self).todos@.update(
                        k as int,
                        toggled(old(self).todos@[k as int], now_g),
                    ));
                    if stamps_sound(old(self).todos@) && is_ascii_chars(now_g@) {
                        lemma_ascii_date_part_ok(now_g@);
                        assert(stamp_sound(old(self).todos@[k as int]));
                        assert forall|i: int| 0 <= i < s1.len() implies stamp_sound(#[trigger] s1[i]) by {
                            if i != k {
                                assert(s1[i] == old(self).todos@[i]);
                            }
                        }
                    }
                }
                if completed {
                    let fuel = self.todos.len();
                    cascade_parents(&mut self.todos, parent, &now, fuel);
                    proof {
                        if stamps_sound(old(self).todos@) && is_ascii_chars(now_g@) {
                            lemma_complete_parents_sound(s1, opt_str(parent), now_g, fuel as nat);
                        }
                    }
                }
                assert(self.todos@ == toggle_with_parents(old(self).todos@, k as int, now_g));
                self.resort();
                self.last_modified = now;
                proof {
                    assert forall|j: int| #[trigger] is_first_with_id(old(self).todos@, id@, j) implies
                        stable_sort_of(self.todos@, toggle_with_parents(old(self).todos@, j, now_g)) by {
                        assert(j == k);
                    }
                }
            },
            None => {
                self.resort();
                self.last_modified = now;
            },
        }
    }

    /// Flips the completion of the first todo with id `id` (stamping the
    /// completion time with the clock, or clearing it), completing parents
    /// whose last open child completes, then re-sorts.
    pub fn toggle_todo(&mut self, id: &str)
        ensures
            stamps_sound(old(self).todos@) ==> stamps_sound(final(self).todos@),
            toggled_list(old(self).todos@, final(self).todos@, id@),
            final(self).settings == old(self).settings,
            same_view_state(*final(self), *old(self)),
            is_ascii_chars(final(self).last_modified@),
            is_datetime_text(final(self).last_modified@),
    {
        let now = now_iso();
        let ghost now_g = now;
        self.toggle_todo_at(id, now);
        proof {
            assert forall|j: int| #[trigger] is_first_with_id(old(self).todos@, id@, j) implies exists|now: String|
                is_ascii_chars(now@) && is_datetime_text(now@) && stable_sort_of(self.todos@, toggle_with_parents(old(self).todos@, j, now)) by {
                assert(is_ascii_chars(now_g@) && is_datetime_text(now_g@) && stable_sort_of(self.todos@, toggle_with_parents(old(self).todos@, j, now_g)));
            }
        }
    }

    /// Appends a new open todo with the next `t{n}` id, in the category the
    /// list is filtered on (if any), created at `now`, ordered last; the data
    /// is marked as changed at `now`.
    pub fn add_todo_at(&mut self, content: String, now: String)
        requires
            old(self).next_id < u64::MAX,
        ensures
            stamps_sound(old(self).todos@) && is_ascii_chars(now@) ==> stamps_sound(final(self).todos@),
            final(self).next_id == old(self).next_id + 1,
            final(self).todos@.len() == old(self).todos@.len() + 1,
            final(self).todos@.drop_last() == old(self).todos@,
            final(self).todos@.last().id@ == "t"@ + dec(old(self).next_id as nat),
            final(self).todos@.last().content == content,
            !final(self).todos@.last().completed,
            final(self).todos@.last().created_at == now,
            final(self).todos@.last().completed_at is None,
            final(self).todos@.last().order == old(self).todos@.len() as u32,
            final(self).todos@.last().tag_id is None,
            opt_str(final(self).todos@.last().cat_id) == filter_id(old(self).cat_filter),
            final(self).todos@.last().parent_id is None,
            final(self).todos@.last().remind_at is None,
            *final(self) == (DoitApp {
                todos: final(self).todos,
                next_id: final(self).next_id,
                last_modified: now,
                ..*old(self)
            }),
    {
        let mut id = string_of("t");
        push_decimal(&mut id, self.next_id);
        self.next_id = self.next_id + 1;
        let cat_id = match &self.cat_filter {
            CatFilter::Id(cid) => Some(cid.clone()),
            _ => None,
        };
        let order = self.todos.len() as u32;
        let item = TodoItem {
            id,
            content,
            completed: false,
            created_at: now.clone(),
            completed_at: None,
            order,
            tag_id: None,
            cat_id,
            parent_id: None,
            remind_at: None,
        };
        self.todos.push(item);
        self.last_modified = now;
        assert(self.todos@.drop_last() =~= old(self).todos@);
        proof {
            if stamps_sound(old(self).todos@) && is_ascii_chars(now@) {
                lemma_ascii_date_part_ok(now@);
                assert forall|i: int| 0 <= i < self.todos@.len() implies stamp_sound(#[trigger] self.todos@[i]) by {
                    if i < old(self).todos@.len() {
                        assert(self.todos@[i] == old(self).todos@[i]);
                    }
                }
            }
        }
    }

    /// Appends a new open todo with the next `t{n}` id, in the category the
    /// list is filtered on (if any), created now (by the clock), ordered last.
    pub fn add_todo(&mut self, content: String)
        requires
            old(self).next_id < u64::MAX,
        ensures
            stamps_sound(old(self).todos@) ==> stamps_sound(final(self).todos@),
            final(self).next_id == old(self).next_id + 1,
            final(self).todos@.len() == old(self).todos@.len() + 1,
            final(self).todos@.drop_last() == old(self).todos@,
            final(self).todos@.last().id@ == "t"@ + dec(old(self).next_id as nat),
            final(self).todos@.last().content == content,
            !final(self).todos@.last().completed,
            is_ascii_chars(final(self).todos@.last().created_at@),
            is_datetime_text(final(self).todos@.last().created_at@),
            final(self).todos@.last().created_at == final(self).last_modified,
            final(self).todos@.last().completed_at is None,
            final(self).todos@.last().order == old(self).todos@.len() as u32,
            final(self).todos@.last().tag_id is None,
            opt_str(final(self).todos@.last().cat_id) == filter_id(old(self).cat_filter),
            final(self).todos@.last().parent_id is None,
            final(self).todos@.last().remind_at is None,
            *final(self) == (DoitApp {
                todos: final(self).todos,
                next_id: final(self).next_id,
                last_modified: final(self).last_modified,
                ..*old(self)
            }),
            is_ascii_chars(final(self).last_modified@),
            is_datetime_text(final(self).last_modified@),
    {
        let now = now_iso();
        self.add_todo_at(content, now);
    }

    /// Removes every todo with id `id`.
    pub fn delete_todo(&mut self, id: &str)
        ensures
            stamps_sound(old(self).todos@) ==> stamps_sound(final(self).todos@),
            final(self).todos@ == old(self).todos@.filter(other_id(id@)),
            final(self).settings == old(self).settings,
            same_view_state(*final(self), *old(self)),
            is_ascii_chars(final(self).last_modified@),
            is_datetime_text(final(self).last_modified@),
    {
        let ghost s0 = self.todos@;
        let mut src: Vec<TodoItem> = Vec::new();
        std::mem::swap(&mut src, &mut self.todos);
        let mut out: Vec<TodoItem> = Vec::new();
        let ghost mut i: int = 0;
        proof {
            assert(s0.take(0) =~= Seq::<TodoItem>::empty());
            reveal(Seq::filter);
            assert(s0.skip(0) =~= s0);
        }
        while src.len() > 0
            invariant
                0 <= i <= s0.len(),
                src@ == s0.skip(i),
                out@ == s0.take(i).filter(other_id(id@)),
            decreases src.len(),
        {
            let t = src.remove(0);
            proof {
                assert(t == s0[i]);
                assert(s0.take(i + 1) =~= s0.take(i).push(t));
                s0.take(i).lemma_filter_push(t, other_id(id@));
                assert(src@ =~= s0.skip(i + 1));
            }
            let keep = !str_eq(t.id.as_str(), id);
            proof {
                assert(keep == (t.id@ != id@));
                assert(other_id(id@)(t) == keep);
            }
            if keep {
                out.push(t);
            }
            proof {
                i = i + 1;
            }
        }
        proof {
            assert(s0.take(i) =~= s0);
            if stamps_sound(s0) {
                assert forall|j: int| 0 <= j < out@.len() implies stamp_sound(#[trigger] out@[j]) by {
                    assert(out@.contains(out@[j]));
                    s0.lemma_filter_contains_rev(other_id(id@), out@[j]);
                    let m = choose|m: int| 0 <= m < s0.len() && s0[m] == out@[j];
                    assert(stamp_sound(s0[m]));
                }
            }
        }
        self.todos = out;
        self.touch();
    }
}


impl DoitApp {
    /// Deletes all todos, tags and categories and drops the category filter;
    /// the other preferences stay.
    pub fn clear_all(&mut self)
        ensures
            stamps_sound(final(self).todos@),
            is_cleared(*final(self), *old(self)),
    {
        self.todos = Vec::new();
        self.settings.tags = Vec::new();
        self.settings.categories = Vec::new();
        self.settings.default_category_id = None;
        self.cat_filter = CatFilter::Uncategorized;
        self.touch();
    }

    /// A copy of all user data: the todos and the settings.
    pub fn snapshot_data(&self) -> (r: (Vec<TodoItem>, AppSettings))
        ensures
            r.0@ == self.todos@,
            same_settings(r.1, self.settings),
    {
        (copy_todos(&self.todos), self.settings.duplicate())
    }

    /// The portable snapshot of all user data, stamped with the time it last changed.
    pub fn export_snapshot(&self) -> (r: SyncSnapshot)
        ensures
            r.version == 1,
            is_export_of(r, *self),
    {
        SyncSnapshot {
            version: 1,
            exported_at: self.last_modified.clone(),
            todos: copy_todos(&self.todos),
            settings: self.settings.duplicate(),
        }
    }

    /// Replaces all user data with a snapshot (downloaded or imported): its
    /// todos re-sorted, its settings, and its stamp as the change time. A
    /// category filter whose category is gone is dropped.
    pub fn apply_snapshot(&mut self, snap: SyncSnapshot)
        ensures
            stamps_sound(snap.todos@) ==> stamps_sound(final(self).todos@),
            took_snapshot(*final(self), *old(self), snap),
    {
        self.todos = snap.todos;
        self.resort();
        self.settings = snap.settings;
        self.last_modified = snap.exported_at;
        self.drop_stale_filter();
    }

    /// Drops the category filter if its category is no longer in the settings.
    fn drop_stale_filter(&mut self)
        ensures
            *final(self) == (DoitApp {
                cat_filter: filter_after(old(self).cat_filter, old(self).settings.categories@),
                ..*old(self)
            }),
    {
        let stale = match &self.cat_filter {
            CatFilter::Id(id) => !has_category(&self.settings.categories, id.as_str()),
            CatFilter::Uncategorized => false,
        };
        if stale {
            self.cat_filter = CatFilter::Uncategorized;
        }
    }

    /// Replaces the categories and the default category (kept only when it
    /// names one of them); a category filter whose category is gone is dropped.
    pub fn set_categories(&mut self, categories: Vec<Category>, default_id: Option<String>)
        ensures
            final(self).settings.categories@ == categories@,
            final(self).settings.default_category_id == (match default_id {
                Some(id) => if has_category_id(categories@, id@) { Some(id) } else { None },
                None => None,
            }),
            *final(self) == (DoitApp {
                settings: AppSettings {
                    categories: final(self).settings.categories,
                    default_category_id: final(self).settings.default_category_id,
                    ..old(self).settings
                },
                cat_filter: filter_after(old(self).cat_filter, categories@),
                last_modified: final(self).last_modified,
                ..*old(self)
            }),
            is_ascii_chars(final(self).last_modified@),
            is_datetime_text(final(self).last_modified@),
    {
        self.settings.categories = categories;
        let valid = match &default_id {
            Some(id) => has_category(&self.settings.categories, id.as_str()),
            None => false,
        };
        self.settings.default_category_id = if valid { default_id } else { None };
        self.drop_stale_filter();
        self.touch();
    }

    /// Replaces the tags.
    pub fn set_tags(&mut self, tags: Vec<Tag>)
        ensures
            final(self).settings.tags@ == tags@,
            *final(self) == (DoitApp {
                settings: AppSettings { tags: final(self).settings.tags, ..old(self).settings },
                last_modified: final(self).last_modified,
                ..*old(self)
            }),
            is_ascii_chars(final(self).last_modified@),
            is_datetime_text(final(self).last_modified@),
    {
        self.settings.tags = tags;
        self.touch();
    }

    /// Replaces the settings (the settings dialog's working copy).
    pub fn set_settings(&mut self, settings: AppSettings)
        ensures
            *final(self) == (DoitApp { settings: settings, last_modified: final(self).last_modified, ..*old(self) }),
            is_ascii_chars(final(self).last_modified@),
            is_datetime_text(final(self).last_modified@),
    {
        self.settings = settings;
        self.touch();
    }

    /// Assigns (or clears) the tag of the first todo with id `id`.
    pub fn set_tag(&mut self, id: &str, tag_id: Option<String>)
        ensures
            stamps_sound(old(self).todos@) ==> stamps_sound(final(self).todos@),
            no_id(old(self).todos@, id@) ==> final(self).todos@ == old(self).todos@,
            forall|k: int| #[trigger] is_first_with_id(old(self).todos@, id@, k) ==>
                final(self).todos@ == old(self).todos@.update(k, TodoItem { tag_id: tag_id, ..old(self).todos@[k] }),
            *final(self) == (DoitApp { todos: final(self).todos, last_modified: final(self).last_modified, ..*old(self) }),
            is_ascii_chars(final(self).last_modified@),
            is_datetime_text(final(self).last_modified@),
    {
        if let Some(k) = find_todo(&self.todos, id) {
            let t = self.todos.remove(k);
            let t2 = TodoItem {
                id: t.id,
                content: t.content,
                completed: t.completed,
                created_at: t.created_at,
                completed_at: t.completed_at,
                order: t.order,
                tag_id,
                cat_id: t.cat_id,
                parent_id: t.parent_id,
                remind_at: t.remind_at,
            };
            self.todos.insert(k, t2);
            assert(self.todos@ =~= old(self).todos@.update(k as int, t2));
        }
        self.touch();
    }

    /// Assigns (or clears) the category of the first todo with id `id`.
    pub fn set_cat(&mut self, id: &str, cat_id: Option<String>)
        ensures
            stamps_sound(old(self).todos@) ==> stamps_sound(final(self).todos@),
            no_id(old(self).todos@, id@) ==> final(self).todos@ == old(self).todos@,
            forall|k: int| #[trigger] is_first_with_id(old(self).todos@, id@, k) ==>
                final(self).todos@ == old(self).todos@.update(k, TodoItem { cat_id: cat_id, ..old(self).todos@[k] }),
            *final(self) == (DoitApp { todos: final(self).todos, last_modified: final(self).last_modified, ..*old(self) }),
            is_ascii_chars(final(self).last_modified@),
            is_datetime_text(final(self).last_modified@),
    {
        if let Some(k) = find_todo(&self.todos, id) {
            let t = self.todos.remove(k);
            let t2 = TodoItem {
                id: t.id,
                content: t.content,
                completed: t.completed,
                created_at: t.created_at,
                completed_at: t.completed_at,
                order: t.order,
                tag_id: t.tag_id,
                cat_id,
                parent_id: t.parent_id,
                remind_at: t.remind_at,
            };
            self.todos.insert(k, t2);
            assert(self.todos@ =~= old(self).todos@.update(k as int, t2));
        }
        self.touch();
    }

    /// Enters inline editing of the todo `id`.
    pub fn start_edit(&mut self, id: &str)
        ensures
            opt_str(final(self).editing_id) == Some(id@),
            *final(self) == (DoitApp { editing_id: final(self).editing_id, ..*old(self) }),
    {
        self.editing_id = Some(string_of(id));
    }

    /// Leaves inline editing without applying.
    pub fn cancel_edit(&mut self)
        ensures
            *final(self) == (DoitApp { editing_id: None, ..*old(self) }),
    {
        self.editing_id = None;
    }

    /// Applies the edited text: leaves editing and, when the trimmed text is
    /// not empty, makes it the content of the first todo with the edited id.
    pub fn commit_edit(&mut self, input: &str)
        ensures
            stamps_sound(old(self).todos@) ==> stamps_sound(final(self).todos@),
            *final(self) == (DoitApp {
                todos: final(self).todos,
                editing_id: None,
                last_modified: final(self).last_modified,
                ..*old(self)
            }),
            final(self).last_modified != old(self).last_modified ==> is_ascii_chars(final(self).last_modified@),
            (old(self).editing_id is None || trim_seq(input@).len() == 0) ==> final(self).todos@ == old(self).todos@,
            old(self).editing_id matches Some(eid) ==> trim_seq(input@).len() != 0 ==> (
                no_id(old(self).todos@, eid@) ==> final(self).todos@ == old(self).todos@),
            old(self).editing_id matches Some(eid) ==> trim_seq(input@).len() != 0 ==> (
                forall|k: int| #[trigger] is_first_with_id(old(self).todos@, eid@, k) ==> (
                final(self).todos@.len() == old(self).todos@.len()
                && final(self).todos@[k].content@ == trim_seq(input@)
                && final(self).todos@[k] == (TodoItem { content: final(self).todos@[k].content, ..old(self).todos@[k] })
                && forall|j: int| 0 <= j < old(self).todos@.len() && j != k ==> final(self).todos@[j] == old(self).todos@[j])),
    {
        let editing = self.editing_id.take();
        if let Some(id) = editing {
            let value = trim(input);
            if value.as_str().unicode_len() != 0 {
                if let Some(k) = find_todo(&self.todos, id.as_str()) {
                    let t = self.todos.remove(k);
                    let t2 = TodoItem {
                        id: t.id,
                        content: value,
                        completed: t.completed,
                        created_at: t.created_at,
                        completed_at: t.completed_at,
                        order: t.order,
                        tag_id: t.tag_id,
                        cat_id: t.cat_id,
                        parent_id: t.parent_id,
                        remind_at: t.remind_at,
                    };
                    self.todos.insert(k, t2);
                    assert(self.todos@ =~= old(self).todos@.update(k as int, t2));
                    self.touch();
                }
            }
        }
    }

    /// Mirrors a WebDAV configuration typed into the backup dialog into the
    /// settings, and turns cloud sync on.
    pub fn push_config(&mut self, url: &str, user: &str, pass: &str)
        ensures
            has_config(*final(self), *old(self), url@, user@, pass@),
    {
        self.settings.cloud_sync.webdav_url = string_of(url);
        self.settings.cloud_sync.webdav_username = string_of(user);
        self.settings.cloud_sync.webdav_password = string_of(pass);
        self.settings.cloud_sync.enabled = true;
        self.touch();
    }
}


// ── What the views show ─────────────────────────────────────────────────────

/// Both time stamps of the todo can be cut at their date part.
pub open spec fn stamp_sound(t: TodoItem) -> bool {
    &&& date_part_ok(t.created_at@)
    &&& t.completed_at matches Some(c) ==> date_part_ok(c@)
}

/// Every todo's time stamps can be cut at their date part; the views can
/// then read every todo.
pub open spec fn stamps_sound(s: Seq<TodoItem>) -> bool {
    forall|i: int| 0 <= i < s.len() ==> stamp_sound(#[trigger] s[i])
}

/// Sound stamps are what the views need.
pub proof fn lemma_sound_stamps_ok(s: Seq<TodoItem>)
    requires
        stamps_sound(s),
    ensures
        stamps_ok(s),
{
    assert forall|i: int| 0 <= i < s.len() implies {
        &&& (#[trigger] s[i]).completed ==> (s[i].completed_at matches Some(c) ==> date_part_ok(c@))
        &&& !s[i].completed ==> date_part_ok(s[i].created_at@)
    } by {
        assert(stamp_sound(s[i]));
    }
}

/// Reordering the todos keeps their stamps sound.
pub proof fn lemma_stamps_sound_reordered(r: Seq<TodoItem>, s: Seq<TodoItem>)
    requires
        stamps_sound(s),
        r.to_multiset() == s.to_multiset(),
    ensures
        stamps_sound(r),
{
    broadcast use vstd::seq_lib::group_to_multiset_ensures;
    assert forall|i: int| 0 <= i < r.len() implies stamp_sound(#[trigger] r[i]) by {
        assert(r.contains(r[i]));
        assert(r.to_multiset().count(r[i]) > 0);
        assert(s.to_multiset().count(r[i]) > 0);
        assert(s.contains(r[i]));
        let j = choose|j: int| 0 <= j < s.len() && s[j] == r[i];
        assert(stamp_sound(s[j]));
    }
}

/// The todo passes the category filter.
pub open spec fn in_filter(f: CatFilter) -> spec_fn(TodoItem) -> bool {
    |t: TodoItem| match filter_id(f) {
        None => t.cat_id is None,
        Some(fid) => opt_str(t.cat_id) == Some(fid),
    }
}

/// The completion time of every completed todo can be cut at its date
/// part (what the today, calendar and timeline views read).
pub open spec fn done_stamps_ok(s: Seq<TodoItem>) -> bool {
    forall|i: int| 0 <= i < s.len() ==> ((#[trigger] s[i]).completed ==> (s[i].completed_at matches Some(c) ==> date_part_ok(c@)))
}

/// The dates the views read from each todo can be cut out of its texts: the
/// completion time of a completed todo and the creation time of an open one.
pub open spec fn stamps_ok(s: Seq<TodoItem>) -> bool {
    forall|i: int| 0 <= i < s.len() ==> {
        &&& (#[trigger] s[i]).completed ==> (s[i].completed_at matches Some(c) ==> date_part_ok(c@))
        &&& !s[i].completed ==> date_part_ok(s[i].created_at@)
    }
}

/// The todo was completed on day `day` (a `YYYY-MM-DD` text).
pub open spec fn done_on(day: Seq<char>) -> spec_fn(TodoItem) -> bool {
    |t: TodoItem| t.completed && match t.completed_at {
        Some(c) => date_part_text(c@) == day,
        None => false,
    }
}

/// The todo shows in the today view: still open, or completed on `day`.
pub open spec fn shows_on(day: Seq<char>) -> spec_fn(TodoItem) -> bool {
    |t: TodoItem| !t.completed || match t.completed_at {
        Some(c) => date_part_text(c@) == day,
        None => false,
    }
}

/// The todo was completed on a day of `[s, e]`.
pub open spec fn done_in(s: Ymd, e: Ymd) -> spec_fn(TodoItem) -> bool {
    |t: TodoItem| t.completed && match t.completed_at {
        Some(c) => iso_in_range_spec(c@, s, e),
        None => false,
    }
}

/// The todo is open and was created on a day of `[s, e]`.
pub open spec fn open_in(s: Ymd, e: Ymd) -> spec_fn(TodoItem) -> bool {
    |t: TodoItem| !t.completed && iso_in_range_spec(t.created_at@, s, e)
}

/// Whether the todo passes the category filter.
fn passes_filter(t: &TodoItem, f: &CatFilter) -> (r: bool)
    ensures
        r == in_filter(*f)(*t),
{
    match f {
        CatFilter::Uncategorized => t.cat_id.is_none(),
        CatFilter::Id(fid) => match &t.cat_id {
            Some(c) => str_eq(c.as_str(), fid.as_str()),
            None => false,
        },
    }
}

/// Whether the todo was completed on `day`.
fn is_done_on(t: &TodoItem, day: &str) -> (r: bool)
    requires
        t.completed ==> (t.completed_at matches Some(c) ==> date_part_ok(c@)),
    ensures
        r == done_on(day@)(*t),
{
    if !t.completed {
        return false;
    }
    match &t.completed_at {
        Some(c) => {
            let d = date_part(c.as_str());
            str_eq(d.as_str(), day)
        },
        None => false,
    }
}

impl DoitApp {
    /// The todos that pass the category filter, in order: those of the
    /// chosen category, or the un-categorized ones when none is chosen.
    pub fn filtered_todos(&self) -> (r: Vec<TodoItem>)
        ensures
            r@ == self.todos@.filter(in_filter(self.cat_filter)),
    {
        let n = self.todos.len();
        let mut out: Vec<TodoItem> = Vec::new();
        let mut i: usize = 0;
        proof {
            reveal(Seq::filter);
            assert(self.todos@.take(0) =~= Seq::<TodoItem>::empty());
        }
        while i < n
            invariant
                n == self.todos.len(),
                i <= n,
                out@ == self.todos@.take(i as int).filter(in_filter(self.cat_filter)),
            decreases n - i,
        {
            let t = &self.todos[i];
            proof {
                assert(self.todos@.take(i + 1) =~= self.todos@.take(i as int).push(*t));
                self.todos@.take(i as int).lemma_filter_push(*t, in_filter(self.cat_filter));
            }
            if passes_filter(t, &self.cat_filter) {
                out.push(t.duplicate());
            }
            i = i + 1;
        }
        assert(self.todos@.take(n as int) =~= self.todos@);
        out
    }

    /// The todos of the today view for the day `today` (`YYYY-MM-DD`): those
    /// passing the filter that are still open or were completed that day.
    pub fn active_todos_on(&self, today: &str) -> (r: Vec<TodoItem>)
        requires
            done_stamps_ok(self.todos@),
        ensures
            r@ == self.todos@.filter(in_filter(self.cat_filter)).filter(shows_on(today@)),
    {
        let list = self.filtered_todos();
        proof {
            assert forall|i: int| 0 <= i < list@.len() implies {
                &&& (#[trigger] list@[i]).completed ==> (list@[i].completed_at matches Some(c) ==> date_part_ok(c@))
            } by {
                assert(self.todos@.filter(in_filter(self.cat_filter)).contains(list@[i]));
                self.todos@.lemma_filter_contains_rev(in_filter(self.cat_filter), list@[i]);
                let j = choose|j: int| 0 <= j < self.todos@.len() && self.todos@[j] == list@[i];
                assert(self.todos@[j] == list@[i]);
            }
        }
        let n = list.len();
        let mut out: Vec<TodoItem> = Vec::new();
        let mut i: usize = 0;
        proof {
            reveal(Seq::filter);
            assert(list@.take(0) =~= Seq::<TodoItem>::empty());
        }
        while i < n
            invariant
                n == list.len(),
                i <= n,
                forall|k: int| 0 <= k < list@.len() ==> ((#[trigger] list@[k]).completed ==> (
                    list@[k].completed_at matches Some(c) ==> date_part_ok(c@))),
                out@ == list@.take(i as int).filter(shows_on(today@)),
            decreases n - i,
        {
            let t = &list[i];
            proof {
                assert(list@.take(i + 1) =~= list@.take(i as int).push(*t));
                list@.take(i as int).lemma_filter_push(*t, shows_on(today@));
            }
            let keep = !t.completed || is_done_on(t, today);
            if keep {
                out.push(t.duplicate());
            }
            i = i + 1;
        }
        assert(list@.take(n as int) =~= list@);
        out
    }

    /// The todos of the today view: those passing the filter that are still
    /// open or were completed today (local date of the clock).
    pub fn active_todos(&self) -> (r: Vec<TodoItem>)
        requires
            done_stamps_ok(self.todos@),
        ensures
            exists|now: String| is_ascii_chars(now@) && is_datetime_text(now@) && r@ == self.todos@.filter(
                in_filter(self.cat_filter),
            ).filter(shows_on(date_part_text(now@))),
    {
        let now = now_iso();
        proof {
            lemma_ascii_boundary(now@, 0);
            if now@.len() >= 10 {
                lemma_ascii_boundary(now@, 10);
            }
        }
        let today = date_part(now.as_str());
        self.active_todos_on(today.as_str())
    }
}


fn is_done_in(t: &TodoItem, s: Ymd, e: Ymd) -> (r: bool)
    requires
        t.completed ==> (t.completed_at matches Some(c) ==> date_part_ok(c@)),
    ensures
        r == done_in(s, e)(*t),
{
    if !t.completed {
        return false;
    }
    match &t.completed_at {
        Some(c) => iso_in_range(c.as_str(), s, e),
        None => false,
    }
}

impl DoitApp {
    /// The number of todos completed on a day of `[s, e]`.
    pub fn completed_in_range(&self, s: Ymd, e: Ymd) -> (r: usize)
        requires
            stamps_ok(self.todos@),
        ensures
            r == self.todos@.filter(done_in(s, e)).len(),
    {
        let n = self.todos.len();
        let mut count: usize = 0;
        let mut i: usize = 0;
        proof {
            reveal(Seq::filter);
            assert(self.todos@.take(0) =~= Seq::<TodoItem>::empty());
        }
        while i < n
            invariant
                n == self.todos.len(),
                i <= n,
                stamps_ok(self.todos@),
                count == self.todos@.take(i as int).filter(done_in(s, e)).len(),
                count <= i,
            decreases n - i,
        {
            let t = &self.todos[i];
            proof {
                assert(self.todos@.take(i + 1) =~= self.todos@.take(i as int).push(*t));
                self.todos@.take(i as int).lemma_filter_push(*t, done_in(s, e));
                assert(self.todos@[i as int] == *t);
            }
            if is_done_in(t, s, e) {
                count = count + 1;
            }
            i = i + 1;
        }
        assert(self.todos@.take(n as int) =~= self.todos@);
        count
    }

    /// The number of todos completed in month `m` of year `y`.
    pub fn completed_in_month(&self, y: i32, m: u32) -> (r: usize)
        requires
            stamps_ok(self.todos@),
            month_range_fits(y as int, m as int),
        ensures
            r == self.todos@.filter(done_in(first_day(y as int, m as int), last_day(y as int, m as int))).len(),
    {
        let (s, e) = month_bounds(y, m);
        self.completed_in_range(s, e)
    }

    /// The number of open todos created on a day of `[s, e]`.
    pub fn incomplete_in_range(&self, s: Ymd, e: Ymd) -> (r: usize)
        requires
            stamps_ok(self.todos@),
        ensures
            r == self.todos@.filter(open_in(s, e)).len(),
    {
        let n = self.todos.len();
        let mut count: usize = 0;
        let mut i: usize = 0;
        proof {
            reveal(Seq::filter);
            assert(self.todos@.take(0) =~= Seq::<TodoItem>::empty());
        }
        while i < n
            invariant
                n == self.todos.len(),
                i <= n,
                stamps_ok(self.todos@),
                count == self.todos@.take(i as int).filter(open_in(s, e)).len(),
                count <= i,
            decreases n - i,
        {
            let t = &self.todos[i];
            proof {
                assert(self.todos@.take(i + 1) =~= self.todos@.take(i as int).push(*t));
                self.todos@.take(i as int).lemma_filter_push(*t, open_in(s, e));
                assert(self.todos@[i as int] == *t);
            }
            if !t.completed && iso_in_range(t.created_at.as_str(), s, e) {
                count = count + 1;
            }
            i = i + 1;
        }
        assert(self.todos@.take(n as int) =~= self.todos@);
        count
    }

    /// The todos completed on `day` (the calendar view's list), in order.
    pub fn completed_on(&self, day: &str) -> (r: Vec<TodoItem>)
        requires
            done_stamps_ok(self.todos@),
        ensures
            r@ == self.todos@.filter(done_on(day@)),
    {
        let n = self.todos.len();
        let mut out: Vec<TodoItem> = Vec::new();
        let mut i: usize = 0;
        proof {
            reveal(Seq::filter);
            assert(self.todos@.take(0) =~= Seq::<TodoItem>::empty());
        }
        while i < n
            invariant
                n == self.todos.len(),
                i <= n,
                done_stamps_ok(self.todos@),
                out@ == self.todos@.take(i as int).filter(done_on(day@)),
            decreases n - i,
        {
            let t = &self.todos[i];
            proof {
                assert(self.todos@.take(i + 1) =~= self.todos@.take(i as int).push(*t));
                self.todos@.take(i as int).lemma_filter_push(*t, done_on(day@));
                assert(self.todos@[i as int] == *t);
            }
            if is_done_on(t, day) {
                out.push(t.duplicate());
            }
            i = i + 1;
        }
        assert(self.todos@.take(n as int) =~= self.todos@);
        out
    }

    /// Day by day over `[s, e]`: the `MM-DD` label and the number of todos
    /// completed that day.
    pub fn daily_completed(&self, s: Ymd, e: Ymd) -> (r: Vec<(String, usize)>)
        requires
            stamps_ok(self.todos@),
            valid_ymd(s),
            valid_ymd(e),
        ensures
            r@.len() == if day_number(s) <= day_number(e) { day_number(e) - day_number(s) + 1 } else { 0 },
            forall|i: int| 0 <= i < r@.len() ==> day_entry(#[trigger] r@[i], day_number(s) + i, self.todos@),
    {
        let mut out: Vec<(String, usize)> = Vec::new();
        let mut d = s;
        proof {
            lemma_day_number_order(s, e);
            lemma_day_number_bounds(e);
        }
        let mut finished = !ymd_le_date(s, e);
        while !finished
            invariant
                valid_ymd(d),
                valid_ymd(e),
                valid_ymd(s),
                day_number(e) <= day_number(max_date()),
                stamps_ok(self.todos@),
                finished ==> out@.len() == if day_number(s) <= day_number(e) { day_number(e) - day_number(s) + 1 } else { 0 },
                !finished ==> day_number(s) <= day_number(d) <= day_number(e),
                !finished ==> day_number(d) == day_number(s) + out@.len(),
                forall|i: int| 0 <= i < out@.len() ==> day_entry(#[trigger] out@[i], day_number(s) + i, self.todos@),
            decreases (if finished { 0 } else { day_number(e) - day_number(d) + 1 }),
        {
            let label = md_dash(d);
            let count = self.completed_in_range(d, d);
            let ghost cur = d;
            let ghost prev = out@;
            out.push((label, count));
            proof {
                assert(day_entry((label, count), day_number(s) + prev.len(), self.todos@)) by {
                    assert(day_entry_at((label, count), cur, self.todos@));
                }
                assert forall|i: int| 0 <= i < out@.len() implies day_entry(#[trigger] out@[i], day_number(s) + i, self.todos@) by {
                    if i < prev.len() {
                        assert(out@[i] == prev[i]);
                    }
                }
                lemma_day_number_order(d, e);
            }
            if d == e {
                finished = true;
            } else {
                d = date_add_days(d, 1);
            }
        }
        out
    }
}

/// The entry is the label and completion count of date `d`.
pub open spec fn day_entry_at(entry: (String, usize), d: Ymd, todos: Seq<TodoItem>) -> bool {
    &&& valid_ymd(d)
    &&& entry.0@ == md_dash_text(d)
    &&& entry.1 == todos.filter(done_in(d, d)).len()
}

/// The entry is the label and completion count of the date with day number `n`.
pub open spec fn day_entry(entry: (String, usize), n: int, todos: Seq<TodoItem>) -> bool {
    exists|d: Ymd| day_number(d) == n && #[trigger] day_entry_at(entry, d, todos)
}

fn ymd_le_date(a: Ymd, b: Ymd) -> (r: bool)
    ensures
        r == crate::dates::ymd_le(a, b),
{
    a.year < b.year || (a.year == b.year && (a.month < b.month || (a.month == b.month && a.day
        <= b.day)))
}

} // verus!
