//! The timeline view: completed todos grouped by the day they were
//! completed, latest first.

use vstd::prelude::*;
use crate::types::TodoItem;
use crate::text::{str_eq, text_lt, str_lt, lemma_text_lt_total, lemma_text_lt_trans};
use crate::dates::{date_part, date_part_text, date_part_ok};
use crate::sort::{TotalPreorder, stable_sort, stable_sort_of};
use crate::todos::{DoitApp, done_stamps_ok};

verus! {

/// Optional texts ordered as `Option<&str>` is: none first, then by text.
pub open spec fn opt_text_lt(a: Option<String>, b: Option<String>) -> bool {
    match (a, b) {
        (None, Some(_)) => true,
        (Some(x), Some(y)) => text_lt(x@, y@),
        _ => false,
    }
}

/// A todo ordered by completion time, latest first.
pub struct LatestFirst(pub TodoItem);

impl TotalPreorder for LatestFirst {
    open spec fn le(a: Self, b: Self) -> bool {
        !opt_text_lt(a.0.completed_at, b.0.completed_at)
    }

    proof fn le_total(a: Self, b: Self) {
        match (a.0.completed_at, b.0.completed_at) {
            (Some(x), Some(y)) => lemma_text_lt_total(x@, y@),
            _ => {},
        }
    }

    proof fn le_trans(a: Self, b: Self, c: Self) {
        match (a.0.completed_at, b.0.completed_at, c.0.completed_at) {
            (Some(x), Some(y), Some(z)) => {
                lemma_text_lt_total(x@, y@);
                lemma_text_lt_total(y@, z@);
                lemma_text_lt_total(x@, z@);
                if text_lt(x@, z@) {
                    if text_lt(y@, x@) {
                        lemma_text_lt_trans(y@, x@, z@);
                    }
                }
            },
            _ => {},
        }
    }

    fn le_exec(&self, other: &Self) -> (r: bool) {
        match (&self.0.completed_at, &other.0.completed_at) {
            (None, Some(_)) => false,
            (Some(x), Some(y)) => !str_lt(x.as_str(), y.as_str()),
            _ => true,
        }
    }
}

/// The todo is completed and carries its completion time.
pub open spec fn has_stamp() -> spec_fn(TodoItem) -> bool {
    |t: TodoItem| t.completed && t.completed_at is Some
}

/// The day a todo was completed (the date part of its completion time).
pub open spec fn stamp_day(t: TodoItem) -> Seq<char> {
    match t.completed_at {
        Some(c) => date_part_text(c@),
        None => Seq::empty(),
    }
}

/// The completion time, if any, can be cut at its date part.
pub open spec fn stamp_ok(t: TodoItem) -> bool {
    t.completed_at matches Some(c) ==> date_part_ok(c@)
}

/// Consecutive todos of `s` completed on the same day, as `(day, todos)`.
pub open spec fn group_days(s: Seq<TodoItem>) -> Seq<(Seq<char>, Seq<TodoItem>)>
    decreases s.len(),
{
    if s.len() == 0 {
        Seq::empty()
    } else {
        let g = group_days(s.drop_last());
        let t = s.last();
        let day = stamp_day(t);
        if g.len() > 0 && g.last().0 == day {
            g.update(g.len() - 1, (day, g.last().1.push(t)))
        } else {
            g.push((day, seq![t]))
        }
    }
}

/// The views of a list of day groups.
pub open spec fn group_views(g: Seq<(String, Vec<TodoItem>)>) -> Seq<(Seq<char>, Seq<TodoItem>)> {
    g.map_values(|e: (String, Vec<TodoItem>)| (e.0@, e.1@))
}

/// The items of `s` wrapped for the latest-first order.
pub open spec fn latest_first(s: Seq<TodoItem>) -> Seq<LatestFirst> {
    s.map_values(|t: TodoItem| LatestFirst(t))
}

impl DoitApp {
    /// The completed todos grouped by completion day: the days latest
    /// first, the todos of a day latest first; todos completed at the same
    /// time keep their list order.
    pub fn completed_by_day(&self) -> (r: Vec<(String, Vec<TodoItem>)>)
        requires
            done_stamps_ok(self.todos@),
        ensures
            exists|s: Seq<TodoItem>|
                stable_sort_of(latest_first(s), latest_first(self.todos@.filter(has_stamp())))
                    && group_views(r@) == group_days(s),
    {
        let n = self.todos.len();
        let mut picked: Vec<LatestFirst> = Vec::new();
        let mut i: usize = 0;
        proof {
            reveal(Seq::filter);
            assert(self.todos@.take(0) =~= Seq::<TodoItem>::empty());
            assert(picked@ =~= latest_first(self.todos@.take(0).filter(has_stamp())));
        }
        while i < n
            invariant
                n == self.todos.len(),
                i <= n,
                picked@ == latest_first(self.todos@.take(i as int).filter(has_stamp())),
            decreases n - i,
        {
            let t = &self.todos[i];
            proof {
                assert(self.todos@.take(i + 1) =~= self.todos@.take(i as int).push(*t));
                self.todos@.take(i as int).lemma_filter_push(*t, has_stamp());
            }
            if t.completed && t.completed_at.is_some() {
                picked.push(LatestFirst(t.duplicate()));
                proof {
                    assert(picked@ =~= latest_first(self.todos@.take(i + 1).filter(has_stamp())));
                }
            }
            i = i + 1;
        }
        proof {
            assert(self.todos@.take(n as int) =~= self.todos@);
        }
        let ghost base = self.todos@;
        let ghost all = base.filter(has_stamp());
        let sorted = stable_sort(picked);
        let ghost s: Seq<TodoItem> = sorted@.map_values(|w: LatestFirst| w.0);
        proof {
            broadcast use vstd::seq_lib::group_to_multiset_ensures;
            assert(latest_first(s) =~= sorted@);
            assert forall|k: int| 0 <= k < s.len() implies stamp_ok(#[trigger] s[k]) by {
                let x = sorted@[k];
                assert(sorted@.contains(x));
                assert(sorted@.to_multiset().count(x) > 0);
                assert(latest_first(all).to_multiset().count(x) > 0);
                assert(latest_first(all).contains(x));
                let j = choose|j: int| 0 <= j < latest_first(all).len() && latest_first(all)[j] == x;
                assert(all[j] == x.0);
                base.lemma_filter_pred(has_stamp(), j);
                assert(all.contains(all[j]));
                base.lemma_filter_contains_rev(has_stamp(), all[j]);
                let b = choose|b: int| 0 <= b < base.len() && base[b] == all[j];
                assert(done_stamps_ok(base));
                assert(base[b].completed);
            }
        }
        let groups = self.group_sorted(&sorted, Ghost(s));
        groups
    }

    fn group_sorted(&self, sorted: &Vec<LatestFirst>, Ghost(s): Ghost<Seq<TodoItem>>) -> (r: Vec<(String, Vec<TodoItem>)>)
        requires
            s == sorted@.map_values(|w: LatestFirst| w.0),
            forall|k: int| 0 <= k < s.len() ==> stamp_ok(#[trigger] s[k]),
        ensures
            group_views(r@) == group_days(s),
    {
        let n = sorted.len();
        let mut groups: Vec<(String, Vec<TodoItem>)> = Vec::new();
        let mut i: usize = 0;
        proof {
            assert(s.take(0) =~= Seq::<TodoItem>::empty());
            assert(group_views(groups@) =~= group_days(s.take(0)));
        }
        while i < n
            invariant
                n == sorted.len(),
                s == sorted@.map_values(|w: LatestFirst| w.0),
                forall|k: int| 0 <= k < s.len() ==> stamp_ok(#[trigger] s[k]),
                i <= n,
                group_views(groups@) == group_days(s.take(i as int)),
            decreases n - i,
        {
            let t = &sorted[i].0;
            proof {
                assert(s[i as int] == *t);
                assert(stamp_ok(s[i as int]));
                assert(s.take(i + 1).drop_last() =~= s.take(i as int));
                assert(s.take(i + 1).last() == *t);
            }
            let day = match &t.completed_at {
                Some(c) => date_part(c.as_str()),
                None => String::new(),
            };
            assert(day@ == stamp_day(*t));
            let ng = groups.len();
            let same = ng > 0 && str_eq(groups[ng - 1].0.as_str(), day.as_str());
            let ghost prev = groups@;
            if same {
                let (d, mut items) = groups.pop().unwrap();
                items.push(t.duplicate());
                groups.push((d, items));
                proof {
                    assert(group_views(prev).last() == group_views(prev)[ng - 1]);
                    assert(group_views(groups@) =~= group_views(prev).update(
                        ng - 1,
                        (day@, group_views(prev).last().1.push(*t)),
                    ));
                }
            } else {
                let mut items: Vec<TodoItem> = Vec::new();
                items.push(t.duplicate());
                assert(items@ =~= seq![*t]);
                groups.push((day, items));
                proof {
                    if ng > 0 {
                        assert(group_views(prev).last().0 == prev[ng - 1].0@);
                    }
                    assert(group_views(groups@) =~= group_views(prev).push((day@, seq![*t])));
                }
            }
            i = i + 1;
        }
        proof {
            assert(s.take(n as int) =~= s);
        }
        groups
    }
}

} // verus!
