//! The statistics view: which range is selected, how the selection moves,
//! and the numbers the charts show.

use vstd::prelude::*;
use crate::text::{dec, zero_pad, signed_zero_pad, push_char, push_signed_zero_padded, push_zero_padded};
use crate::dates::{
    Ymd, StatsPeriod, valid_ymd, day_number, min_year, max_year, first_day, last_day,
    months_after, month_range_fits, add_months, current_ym, today, range_bounds, is_stats_range,
    stats_range_fits, stats_range_ok, range_label, range_label_text, month_caption,
    month_caption_text,
};
use crate::todos::{DoitApp, stamps_ok, done_in, open_in, day_entry};

verus! {

/// The bar label of a month, `format!("{:04}-{:02}", y, m)`.
pub open spec fn bar_label(y: int, m: int) -> Seq<char> {
    signed_zero_pad(y, 4) + seq!['-'] + zero_pad(dec(m as nat), 2)
}

/// The entry is the label of month `(y, m)` and the number of todos completed in it.
pub open spec fn month_bar(entry: (String, usize), y: int, m: int, todos: Seq<crate::types::TodoItem>) -> bool {
    &&& entry.0@ == bar_label(y, m)
    &&& entry.1 == todos.filter(done_in(first_day(y, m), last_day(y, m))).len()
}

/// The twelve months up to `(cy, cm)` can all be turned into date ranges:
/// the first of them is in a supported year, and none is the last month of
/// the last supported year (whose end date would need the next month).
pub open spec fn bars_fit(cy: int, cm: int) -> bool {
    &&& 1 <= cm <= 12
    &&& if cm == 12 {
        min_year() <= cy < max_year()
    } else {
        min_year() < cy <= max_year()
    }
}

/// A month at most eleven months back from a month of a year strictly inside
/// the supported ones is a supported month.
pub proof fn lemma_recent_month(cy: int, cm: int, delta: int)
    requires
        bars_fit(cy, cm),
        -11 <= delta <= 0,
    ensures
        month_range_fits(months_after(cy, cm, delta).0, months_after(cy, cm, delta).1),
        cy - 1 <= months_after(cy, cm, delta).0 <= cy,
{
    let total = cy * 12 + (cm - 1) + delta;
    assert((cy - 1) * 12 <= total < (cy + 1) * 12);
    assert(cy - 1 <= total / 12 <= cy);
    if months_after(cy, cm, delta).1 == 12 {
        assert(total % 12 == 11);
        assert(total / 12 < cy || cm - 1 + delta == 11);
    }
}

fn bar_text(y: i32, m: u32) -> (r: String)
    ensures
        r@ == bar_label(y as int, m as int),
{
    let mut out = String::new();
    push_signed_zero_padded(&mut out, y as i64, 4);
    push_char(&mut out, '-');
    push_zero_padded(&mut out, m as u64, 2);
    assert(out@ =~= bar_label(y as int, m as int));
    out
}

/// Which of the quick range buttons shows as selected.
#[derive(Clone, Copy, Debug, PartialEq, Eq, Structural)]
pub struct StatsSelection {
    pub this_week: bool,
    pub last_week: bool,
    pub this_month: bool,
    pub last_month: bool,
}

/// What the statistics view shows for the selected range.
pub struct StatsView {
    /// The date and the current month the view was computed for.
    pub today: Ymd,
    pub cur: (i32, u32),
    /// The range `[start, end]`.
    pub start: Ymd,
    pub end: Ymd,
    /// Completions per month over the twelve months up to the current one, oldest first.
    pub bars: Vec<(String, usize)>,
    /// Completions per day of the range.
    pub daily: Vec<(String, usize)>,
    /// Todos completed in the range.
    pub done: usize,
    /// Open todos created in the range.
    pub open: usize,
    /// The caption of the range.
    pub caption: String,
}

/// `v` is what the statistics view shows of `app` on `today`, the current month being `cur`.
pub open spec fn shows_stats(app: DoitApp, today: Ymd, cur: (i32, u32), v: StatsView) -> bool {
    &&& v.today == today
    &&& v.cur == cur
    &&& is_stats_range(app.stats_period, app.stats_month, app.stats_week_offset as int, today, v.start, v.end)
    &&& v.bars@.len() == 12
    &&& forall|j: int| 0 <= j < 12 ==> month_bar(
        #[trigger] v.bars@[j],
        months_after(cur.0 as int, cur.1 as int, j - 11).0,
        months_after(cur.0 as int, cur.1 as int, j - 11).1,
        app.todos@,
    )
    &&& v.daily@.len() == if day_number(v.start) <= day_number(v.end) {
        day_number(v.end) - day_number(v.start) + 1
    } else {
        0
    }
    &&& forall|i: int| 0 <= i < v.daily@.len() ==> day_entry(#[trigger] v.daily@[i], day_number(v.start) + i, app.todos@)
    &&& v.done == app.todos@.filter(done_in(v.start, v.end)).len()
    &&& v.open == app.todos@.filter(open_in(v.start, v.end)).len()
    &&& v.caption@ == range_label_text(v.start, v.end)
}

/// The statistics of `app` can be built on `today`, the current month being `cur`.
pub open spec fn stats_buildable(app: DoitApp, today: Ymd, cur: (i32, u32)) -> bool {
    &&& stats_range_fits(app.stats_period, app.stats_month, app.stats_week_offset as int, today)
    &&& bars_fit(cur.0 as int, cur.1 as int)
}

/// The month `(y, m)` as the pair the view stores.
pub open spec fn ym_of(t: (int, int)) -> (i32, u32) {
    (t.0 as i32, t.1 as u32)
}

impl DoitApp {
    /// Completions per month over the twelve months ending with `(cy, cm)`, oldest first.
    pub fn monthly_completed(&self, cy: i32, cm: u32) -> (r: Vec<(String, usize)>)
        requires
            stamps_ok(self.todos@),
            bars_fit(cy as int, cm as int),
        ensures
            r@.len() == 12,
            forall|j: int| 0 <= j < 12 ==> month_bar(
                #[trigger] r@[j],
                months_after(cy as int, cm as int, j - 11).0,
                months_after(cy as int, cm as int, j - 11).1,
                self.todos@,
            ),
    {
        let mut out: Vec<(String, usize)> = Vec::new();
        let mut k: i32 = 12;
        while k > 0
            invariant
                0 <= k <= 12,
                out@.len() == 12 - k,
                stamps_ok(self.todos@),
                bars_fit(cy as int, cm as int),
                forall|j: int| 0 <= j < out@.len() ==> month_bar(
                    #[trigger] out@[j],
                    months_after(cy as int, cm as int, j - 11).0,
                    months_after(cy as int, cm as int, j - 11).1,
                    self.todos@,
                ),
            decreases k,
        {
            k = k - 1;
            let (y, m) = add_months(cy, cm, -k);
            proof {
                lemma_recent_month(cy as int, cm as int, -k as int);
            }
            let label = bar_text(y, m);
            let count = self.completed_in_month(y, m);
            let ghost prev = out@;
            out.push((label, count));
            proof {
                assert forall|j: int| 0 <= j < out@.len() implies month_bar(
                    #[trigger] out@[j],
                    months_after(cy as int, cm as int, j - 11).0,
                    months_after(cy as int, cm as int, j - 11).1,
                    self.todos@,
                ) by {
                    if j < prev.len() {
                        assert(out@[j] == prev[j]);
                    }
                }
            }
        }
        out
    }

    /// Completions per month over the twelve months ending with the current
    /// one; empty when the clock's year is at the edge of the supported years.
    pub fn recent_months_completed(&self) -> (r: Vec<(String, usize)>)
        requires
            stamps_ok(self.todos@),
        ensures
            r@.len() == 0 || exists|cy: i32, cm: u32| bars_fit(cy as int, cm as int) && forall|j: int| 0 <= j < 12 ==> month_bar(
                #[trigger] r@[j],
                months_after(cy as int, cm as int, j - 11).0,
                months_after(cy as int, cm as int, j - 11).1,
                self.todos@,
            ),
            r@.len() == 0 || r@.len() == 12,
            r@.len() == 0 ==> exists|cy: i32, cm: u32| min_year() <= cy <= max_year() && 1 <= cm <= 12
                && !#[trigger] bars_fit(cy as int, cm as int),
    {
        let (cy, cm) = current_ym();
        if (cm == 12 && -262143 <= cy && cy < 262142) || (cm != 12 && -262143 < cy && cy <= 262142) {
            let r = self.monthly_completed(cy, cm);
            assert(bars_fit(cy as int, cm as int));
            r
        } else {
            assert(!bars_fit(cy as int, cm as int));
            Vec::new()
        }
    }

    /// What the statistics view shows on `today` (the current month being `cur`).
    pub fn stats_view(&self, today: Ymd, cur: (i32, u32)) -> (r: StatsView)
        requires
            stamps_ok(self.todos@),
            valid_ymd(today),
            stats_buildable(*self, today, cur),
        ensures
            shows_stats(*self, today, cur, r),
    {
        let (start, end) = range_bounds(self.stats_period, self.stats_month, self.stats_week_offset, today);
        let bars = self.monthly_completed(cur.0, cur.1);
        let daily = self.daily_completed(start, end);
        let done = self.completed_in_range(start, end);
        let open = self.incomplete_in_range(start, end);
        let caption = range_label(start, end);
        StatsView { today, cur, start, end, bars, daily, done, open, caption }
    }

    /// What the statistics view shows on `today`, the current month being
    /// `cur`; `None` when the selected range or the twelve months cannot be
    /// built from them.
    pub fn stats_at(&self, today: Ymd, cur: (i32, u32)) -> (r: Option<StatsView>)
        requires
            stamps_ok(self.todos@),
            valid_ymd(today),
        ensures
            r is None <==> !stats_buildable(*self, today, cur),
            r matches Some(v) ==> shows_stats(*self, today, cur, v),
    {
        let (cy, cm) = cur;
        let bars_ok = (cm == 12 && -262143 <= cy && cy < 262142) || (cm != 12 && 1 <= cm && cm <= 12 && -262143 < cy
            && cy <= 262142);
        if stats_range_ok(self.stats_period, self.stats_month, self.stats_week_offset, today) && bars_ok {
            Some(self.stats_view(today, cur))
        } else {
            None
        }
    }

    /// The clock's date and what the statistics view shows on it (the
    /// current month being that date's month); `None` when the selected
    /// range or the twelve months cannot be built from them.
    pub fn stats_now(&self) -> (r: (Ymd, Option<StatsView>))
        requires
            stamps_ok(self.todos@),
        ensures
            valid_ymd(r.0),
            r.1 is None <==> !stats_buildable(*self, r.0, (r.0.year, r.0.month)),
            r.1 matches Some(v) ==> shows_stats(*self, r.0, (r.0.year, r.0.month), v),
    {
        let t = today();
        let v = self.stats_at(t, (t.year, t.month));
        (t, v)
    }

    /// Selects the week `offset` weeks from the current one (0: this week, -1: last week).
    pub fn show_week(&mut self, offset: i32)
        ensures
            *final(self) == (DoitApp { stats_period: StatsPeriod::Week, stats_week_offset: offset, ..*old(self) }),
    {
        self.stats_period = StatsPeriod::Week;
        self.stats_week_offset = offset;
    }

    /// Selects month `ym`.
    pub fn show_month(&mut self, ym: (i32, u32))
        ensures
            *final(self) == (DoitApp {
                stats_period: StatsPeriod::Month,
                stats_month: ym,
                stats_week_offset: 0,
                ..*old(self)
            }),
    {
        self.stats_period = StatsPeriod::Month;
        self.stats_month = ym;
        self.stats_week_offset = 0;
    }

    /// Selects the current month.
    pub fn show_this_month(&mut self)
        ensures
            *final(self) == (DoitApp {
                stats_period: StatsPeriod::Month,
                stats_month: final(self).stats_month,
                stats_week_offset: 0,
                ..*old(self)
            }),
            min_year() <= final(self).stats_month.0 <= max_year(),
            1 <= final(self).stats_month.1 <= 12,
    {
        let cur = current_ym();
        self.show_month(cur);
    }

    /// Selects the month before the current one.
    pub fn show_last_month(&mut self)
        ensures
            *final(self) == (DoitApp {
                stats_period: StatsPeriod::Month,
                stats_month: final(self).stats_month,
                stats_week_offset: 0,
                ..*old(self)
            }),
            exists|cy: i32, cm: u32| min_year() <= cy <= max_year() && 1 <= cm <= 12
                && final(self).stats_month == #[trigger] ym_of(months_after(cy as int, cm as int, -1)),
    {
        let (cy, cm) = current_ym();
        let last = add_months(cy, cm, -1);
        self.show_month(last);
        assert(self.stats_month == ym_of(months_after(cy as int, cm as int, -1)));
    }

    /// Moves the selected month back by one (only while a month is selected).
    pub fn prev_month(&mut self)
        ensures
            old(self).stats_period == StatsPeriod::Month ==> final(self).stats_month == ym_of(
                months_after(old(self).stats_month.0 as int, old(self).stats_month.1 as int, -1),
            ),
            old(self).stats_period == StatsPeriod::Week ==> final(self).stats_month == old(self).stats_month,
            *final(self) == (DoitApp { stats_month: final(self).stats_month, ..*old(self) }),
    {
        if self.stats_period == StatsPeriod::Month {
            self.stats_month = add_months(self.stats_month.0, self.stats_month.1, -1);
        }
    }

    /// Moves the selected month on by one (only while a month is selected).
    pub fn next_month(&mut self)
        ensures
            old(self).stats_period == StatsPeriod::Month ==> final(self).stats_month == ym_of(
                months_after(old(self).stats_month.0 as int, old(self).stats_month.1 as int, 1),
            ),
            old(self).stats_period == StatsPeriod::Week ==> final(self).stats_month == old(self).stats_month,
            *final(self) == (DoitApp { stats_month: final(self).stats_month, ..*old(self) }),
    {
        if self.stats_period == StatsPeriod::Month {
            self.stats_month = add_months(self.stats_month.0, self.stats_month.1, 1);
        }
    }

    /// Which quick range button is selected, the current month being `cur`.
    pub fn stats_selection(&self, cur: (i32, u32)) -> (r: StatsSelection)
        ensures
            r.this_week == (self.stats_period == StatsPeriod::Week && self.stats_week_offset == 0),
            r.last_week == (self.stats_period == StatsPeriod::Week && self.stats_week_offset == -1),
            r.this_month == (self.stats_period == StatsPeriod::Month && self.stats_month == cur),
            r.last_month == (self.stats_period == StatsPeriod::Month && self.stats_month == ym_of(
                months_after(cur.0 as int, cur.1 as int, -1),
            )),
    {
        let last = add_months(cur.0, cur.1, -1);
        let is_week = self.stats_period == StatsPeriod::Week;
        let is_month = self.stats_period == StatsPeriod::Month;
        StatsSelection {
            this_week: is_week && self.stats_week_offset == 0,
            last_week: is_week && self.stats_week_offset == -1,
            this_month: is_month && self.stats_month.0 == cur.0 && self.stats_month.1 == cur.1,
            last_month: is_month && self.stats_month.0 == last.0 && self.stats_month.1 == last.1,
        }
    }

    /// The caption of the selected month, `YYYY年MM月`.
    pub fn stats_month_caption(&self) -> (r: String)
        ensures
            r@ == month_caption_text(self.stats_month.0 as int, self.stats_month.1 as nat),
    {
        month_caption(self.stats_month.0, self.stats_month.1)
    }
}

} // verus!
