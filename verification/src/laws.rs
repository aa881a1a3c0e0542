//! Properties that hold across the library's operations.

use vstd::prelude::*;
use crate::types::{TodoItem, CatFilter, ViewMode, ShortcutConfig, SyncSnapshot, opt_str, same_settings};
use crate::text::{dec, text_lt, lemma_text_lt_irrefl, strip_end_char, occurs_at, lowercase, join_seq};
use crate::sort::{TotalPreorder, stable_sort_of, sorted, law_sorting_sorted_is_identity};
use crate::todos::{DoitApp, open_in, done_in, done_on, shows_on, in_filter, toggled, toggle_with_parents, is_first_with_id, lemma_first_with_id, lemma_complete_parents_keeps_done, filter_after, has_category_id, no_id, other_id, is_export_of, holds_snapshot};
use crate::backup::local_is_newer;
use crate::dates::{datetime_text, valid_ymd, ymd_lt, lemma_datetime_text_order, lemma_day_number_order, Ymd, months_after, day_number, weekday, StatsPeriod, is_stats_range};
use crate::webdav::{upload_result_spec, download_status_spec, RequestSpec, is_upload, is_download, header_views, status_result_spec, is_success, join_url_text, connect_failed_text, cert_problem, ProbeStage, ProbeStep, TransportOutcome, probe_next};
use crate::settings::{Section, SettingsPanel, RecordStep, record_outcome, cert_failure_text};
use crate::session::{KeyPress, confirms_add};
use crate::labels::{unique_ids, other_label, default_valid, lemma_push_fresh_unique};
use crate::timeline::{group_days, stamp_day};

verus! {

/// Completing an open todo and reopening it gives back the todo.
pub proof fn law_toggle_twice_restores(t: TodoItem, done_at: String, reopened_at: String)
    requires
        !t.completed,
        t.completed_at is None,
    ensures
        toggled(toggled(t, done_at), reopened_at) == t,
        toggled(t, done_at).completed,
        toggled(t, done_at).completed_at == Some(done_at),
{
}

/// A parent completes itself, at the same time, when its last open child
/// is completed.
pub proof fn law_parent_completes_with_last_child(s: Seq<TodoItem>, k: int, p: Seq<char>, j: int, now: String)
    requires
        0 <= k < s.len(),
        !s[k].completed,
        opt_str(s[k].parent_id) == Some(p),
        is_first_with_id(s, p, j),
        !s[j].completed,
        forall|i: int| 0 <= i < s.len() && i != k && opt_str((#[trigger] s[i]).parent_id) == Some(p) ==> s[i].completed,
    ensures
        toggle_with_parents(s, k, now)[k].completed,
        toggle_with_parents(s, k, now)[j].completed,
        toggle_with_parents(s, k, now)[j].completed_at == Some(now),
{
    let s1 = s.update(k, toggled(s[k], now));
    assert(is_first_with_id(s1, p, j)) by {
        assert forall|i: int| 0 <= i < j implies s1[i].id@ != p by {
            assert(s1[i].id == s[i].id);
        }
    }
    lemma_first_with_id(s1, p);
    if j != k {
        let s2 = s1.update(j, toggled(s1[j], now));
        assert forall|i: int| 0 <= i < s1.len() && opt_str((#[trigger] s1[i]).parent_id) == Some(p) implies s1[i].completed by {
            if i != k {
                assert(s1[i] == s[i]);
            }
        }
        lemma_complete_parents_keeps_done(s2, opt_str(s1[j].parent_id), now, (s.len() - 1) as nat);
        assert(s2[j].completed);
        assert(s2[k].completed);
    }
}

/// The upload writes the file that the download reads, with the same
/// credentials, so the cloud copy a sync writes is the one the next sync
/// reads.
pub proof fn law_upload_download_same_file(
    up: RequestSpec,
    down: RequestSpec,
    url: Seq<char>,
    user: Seq<char>,
    pass: Seq<char>,
    body: Seq<char>,
)
    requires
        is_upload(up, url, user, pass, body),
        is_download(down, url, user, pass),
    ensures
        up.url@ == down.url@,
        header_views(up.headers@)[0] == header_views(down.headers@)[0],
        header_views(up.headers@)[0].0 == "Authorization"@,
        up.body matches Some(b) && b@ == body,
{
}

/// After a re-sort every open todo comes before every completed one, and
/// open (or completed) todos are in order of `order`.
pub proof fn law_resorted_open_first(r: Seq<TodoItem>, s: Seq<TodoItem>)
    requires
        stable_sort_of(r, s),
    ensures
        forall|i: int, j: int| 0 <= i < j < r.len() ==> !(r[i].completed && !r[j].completed),
        forall|i: int, j: int| 0 <= i < j < r.len() && r[i].completed == r[j].completed ==> r[i].order <= r[j].order,
{
    assert forall|i: int, j: int| 0 <= i < j < r.len() implies !(r[i].completed && !r[j].completed) by {
        assert(TodoItem::le(r[i], r[j]));
    }
    assert forall|i: int, j: int| 0 <= i < j < r.len() && r[i].completed == r[j].completed implies r[i].order <= r[j].order by {
        assert(TodoItem::le(r[i], r[j]));
    }
}

/// A category filter never outlives its category: after the category list
/// changes, the filter shows the un-categorized todos or names a category
/// of the list.
pub proof fn law_filter_names_a_category(f: CatFilter, cats: Seq<crate::types::Category>)
    ensures
        filter_after(f, cats) matches CatFilter::Id(id) ==> has_category_id(cats, id@),
{
}

/// After deleting the todos with id `id`, none is left.
pub proof fn law_deleted_todo_gone(s: Seq<TodoItem>, id: Seq<char>)
    ensures
        no_id(s.filter(other_id(id)), id),
        s.filter(other_id(id)).len() <= s.len(),
{
    let f = s.filter(other_id(id));
    assert forall|j: int| 0 <= j < f.len() implies f[j].id@ != id by {
        s.lemma_filter_pred(other_id(id), j);
    }
    s.lemma_filter_len(other_id(id));
}

/// Moving `delta` months and back returns to the month.
pub proof fn law_months_round_trip(y: int, m: int, delta: int)
    requires
        1 <= m <= 12,
    ensures
        months_after(months_after(y, m, delta).0, months_after(y, m, delta).1, -delta) == (y, m),
{
    let t = y * 12 + (m - 1) + delta;
    let (y2, m2) = months_after(y, m, delta);
    assert(y2 * 12 + (m2 - 1) == t);
}

/// A reachability probe succeeds exactly on a 2xx status or 405.
pub proof fn law_probe_ok_iff(label: Seq<char>, status: u16)
    ensures
        status_result_spec(label, status) is Ok <==> (200 <= status <= 299 || status == 405),
{
}

/// A failed connection whose error reads as a certificate problem offers
/// "trust and retry".
pub proof fn law_cert_failure_offers_trust(messages: Seq<Seq<char>>)
    requires
        cert_problem(lowercase(join_seq(messages, "\n"@))),
    ensures
        cert_failure_text(connect_failed_text(messages)),
{
    let hint = "服务器证书不受信任（可能是自签名或内网证书）"@;
    let x = connect_failed_text(messages);
    reveal_strlit("连接失败：");
    reveal_strlit("服务器证书不受信任（可能是自签名或内网证书）");
    reveal_strlit("证书");
    assert(x.subrange(8, 10) =~= "证书"@);
    assert(occurs_at(x, "证书"@, 8));
}

/// The first weekday of a statistics week is a Monday and the range spans seven days.
pub proof fn law_week_starts_monday(month: (i32, u32), week_offset: int, today: Ymd, s: Ymd, e: Ymd)
    requires
        is_stats_range(StatsPeriod::Week, month, week_offset, today, s, e),
    ensures
        weekday(s) == 0,
        day_number(e) - day_number(s) == 6,
{
    let n = day_number(today);
    let w = (n + 3) % 7;
    assert(day_number(s) + 3 == (n + 3 - w) + 7 * week_offset);
    assert((n + 3 - w) % 7 == 0);
    assert(((n + 3 - w) + 7 * week_offset) % 7 == 0) by (nonlinear_arith)
        requires (n + 3 - w) % 7 == 0;
}

/// The view modes have distinct positions.
pub proof fn law_view_mode_positions_distinct(a: ViewMode, b: ViewMode)
    ensures
        a.spec_index() == b.spec_index() <==> a == b,
        a.spec_index() < 4,
{
}

/// The settings sections have distinct positions.
pub proof fn law_section_positions_distinct(a: Section, b: Section)
    ensures
        a.spec_index() == b.spec_index() <==> a == b,
        a.spec_index() < 6,
{
}

/// A bare Enter confirms an add whatever shortcut is configured.
pub proof fn law_bare_enter_confirms(ks: KeyPress, sc: ShortcutConfig)
    requires
        ks.key@ == "Enter"@,
        !ks.ctrl && !ks.shift && !ks.alt && !ks.platform,
    ensures
        confirms_add(ks, sc),
{
    assert(crate::text::eq_ascii_nocase("Enter"@, "enter"@)) by {
        reveal_strlit("Enter");
        reveal_strlit("enter");
    }
}

/// Removing labels keeps the ids unique.
pub proof fn law_remove_keeps_ids_unique(v: Seq<(Seq<char>, Seq<char>, Seq<char>)>, id: Seq<char>)
    requires
        unique_ids(v),
    ensures
        unique_ids(v.filter(other_label(id))),
    decreases v.len(),
{
    reveal(Seq::filter);
    if v.len() > 0 {
        let w = v.drop_last();
        let x = v.last();
        assert(v =~= w.push(x));
        assert(unique_ids(w)) by {
            assert forall|i: int, j: int| 0 <= i < j < w.len() implies w[i].0 != w[j].0 by {
                assert(w[i] == v[i] && w[j] == v[j]);
            }
        }
        law_remove_keeps_ids_unique(w, id);
        w.lemma_filter_push(x, other_label(id));
        let fw = w.filter(other_label(id));
        if other_label(id)(x) {
            assert forall|k: int| 0 <= k < fw.len() implies fw[k].0 != x.0 by {
                assert(fw.contains(fw[k]));
                w.lemma_filter_contains_rev(other_label(id), fw[k]);
                let i = choose|i: int| 0 <= i < w.len() && w[i] == fw[k];
                assert(v[i] == w[i]);
            }
            lemma_push_fresh_unique(fw, x);
        }
    }
}

/// The default category stays valid when a category is deleted: the
/// default is unset when it was the deleted one, and names a remaining
/// category otherwise.
pub proof fn law_delete_keeps_default_valid(
    v: Seq<(Seq<char>, Seq<char>, Seq<char>)>,
    default_id: Option<String>,
    id: Seq<char>,
)
    requires
        default_valid(v, default_id),
    ensures
        default_valid(
            v.filter(other_label(id)),
            if opt_str(default_id) == Some(id) { None } else { default_id },
        ),
{
    if let Some(d) = default_id {
        if d@ != id {
            let k = choose|k: int| 0 <= k < v.len() && v[k].0 == d@;
            v.lemma_filter_contains(other_label(id), k);
            let f = v.filter(other_label(id));
            let j = choose|j: int| 0 <= j < f.len() && f[j] == v[k];
            assert(f[j].0 == d@);
        }
    }
}

/// After a sync the local data holds the uploaded snapshot and carries its
/// stamp, so syncing again against that snapshot keeps the cloud's data:
/// both ends stay at the same version.
pub proof fn law_sync_settles(app: DoitApp, cloud: SyncSnapshot)
    requires
        holds_snapshot(app, cloud),
    ensures
        !local_is_newer(app.last_modified@, cloud),
{
    lemma_text_lt_irrefl(cloud.exported_at@);
}

/// Exporting the data and importing the snapshot gives the data back: the
/// settings, the change time and, for a list in display order, the todos.
pub proof fn law_export_import_round_trip(app: DoitApp, snap: SyncSnapshot, restored: DoitApp)
    requires
        is_export_of(snap, app),
        holds_snapshot(restored, snap),
    ensures
        same_settings(restored.settings, app.settings),
        restored.last_modified == app.last_modified,
        restored.todos@.to_multiset() == app.todos@.to_multiset(),
        sorted(app.todos@) ==> restored.todos@ == app.todos@,
{
    if sorted(app.todos@) {
        law_sorting_sorted_is_identity(restored.todos@, app.todos@);
    }
}

/// A joined URL has exactly one `/` before the file name.
pub proof fn law_join_url_one_slash(base: Seq<char>, file: Seq<char>)
    ensures
        join_url_text(base, file) == strip_end_char(base, '/') + "/"@ + file,
        strip_end_char(base, '/').len() == 0 || strip_end_char(base, '/').last() != '/',
    decreases base.len(),
{
    if base.len() > 0 && base.last() == '/' {
        law_join_url_one_slash(base.drop_last(), file);
    }
}

/// The todos of a list of day groups, group after group.
pub open spec fn flatten_groups(g: Seq<(Seq<char>, Seq<TodoItem>)>) -> Seq<TodoItem>
    decreases g.len(),
{
    if g.len() == 0 {
        Seq::empty()
    } else {
        flatten_groups(g.drop_last()) + g.last().1
    }
}

/// The timeline's day groups split the completed todos without losing,
/// adding or reordering any: each group is not empty, holds todos of its
/// day only, and neighbouring groups are different days.
pub proof fn law_day_groups_partition(s: Seq<TodoItem>)
    ensures
        flatten_groups(group_days(s)) == s,
        forall|i: int| 0 <= i < group_days(s).len() ==> (#[trigger] group_days(s)[i]).1.len() > 0,
        forall|i: int, k: int| 0 <= i < group_days(s).len() && 0 <= k < group_days(s)[i].1.len() ==> stamp_day(
            #[trigger] group_days(s)[i].1[k],
        ) == group_days(s)[i].0,
        forall|i: int| 0 < i < group_days(s).len() ==> (#[trigger] group_days(s)[i]).0 != group_days(s)[i - 1].0,
    decreases s.len(),
{
    if s.len() > 0 {
        let w = s.drop_last();
        let t = s.last();
        law_day_groups_partition(w);
        let g = group_days(w);
        let day = stamp_day(t);
        let r = group_days(s);
        if g.len() > 0 && g.last().0 == day {
            let n = g.len() - 1;
            assert(r == g.update(n, (day, g.last().1.push(t))));
            assert(r.drop_last() =~= g.drop_last());
            assert(g.drop_last().push(g.last()) =~= g);
            assert(flatten_groups(g) == flatten_groups(g.drop_last()) + g.last().1);
            assert(flatten_groups(r) == flatten_groups(r.drop_last()) + r.last().1);
            assert(flatten_groups(r) =~= flatten_groups(g) + seq![t]);
            assert(s =~= w.push(t));
            assert forall|i: int, k: int| 0 <= i < r.len() && 0 <= k < r[i].1.len() implies stamp_day(
                #[trigger] r[i].1[k],
            ) == r[i].0 by {
                if i == n {
                    if k < g[n].1.len() {
                        assert(r[i].1[k] == g[n].1[k]);
                    }
                } else {
                    assert(r[i] == g[i]);
                }
            }
            assert forall|i: int| 0 < i < r.len() implies (#[trigger] r[i]).0 != r[i - 1].0 by {
                assert(r[i].0 == g[i].0);
                assert(r[i - 1].0 == g[i - 1].0);
            }
        } else {
            assert(r == g.push((day, seq![t])));
            assert(r.drop_last() =~= g);
            assert(flatten_groups(r) =~= flatten_groups(g) + seq![t]);
            assert(s =~= w.push(t));
            assert forall|i: int, k: int| 0 <= i < r.len() && 0 <= k < r[i].1.len() implies stamp_day(
                #[trigger] r[i].1[k],
            ) == r[i].0 by {
                if i < g.len() {
                    assert(r[i] == g[i]);
                }
            }
            assert forall|i: int| 0 < i < r.len() implies (#[trigger] r[i]).0 != r[i - 1].0 by {
                if i < g.len() {
                    assert(r[i] == g[i]);
                    assert(r[i - 1] == g[i - 1]);
                } else {
                    assert(r[i - 1] == g[i - 1]);
                }
            }
        }
    }
}

/// How many more requests the connection test may send after the request of `stage`.
pub open spec fn probes_left(stage: ProbeStage) -> int {
    match stage {
        ProbeStage::Options => 2,
        ProbeStage::FallbackPropfind => 1,
        ProbeStage::Propfind => 0,
    }
}

/// Every step of the connection test moves to a later stage or finishes,
/// so the test sends at most three requests.
pub proof fn law_connection_test_ends(
    stage: ProbeStage,
    outcome: TransportOutcome,
    url: Seq<char>,
    user: Seq<char>,
    pass: Seq<char>,
    next: ProbeStep,
)
    requires
        probe_next(stage, outcome, url, user, pass, next),
    ensures
        next matches ProbeStep::Send(s, _) ==> 0 <= probes_left(s) < probes_left(stage),
{
}

/// When the local data changed after the cloud snapshot, the sync writes
/// back the local data: a todo deleted locally does not come back.
pub proof fn law_local_deletion_stays(app: DoitApp, cloud: SyncSnapshot, kept: SyncSnapshot, id: Seq<char>)
    requires
        local_is_newer(app.last_modified@, cloud),
        is_export_of(kept, app),
        no_id(app.todos@, id),
    ensures
        no_id(kept.todos@, id),
{
}

/// The credential check ends the connection test: with success exactly on
/// a 2xx status or 405, with "connection fine, credentials valid" on a 2xx
/// status, and with an authentication failure on 401 or 403.
pub proof fn law_credential_check_result(
    status: u16,
    url: Seq<char>,
    user: Seq<char>,
    pass: Seq<char>,
    r: ProbeStep,
)
    requires
        probe_next(ProbeStage::Propfind, TransportOutcome::Status(status), url, user, pass, r),
    ensures
        r is Finish,
        r matches ProbeStep::Finish(x) ==> (x is Ok <==> (200 <= status <= 299 || status == 405)),
        200 <= status <= 299 ==> (r matches ProbeStep::Finish(x) && (x matches Ok(m)
            && m@ == "连接正常，凭据有效（HTTP "@ + dec(status as nat) + "）"@)),
        (status == 401 || status == 403) ==> (r matches ProbeStep::Finish(x) && (x matches Err(m)
            && m@ == "连接：认证失败，请检查用户名或密码（HTTP "@ + dec(status as nat) + "）"@)),
{
    assert(("连接"@ + "：认证失败，请检查用户名或密码（HTTP "@) =~= "连接：认证失败，请检查用户名或密码（HTTP "@) by {
        reveal_strlit("连接");
        reveal_strlit("：认证失败，请检查用户名或密码（HTTP ");
        reveal_strlit("连接：认证失败，请检查用户名或密码（HTTP ");
    }
}

/// Texts are ordered by their first difference: when `a` and `b` agree
/// before index `i` and differ there, `a` sorts first exactly when its
/// character at `i` has the smaller code point.
pub proof fn law_text_order_first_difference(a: Seq<char>, b: Seq<char>, i: int)
    requires
        0 <= i < a.len(),
        i < b.len(),
        a[i] != b[i],
        forall|j: int| 0 <= j < i ==> a[j] == b[j],
    ensures
        text_lt(a, b) <==> (a[i] as u32) < (b[i] as u32),
    decreases i,
{
    if i > 0 {
        assert(a[0] == b[0]);
        let a1 = a.drop_first();
        let b1 = b.drop_first();
        assert forall|j: int| 0 <= j < i - 1 implies a1[j] == b1[j] by {
            assert(a[j + 1] == b[j + 1]);
        }
        law_text_order_first_difference(a1, b1, i - 1);
    }
}

/// A proper prefix sorts before the longer text, never after it.
pub proof fn law_text_order_prefix(a: Seq<char>, b: Seq<char>)
    requires
        a.len() < b.len(),
        forall|j: int| 0 <= j < a.len() ==> a[j] == b[j],
    ensures
        text_lt(a, b),
        !text_lt(b, a),
    decreases a.len(),
{
    if a.len() > 0 {
        assert(a[0] == b[0]);
        let a1 = a.drop_first();
        let b1 = b.drop_first();
        assert forall|j: int| 0 <= j < a1.len() implies a1[j] == b1[j] by {
            assert(a[j + 1] == b[j + 1]);
        }
        law_text_order_prefix(a1, b1);
    }
}

/// A completed todo never counts as open: adding one to the list leaves
/// the open count of every range as it was, and every todo counted open is
/// open.
pub proof fn law_completed_todo_not_counted_open(s: Seq<TodoItem>, t: TodoItem, from: Ymd, to: Ymd)
    requires
        t.completed,
    ensures
        s.push(t).filter(open_in(from, to)).len() == s.filter(open_in(from, to)).len(),
        forall|i: int| 0 <= i < s.filter(open_in(from, to)).len() ==> !(#[trigger] s.filter(open_in(from, to))[i]).completed,
{
    s.lemma_filter_push(t, open_in(from, to));
    assert forall|i: int| 0 <= i < s.filter(open_in(from, to)).len() implies !(#[trigger] s.filter(open_in(from, to))[i]).completed by {
        s.lemma_filter_pred(open_in(from, to), i);
    }
}

/// A key press confirms an add only with no modifier held (a bare Enter) or
/// with exactly the modifiers of the configured shortcut.
pub proof fn law_confirm_needs_matching_modifiers(ks: KeyPress, sc: ShortcutConfig)
    requires
        confirms_add(ks, sc),
    ensures
        (!ks.ctrl && !ks.shift && !ks.alt && !ks.platform) || (ks.ctrl == sc.ctrl && ks.shift == sc.shift
            && ks.alt == sc.alt && ks.platform == sc.meta),
{
}

/// While recording a shortcut, pressing a lone modifier key (Control,
/// Shift, Alt, Meta, Super or Command) is ignored and changes nothing, and
/// a recorded shortcut never has such a key.
pub proof fn law_lone_modifier_not_recorded(before: SettingsPanel, ks: KeyPress, after: SettingsPanel, r: RecordStep)
    requires
        record_outcome(before, ks, after, r),
    ensures
        before.recording && (ks.key@ == "control"@ || ks.key@ == "shift"@ || ks.key@ == "alt"@
            || ks.key@ == "meta"@ || ks.key@ == "super"@ || ks.key@ == "command"@) ==> (r
            == RecordStep::Ignored && after == before),
        r == RecordStep::Recorded ==> !(after.local.add_todo_shortcut.key@ == "control"@
            || after.local.add_todo_shortcut.key@ == "shift"@ || after.local.add_todo_shortcut.key@ == "alt"@
            || after.local.add_todo_shortcut.key@ == "meta"@ || after.local.add_todo_shortcut.key@ == "super"@
            || after.local.add_todo_shortcut.key@ == "command"@),
{
    if before.recording && ks.key@ == "escape"@ {
        assert(ks.key@ != "control"@ && ks.key@ != "shift"@ && ks.key@ != "alt"@ && ks.key@ != "meta"@
            && ks.key@ != "super"@ && ks.key@ != "command"@) by {
            reveal_strlit("escape");
            reveal_strlit("control");
            reveal_strlit("shift");
            reveal_strlit("alt");
            reveal_strlit("meta");
            reveal_strlit("super");
            reveal_strlit("command");
            assert("escape"@.len() == 6 && "control"@.len() == 7 && "shift"@.len() == 5);
            assert("alt"@.len() == 3 && "meta"@.len() == 4 && "super"@.len() == 5 && "command"@.len() == 7);
            assert("escape"@[0] != "shift"@[0] && "escape"@[0] != "super"@[0]);
        }
    }
}

/// An upload succeeds exactly on a 2xx status; 401 and 403 report an
/// authentication failure, and a transport failure is an error.
pub proof fn law_upload_ok_iff(outcome: TransportOutcome, status: u16)
    ensures
        upload_result_spec(outcome) is Ok <==> (outcome matches TransportOutcome::Status(s) && 200 <= s <= 299),
        (status == 401 || status == 403) ==> upload_result_spec(TransportOutcome::Status(status))
            == Err::<Seq<char>, Seq<char>>("上传失败：认证失败，请检查用户名或密码（HTTP "@ + dec(status as nat) + "）"@),
{
}

/// A download has a body to read exactly on a 2xx status, finds no cloud
/// backup exactly on 404, and fails on every other status and on a
/// transport failure.
pub proof fn law_download_status_cases(outcome: TransportOutcome)
    ensures
        download_status_spec(outcome) == Ok::<bool, Seq<char>>(true) <==> (outcome matches TransportOutcome::Status(s)
            && 200 <= s <= 299),
        download_status_spec(outcome) == Ok::<bool, Seq<char>>(false) <==> (outcome matches TransportOutcome::Status(s)
            && s == 404),
{
}

/// A time of day in the stamps: hour, minute and second (60 only within a
/// leap second), earlier than another one on the same day.
pub open spec fn time_before(h1: nat, m1: nat, s1: nat, h2: nat, m2: nat, s2: nat) -> bool {
    h1 < h2 || (h1 == h2 && (m1 < m2 || (m1 == m2 && s1 < s2)))
}

/// For the date-and-time stamps of the years 0 to 9999, the text order the
/// sync compares stamps by is the order in time: one stamp sorts before
/// another exactly when its day comes earlier, or the same day at an
/// earlier time.
pub proof fn law_stamp_order_is_time_order(d1: Ymd, h1: nat, m1: nat, s1: nat, d2: Ymd, h2: nat, m2: nat, s2: nat)
    requires
        valid_ymd(d1),
        valid_ymd(d2),
        0 <= d1.year <= 9999,
        0 <= d2.year <= 9999,
        h1 < 24 && m1 < 60 && s1 <= 60,
        h2 < 24 && m2 < 60 && s2 <= 60,
    ensures
        text_lt(datetime_text(d1, h1, m1, s1), datetime_text(d2, h2, m2, s2)) <==> (day_number(d1) < day_number(d2) || (
        day_number(d1) == day_number(d2) && time_before(h1, m1, s1, h2, m2, s2))),
{
    crate::dates::lemma_within_month(d1);
    crate::dates::lemma_within_month(d2);
    lemma_day_number_order(d1, d2);
    lemma_datetime_text_order(d1, h1, m1, s1, d2, h2, m2, s2);
}

/// The sync keeps the local data exactly when it changed later in time
/// than the cloud snapshot was taken (stamps of the years 0 to 9999).
pub proof fn law_newer_in_time_wins(
    last: Seq<char>,
    remote: SyncSnapshot,
    dl: Ymd, hl: nat, ml: nat, sl: nat,
    dr: Ymd, hr: nat, mr: nat, sr: nat,
)
    requires
        last == datetime_text(dl, hl, ml, sl),
        remote.exported_at@ == datetime_text(dr, hr, mr, sr),
        valid_ymd(dl) && 0 <= dl.year <= 9999 && hl < 24 && ml < 60 && sl <= 60,
        valid_ymd(dr) && 0 <= dr.year <= 9999 && hr < 24 && mr < 60 && sr <= 60,
    ensures
        local_is_newer(last, remote) <==> (day_number(dr) < day_number(dl) || (day_number(dr) == day_number(dl)
            && time_before(hr, mr, sr, hl, ml, sl))),
{
    law_stamp_order_is_time_order(dr, hr, mr, sr, dl, hl, ml, sl);
}

/// Moving by months is counting months: the month `delta` months on is
/// `delta` months later in the running count of months, and one month on
/// from December is January of the next year.
pub proof fn law_month_steps(y: int, m: int, delta: int)
    requires
        1 <= m <= 12,
    ensures
        1 <= months_after(y, m, delta).1 <= 12,
        months_after(y, m, delta).0 * 12 + months_after(y, m, delta).1 == y * 12 + m + delta,
        m < 12 ==> months_after(y, m, 1) == (y, m + 1),
        m == 12 ==> months_after(y, m, 1) == (y + 1, 1int),
        m > 1 ==> months_after(y, m, -1) == (y, m - 1),
        m == 1 ==> months_after(y, m, -1) == (y - 1, 12int),
{
}

/// The category filter: with no category chosen only un-categorized todos
/// pass; with a category chosen exactly the todos of that category pass.
pub proof fn law_filter_passes(t: TodoItem, cat: String)
    ensures
        in_filter(CatFilter::Uncategorized)(t) <==> t.cat_id is None,
        in_filter(CatFilter::Id(cat))(t) <==> (t.cat_id matches Some(c) && c@ == cat@),
{
}

/// The today view of a day shows every open todo, and a completed todo
/// only when it was completed that day; the calendar's list of a day holds
/// completed todos only.
pub proof fn law_day_views(t: TodoItem, day: Seq<char>)
    ensures
        !t.completed ==> shows_on(day)(t),
        t.completed ==> (shows_on(day)(t) <==> (t.completed_at matches Some(c) && crate::dates::date_part_text(c@)
            == day)),
        done_on(day)(t) ==> t.completed,
{
}

/// A todo counted as done in a range is completed, and an open todo never
/// counts as done: adding one leaves every done count as it was.
pub proof fn law_open_todo_not_counted_done(s: Seq<TodoItem>, t: TodoItem, from: Ymd, to: Ymd)
    requires
        !t.completed,
    ensures
        s.push(t).filter(done_in(from, to)).len() == s.filter(done_in(from, to)).len(),
        forall|i: int| 0 <= i < s.filter(done_in(from, to)).len() ==> (#[trigger] s.filter(done_in(from, to))[i]).completed,
{
    s.lemma_filter_push(t, done_in(from, to));
    assert forall|i: int| 0 <= i < s.filter(done_in(from, to)).len() implies (#[trigger] s.filter(done_in(from, to))[i]).completed by {
        s.lemma_filter_pred(done_in(from, to), i);
    }
}

/// Texts equal up to ASCII case have the same length, and at each place
/// the same character or the upper- and lower-case forms of one ASCII
/// letter; equal texts are always equal up to case.
pub proof fn law_ascii_case_equality(a: Seq<char>, b: Seq<char>)
    ensures
        crate::text::eq_ascii_nocase(a, b) ==> a.len() == b.len(),
        crate::text::eq_ascii_nocase(a, b) ==> forall|i: int| 0 <= i < a.len() ==> (a[i] == b[i] || ('A' <= a[i] <= 'Z'
            && (b[i] as u32) == (a[i] as u32) + 32) || ('A' <= b[i] <= 'Z' && (a[i] as u32) == (b[i] as u32) + 32)),
        crate::text::eq_ascii_nocase(a, a),
{
    if crate::text::eq_ascii_nocase(a, b) {
        assert forall|i: int| 0 <= i < a.len() implies (a[i] == b[i] || ('A' <= a[i] <= 'Z' && (b[i] as u32) == (a[i]
            as u32) + 32) || ('A' <= b[i] <= 'Z' && (a[i] as u32) == (b[i] as u32) + 32)) by {
            assert(crate::text::ascii_lower(a[i]) == crate::text::ascii_lower(b[i]));
        }
    }
}

} // verus!
