//! Managing the category and tag lists: renaming, recoloring, removing and
//! adding labels under fresh ids, and choosing the default category.

use vstd::prelude::*;
use std::time::{Duration, SystemTime, UNIX_EPOCH};
use crate::types::{Tag, Category, opt_str, copy_tags, copy_categories};
use crate::text::{dec, digit_char, string_of, str_eq, trim, trim_seq, push_char, push_decimal, clone_opt};
use crate::todos::DoitApp;

verus! {

#[verifier::external_type_specification]
#[verifier::external_body]
pub struct ExSystemTime(SystemTime);

/// The system clock's current time (`SystemTime::now`).
#[verifier::external_body]
fn system_now() -> SystemTime {
    SystemTime::now()
}

/// The time from the Unix epoch to `t` (`SystemTime::duration_since(UNIX_EPOCH)`);
/// `None` when `t` lies before the epoch.
#[verifier::external_body]
fn since_epoch(t: &SystemTime) -> Option<Duration> {
    match t.duration_since(UNIX_EPOCH) {
        Ok(d) => Some(d),
        Err(_) => None,
    }
}

/// The whole milliseconds of a duration (`Duration::as_millis`).
#[verifier::external_body]
fn whole_millis(d: &Duration) -> u128 {
    d.as_millis()
}

/// Milliseconds since the Unix epoch by the system clock (0 before the epoch).
fn epoch_millis() -> u64 {
    match since_epoch(&system_now()) {
        Some(d) => whole_millis(&d) as u64,
        None => 0,
    }
}

/// `{prefix}-{millis}-{seq}`.
pub open spec fn label_id_text(prefix: Seq<char>, millis: nat, seq: nat) -> Seq<char> {
    prefix + seq!['-'] + dec(millis) + seq!['-'] + dec(seq)
}

/// The id `{prefix}-{millis}-{seq}`.
pub fn label_id(prefix: &str, millis: u64, seq: u64) -> (r: String)
    ensures
        r@ == label_id_text(prefix@, millis as nat, seq as nat),
{
    let mut s = string_of(prefix);
    push_char(&mut s, '-');
    push_decimal(&mut s, millis);
    push_char(&mut s, '-');
    push_decimal(&mut s, seq);
    assert(s@ =~= label_id_text(prefix@, millis as nat, seq as nat));
    s
}

/// A new label id stamped with the current time and the sequence number `seq`.
pub fn fresh_id(prefix: &str, seq: u64) -> (r: String)
    ensures
        exists|ms: u64| r@ == #[trigger] label_id_text(prefix@, ms as nat, seq as nat),
{
    let ms = epoch_millis();
    let r = label_id(prefix, ms, seq);
    assert(r@ == label_id_text(prefix@, ms as nat, seq as nat));
    r
}

/// A decimal text holds at least one digit, and digits only.
pub proof fn lemma_dec_digits(n: nat)
    ensures
        dec(n).len() >= 1,
        n >= 10 ==> dec(n).len() >= 2,
        forall|i: int| 0 <= i < dec(n).len() ==> #[trigger] dec(n)[i] != '-',
    decreases n,
{
    if n >= 10 {
        lemma_dec_digits(n / 10);
        let d = dec(n / 10);
        assert forall|i: int| 0 <= i < dec(n).len() implies #[trigger] dec(n)[i] != '-' by {
            if i < d.len() {
                assert(dec(n)[i] == d[i]);
            } else {
                assert(dec(n)[i] == digit_char(n % 10));
            }
        }
    }
}

/// Different digits have different characters.
pub proof fn lemma_digit_char_injective(a: nat, b: nat)
    requires
        a < 10,
        b < 10,
        digit_char(a) == digit_char(b),
    ensures
        a == b,
{
    assert(digit_char(a) as u32 == 48 + a);
    assert(digit_char(b) as u32 == 48 + b);
}

/// Different numbers have different decimal texts.
pub proof fn lemma_dec_injective(a: nat, b: nat)
    requires
        dec(a) == dec(b),
    ensures
        a == b,
    decreases a,
{
    lemma_dec_digits(a);
    lemma_dec_digits(b);
    if a < 10 && b < 10 {
        assert(dec(a) == seq![digit_char(a)]);
        assert(dec(b) == seq![digit_char(b)]);
        assert(dec(a)[0] == digit_char(a));
        assert(dec(b)[0] == digit_char(b));
        lemma_digit_char_injective(a, b);
    } else if a >= 10 && b >= 10 {
        assert(dec(a).drop_last() =~= dec(a / 10));
        assert(dec(b).drop_last() =~= dec(b / 10));
        assert(dec(a).last() == digit_char(a % 10));
        assert(dec(b).last() == digit_char(b % 10));
        lemma_digit_char_injective(a % 10, b % 10);
        lemma_dec_injective(a / 10, b / 10);
    } else {
        assert(dec(a).len() != dec(b).len());
    }
}

/// Ids with the same prefix and different sequence numbers differ.
pub proof fn lemma_label_ids_differ(prefix: Seq<char>, m1: nat, s1: nat, m2: nat, s2: nat)
    requires
        s1 != s2,
    ensures
        label_id_text(prefix, m1, s1) != label_id_text(prefix, m2, s2),
{
    let x = label_id_text(prefix, m1, s1);
    let y = label_id_text(prefix, m2, s2);
    lemma_dec_digits(m1);
    lemma_dec_digits(m2);
    lemma_dec_digits(s1);
    lemma_dec_digits(s2);
    if x == y {
        let p: int = prefix.len() as int + 1;
        let a = dec(m1);
        let c = dec(m2);
        if a.len() < c.len() {
            assert(x[p + a.len() as int] == '-');
            assert(y[p + a.len() as int] == c[a.len() as int]);
        } else if c.len() < a.len() {
            assert(y[p + c.len() as int] == '-');
            assert(x[p + c.len() as int] == a[c.len() as int]);
        } else {
            let q: int = p + a.len() as int + 1;
            assert(x.subrange(q, x.len() as int) =~= dec(s1));
            assert(y.subrange(q, y.len() as int) =~= dec(s2));
            lemma_dec_injective(s1, s2);
        }
    }
}

/// The built-in colors shared by tags and categories, by name.
pub open spec fn palette() -> Seq<(Seq<char>, Seq<char>)> {
    seq![
        ("red"@, "#EF4444"@),
        ("orange"@, "#F97316"@),
        ("amber"@, "#F59E0B"@),
        ("lime"@, "#84CC16"@),
        ("green"@, "#22C55E"@),
        ("teal"@, "#14B8A6"@),
        ("cyan"@, "#06B6D4"@),
        ("blue"@, "#3B82F6"@),
        ("indigo"@, "#6366F1"@),
        ("purple"@, "#A855F7"@),
        ("fuchsia"@, "#D946EF"@),
        ("pink"@, "#EC4899"@),
    ]
}

/// The built-in colors, as `(name, hex)`.
pub fn color_palette() -> (r: Vec<(&'static str, &'static str)>)
    ensures
        r@.map_values(|p: (&'static str, &'static str)| (p.0@, p.1@)) == palette(),
{
    let r = vec![
        ("red", "#EF4444"),
        ("orange", "#F97316"),
        ("amber", "#F59E0B"),
        ("lime", "#84CC16"),
        ("green", "#22C55E"),
        ("teal", "#14B8A6"),
        ("cyan", "#06B6D4"),
        ("blue", "#3B82F6"),
        ("indigo", "#6366F1"),
        ("purple", "#A855F7"),
        ("fuchsia", "#D946EF"),
        ("pink", "#EC4899"),
    ];
    assert(r@.map_values(|p: (&'static str, &'static str)| (p.0@, p.1@)) =~= palette());
    r
}

/// The color a new category starts with (the palette's indigo).
pub fn new_category_color() -> (r: &'static str)
    ensures
        r@ == palette()[8].1,
{
    "#6366F1"
}

/// The color a new tag starts with (the palette's amber).
pub fn new_tag_color() -> (r: &'static str)
    ensures
        r@ == palette()[2].1,
{
    "#F59E0B"
}

/// A label: a category or a tag, with an id, a name and a color.
pub trait Labeled: Sized {
    spec fn label_view(&self) -> (Seq<char>, Seq<char>, Seq<char>);

    fn id_text(&self) -> (r: &str)
        ensures
            r@ == self.label_view().0,
    ;

    fn name_text(&self) -> (r: &str)
        ensures
            r@ == self.label_view().1,
    ;

    fn color_text(&self) -> (r: &str)
        ensures
            r@ == self.label_view().2,
    ;

    fn build(id: String, name: String, color: String) -> (r: Self)
        ensures
            r.label_view() == (id@, name@, color@),
    ;
}

impl Labeled for Category {
    open spec fn label_view(&self) -> (Seq<char>, Seq<char>, Seq<char>) {
        (self.id@, self.name@, self.color@)
    }

    fn id_text(&self) -> (r: &str) {
        self.id.as_str()
    }

    fn name_text(&self) -> (r: &str) {
        self.name.as_str()
    }

    fn color_text(&self) -> (r: &str) {
        self.color.as_str()
    }

    fn build(id: String, name: String, color: String) -> (r: Self) {
        Category { id, name, color }
    }
}

impl Labeled for Tag {
    open spec fn label_view(&self) -> (Seq<char>, Seq<char>, Seq<char>) {
        (self.id@, self.name@, self.color@)
    }

    fn id_text(&self) -> (r: &str) {
        self.id.as_str()
    }

    fn name_text(&self) -> (r: &str) {
        self.name.as_str()
    }

    fn color_text(&self) -> (r: &str) {
        self.color.as_str()
    }

    fn build(id: String, name: String, color: String) -> (r: Self) {
        Tag { id, name, color }
    }
}

/// The labels as `(id, name, color)` texts.
pub open spec fn labels_view<L: Labeled>(s: Seq<L>) -> Seq<(Seq<char>, Seq<char>, Seq<char>)> {
    s.map_values(|l: L| l.label_view())
}

/// `k` is the first index of a label with id `id`.
pub open spec fn first_label(v: Seq<(Seq<char>, Seq<char>, Seq<char>)>, id: Seq<char>, k: int) -> bool {
    &&& 0 <= k < v.len()
    &&& v[k].0 == id
    &&& forall|j: int| 0 <= j < k ==> v[j].0 != id
}

/// No label has id `id`.
pub open spec fn no_label(v: Seq<(Seq<char>, Seq<char>, Seq<char>)>, id: Seq<char>) -> bool {
    forall|j: int| 0 <= j < v.len() ==> v[j].0 != id
}

/// No two labels share an id.
pub open spec fn unique_ids(v: Seq<(Seq<char>, Seq<char>, Seq<char>)>) -> bool {
    forall|i: int, j: int| 0 <= i < j < v.len() ==> v[i].0 != v[j].0
}

/// The label's id is not `id`.
pub open spec fn other_label(id: Seq<char>) -> spec_fn((Seq<char>, Seq<char>, Seq<char>)) -> bool {
    |l: (Seq<char>, Seq<char>, Seq<char>)| l.0 != id
}

/// The first index of a label with id `id`, if any.
fn find_label<L: Labeled>(items: &Vec<L>, id: &str) -> (r: Option<usize>)
    ensures
        r matches Some(k) ==> first_label(labels_view(items@), id@, k as int),
        r is None ==> no_label(labels_view(items@), id@),
{
    let n = items.len();
    let mut i: usize = 0;
    while i < n
        invariant
            n == items.len(),
            i <= n,
            forall|j: int| 0 <= j < i ==> labels_view(items@)[j].0 != id@,
        decreases n - i,
    {
        if str_eq(items[i].id_text(), id) {
            return Some(i);
        }
        i = i + 1;
    }
    None
}

/// The editing state shared by the category and the tag dialogs.
pub struct LabelEditor<L> {
    /// The labels being edited.
    pub items: Vec<L>,
    /// The label whose name and color are being edited.
    pub editing_id: Option<String>,
    /// Whether the dialog shows a closing button.
    pub show_done: bool,
    /// The row under the pointer.
    pub hover_row: Option<String>,
    /// The sequence number of the last id handed out.
    pub seq: u64,
}

impl<L: Labeled> LabelEditor<L> {
    /// An editor over `items`, nothing being edited.
    pub fn new(items: Vec<L>, show_done: bool) -> (r: Self)
        ensures
            r.items@ == items@,
            r.editing_id is None,
            r.show_done == show_done,
            r.hover_row is None,
            r.seq == 0,
    {
        LabelEditor { items, editing_id: None, show_done, hover_row: None, seq: 0 }
    }

    /// Replaces the name of the first label with id `id` (if any).
    fn set_name(&mut self, id: &str, name: String)
        ensures
            no_label(labels_view(old(self).items@), id@) ==> final(self).items@ == old(self).items@,
            forall|k: int| #[trigger] first_label(labels_view(old(self).items@), id@, k) ==>
                labels_view(final(self).items@) == labels_view(old(self).items@).update(
                    k,
                    (id@, name@, labels_view(old(self).items@)[k].2),
                ),
            final(self).editing_id == old(self).editing_id,
            final(self).show_done == old(self).show_done,
            final(self).hover_row == old(self).hover_row,
            final(self).seq == old(self).seq,
    {
        if let Some(k) = find_label(&self.items, id) {
            let l = L::build(string_of(self.items[k].id_text()), name, string_of(self.items[k].color_text()));
            self.items.set(k, l);
            assert(labels_view(self.items@) =~= labels_view(old(self).items@).update(
                k as int,
                (id@, name@, labels_view(old(self).items@)[k as int].2),
            ));
        }
    }

    /// Replaces the color of the first label with id `id` (if any).
    fn set_color(&mut self, id: &str, color: String)
        ensures
            no_label(labels_view(old(self).items@), id@) ==> final(self).items@ == old(self).items@,
            forall|k: int| #[trigger] first_label(labels_view(old(self).items@), id@, k) ==>
                labels_view(final(self).items@) == labels_view(old(self).items@).update(
                    k,
                    (id@, labels_view(old(self).items@)[k].1, color@),
                ),
            final(self).editing_id == old(self).editing_id,
            final(self).show_done == old(self).show_done,
            final(self).hover_row == old(self).hover_row,
            final(self).seq == old(self).seq,
    {
        if let Some(k) = find_label(&self.items, id) {
            let l = L::build(string_of(self.items[k].id_text()), string_of(self.items[k].name_text()), color);
            self.items.set(k, l);
            assert(labels_view(self.items@) =~= labels_view(old(self).items@).update(
                k as int,
                (id@, labels_view(old(self).items@)[k as int].1, color@),
            ));
        }
    }

    /// Starts editing label `id`; returns its name and color for the edit
    /// inputs (empty texts when no label has that id).
    pub fn begin_edit(&mut self, id: &str) -> (r: (String, String))
        ensures
            opt_str(final(self).editing_id) == Some(id@),
            *final(self) == (LabelEditor { editing_id: final(self).editing_id, ..*old(self) }),
            no_label(labels_view(old(self).items@), id@) ==> r.0@.len() == 0 && r.1@.len() == 0,
            forall|k: int| #[trigger] first_label(labels_view(old(self).items@), id@, k) ==>
                r.0@ == labels_view(old(self).items@)[k].1 && r.1@ == labels_view(old(self).items@)[k].2,
    {
        self.editing_id = Some(string_of(id));
        match find_label(&self.items, id) {
            Some(k) => (string_of(self.items[k].name_text()), string_of(self.items[k].color_text())),
            None => (String::new(), String::new()),
        }
    }

    /// Enter pressed in the name input: when the trimmed text is not empty
    /// and a label is being edited, renames it and ends editing. Returns
    /// whether it did.
    pub fn enter_name(&mut self, input: &str) -> (r: bool)
        ensures
            r == (trim_seq(input@).len() != 0 && old(self).editing_id is Some),
            !r ==> *final(self) == *old(self),
            r ==> *final(self) == (LabelEditor { items: final(self).items, editing_id: None, ..*old(self) }),
            old(self).editing_id matches Some(eid) ==> r ==> (no_label(labels_view(old(self).items@), eid@)
                ==> final(self).items@ == old(self).items@),
            old(self).editing_id matches Some(eid) ==> r ==> (forall|k: int| #[trigger] first_label(labels_view(old(self).items@), eid@, k) ==>
                labels_view(final(self).items@) == labels_view(old(self).items@).update(
                    k,
                    (eid@, trim_seq(input@), labels_view(old(self).items@)[k].2),
                )),
    {
        let value = trim(input);
        if value.as_str().unicode_len() == 0 {
            return false;
        }
        match self.editing_id.take() {
            Some(id) => {
                self.set_name(id.as_str(), value);
                true
            },
            None => false,
        }
    }

    /// The save button of label `id`: renames it when the trimmed text is not
    /// empty, and ends editing either way.
    pub fn save_name(&mut self, id: &str, input: &str)
        ensures
            *final(self) == (LabelEditor { items: final(self).items, editing_id: None, ..*old(self) }),
            trim_seq(input@).len() == 0 ==> final(self).items@ == old(self).items@,
            trim_seq(input@).len() != 0 ==> (no_label(labels_view(old(self).items@), id@)
                ==> final(self).items@ == old(self).items@),
            trim_seq(input@).len() != 0 ==> (forall|k: int| #[trigger] first_label(labels_view(old(self).items@), id@, k) ==>
                labels_view(final(self).items@) == labels_view(old(self).items@).update(
                    k,
                    (id@, trim_seq(input@), labels_view(old(self).items@)[k].2),
                )),
    {
        let value = trim(input);
        if value.as_str().unicode_len() != 0 {
            self.set_name(id, value);
        }
        self.editing_id = None;
    }

    /// Ends editing without applying.
    pub fn cancel_edit(&mut self)
        ensures
            *final(self) == (LabelEditor { editing_id: None, ..*old(self) }),
    {
        self.editing_id = None;
    }

    /// A color picked in the edit row: recolors the label being edited.
    /// Returns whether a label was being edited.
    pub fn recolor_editing(&mut self, color: String) -> (r: bool)
        ensures
            r == old(self).editing_id is Some,
            *final(self) == (LabelEditor { items: final(self).items, ..*old(self) }),
            !r ==> final(self).items@ == old(self).items@,
            old(self).editing_id matches Some(eid) ==> (no_label(labels_view(old(self).items@), eid@)
                ==> final(self).items@ == old(self).items@),
            old(self).editing_id matches Some(eid) ==> (forall|k: int| #[trigger] first_label(labels_view(old(self).items@), eid@, k) ==>
                labels_view(final(self).items@) == labels_view(old(self).items@).update(
                    k,
                    (eid@, labels_view(old(self).items@)[k].1, color@),
                )),
    {
        match &self.editing_id {
            Some(id) => {
                let id = id.clone();
                self.set_color(id.as_str(), color);
                true
            },
            None => false,
        }
    }

    /// A color picked in the swatch of row `id`: recolors that label.
    pub fn recolor(&mut self, id: &str, color: String)
        ensures
            *final(self) == (LabelEditor { items: final(self).items, ..*old(self) }),
            no_label(labels_view(old(self).items@), id@) ==> final(self).items@ == old(self).items@,
            forall|k: int| #[trigger] first_label(labels_view(old(self).items@), id@, k) ==>
                labels_view(final(self).items@) == labels_view(old(self).items@).update(
                    k,
                    (id@, labels_view(old(self).items@)[k].1, color@),
                ),
    {
        self.set_color(id, color);
    }

    /// Removes every label with id `id`.
    pub fn remove(&mut self, id: &str)
        ensures
            labels_view(final(self).items@) == labels_view(old(self).items@).filter(other_label(id@)),
            *final(self) == (LabelEditor { items: final(self).items, ..*old(self) }),
    {
        let ghost s0 = labels_view(self.items@);
        let mut src: Vec<L> = Vec::new();
        std::mem::swap(&mut src, &mut self.items);
        let mut out: Vec<L> = Vec::new();
        let ghost mut i: int = 0;
        proof {
            reveal(Seq::filter);
            assert(s0.take(0) =~= Seq::<(Seq<char>, Seq<char>, Seq<char>)>::empty());
            assert(labels_view(src@) =~= s0.skip(0));
            assert(labels_view(out@) =~= s0.take(0).filter(other_label(id@)));
        }
        while src.len() > 0
            invariant
                0 <= i <= s0.len(),
                labels_view(src@) == s0.skip(i),
                labels_view(out@) == s0.take(i).filter(other_label(id@)),
            decreases src.len(),
        {
            let ghost before = src@;
            let l = src.remove(0);
            proof {
                assert(labels_view(before).len() == before.len());
                assert(labels_view(before)[0] == l.label_view());
                assert(s0.skip(i)[0] == s0[i]);
                assert(l.label_view() == s0[i]);
                assert(s0.take(i + 1) =~= s0.take(i).push(s0[i]));
                s0.take(i).lemma_filter_push(s0[i], other_label(id@));
                assert(src@ =~= before.drop_first());
                assert(labels_view(src@) =~= labels_view(before).drop_first());
                assert(labels_view(src@) =~= s0.skip(i + 1));
            }
            let keep = !str_eq(l.id_text(), id);
            let ghost prev = out@;
            if keep {
                out.push(l);
                assert(labels_view(out@) =~= labels_view(prev).push(s0[i]));
            }
            proof {
                i = i + 1;
            }
        }
        proof {
            assert(s0.take(i) =~= s0);
        }
        self.items = out;
    }

    /// The pointer entered or left row `id`. Returns whether the hovered row changed.
    pub fn hover(&mut self, id: &str, entered: bool) -> (r: bool)
        ensures
            entered ==> opt_str(final(self).hover_row) == Some(id@),
            !entered ==> final(self).hover_row is None,
            r == (opt_str(final(self).hover_row) != opt_str(old(self).hover_row)),
            *final(self) == (LabelEditor { hover_row: final(self).hover_row, ..*old(self) }),
    {
        let before = match &self.hover_row {
            Some(h) => Some(string_of(h.as_str())),
            None => None,
        };
        self.hover_row = if entered { Some(string_of(id)) } else { None };
        match (&before, &self.hover_row) {
            (Some(a), Some(b)) => !str_eq(a.as_str(), b.as_str()),
            (None, None) => false,
            _ => true,
        }
    }

    /// Whether the closing button shows: the dialog has one and there are labels.
    pub fn done_visible(&self) -> (r: bool)
        ensures
            r == (self.show_done && self.items@.len() > 0),
    {
        self.show_done && self.items.len() > 0
    }

    /// Adds a label named by the trimmed input with the given color, under a
    /// fresh `{prefix}-{millis}-{seq}` id that no label has. Returns whether
    /// a label was added (not when the trimmed input is empty).
    pub fn add_new(&mut self, prefix: &str, input: &str, color: String) -> (r: bool)
        requires
            old(self).seq + old(self).items@.len() + 1 <= u64::MAX,
        ensures
            r == (trim_seq(input@).len() != 0),
            !r ==> *final(self) == *old(self),
            r ==> *final(self) == (LabelEditor { items: final(self).items, seq: final(self).seq, ..*old(self) }),
            r ==> final(self).seq > old(self).seq,
            r ==> labels_view(final(self).items@).drop_last() == labels_view(old(self).items@),
            r ==> labels_view(final(self).items@).len() == old(self).items@.len() + 1,
            r ==> no_label(labels_view(old(self).items@), labels_view(final(self).items@).last().0),
            r ==> exists|ms: u64| labels_view(final(self).items@).last().0 == #[trigger] label_id_text(
                prefix@,
                ms as nat,
                final(self).seq as nat,
            ),
            r ==> labels_view(final(self).items@).last().1 == trim_seq(input@),
            r ==> labels_view(final(self).items@).last().2 == color@,
    {
        let name = trim(input);
        if name.as_str().unicode_len() == 0 {
            return false;
        }
        let ghost ids = labels_view(self.items@);
        let ghost n = ids.len();
        let ghost start = self.seq;
        self.seq = self.seq + 1;
        let mut id = fresh_id(prefix, self.seq);
        let mut clash = find_label(&self.items, id.as_str()).is_some();
        let ghost mut hit: Set<int> = Set::empty();
        while clash
            invariant
                labels_view(self.items@) == ids,
                n == ids.len(),
                start < self.seq,
                self.seq <= start + hit.len() + 1,
                start + n + 1 <= u64::MAX,
                self.editing_id == old(self).editing_id,
                self.show_done == old(self).show_done,
                self.hover_row == old(self).hover_row,
                hit.finite(),
                hit.subset_of(Set::new(|j: int| 0 <= j < n)),
                forall|j: int| #[trigger] hit.contains(j) ==> exists|ms: u64, s: u64| start < s < self.seq
                    && ids[j].0 == #[trigger] label_id_text(prefix@, ms as nat, s as nat),
                exists|ms: u64| id@ == #[trigger] label_id_text(prefix@, ms as nat, self.seq as nat),
                clash ==> !no_label(ids, id@),
                !clash ==> no_label(ids, id@),
            decreases n - hit.len(),
        {
            let ghost j = choose|j: int| 0 <= j < n && ids[j].0 == id@;
            proof {
                let ms = choose|ms: u64| id@ == #[trigger] label_id_text(prefix@, ms as nat, self.seq as nat);
                if hit.contains(j) {
                    let (m2, s2) = choose|m2: u64, s2: u64| start < s2 < self.seq && ids[j].0
                        == #[trigger] label_id_text(prefix@, m2 as nat, s2 as nat);
                    lemma_label_ids_differ(prefix@, ms as nat, self.seq as nat, m2 as nat, s2 as nat);
                }
                assert(!hit.contains(j));
                hit = hit.insert(j);
                lemma_range_set_len(n as int);
                vstd::set_lib::lemma_len_subset(hit, Set::new(|k: int| 0 <= k < n));
                assert(ids[j].0 == label_id_text(prefix@, ms as nat, self.seq as nat));
            }
            self.seq = self.seq + 1;
            id = fresh_id(prefix, self.seq);
            clash = find_label(&self.items, id.as_str()).is_some();
        }
        let ghost before = self.items@;
        self.items.push(L::build(id, name, color));
        proof {
            assert(labels_view(self.items@).drop_last() =~= labels_view(before));
        }
        true
    }
}

/// Adding a label under an id no label has keeps the ids unique.
pub proof fn lemma_push_fresh_unique(
    v: Seq<(Seq<char>, Seq<char>, Seq<char>)>,
    l: (Seq<char>, Seq<char>, Seq<char>),
)
    requires
        unique_ids(v),
        no_label(v, l.0),
    ensures
        unique_ids(v.push(l)),
{
    let w = v.push(l);
    assert forall|i: int, j: int| 0 <= i < j < w.len() implies w[i].0 != w[j].0 by {
        if j == v.len() {
            assert(w[i] == v[i]);
        } else {
            assert(w[i] == v[i]);
            assert(w[j] == v[j]);
        }
    }
}

/// The category dialog: the categories being edited and the default one.
pub struct CategoriesPanel {
    pub editor: LabelEditor<Category>,
    pub default_id: Option<String>,
}

/// The default category either is unset or names a category of the list.
pub open spec fn default_valid(v: Seq<(Seq<char>, Seq<char>, Seq<char>)>, default_id: Option<String>) -> bool {
    default_id matches Some(d) ==> !no_label(v, d@)
}

impl CategoriesPanel {
    /// The dialog over `categories` with `default_id` as the default.
    pub fn new(categories: Vec<Category>, default_id: Option<String>, show_done: bool) -> (r: Self)
        ensures
            r.editor.items@ == categories@,
            r.editor.editing_id is None,
            r.editor.show_done == show_done,
            r.editor.hover_row is None,
            r.editor.seq == 0,
            r.default_id == default_id,
    {
        CategoriesPanel { editor: LabelEditor::new(categories, show_done), default_id }
    }

    /// Whether category `id` is the default.
    pub fn is_default(&self, id: &str) -> (r: bool)
        ensures
            r == (opt_str(self.default_id) == Some(id@)),
    {
        match &self.default_id {
            Some(d) => str_eq(d.as_str(), id),
            None => false,
        }
    }

    /// The caption of the default button of row `id`.
    pub fn default_button_label(&self, id: &str) -> (r: &'static str)
        ensures
            opt_str(self.default_id) == Some(id@) ==> r@ == "默认"@,
            opt_str(self.default_id) != Some(id@) ==> r@ == "设为默认"@,
    {
        if self.is_default(id) {
            "默认"
        } else {
            "设为默认"
        }
    }

    /// Deletes category `id`; it stops being the default if it was.
    pub fn delete(&mut self, id: &str)
        ensures
            labels_view(final(self).editor.items@) == labels_view(old(self).editor.items@).filter(other_label(id@)),
            opt_str(old(self).default_id) == Some(id@) ==> final(self).default_id is None,
            opt_str(old(self).default_id) != Some(id@) ==> final(self).default_id == old(self).default_id,
            final(self).editor == (LabelEditor { items: final(self).editor.items, ..old(self).editor }),
    {
        self.editor.remove(id);
        if self.is_default(id) {
            self.default_id = None;
        }
    }

    /// Makes category `id` the default, or unsets it when it already is.
    pub fn toggle_default(&mut self, id: &str)
        ensures
            opt_str(old(self).default_id) == Some(id@) ==> final(self).default_id is None,
            opt_str(old(self).default_id) != Some(id@) ==> opt_str(final(self).default_id) == Some(id@),
            final(self).editor == old(self).editor,
    {
        if self.is_default(id) {
            self.default_id = None;
        } else {
            self.default_id = Some(string_of(id));
        }
    }

    /// Adds a category (see `LabelEditor::add_new`) under a fresh `cat-…` id.
    pub fn add_new(&mut self, input: &str, color: String) -> (r: bool)
        requires
            old(self).editor.seq + old(self).editor.items@.len() + 1 <= u64::MAX,
        ensures
            r == (trim_seq(input@).len() != 0),
            !r ==> *final(self) == *old(self),
            r ==> final(self).editor == (LabelEditor {
                items: final(self).editor.items,
                seq: final(self).editor.seq,
                ..old(self).editor
            }),
            r ==> labels_view(final(self).editor.items@).drop_last() == labels_view(old(self).editor.items@),
            r ==> labels_view(final(self).editor.items@).len() == old(self).editor.items@.len() + 1,
            r ==> no_label(labels_view(old(self).editor.items@), labels_view(final(self).editor.items@).last().0),
            r ==> exists|ms: u64| labels_view(final(self).editor.items@).last().0 == #[trigger] label_id_text(
                "cat"@,
                ms as nat,
                final(self).editor.seq as nat,
            ),
            r ==> labels_view(final(self).editor.items@).last().1 == trim_seq(input@),
            r ==> labels_view(final(self).editor.items@).last().2 == color@,
            unique_ids(labels_view(old(self).editor.items@)) ==> unique_ids(labels_view(final(self).editor.items@)),
            final(self).default_id == old(self).default_id,
    {
        let r = self.editor.add_new("cat", input, color);
        proof {
            if r {
                let v = labels_view(old(self).editor.items@);
                let w = labels_view(self.editor.items@);
                assert(w =~= v.push(w.last()));
                if unique_ids(v) {
                    lemma_push_fresh_unique(v, w.last());
                }
            }
        }
        r
    }

    /// Hands the categories and the default to the application.
    pub fn apply_to(&self, app: &mut DoitApp)
        ensures
            final(app).settings.categories@ == self.editor.items@,
            final(app).settings.default_category_id == (match self.default_id {
                Some(id) => if crate::todos::has_category_id(self.editor.items@, id@) { Some(id) } else { None },
                None => None,
            }),
            final(app).todos == old(app).todos,
            final(app).settings.tags == old(app).settings.tags,
    {
        app.set_categories(copy_categories(&self.editor.items), clone_opt(&self.default_id));
    }
}

/// The tag dialog: the tags being edited.
pub struct TagsPanel {
    pub editor: LabelEditor<Tag>,
}

impl TagsPanel {
    /// The dialog over `tags`.
    pub fn new(tags: Vec<Tag>, show_done: bool) -> (r: Self)
        ensures
            r.editor.items@ == tags@,
            r.editor.editing_id is None,
            r.editor.show_done == show_done,
            r.editor.hover_row is None,
            r.editor.seq == 0,
    {
        TagsPanel { editor: LabelEditor::new(tags, show_done) }
    }

    /// Adds a tag (see `LabelEditor::add_new`) under a fresh `tag-…` id.
    pub fn add_new(&mut self, input: &str, color: String) -> (r: bool)
        requires
            old(self).editor.seq + old(self).editor.items@.len() + 1 <= u64::MAX,
        ensures
            r == (trim_seq(input@).len() != 0),
            !r ==> *final(self) == *old(self),
            r ==> final(self).editor == (LabelEditor {
                items: final(self).editor.items,
                seq: final(self).editor.seq,
                ..old(self).editor
            }),
            r ==> labels_view(final(self).editor.items@).drop_last() == labels_view(old(self).editor.items@),
            r ==> labels_view(final(self).editor.items@).len() == old(self).editor.items@.len() + 1,
            r ==> no_label(labels_view(old(self).editor.items@), labels_view(final(self).editor.items@).last().0),
            r ==> exists|ms: u64| labels_view(final(self).editor.items@).last().0 == #[trigger] label_id_text(
                "tag"@,
                ms as nat,
                final(self).editor.seq as nat,
            ),
            r ==> labels_view(final(self).editor.items@).last().1 == trim_seq(input@),
            r ==> labels_view(final(self).editor.items@).last().2 == color@,
            unique_ids(labels_view(old(self).editor.items@)) ==> unique_ids(labels_view(final(self).editor.items@)),
    {
        let r = self.editor.add_new("tag", input, color);
        proof {
            if r {
                let v = labels_view(old(self).editor.items@);
                let w = labels_view(self.editor.items@);
                assert(w =~= v.push(w.last()));
                if unique_ids(v) {
                    lemma_push_fresh_unique(v, w.last());
                }
            }
        }
        r
    }

    /// Hands the tags to the application.
    pub fn apply_to(&self, app: &mut DoitApp)
        ensures
            final(app).settings.tags@ == self.editor.items@,
            final(app).todos == old(app).todos,
            final(app).settings.categories == old(app).settings.categories,
    {
        app.set_tags(copy_tags(&self.editor.items));
    }
}

/// The set `{0, .., n - 1}` has `n` elements.
pub proof fn lemma_range_set_len(n: int)
    requires
        n >= 0,
    ensures
        Set::new(|k: int| 0 <= k < n).finite(),
        Set::new(|k: int| 0 <= k < n).len() == n,
    decreases n,
{
    if n == 0 {
        assert(Set::new(|k: int| 0 <= k < n) =~= Set::<int>::empty());
    } else {
        lemma_range_set_len(n - 1);
        assert(Set::new(|k: int| 0 <= k < n) =~= Set::new(|k: int| 0 <= k < n - 1).insert(n - 1));
    }
}

} // verus!
