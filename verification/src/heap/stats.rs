//! The per-class histogram keyed by signature, and its table rendering.
//!
//! `recordObject` folds one observation into the histogram.  `print`
//! renders the table: rows ordered by descending byte total, ties broken
//! by signature and then by count, truncated to the configured number of
//! entries (zero meaning unlimited), with the name column as wide as the
//! longest kept name but at least ten characters.

use vstd::prelude::*;

use vstd::multiset::Multiset;
use vstd::relations::sorted_by;
use vstd::relations::total_ordering;

use crate::heap::contents::spec_sat_add_count;
use crate::heap::contents::spec_sat_add_size;
use crate::text::spec_idec;
use crate::text::spec_pad_right;
use crate::text::spec_spaces;
use crate::text::spec_udec;
use crate::text::idec;
use crate::text::pad_right;
use crate::text::spaces;
use crate::text::udec;

verus! {

/// One histogram row: signature, instance count, byte total.
pub type RowView = (Seq<char>, int, int);

/// One histogram row as executable data.
pub type Row = (String, usize, i64);

pub open spec fn spec_row_view(r: Row) -> RowView {
    (r.0@, r.1 as int, r.2 as int)
}

/// Lexicographic order on signatures, by character code, shorter prefix
/// first.
pub open spec fn spec_lex_leq(a: Seq<char>, b: Seq<char>) -> bool
    decreases a.len(),
{
    if a.len() == 0 {
        true
    } else if b.len() == 0 {
        false
    } else if a[0] != b[0] {
        a[0] < b[0]
    } else {
        spec_lex_leq(a.subrange(1, a.len() as int), b.subrange(1, b.len() as int))
    }
}

proof fn lemma_lex_refl(a: Seq<char>)
    ensures
        spec_lex_leq(a, a),
    decreases a.len(),
{
    if a.len() > 0 {
        lemma_lex_refl(a.subrange(1, a.len() as int));
    }
}

proof fn lemma_lex_connected(a: Seq<char>, b: Seq<char>)
    ensures
        spec_lex_leq(a, b) || spec_lex_leq(b, a),
    decreases a.len(),
{
    if a.len() > 0 && b.len() > 0 && a[0] == b[0] {
        lemma_lex_connected(a.subrange(1, a.len() as int), b.subrange(1, b.len() as int));
    }
}

proof fn lemma_lex_antisym(a: Seq<char>, b: Seq<char>)
    requires
        spec_lex_leq(a, b),
        spec_lex_leq(b, a),
    ensures
        a == b,
    decreases a.len(),
{
    if a.len() == 0 {
        assert(b.len() == 0);
        assert(a =~= b);
    } else {
        assert(a[0] == b[0]);
        lemma_lex_antisym(a.subrange(1, a.len() as int), b.subrange(1, b.len() as int));
        assert(a.len() == b.len());
        assert forall|i: int| 0 <= i < a.len() implies a[i] == b[i] by {
            if i > 0 {
                assert(a.subrange(1, a.len() as int)[i - 1] == a[i]);
                assert(b.subrange(1, b.len() as int)[i - 1] == b[i]);
            }
        }
        assert(a =~= b);
    }
}

proof fn lemma_lex_trans(a: Seq<char>, b: Seq<char>, c: Seq<char>)
    requires
        spec_lex_leq(a, b),
        spec_lex_leq(b, c),
    ensures
        spec_lex_leq(a, c),
    decreases a.len(),
{
    if a.len() > 0 {
        assert(b.len() > 0);
        if a[0] == b[0] && b[0] == c[0] {
            lemma_lex_trans(
                a.subrange(1, a.len() as int),
                b.subrange(1, b.len() as int),
                c.subrange(1, c.len() as int),
            );
        }
    }
}

/// The table order: more bytes first; among equal totals the
/// lexicographically smaller signature, then the smaller count.
pub open spec fn spec_row_leq(a: RowView, b: RowView) -> bool {
    a.2 > b.2 || (a.2 == b.2 && ((a.0 != b.0 && spec_lex_leq(a.0, b.0)) || (a.0 == b.0 && a.1
        <= b.1)))
}

/// The table order as a relation value, for `sorted_by`.
pub open spec fn spec_row_order() -> spec_fn(RowView, RowView) -> bool {
    |a: RowView, b: RowView| spec_row_leq(a, b)
}

proof fn lemma_row_connected(a: RowView, b: RowView)
    ensures
        spec_row_leq(a, b) || spec_row_leq(b, a),
{
    if a.2 == b.2 && a.0 != b.0 {
        lemma_lex_connected(a.0, b.0);
    }
}

proof fn lemma_row_trans(a: RowView, b: RowView, c: RowView)
    requires
        spec_row_leq(a, b),
        spec_row_leq(b, c),
    ensures
        spec_row_leq(a, c),
{
    if a.2 == b.2 && b.2 == c.2 {
        if a.0 != b.0 && b.0 != c.0 {
            lemma_lex_trans(a.0, b.0, c.0);
            if a.0 == c.0 {
                lemma_lex_antisym(a.0, b.0);
            }
        }
    }
}

/// The table order is a total ordering, so a sorted permutation of any
/// row sequence is unique.
pub proof fn lemma_row_order_total()
    ensures
        total_ordering(spec_row_order()),
{
    let leq = spec_row_order();
    assert forall|a: RowView| #[trigger] leq(a, a) by {
        lemma_lex_refl(a.0);
    }
    assert forall|a: RowView, b: RowView| #[trigger] leq(a, b) && #[trigger] leq(b, a) implies a
        == b by {
        if a.2 == b.2 && a.0 != b.0 {
            lemma_lex_antisym(a.0, b.0);
        }
    }
    assert forall|a: RowView, b: RowView| !(#[trigger] leq(a, b)) implies leq(b, a) by {
        if a.2 == b.2 && a.0 != b.0 {
            lemma_lex_connected(a.0, b.0);
        }
    }
    assert forall|a: RowView, b: RowView, c: RowView|
        #[trigger] leq(a, b) && #[trigger] leq(b, c) implies leq(a, c) by {
        if a.2 == b.2 && b.2 == c.2 {
            if a.0 != b.0 && b.0 != c.0 {
                lemma_lex_trans(a.0, b.0, c.0);
                if a.0 == c.0 {
                    lemma_lex_antisym(a.0, b.0);
                }
            }
        }
    }
}

/// One observation folded into the histogram rows: the row of `name` has
/// its count raised by one and its total raised by `size`; a name without
/// a row gets a fresh one at the end.
pub open spec fn spec_record(rows: Seq<RowView>, name: Seq<char>, size: int) -> Seq<RowView>
    decreases rows.len(),
{
    if rows.len() == 0 {
        seq![(name, 1int, size)]
    } else if rows[0].0 == name {
        seq![
            (
                name,
                spec_sat_add_count(rows[0].1, 1),
                spec_sat_add_size(rows[0].2, size),
            ),
        ] + rows.subrange(1, rows.len() as int)
    } else {
        seq![rows[0]] + spec_record(rows.subrange(1, rows.len() as int), name, size)
    }
}

/// The width of the name column: the longest name among the rows, but at
/// least ten characters.
pub open spec fn spec_name_width(rows: Seq<RowView>) -> int
    decreases rows.len(),
{
    if rows.len() == 0 {
        10
    } else {
        let w = spec_name_width(rows.drop_last());
        if rows.last().0.len() > w {
            rows.last().0.len() as int
        } else {
            w
        }
    }
}

/// The table's header line.
pub open spec fn spec_stats_header(width: int) -> Seq<char> {
    "| Instance Count | Total Bytes | Class Name"@ + spec_spaces((width - 10) as nat) + " |\n"@
}

/// One row of the table.
pub open spec fn spec_stats_row(r: RowView, width: int) -> Seq<char> {
    "| "@ + spec_pad_right(spec_udec(r.1 as nat), 14) + " | "@ + spec_pad_right(spec_idec(r.2), 11)
        + " | "@ + spec_pad_right(r.0, width as nat) + " |\n"@
}

/// The rows of the table, in order.
pub open spec fn spec_stats_rows(rows: Seq<RowView>, width: int) -> Seq<char>
    decreases rows.len(),
{
    if rows.len() == 0 {
        Seq::<char>::empty()
    } else {
        spec_stats_row(rows[0], width) + spec_stats_rows(rows.subrange(1, rows.len() as int), width)
    }
}

/// The whole table for a given row sequence.
pub open spec fn spec_stats_table(rows: Seq<RowView>) -> Seq<char> {
    let width = spec_name_width(rows);
    spec_stats_header(width) + spec_stats_rows(rows, width)
}

/// The number of rows kept under a truncation setting: zero keeps all.
pub open spec fn spec_keep(len: int, max_entries: int) -> int {
    if max_entries == 0 || max_entries > len {
        len
    } else {
        max_entries
    }
}

/// Lexicographic comparison of two signatures.
fn lex_leq_str(a: &str, b: &str) -> (r: bool)
    ensures
        r == spec_lex_leq(a@, b@),
{
    let an = a.unicode_len();
    let bn = b.unicode_len();
    let mut i: usize = 0;
    proof {
        assert(a@.subrange(0, an as int) =~= a@);
        assert(b@.subrange(0, bn as int) =~= b@);
    }
    while i < an && i < bn && a.get_char(i) == b.get_char(i)
        invariant
            i <= an,
            i <= bn,
            an == a@.len(),
            bn == b@.len(),
            spec_lex_leq(a@, b@) == spec_lex_leq(
                a@.subrange(i as int, an as int),
                b@.subrange(i as int, bn as int),
            ),
            forall|j: int| 0 <= j < i ==> a@[j] == b@[j],
        decreases an - i,
    {
        proof {
            let sa = a@.subrange(i as int, an as int);
            let sb = b@.subrange(i as int, bn as int);
            assert(sa[0] == a@[i as int]);
            assert(sb[0] == b@[i as int]);
            assert(sa.subrange(1, sa.len() as int) =~= a@.subrange(i + 1, an as int));
            assert(sb.subrange(1, sb.len() as int) =~= b@.subrange(i + 1, bn as int));
        }
        i = i + 1;
    }
    proof {
        let sa = a@.subrange(i as int, an as int);
        let sb = b@.subrange(i as int, bn as int);
        if i < an && i < bn {
            assert(sa[0] == a@[i as int]);
            assert(sb[0] == b@[i as int]);
        }
    }
    if i == an {
        true
    } else if i == bn {
        false
    } else {
        a.get_char(i) < b.get_char(i)
    }
}

/// Whether row `a` comes no later than row `x` in the table order.
fn row_leq(a: &Row, x: &Row) -> (r: bool)
    ensures
        r == spec_row_leq(spec_row_view(*a), spec_row_view(*x)),
{
    if a.2 > x.2 {
        true
    } else if a.2 < x.2 {
        false
    } else {
        let le_ab = lex_leq_str(a.0.as_str(), x.0.as_str());
        let le_ba = lex_leq_str(x.0.as_str(), a.0.as_str());
        if le_ab && le_ba {
            proof {
                lemma_lex_antisym(a.0@, x.0@);
            }
            a.1 <= x.1
        } else {
            proof {
                if a.0@ == x.0@ {
                    lemma_lex_refl(a.0@);
                }
            }
            le_ab
        }
    }
}

/// Inserts a row into a run kept in table order.
fn insert_sorted_row(v: &mut Vec<Row>, x: Row)
    requires
        sorted_by(old(v)@.map_values(|r: Row| spec_row_view(r)), spec_row_order()),
    ensures
        final(v)@.map_values(|r: Row| spec_row_view(r)).to_multiset() == old(v)@.map_values(
            |r: Row| spec_row_view(r),
        ).to_multiset().insert(spec_row_view(x)),
        sorted_by(final(v)@.map_values(|r: Row| spec_row_view(r)), spec_row_order()),
{
    let n = v.len();
    let mut i: usize = 0;
    while i < n && row_leq(&v[i], &x)
        invariant
            i <= n,
            n == v@.len(),
            v == old(v),
            forall|j: int|
                0 <= j < i ==> spec_row_leq(
                    #[trigger] spec_row_view(v@[j]),
                    spec_row_view(x),
                ),
        decreases n - i,
    {
        i = i + 1;
    }
    proof {
        assert(i == n || !spec_row_leq(spec_row_view(v@[i as int]), spec_row_view(x)));
    }
    v.insert(i, x);
    proof {
        let f = |r: Row| spec_row_view(r);
        let ov = old(v)@.map_values(f);
        let nv = v@.map_values(f);
        let vx = spec_row_view(x);
        assert(nv =~= ov.insert(i as int, vx));
        lemma_row_multiset_insert(ov, i as int, vx);
        lemma_row_order_total();
        assert forall|p: int, q: int| 0 <= p < q < nv.len() implies #[trigger] spec_row_order()(
            nv[p],
            nv[q],
        ) by {
            let k = i as int;
            let leq = spec_row_order();
            if q < k {
                assert(nv[p] == ov[p] && nv[q] == ov[q]);
                assert(leq(ov[p], ov[q]));
            } else if q == k {
                assert(nv[p] == ov[p] && nv[q] == vx);
                assert(ov[p] == spec_row_view(old(v)@[p]));
                assert(spec_row_leq(spec_row_view(old(v)@[p]), vx));
            } else {
                assert(nv[q] == ov[q - 1]);
                if p < k {
                    assert(nv[p] == ov[p]);
                    if p < q - 1 {
                        assert(leq(ov[p], ov[q - 1]));
                    }
                } else if p == k {
                    assert(nv[p] == vx);
                    assert(ov[k] == spec_row_view(old(v)@[k]));
                    assert(!spec_row_leq(ov[k], vx));
                    lemma_row_connected(ov[k], vx);
                    if k < q - 1 {
                        assert(leq(ov[k], ov[q - 1]));
                        lemma_row_trans(vx, ov[k], ov[q - 1]);
                    }
                } else {
                    assert(nv[p] == ov[p - 1]);
                    if p - 1 < q - 1 {
                        assert(leq(ov[p - 1], ov[q - 1]));
                    }
                }
            }
        }
    }
}

proof fn lemma_row_multiset_empty(s: Seq<RowView>)
    requires
        s.len() == 0,
    ensures
        s.to_multiset() == Multiset::<RowView>::empty(),
{
    s.to_multiset_ensures();
}

proof fn lemma_row_multiset_push(s: Seq<RowView>, x: RowView)
    ensures
        s.push(x).to_multiset() == s.to_multiset().insert(x),
{
    s.to_multiset_ensures();
}

proof fn lemma_row_multiset_insert(s: Seq<RowView>, k: int, x: RowView)
    requires
        0 <= k <= s.len(),
    ensures
        s.insert(k, x).to_multiset() == s.to_multiset().insert(x),
{
    vstd::seq_lib::lemma_multiset_commutative(s.subrange(0, k), s.subrange(k, s.len() as int));
    assert(s.subrange(0, k) + s.subrange(k, s.len() as int) =~= s);
    let w = s.subrange(0, k).push(x) + s.subrange(k, s.len() as int);
    assert(s.insert(k, x) =~= w);
    vstd::seq_lib::lemma_multiset_commutative(
        s.subrange(0, k).push(x),
        s.subrange(k, s.len() as int),
    );
    s.subrange(0, k).to_multiset_ensures();
}

/// Folding an observation that matches the row at `k`.
proof fn lemma_record_at(rows: Seq<RowView>, name: Seq<char>, size: int, k: int)
    requires
        0 <= k < rows.len(),
        rows[k].0 == name,
        forall|j: int| 0 <= j < k ==> rows[j].0 != name,
    ensures
        spec_record(rows, name, size) =~= rows.update(
            k,
            (name, spec_sat_add_count(rows[k].1, 1), spec_sat_add_size(rows[k].2, size)),
        ),
    decreases rows.len(),
{
    let t = rows.subrange(1, rows.len() as int);
    if k == 0 {
        assert(spec_record(rows, name, size) =~= rows.update(
            0,
            (name, spec_sat_add_count(rows[0].1, 1), spec_sat_add_size(rows[0].2, size)),
        ));
    } else {
        assert(t[k - 1].0 == name);
        assert forall|j: int| 0 <= j < k - 1 implies t[j].0 != name by {
            assert(t[j] == rows[j + 1]);
        }
        lemma_record_at(t, name, size, k - 1);
        assert(seq![rows[0]] + t.update(
            k - 1,
            (name, spec_sat_add_count(t[k - 1].1, 1), spec_sat_add_size(t[k - 1].2, size)),
        ) =~= rows.update(
            k,
            (name, spec_sat_add_count(rows[k].1, 1), spec_sat_add_size(rows[k].2, size)),
        ));
    }
}

/// Folding an observation whose name has no row yet.
proof fn lemma_record_absent(rows: Seq<RowView>, name: Seq<char>, size: int)
    requires
        forall|j: int| 0 <= j < rows.len() ==> rows[j].0 != name,
    ensures
        spec_record(rows, name, size) =~= rows.push((name, 1int, size)),
    decreases rows.len(),
{
    if rows.len() > 0 {
        let t = rows.subrange(1, rows.len() as int);
        assert forall|j: int| 0 <= j < t.len() implies t[j].0 != name by {
            assert(t[j] == rows[j + 1]);
        }
        lemma_record_absent(t, name, size);
        assert(seq![rows[0]] + t.push((name, 1int, size)) =~= rows.push((name, 1int, size)));
    }
}

/// Extending the rendered run of rows by one.
proof fn lemma_stats_rows_snoc(rows: Seq<RowView>, width: int, k: int)
    requires
        0 <= k < rows.len(),
    ensures
        spec_stats_rows(rows.subrange(0, k + 1), width) == spec_stats_rows(
            rows.subrange(0, k),
            width,
        ) + spec_stats_row(rows[k], width),
    decreases k,
{
    let a = rows.subrange(0, k + 1);
    if k == 0 {
        let empty = Seq::<RowView>::empty();
        assert(a[0] == rows[0]);
        assert(a.subrange(1, a.len() as int) =~= empty);
        assert(rows.subrange(0, 0) =~= empty);
        assert(spec_stats_rows(empty, width) == Seq::<char>::empty());
        assert(spec_stats_rows(a, width) == spec_stats_row(rows[0], width) + Seq::<char>::empty());
        assert(spec_stats_row(rows[0], width) + Seq::<char>::empty() =~= Seq::<char>::empty()
            + spec_stats_row(rows[0], width));
    } else {
        let t = rows.subrange(1, rows.len() as int);
        lemma_stats_rows_snoc(t, width, k - 1);
        assert(a[0] == rows[0]);
        assert(a.subrange(1, a.len() as int) =~= t.subrange(0, k));
        assert(rows.subrange(0, k).subrange(1, k) =~= t.subrange(0, k - 1));
        assert(t[k - 1] == rows[k]);
        assert(spec_stats_rows(a, width) == spec_stats_row(rows[0], width) + spec_stats_rows(
            t.subrange(0, k),
            width,
        ));
        assert(spec_stats_rows(rows.subrange(0, k), width) == spec_stats_row(rows[0], width)
            + spec_stats_rows(t.subrange(0, k - 1), width));
        assert((spec_stats_row(rows[0], width) + (spec_stats_rows(t.subrange(0, k - 1), width)
            + spec_stats_row(t[k - 1], width))) =~= ((spec_stats_row(rows[0], width)
            + spec_stats_rows(t.subrange(0, k - 1), width)) + spec_stats_row(t[k - 1], width)));
    }
}

/// The capability of taking one histogram observation.
pub trait Record {
    fn recordObject(&mut self, class_name: String, object_size: i64);
}

/// The capability of rendering the histogram table.
pub trait Print {
    fn print(&self) -> String;
}

/// The per-class histogram.
pub struct Stats {
    java_objects: Vec<Row>,
    max_entries: usize,
}

impl Stats {
    /// The accumulated rows, in first-seen order.
    pub closed spec fn entries(&self) -> Seq<RowView> {
        self.java_objects@.map_values(|r: Row| spec_row_view(r))
    }

    /// The configured truncation: zero means unlimited.
    pub closed spec fn max_entries(&self) -> int {
        self.max_entries as int
    }

    /// The rows in table order: the unique sorted permutation of the
    /// accumulated rows.
    pub open spec fn spec_sorted(&self) -> Seq<RowView> {
        self.entries().sort_by(spec_row_order())
    }

    /// The rows the table keeps after truncation.
    pub open spec fn spec_kept(&self) -> Seq<RowView> {
        self.spec_sorted().subrange(0, spec_keep(self.entries().len() as int, self.max_entries()))
    }

    pub fn new(max_entries: usize) -> (r: Stats)
        ensures
            r.entries().len() == 0,
            r.max_entries() == max_entries,
    {
        let r = Stats { java_objects: Vec::new(), max_entries };
        proof {
            assert(r.entries() =~= Seq::<RowView>::empty());
        }
        r
    }

    /// Folds one observation into the histogram.  Counts and totals
    /// saturate at their type bounds.
    #[allow(non_snake_case)]
    pub fn recordObject(&mut self, class_name: String, object_size: i64)
        ensures
            final(self).entries() == spec_record(old(self).entries(), class_name@, object_size as int),
            final(self).max_entries() == old(self).max_entries(),
    {
        let n = self.java_objects.len();
        let mut i: usize = 0;
        while i < n
            invariant
                i <= n,
                n == self.java_objects@.len(),
                self == old(self),
                forall|j: int| 0 <= j < i ==> self.entries()[j].0 != class_name@,
            decreases n - i,
        {
            if self.java_objects[i].0.eq(&class_name) {
                let row = &self.java_objects[i];
                let count = row.1.saturating_add(1);
                let total = match row.2.checked_add(object_size) {
                    Some(t) => t,
                    None => {
                        if object_size >= 0 {
                            i64::MAX
                        } else {
                            i64::MIN
                        }
                    },
                };
                self.java_objects.set(i, (class_name, count, total));
                proof {
                    lemma_record_at(
                        old(self).entries(),
                        self.java_objects@[i as int].0@,
                        object_size as int,
                        i as int,
                    );
                    assert(self.entries() =~= old(self).entries().update(
                        i as int,
                        (
                            self.java_objects@[i as int].0@,
                            spec_sat_add_count(old(self).entries()[i as int].1, 1),
                            spec_sat_add_size(
                                old(self).entries()[i as int].2,
                                object_size as int,
                            ),
                        ),
                    ));
                }
                return ;
            }
            i = i + 1;
        }
        self.java_objects.push((class_name, 1, object_size));
        proof {
            lemma_record_absent(old(self).entries(), self.java_objects@.last().0@, object_size as int);
            assert(self.entries() =~= old(self).entries().push(
                (self.java_objects@.last().0@, 1int, object_size as int),
            ));
        }
    }

    /// Renders the table: ordered, truncated, padded.
    pub fn print(&self) -> (r: String)
        ensures
            r@ == spec_stats_table(self.spec_kept()),
    {
        let mut sorted: Vec<Row> = Vec::new();
        let n = self.java_objects.len();
        let mut i: usize = 0;
        proof {
            assert(self.entries().subrange(0, 0) =~= Seq::<RowView>::empty());
            lemma_row_multiset_empty(self.entries().subrange(0, 0));
            lemma_row_multiset_empty(sorted@.map_values(|r: Row| spec_row_view(r)));
            assert(sorted@.map_values(|r: Row| spec_row_view(r)) =~= Seq::<RowView>::empty());
        }
        while i < n
            invariant
                i <= n,
                n == self.java_objects@.len(),
                sorted@.map_values(|r: Row| spec_row_view(r)).to_multiset() == self.entries()
                    .subrange(0, i as int).to_multiset(),
                sorted_by(sorted@.map_values(|r: Row| spec_row_view(r)), spec_row_order()),
            decreases n - i,
        {
            let e = &self.java_objects[i];
            let x: Row = (e.0.clone(), e.1, e.2);
            proof {
                assert(spec_row_view(x) == self.entries()[i as int]);
                lemma_row_multiset_push(self.entries().subrange(0, i as int), spec_row_view(x));
                assert(self.entries().subrange(0, i as int).push(spec_row_view(x))
                    =~= self.entries().subrange(0, i + 1));
            }
            insert_sorted_row(&mut sorted, x);
            i = i + 1;
        }
        proof {
            assert(self.entries().subrange(0, n as int) =~= self.entries());
            lemma_row_order_total();
            self.entries().lemma_sort_by_ensures(spec_row_order());
            vstd::seq_lib::lemma_sorted_unique(
                sorted@.map_values(|r: Row| spec_row_view(r)),
                self.spec_sorted(),
                spec_row_order(),
            );
            assert(sorted@.map_values(|r: Row| spec_row_view(r)) == self.spec_sorted());
            self.entries().to_multiset_ensures();
            self.spec_sorted().to_multiset_ensures();
            assert(self.spec_sorted().len() == self.entries().len());
            assert(sorted@.len() == sorted@.map_values(|r: Row| spec_row_view(r)).len());
        }
        let keep = if self.max_entries == 0 || self.max_entries > sorted.len() {
            sorted.len()
        } else {
            self.max_entries
        };
        proof {
            assert(keep as int == spec_keep(self.entries().len() as int, self.max_entries()));
            assert(sorted@.map_values(|r: Row| spec_row_view(r)).subrange(0, keep as int)
                == self.spec_kept());
        }
        render_table(&sorted, keep)
    }
}

impl Record for Stats {
    /// Folds one observation into the histogram, as the inherent method
    /// does.
    fn recordObject(&mut self, class_name: String, object_size: i64)
        ensures
            final(self).entries() == spec_record(
                old(self).entries(),
                class_name@,
                object_size as int,
            ),
            final(self).max_entries() == old(self).max_entries(),
    {
        Stats::recordObject(self, class_name, object_size)
    }
}

impl Print for Stats {
    /// Renders the table, as the inherent method does.
    fn print(&self) -> (r: String)
        ensures
            r@ == spec_stats_table(self.spec_kept()),
    {
        Stats::print(self)
    }
}

/// Renders the first `keep` rows as the table.
#[verifier::rlimit(60)]
fn render_table(sorted: &Vec<Row>, keep: usize) -> (r: String)
    requires
        keep <= sorted@.len(),
    ensures
        r@ == spec_stats_table(sorted@.map_values(|f: Row| spec_row_view(f)).subrange(0, keep as int)),
{
    let ghost rows = sorted@.map_values(|f: Row| spec_row_view(f)).subrange(0, keep as int);
    let mut width: usize = 10;
    let mut i: usize = 0;
    proof {
        assert(rows.subrange(0, 0) =~= Seq::<RowView>::empty());
    }
    while i < keep
        invariant
            i <= keep,
            keep <= sorted@.len(),
            rows == sorted@.map_values(|f: Row| spec_row_view(f)).subrange(0, keep as int),
            width == spec_name_width(rows.subrange(0, i as int)),
            width >= 10,
        decreases keep - i,
    {
        let len = sorted[i].0.as_str().unicode_len();
        proof {
            assert(rows.subrange(0, i + 1).drop_last() =~= rows.subrange(0, i as int));
            assert(rows.subrange(0, i + 1).last() == rows[i as int]);
            assert(rows[i as int].0 == sorted@.map_values(|f: Row| spec_row_view(f))[i as int].0);
        }
        if len > width {
            width = len;
        }
        i = i + 1;
    }
    proof {
        assert(rows.subrange(0, keep as int) =~= rows);
    }
    let mut out = String::from_str("| Instance Count | Total Bytes | Class Name");
    out.append(spaces(width - 10).as_str());
    out.append(" |\n");
    proof {
        assert(out@ == spec_stats_header(width as int));
    }
    let ghost head = out@;
    let mut k: usize = 0;
    proof {
        assert(rows.subrange(0, 0) =~= Seq::<RowView>::empty());
    }
    while k < keep
        invariant
            k <= keep,
            keep <= sorted@.len(),
            rows == sorted@.map_values(|f: Row| spec_row_view(f)).subrange(0, keep as int),
            width >= 10,
            out@ == head + spec_stats_rows(rows.subrange(0, k as int), width as int),
        decreases keep - k,
    {
        let e = &sorted[k];
        out.append("| ");
        out.append(pad_right(udec(e.1 as u64).as_str(), 14).as_str());
        out.append(" | ");
        out.append(pad_right(idec(e.2).as_str(), 11).as_str());
        out.append(" | ");
        out.append(pad_right(e.0.as_str(), width).as_str());
        out.append(" |\n");
        proof {
            assert(rows[k as int] == spec_row_view(sorted@[k as int]));
            lemma_stats_rows_snoc(rows, width as int, k as int);
        }
        k = k + 1;
    }
    proof {
        assert(rows.subrange(0, keep as int) =~= rows);
    }
    out
}

} // verus!
