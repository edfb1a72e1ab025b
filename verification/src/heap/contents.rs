//! Per-class accumulation over one live-heap traversal.
//!
//! The host reports each reachable object, possibly several times through
//! different referrers, as `(class_tag, size, tag_cell)`.  `visit` is the
//! callback's whole logic: an object whose cell already carries the
//! visited bit is skipped, any other object has the bit set in its cell
//! and is counted exactly once.  `analyze_heap` then orders the totals by
//! descending byte count.

use vstd::prelude::*;

use vstd::multiset::Multiset;
use vstd::relations::sorted_by;

verus! {

/// The reserved visited-mark bit of a tag cell.  Class tags are kept
/// strictly below it, so a marked cell can never read as a plain tag.
pub const TAG_VISITED_MASK: i64 = 0x8000_0000;

/// The host's "continue visiting references" return code.
pub const VISIT_OBJECTS: i32 = 0x100;

/// One class's row of the census.
#[derive(Clone, Copy, Debug, PartialEq, Eq, Structural)]
pub struct Statistics {
    pub count: usize,
    pub total_size: i64,
    pub tag: i64,
}

/// Addition on the instance counter, capped at the machine word.
pub open spec fn spec_sat_add_count(a: int, b: int) -> int {
    if a + b > usize::MAX {
        usize::MAX as int
    } else {
        a + b
    }
}

/// Addition on the byte total, capped at the `i64` range.
pub open spec fn spec_sat_add_size(a: int, b: int) -> int {
    if a + b > i64::MAX {
        i64::MAX as int
    } else if a + b < i64::MIN {
        i64::MIN as int
    } else {
        a + b
    }
}

/// One `(tag, size)` observation folded into the census rows: the row of
/// `tag` has its count raised by one and its total raised by `size`; a tag
/// without a row gets a fresh one at the end.
pub open spec fn spec_tally(rows: Seq<Statistics>, tag: i64, size: i64) -> Seq<Statistics>
    decreases rows.len(),
{
    if rows.len() == 0 {
        seq![Statistics { count: 1, total_size: size, tag }]
    } else if rows[0].tag == tag {
        seq![
            Statistics {
                count: spec_sat_add_count(rows[0].count as int, 1) as usize,
                total_size: spec_sat_add_size(rows[0].total_size as int, size as int) as i64,
                tag,
            },
        ] + rows.subrange(1, rows.len() as int)
    } else {
        seq![rows[0]] + spec_tally(rows.subrange(1, rows.len() as int), tag, size)
    }
}

/// The census order: more bytes first; among equal byte totals the smaller
/// tag, then the smaller count.
pub open spec fn spec_stat_leq(a: Statistics, b: Statistics) -> bool {
    a.total_size > b.total_size || (a.total_size == b.total_size && (a.tag < b.tag || (a.tag
        == b.tag && a.count <= b.count)))
}

/// The census order as a relation value, for `sorted_by`.
pub open spec fn spec_stat_order() -> spec_fn(Statistics, Statistics) -> bool {
    |a: Statistics, b: Statistics| spec_stat_leq(a, b)
}

pub struct Contents {
    totals: Vec<Statistics>,
    contents: Vec<Statistics>,
}

impl Contents {
    /// The accumulated rows, in first-seen order.
    pub closed spec fn totals(&self) -> Seq<Statistics> {
        self.totals@
    }

    /// The ordered rows, as `analyze_heap` left them.
    pub closed spec fn ordered(&self) -> Seq<Statistics> {
        self.contents@
    }

    pub fn new() -> (r: Contents)
        ensures
            r.totals().len() == 0,
            r.ordered().len() == 0,
    {
        Contents { totals: Vec::new(), contents: Vec::new() }
    }

    /// The traversal callback's logic for one reported object.  Returns
    /// the new value of the object's tag cell and the code handed back to
    /// the host: an already-visited object is skipped with code zero, a
    /// fresh object is marked, counted under `class_tag` without the mark
    /// bit, and traversal continues.
    pub fn visit(&mut self, class_tag: i64, size: i64, tag_cell: i64) -> (r: (i64, i32))
        ensures
            final(self).ordered() == old(self).ordered(),
            tag_cell & TAG_VISITED_MASK == TAG_VISITED_MASK ==> r == (tag_cell, 0i32)
                && final(self).totals() == old(self).totals(),
            tag_cell & TAG_VISITED_MASK != TAG_VISITED_MASK ==> r.0 == (tag_cell
                | TAG_VISITED_MASK) && r.1 == VISIT_OBJECTS && r.0 & TAG_VISITED_MASK
                == TAG_VISITED_MASK && final(self).totals() == spec_tally(
                old(self).totals(),
                class_tag & !TAG_VISITED_MASK,
                size,
            ),
    {
        if tag_cell & TAG_VISITED_MASK == TAG_VISITED_MASK {
            return (tag_cell, 0);
        }
        let new_cell = tag_cell | TAG_VISITED_MASK;
        proof {
            assert((tag_cell | 0x8000_0000i64) & 0x8000_0000i64 == 0x8000_0000i64) by (bit_vector);
        }
        let tag = class_tag & !TAG_VISITED_MASK;
        self.tally(tag, size);
        (new_cell, VISIT_OBJECTS)
    }

    /// Folds one observation into the accumulated rows.
    fn tally(&mut self, tag: i64, size: i64)
        ensures
            final(self).totals() == spec_tally(old(self).totals(), tag, size),
            final(self).ordered() == old(self).ordered(),
    {
        let n = self.totals.len();
        let mut i: usize = 0;
        while i < n
            invariant
                i <= n,
                n == self.totals@.len(),
                self == old(self),
                forall|j: int| 0 <= j < i ==> self.totals@[j].tag != tag,
            decreases n - i,
        {
            if self.totals[i].tag == tag {
                let row = self.totals[i];
                let count = row.count.saturating_add(1);
                let total_size = match row.total_size.checked_add(size) {
                    Some(t) => t,
                    None => {
                        if size >= 0 {
                            i64::MAX
                        } else {
                            i64::MIN
                        }
                    },
                };
                self.totals.set(i, Statistics { count, total_size, tag });
                proof {
                    lemma_tally_at(old(self).totals@, tag, size, i as int);
                }
                return ;
            }
            i = i + 1;
        }
        self.totals.push(Statistics { count: 1, total_size: size, tag });
        proof {
            lemma_tally_absent(old(self).totals@, tag, size);
        }
    }

    /// Orders the accumulated rows by descending byte total; the result is
    /// the unique reordering of the rows that the census order accepts.
    pub fn analyze_heap(&mut self)
        ensures
            final(self).totals() == old(self).totals(),
            final(self).ordered().to_multiset() == old(self).totals().to_multiset(),
            sorted_by(final(self).ordered(), spec_stat_order()),
    {
        let mut sorted: Vec<Statistics> = Vec::new();
        let n = self.totals.len();
        let mut i: usize = 0;
        proof {
            assert(self.totals@.subrange(0, 0) =~= Seq::<Statistics>::empty());
            lemma_to_multiset_empty_stats(self.totals@.subrange(0, 0));
            lemma_to_multiset_empty_stats(sorted@);
        }
        while i < n
            invariant
                i <= n,
                n == self.totals@.len(),
                self == old(self),
                sorted@.to_multiset() == self.totals@.subrange(0, i as int).to_multiset(),
                sorted_by(sorted@, spec_stat_order()),
            decreases n - i,
        {
            let x = self.totals[i];
            proof {
                lemma_to_multiset_push(self.totals@.subrange(0, i as int), x);
                assert(self.totals@.subrange(0, i as int).push(x) =~= self.totals@.subrange(
                    0,
                    i + 1,
                ));
            }
            insert_sorted(&mut sorted, x);
            i = i + 1;
        }
        proof {
            assert(self.totals@.subrange(0, n as int) =~= self.totals@);
        }
        self.contents = sorted;
    }

    /// The first `limit` ordered rows.
    pub fn get_contents(&self, limit: usize) -> (r: Vec<Statistics>)
        ensures
            self.ordered().len() <= usize::MAX,
            r@ == self.ordered().subrange(
                0,
                if limit <= self.ordered().len() {
                    limit as int
                } else {
                    self.ordered().len() as int
                },
            ),
    {
        let keep = if limit <= self.contents.len() {
            limit
        } else {
            self.contents.len()
        };
        let mut r: Vec<Statistics> = Vec::new();
        let mut i: usize = 0;
        while i < keep
            invariant
                i <= keep,
                keep <= self.contents@.len(),
                r@ =~= self.contents@.subrange(0, i as int),
            decreases keep - i,
        {
            r.push(self.contents[i]);
            i = i + 1;
        }
        r
    }
}

/// Inserts `x` into a run of rows kept in census order.
fn insert_sorted(v: &mut Vec<Statistics>, x: Statistics)
    requires
        sorted_by(old(v)@, spec_stat_order()),
    ensures
        final(v)@.to_multiset() == old(v)@.to_multiset().insert(x),
        sorted_by(final(v)@, spec_stat_order()),
{
    let n = v.len();
    let mut i: usize = 0;
    while i < n && (v[i].total_size > x.total_size || (v[i].total_size == x.total_size && (v[i].tag
        < x.tag || (v[i].tag == x.tag && v[i].count <= x.count))))
        invariant
            i <= n,
            n == v@.len(),
            v == old(v),
            forall|j: int| 0 <= j < i ==> spec_stat_leq(#[trigger] v@[j], x),
        decreases n - i,
    {
        i = i + 1;
    }
    proof {
        assert(i == n || !spec_stat_leq(v@[i as int], x));
    }
    v.insert(i, x);
    proof {
        let ov = old(v)@;
        lemma_to_multiset_insert(ov, i as int, x);
        assert(v@ =~= ov.insert(i as int, x));
        assert forall|p: int, q: int| 0 <= p < q < v@.len() implies #[trigger] spec_stat_order()(
            v@[p],
            v@[q],
        ) by {
            let k = i as int;
            if q < k {
                assert(v@[p] == ov[p] && v@[q] == ov[q]);
                assert(spec_stat_order()(ov[p], ov[q]));
            } else if q == k {
                assert(v@[p] == ov[p] && v@[q] == x);
            } else {
                assert(v@[q] == ov[q - 1]);
                if p < k {
                    assert(v@[p] == ov[p]);
                    if p < q - 1 {
                        assert(spec_stat_order()(ov[p], ov[q - 1]));
                    }
                } else if p == k {
                    assert(v@[p] == x);
                    assert(!spec_stat_leq(ov[k], x));
                    if k < q - 1 {
                        assert(spec_stat_order()(ov[k], ov[q - 1]));
                    }
                } else {
                    assert(v@[p] == ov[p - 1]);
                    if p - 1 < q - 1 {
                        assert(spec_stat_order()(ov[p - 1], ov[q - 1]));
                    }
                }
            }
        }
    }
}

/// One observation folded `n` times, starting from `rows`.
pub open spec fn spec_tally_n(rows: Seq<Statistics>, tag: i64, size: i64, n: nat) -> Seq<
    Statistics,
>
    decreases n,
{
    if n == 0 {
        rows
    } else {
        spec_tally(spec_tally_n(rows, tag, size, (n - 1) as nat), tag, size)
    }
}

/// The accumulation law of the census: recording the same `(tag, size)`
/// observation `n` times from nothing yields a single row with count `n`
/// and byte total `n * size`.
pub proof fn lemma_tally_repeat(tag: i64, size: i64, n: nat)
    requires
        1 <= n <= usize::MAX,
        0 <= size,
        n * size <= i64::MAX,
    ensures
        spec_tally_n(Seq::<Statistics>::empty(), tag, size, n) == seq![
            Statistics { count: n as usize, total_size: (n * size) as i64, tag },
        ],
    decreases n,
{
    if n == 1 {
        assert(1 * size == size) by (nonlinear_arith);
        assert(spec_tally_n(Seq::<Statistics>::empty(), tag, size, 0) == Seq::<
            Statistics,
        >::empty());
        assert(spec_tally_n(Seq::<Statistics>::empty(), tag, size, 1) =~= seq![
            Statistics { count: 1usize, total_size: (1 * size) as i64, tag },
        ]);
    } else {
        let m = (n - 1) as nat;
        assert(m * size <= n * size && 0 <= m * size) by (nonlinear_arith)
            requires
                0 <= size,
                1 <= m < n,
        ;
        lemma_tally_repeat(tag, size, m);
        let prev = spec_tally_n(Seq::<Statistics>::empty(), tag, size, m);
        assert(prev[0].tag == tag);
        assert(m * size + size == n * size) by (nonlinear_arith)
            requires
                m == n - 1,
        ;
        assert(spec_tally(prev, tag, size) =~= seq![
            Statistics { count: n as usize, total_size: (n * size) as i64, tag },
        ]);
    }
}

/// Truncating an ordered census keeps exactly the top rows: every kept
/// row comes no later in the census order than every dropped row.
pub proof fn lemma_sorted_truncation(s: Seq<Statistics>, k: int)
    requires
        sorted_by(s, spec_stat_order()),
        0 <= k <= s.len(),
    ensures
        forall|i: int, j: int|
            0 <= i < k <= j < s.len() ==> spec_stat_leq(#[trigger] s[i], #[trigger] s[j]),
{
    assert forall|i: int, j: int|
        0 <= i < k <= j < s.len() implies spec_stat_leq(#[trigger] s[i], #[trigger] s[j]) by {
        assert(spec_stat_order()(s[i], s[j]));
    }
}

/// Folding an observation that matches the row at `k`: every other row
/// keeps its place and its figures.
pub proof fn lemma_tally_at(rows: Seq<Statistics>, tag: i64, size: i64, k: int)
    requires
        0 <= k < rows.len(),
        rows[k].tag == tag,
        forall|j: int| 0 <= j < k ==> rows[j].tag != tag,
    ensures
        spec_tally(rows, tag, size) =~= rows.update(
            k,
            Statistics {
                count: spec_sat_add_count(rows[k].count as int, 1) as usize,
                total_size: spec_sat_add_size(rows[k].total_size as int, size as int) as i64,
                tag,
            },
        ),
    decreases rows.len(),
{
    let t = rows.subrange(1, rows.len() as int);
    if k == 0 {
        assert(spec_tally(rows, tag, size) =~= rows.update(
            0,
            Statistics {
                count: spec_sat_add_count(rows[0].count as int, 1) as usize,
                total_size: spec_sat_add_size(rows[0].total_size as int, size as int) as i64,
                tag,
            },
        ));
    } else {
        assert(t[k - 1].tag == tag);
        assert forall|j: int| 0 <= j < k - 1 implies t[j].tag != tag by {
            assert(t[j] == rows[j + 1]);
        }
        lemma_tally_at(t, tag, size, k - 1);
        assert(seq![rows[0]] + t.update(
            k - 1,
            Statistics {
                count: spec_sat_add_count(t[k - 1].count as int, 1) as usize,
                total_size: spec_sat_add_size(t[k - 1].total_size as int, size as int) as i64,
                tag,
            },
        ) =~= rows.update(
            k,
            Statistics {
                count: spec_sat_add_count(rows[k].count as int, 1) as usize,
                total_size: spec_sat_add_size(rows[k].total_size as int, size as int) as i64,
                tag,
            },
        ));
    }
}

/// Folding an observation whose tag has no row yet: the old rows stay
/// untouched and the new tag gets its own fresh row at the end.
pub proof fn lemma_tally_absent(rows: Seq<Statistics>, tag: i64, size: i64)
    requires
        forall|j: int| 0 <= j < rows.len() ==> rows[j].tag != tag,
    ensures
        spec_tally(rows, tag, size) =~= rows.push(Statistics { count: 1, total_size: size, tag }),
    decreases rows.len(),
{
    if rows.len() > 0 {
        let t = rows.subrange(1, rows.len() as int);
        assert forall|j: int| 0 <= j < t.len() implies t[j].tag != tag by {
            assert(t[j] == rows[j + 1]);
        }
        lemma_tally_absent(t, tag, size);
        assert(seq![rows[0]] + t.push(Statistics { count: 1, total_size: size, tag })
            =~= rows.push(Statistics { count: 1, total_size: size, tag }));
    }
}

proof fn lemma_to_multiset_empty_stats(s: Seq<Statistics>)
    requires
        s.len() == 0,
    ensures
        s.to_multiset() == Multiset::<Statistics>::empty(),
{
    s.to_multiset_ensures();
}

/// Pushing on a sequence inserts into its multiset.
proof fn lemma_to_multiset_push(s: Seq<Statistics>, x: Statistics)
    ensures
        s.push(x).to_multiset() == s.to_multiset().insert(x),
{
    s.to_multiset_ensures();
}

/// Inserting at any position inserts into the multiset.
proof fn lemma_to_multiset_insert(s: Seq<Statistics>, k: int, x: Statistics)
    requires
        0 <= k <= s.len(),
    ensures
        s.insert(k, x).to_multiset() == s.to_multiset().insert(x),
{
    vstd::seq_lib::lemma_multiset_commutative(s.subrange(0, k), s.subrange(k, s.len() as int));
    assert(s.subrange(0, k) + s.subrange(k, s.len() as int) =~= s);
    let w = s.subrange(0, k).push(x) + s.subrange(k, s.len() as int);
    assert(s.insert(k, x) =~= w);
    vstd::seq_lib::lemma_multiset_commutative(
        s.subrange(0, k).push(x),
        s.subrange(k, s.len() as int),
    );
    s.subrange(0, k).to_multiset_ensures();
}

} // verus!
