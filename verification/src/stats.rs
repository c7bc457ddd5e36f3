//! Column statistics: null count, the set of distinct non-null textual
//! renderings, and the lexicographic minimum and maximum rendering. The
//! statistics are computed by a fold whose merge operation is proved
//! associative and commutative, so any partition of a column into
//! contiguous chunks, folded per chunk and merged, yields the same result
//! as one pass over the whole column.

use vstd::prelude::*;
use vstd::seq_lib::*;
use vstd::string::*;

use crate::cells::{cell_is_empty, cell_text, spec_cell_text, Cell};
use crate::headers::str_views;
use crate::text::{contains_string, lemma_str_lt_transitive, lemma_str_lt_trichotomy, str_lt,
    str_lt_spec};

verus! {

/// The view of an optional string.
pub open spec fn opt_str_view(o: Option<String>) -> Option<Seq<char>> {
    match o {
        Option::None => Option::None,
        Option::Some(s) => Option::Some(s@),
    }
}

/// Merges two optional minima: `None` is the identity, two values keep the
/// lexicographically smaller one.
pub open spec fn merge_min_opt(a: Option<Seq<char>>, b: Option<Seq<char>>) -> Option<Seq<char>> {
    match (a, b) {
        (Option::None, Option::None) => Option::None,
        (Option::Some(x), Option::None) => Option::Some(x),
        (Option::None, Option::Some(y)) => Option::Some(y),
        (Option::Some(x), Option::Some(y)) => Option::Some(
            if str_lt_spec(x, y) {
                x
            } else {
                y
            },
        ),
    }
}

/// Merges two optional maxima: `None` is the identity, two values keep the
/// lexicographically larger one.
pub open spec fn merge_max_opt(a: Option<Seq<char>>, b: Option<Seq<char>>) -> Option<Seq<char>> {
    match (a, b) {
        (Option::None, Option::None) => Option::None,
        (Option::Some(x), Option::None) => Option::Some(x),
        (Option::None, Option::Some(y)) => Option::Some(y),
        (Option::Some(x), Option::Some(y)) => Option::Some(
            if str_lt_spec(y, x) {
                x
            } else {
                y
            },
        ),
    }
}

/// The statistics of one column, over mathematical values.
pub ghost struct SpecColumnStats {
    pub nulls: int,
    pub seen: Set<Seq<char>>,
    pub min: Option<Seq<char>>,
    pub max: Option<Seq<char>>,
}

/// The merge of two partial statistics: null counts add, distinct sets
/// union, minima and maxima merge by order.
pub open spec fn spec_merge_stats(a: SpecColumnStats, b: SpecColumnStats) -> SpecColumnStats {
    SpecColumnStats {
        nulls: a.nulls + b.nulls,
        seen: a.seen.union(b.seen),
        min: merge_min_opt(a.min, b.min),
        max: merge_max_opt(a.max, b.max),
    }
}

/// The statistics contributed by a single cell.
pub open spec fn spec_cell_stats(c: Cell) -> SpecColumnStats {
    if c is Empty {
        SpecColumnStats { nulls: 1, seen: Set::empty(), min: Option::None, max: Option::None }
    } else {
        SpecColumnStats {
            nulls: 0,
            seen: Set::empty().insert(spec_cell_text(c)),
            min: Option::Some(spec_cell_text(c)),
            max: Option::Some(spec_cell_text(c)),
        }
    }
}

pub open spec fn spec_empty_stats() -> SpecColumnStats {
    SpecColumnStats { nulls: 0, seen: Set::empty(), min: Option::None, max: Option::None }
}

/// The statistics of a whole column, folded left to right.
pub open spec fn spec_column_stats(values: Seq<Cell>) -> SpecColumnStats
    decreases values.len(),
{
    if values.len() == 0 {
        spec_empty_stats()
    } else {
        spec_merge_stats(spec_column_stats(values.drop_last()), spec_cell_stats(values.last()))
    }
}

/// The empty statistics are the identity of the merge.
pub proof fn lemma_merge_stats_identity(a: SpecColumnStats)
    ensures
        spec_merge_stats(spec_empty_stats(), a) == a,
        spec_merge_stats(a, spec_empty_stats()) == a,
{
    assert(Set::empty().union(a.seen) =~= a.seen);
    assert(a.seen.union(Set::empty()) =~= a.seen);
}

/// The merge of minima is associative and commutative.
pub proof fn lemma_merge_min_assoc(a: Option<Seq<char>>, b: Option<Seq<char>>, c: Option<
    Seq<char>,
>)
    ensures
        merge_min_opt(merge_min_opt(a, b), c) == merge_min_opt(a, merge_min_opt(b, c)),
        merge_min_opt(a, b) == merge_min_opt(b, a),
{
    if a is Some && b is Some {
        lemma_str_lt_trichotomy(a->0, b->0);
    }
    if a is Some && b is Some && c is Some {
        let (x, y, z) = (a->0, b->0, c->0);
        lemma_str_lt_trichotomy(x, y);
        lemma_str_lt_trichotomy(y, z);
        lemma_str_lt_trichotomy(x, z);
        lemma_str_lt_transitive(x, y, z);
        lemma_str_lt_transitive(x, z, y);
        lemma_str_lt_transitive(y, x, z);
        lemma_str_lt_transitive(y, z, x);
        lemma_str_lt_transitive(z, x, y);
        lemma_str_lt_transitive(z, y, x);
    }
}

/// The merge of maxima is associative and commutative.
pub proof fn lemma_merge_max_assoc(a: Option<Seq<char>>, b: Option<Seq<char>>, c: Option<
    Seq<char>,
>)
    ensures
        merge_max_opt(merge_max_opt(a, b), c) == merge_max_opt(a, merge_max_opt(b, c)),
        merge_max_opt(a, b) == merge_max_opt(b, a),
{
    if a is Some && b is Some {
        lemma_str_lt_trichotomy(a->0, b->0);
    }
    if a is Some && b is Some && c is Some {
        let (x, y, z) = (a->0, b->0, c->0);
        lemma_str_lt_trichotomy(x, y);
        lemma_str_lt_trichotomy(y, z);
        lemma_str_lt_trichotomy(x, z);
        lemma_str_lt_transitive(x, y, z);
        lemma_str_lt_transitive(x, z, y);
        lemma_str_lt_transitive(y, x, z);
        lemma_str_lt_transitive(y, z, x);
        lemma_str_lt_transitive(z, x, y);
        lemma_str_lt_transitive(z, y, x);
    }
}

/// The merge of partial statistics is associative.
pub proof fn lemma_merge_stats_assoc(a: SpecColumnStats, b: SpecColumnStats, c: SpecColumnStats)
    ensures
        spec_merge_stats(spec_merge_stats(a, b), c) == spec_merge_stats(a, spec_merge_stats(b, c)),
{
    lemma_merge_min_assoc(a.min, b.min, c.min);
    lemma_merge_max_assoc(a.max, b.max, c.max);
    assert(a.seen.union(b.seen).union(c.seen) =~= a.seen.union(b.seen.union(c.seen)));
}

/// The merge of partial statistics is commutative.
pub proof fn lemma_merge_stats_comm(a: SpecColumnStats, b: SpecColumnStats)
    ensures
        spec_merge_stats(a, b) == spec_merge_stats(b, a),
{
    lemma_merge_min_assoc(a.min, b.min, Option::None);
    lemma_merge_max_assoc(a.max, b.max, Option::None);
    assert(a.seen.union(b.seen) =~= b.seen.union(a.seen));
}

/// Splitting a column into two contiguous parts and merging the parts'
/// statistics yields the statistics of the whole column.
pub proof fn lemma_stats_split(a: Seq<Cell>, b: Seq<Cell>)
    ensures
        spec_column_stats(a + b) == spec_merge_stats(spec_column_stats(a), spec_column_stats(b)),
    decreases b.len(),
{
    if b.len() == 0 {
        assert(a + b =~= a);
        lemma_merge_stats_identity(spec_column_stats(a));
    } else {
        let b0 = b.drop_last();
        assert((a + b).drop_last() =~= a + b0);
        assert((a + b).last() == b.last());
        lemma_stats_split(a, b0);
        lemma_merge_stats_assoc(
            spec_column_stats(a),
            spec_column_stats(b0),
            spec_cell_stats(b.last()),
        );
    }
}

/// The null count never exceeds the number of values, and the distinct set
/// is finite with at most as many members as there are values.
pub proof fn lemma_stats_bounds(values: Seq<Cell>)
    ensures
        0 <= spec_column_stats(values).nulls <= values.len(),
        spec_column_stats(values).seen.finite(),
        spec_column_stats(values).seen.len() + spec_column_stats(values).nulls <= values.len(),
    decreases values.len(),
{
    if values.len() > 0 {
        lemma_stats_bounds(values.drop_last());
        let pre = spec_column_stats(values.drop_last());
        let one = spec_cell_stats(values.last());
        vstd::set_lib::lemma_len_union::<Seq<char>>(pre.seen, one.seen);
    }
}

/// The fold of per-chunk statistics over a list of chunks.
pub open spec fn spec_fold_chunk_stats(chunks: Seq<Seq<Cell>>) -> SpecColumnStats
    decreases chunks.len(),
{
    if chunks.len() == 0 {
        spec_empty_stats()
    } else {
        spec_merge_stats(
            spec_fold_chunk_stats(chunks.drop_last()),
            spec_column_stats(chunks.last()),
        )
    }
}

/// Partitioning a column into any number of contiguous chunks, computing
/// statistics per chunk, and merging them, yields exactly the statistics of
/// the whole column.
pub proof fn lemma_stats_partition(chunks: Seq<Seq<Cell>>)
    ensures
        spec_fold_chunk_stats(chunks) == spec_column_stats(chunks.flatten()),
    decreases chunks.len(),
{
    if chunks.len() == 0 {
        assert(chunks.flatten() =~= Seq::<Cell>::empty());
    } else {
        lemma_stats_partition(chunks.drop_last());
        chunks.lemma_flatten_and_flatten_alt_are_equivalent();
        chunks.drop_last().lemma_flatten_and_flatten_alt_are_equivalent();
        assert(chunks.flatten() =~= chunks.drop_last().flatten() + chunks.last()) by {
            lemma_flatten_split(chunks);
        }
        lemma_stats_split(chunks.drop_last().flatten(), chunks.last());
    }
}

proof fn lemma_flatten_split(chunks: Seq<Seq<Cell>>)
    requires
        chunks.len() > 0,
    ensures
        chunks.flatten() == chunks.drop_last().flatten() + chunks.last(),
    decreases chunks.len(),
{
    if chunks.len() == 1 {
        assert(chunks.drop_last() =~= Seq::<Seq<Cell>>::empty());
        assert(chunks.drop_last().flatten() =~= Seq::<Cell>::empty());
        assert(chunks.flatten() =~= chunks[0] + chunks.drop_first().flatten());
        assert(chunks.drop_first() =~= Seq::<Seq<Cell>>::empty());
        assert(chunks.flatten() =~= chunks.drop_last().flatten() + chunks.last());
    } else {
        lemma_flatten_split(chunks.drop_first());
        assert(chunks.flatten() == chunks[0] + chunks.drop_first().flatten());
        assert(chunks.drop_first().drop_last() =~= chunks.drop_last().drop_first());
        assert(chunks.drop_first().last() == chunks.last());
        assert(chunks.drop_last().flatten() == chunks.drop_last()[0]
            + chunks.drop_last().drop_first().flatten());
        assert(chunks.drop_last()[0] == chunks[0]);
        assert(chunks.flatten() =~= chunks.drop_last().flatten() + chunks.last()) by {
            assert(chunks.flatten() == chunks[0] + (chunks.drop_first().drop_last().flatten()
                + chunks.last()));
        }
    }
}

proof fn lemma_push_to_set(s: Seq<Seq<char>>, x: Seq<char>)
    ensures
        s.push(x).to_set() == s.to_set().insert(x),
{
    assert forall|e: Seq<char>| s.push(x).to_set().contains(e) implies s.to_set().insert(
        x,
    ).contains(e) by {
        let k = choose|k: int| 0 <= k < s.push(x).len() && s.push(x)[k] == e;
        if k < s.len() {
            assert(s[k] == e);
        }
    }
    assert forall|e: Seq<char>| s.to_set().insert(x).contains(e) implies s.push(
        x,
    ).to_set().contains(e) by {
        if e == x {
            assert(s.push(x)[s.len() as int] == e);
        } else {
            let k = choose|k: int| 0 <= k < s.len() && s[k] == e;
            assert(s.push(x)[k] == e);
        }
    }
    assert(s.push(x).to_set() =~= s.to_set().insert(x));
}

// ---------------------------------------------------------------------------
// Executable computation
// ---------------------------------------------------------------------------

/// Folds one rendering into a running (minimum, maximum) pair: the value
/// replaces the minimum when strictly smaller and the maximum when strictly
/// larger; an absent bound is taken over directly.
pub fn update_min_max(min_max: &mut (Option<String>, Option<String>), value: &str)
    ensures
        opt_str_view(final(min_max).0) == merge_min_opt(
            opt_str_view(old(min_max).0),
            Option::Some(value@),
        ),
        opt_str_view(final(min_max).1) == merge_max_opt(
            opt_str_view(old(min_max).1),
            Option::Some(value@),
        ),
{
    let replace_min = match &min_max.0 {
        Option::Some(m) => {
            proof {
                lemma_str_lt_trichotomy(value@, m@);
            }
            str_lt(value, m.as_str())
        },
        Option::None => true,
    };
    if replace_min {
        min_max.0 = Option::Some(String::from_str(value));
    }
    let replace_max = match &min_max.1 {
        Option::Some(m) => {
            proof {
                lemma_str_lt_trichotomy(m@, value@);
            }
            str_lt(m.as_str(), value)
        },
        Option::None => true,
    };
    if replace_max {
        min_max.1 = Option::Some(String::from_str(value));
    }
}

/// Merges two (minimum, maximum) pairs from disjoint chunks of a column.
pub fn merge_min_max(
    a: (Option<String>, Option<String>),
    b: (Option<String>, Option<String>),
) -> (r: (Option<String>, Option<String>))
    ensures
        opt_str_view(r.0) == merge_min_opt(opt_str_view(a.0), opt_str_view(b.0)),
        opt_str_view(r.1) == merge_max_opt(opt_str_view(a.1), opt_str_view(b.1)),
{
    let min = match (a.0, b.0) {
        (Option::None, Option::None) => Option::None,
        (Option::Some(v), Option::None) => Option::Some(v),
        (Option::None, Option::Some(v)) => Option::Some(v),
        (Option::Some(v1), Option::Some(v2)) => {
            proof {
                lemma_str_lt_trichotomy(v1@, v2@);
            }
            Option::Some(
                if str_lt(v1.as_str(), v2.as_str()) {
                    v1
                } else {
                    v2
                },
            )
        },
    };
    let max = match (a.1, b.1) {
        (Option::None, Option::None) => Option::None,
        (Option::Some(v), Option::None) => Option::Some(v),
        (Option::None, Option::Some(v)) => Option::Some(v),
        (Option::Some(v1), Option::Some(v2)) => {
            proof {
                lemma_str_lt_trichotomy(v2@, v1@);
            }
            Option::Some(
                if str_lt(v2.as_str(), v1.as_str()) {
                    v1
                } else {
                    v2
                },
            )
        },
    };
    (min, max)
}

/// The executable statistics of one column.
pub struct ColumnStats {
    /// How many cells were empty.
    pub null_count: usize,
    /// The distinct renderings of the non-empty cells, in first-seen order.
    pub distinct: Vec<String>,
    /// The lexicographically smallest rendering of a non-empty cell.
    pub min_value: Option<String>,
    /// The lexicographically largest rendering of a non-empty cell.
    pub max_value: Option<String>,
}

/// Computes the column statistics in one pass.
pub fn compute_column_stats(values: &Vec<Cell>) -> (s: ColumnStats)
    ensures
        s.null_count == spec_column_stats(values@).nulls,
        str_views(s.distinct@).to_set() == spec_column_stats(values@).seen,
        str_views(s.distinct@).no_duplicates(),
        s.distinct@.len() == spec_column_stats(values@).seen.len(),
        opt_str_view(s.min_value) == spec_column_stats(values@).min,
        opt_str_view(s.max_value) == spec_column_stats(values@).max,
{
    let mut null_count: usize = 0;
    let mut distinct: Vec<String> = Vec::new();
    let mut min_max: (Option<String>, Option<String>) = (Option::None, Option::None);
    let mut i: usize = 0;
    proof {
        assert(values@.take(0) =~= Seq::<Cell>::empty());
        assert(str_views(distinct@).to_set() =~= Set::<Seq<char>>::empty());
    }
    while i < values.len()
        invariant
            i <= values.len(),
            null_count <= i,
            null_count == spec_column_stats(values@.take(i as int)).nulls,
            str_views(distinct@).to_set() == spec_column_stats(values@.take(i as int)).seen,
            str_views(distinct@).no_duplicates(),
            opt_str_view(min_max.0) == spec_column_stats(values@.take(i as int)).min,
            opt_str_view(min_max.1) == spec_column_stats(values@.take(i as int)).max,
        decreases values.len() - i,
    {
        proof {
            assert(values@.take(i + 1).drop_last() =~= values@.take(i as int));
            assert(values@.take(i + 1).last() == values@[i as int]);
        }
        let c = &values[i];
        if cell_is_empty(c) {
            null_count = null_count + 1;
            proof {
                assert(str_views(distinct@).to_set().union(Set::empty()) =~= str_views(
                    distinct@,
                ).to_set());
            }
        } else {
            let text = cell_text(c);
            let ghost pre_views = str_views(distinct@);
            if !contains_string(&distinct, &text) {
                distinct.push(text.clone());
                proof {
                    assert(str_views(distinct@) =~= pre_views.push(text@));
                    lemma_push_to_set(pre_views, text@);
                    assert(str_views(distinct@).to_set() =~= pre_views.to_set().insert(text@));
                    assert(str_views(distinct@).drop_last() =~= pre_views);
                }
            } else {
                proof {
                    assert(pre_views.to_set().contains(text@));
                    assert(pre_views.to_set() =~= pre_views.to_set().insert(text@));
                }
            }
            proof {
                assert(str_views(distinct@).to_set() =~= pre_views.to_set().union(
                    Set::empty().insert(text@),
                ));
            }
            update_min_max(&mut min_max, text.as_str());
        }
        i = i + 1;
    }
    proof {
        assert(values@.take(values@.len() as int) =~= values@);
        str_views(distinct@).unique_seq_to_set();
    }
    ColumnStats { null_count, distinct, min_value: min_max.0, max_value: min_max.1 }
}

} // verus!
