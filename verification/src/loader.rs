//! The relational loader. It owns one connection to the embedded store,
//! derives DDL from a frame's column kinds, inserts all rows in fixed-size
//! batches inside one transaction (committed only when every batch
//! succeeded, rolled back otherwise), tracks the most recently loaded table
//! and its column names, and keeps a capacity- and time-bounded cache of
//! loaded frames. Metadata and cache are published before the store is
//! touched, so `has_data` reports that a load was attempted, not that it
//! succeeded.

use vstd::prelude::*;
use vstd::string::*;

use crate::agent::AgentResponse;
use crate::db::{error_text, exec_sql, exec_sql_params, open_in_memory_conn, run_query,
    QueryTable, SqlOut, SqlParam};
use crate::error::AppError;
use crate::frame::{clone_column_data, col_data_view, col_view_len, frame_view, frame_view_wf,
    frame_wf, spec_frame_height, view_height, ColView, ColumnData, Frame, FrameColumn};
use crate::headers::str_views;
use crate::text::{i64_to_string, spec_i64_dec, str_eq};
use crate::{BATCH_SIZE, CACHE_CAPACITY, CACHE_TTL_SECONDS};

verus! {

// ---------------------------------------------------------------------------
// The bounded cache of loaded frames
// ---------------------------------------------------------------------------

/// The mathematical value of one cache entry.
pub ghost struct CacheEntryView {
    pub key: Seq<char>,
    pub frame: Seq<(Seq<char>, ColView)>,
    pub at: u64,
}

struct CacheEntry {
    key: String,
    frame: Frame,
    inserted_at: u64,
}

/// A capacity- and time-bounded map from table name to loaded frame.
/// Eviction is passive: expiry is checked on access, and the oldest entry
/// leaves when the capacity is exceeded.
pub struct TableCache {
    entries: Vec<CacheEntry>,
}

/// Cache well-formedness: distinct keys, within capacity.
pub open spec fn spec_cache_wf(s: Seq<CacheEntryView>) -> bool {
    &&& s.len() <= CACHE_CAPACITY
    &&& forall|i: int, j: int| 0 <= i < j < s.len() ==> s[i].key != s[j].key
}

/// What an insert does to the cache: any entry under the same key leaves,
/// the new entry is appended, and the oldest entry is evicted when the
/// capacity would be exceeded.
pub open spec fn spec_cache_insert(
    s: Seq<CacheEntryView>,
    key: Seq<char>,
    frame: Seq<(Seq<char>, ColView)>,
    now: u64,
) -> Seq<CacheEntryView> {
    let kept = s.filter(|e: CacheEntryView| e.key != key);
    let appended = kept.push(CacheEntryView { key, frame, at: now });
    if appended.len() > CACHE_CAPACITY {
        appended.skip(1)
    } else {
        appended
    }
}

/// What a lookup yields: the entry under the key, if one exists and its
/// time-to-live has not yet passed.
pub open spec fn spec_cache_lookup(s: Seq<CacheEntryView>, key: Seq<char>, now: u64) -> Option<
    Seq<(Seq<char>, ColView)>,
> {
    if exists|i: int| 0 <= i < s.len() && (#[trigger] s[i]).key == key {
        let i = choose|i: int| 0 <= i < s.len() && (#[trigger] s[i]).key == key;
        if s[i].at <= now < s[i].at + CACHE_TTL_SECONDS {
            Option::Some(s[i].frame)
        } else {
            Option::None
        }
    } else {
        Option::None
    }
}

impl TableCache {
    pub closed spec fn view_of(&self) -> Seq<CacheEntryView> {
        self.entries@.map_values(
            |e: CacheEntry|
                CacheEntryView { key: e.key@, frame: frame_view(e.frame), at: e.inserted_at },
        )
    }

    pub fn new() -> (r: Self)
        ensures
            r.view_of() == Seq::<CacheEntryView>::empty(),
            spec_cache_wf(r.view_of()),
    {
        let r = TableCache { entries: Vec::new() };
        proof {
            assert(r.view_of() =~= Seq::<CacheEntryView>::empty());
        }
        r
    }

    /// How many tables are cached.
    pub fn len(&self) -> (r: usize)
        ensures
            r == self.view_of().len(),
    {
        self.entries.len()
    }

    /// Inserts a frame under a table name, replacing any entry under the
    /// same name and evicting the oldest entry beyond capacity.
    pub fn insert(&mut self, key: &str, frame: Frame, now: u64)
        requires
            spec_cache_wf(old(self).view_of()),
        ensures
            final(self).view_of() == spec_cache_insert(
                old(self).view_of(),
                key@,
                frame_view(frame),
                now,
            ),
            spec_cache_wf(final(self).view_of()),
    {
        let ghost pre = self.view_of();
        let ghost pred = |e: CacheEntryView| e.key != key@;
        proof {
            reveal(Seq::filter);
        }
        // Drop any entry under the same key.
        let mut kept: Vec<CacheEntry> = Vec::new();
        let mut i: usize = 0;
        proof {
            assert(kept@.map_values(
                |e: CacheEntry|
                    CacheEntryView { key: e.key@, frame: frame_view(e.frame), at: e.inserted_at },
            ) =~= pre.take(0).filter(pred));
        }
        while i < self.entries.len()
            invariant
                i <= self.entries@.len(),
                pre == self.view_of(),
                pred == (|e: CacheEntryView| e.key != key@),
                kept@.map_values(
                    |e: CacheEntry|
                        CacheEntryView {
                            key: e.key@,
                            frame: frame_view(e.frame),
                            at: e.inserted_at,
                        },
                ) == pre.take(i as int).filter(pred),
            decreases self.entries@.len() - i,
        {
            proof {
                reveal(Seq::filter);
                assert(pre.take(i + 1).drop_last() =~= pre.take(i as int));
                assert(pre.take(i + 1).last() == pre[i as int]);
                assert(pre[i as int] == CacheEntryView {
                    key: self.entries@[i as int].key@,
                    frame: frame_view(self.entries@[i as int].frame),
                    at: self.entries@[i as int].inserted_at,
                });
            }
            let e = &self.entries[i];
            let ghost pre_kept = kept@.map_values(
                |e: CacheEntry|
                    CacheEntryView { key: e.key@, frame: frame_view(e.frame), at: e.inserted_at },
            );
            if !str_eq(e.key.as_str(), key) {
                let moved = CacheEntry {
                    key: e.key.clone(),
                    frame: clone_frame(&e.frame),
                    inserted_at: e.inserted_at,
                };
                kept.push(moved);
                proof {
                    assert(kept@.map_values(
                        |e: CacheEntry|
                            CacheEntryView {
                                key: e.key@,
                                frame: frame_view(e.frame),
                                at: e.inserted_at,
                            },
                    ) =~= pre_kept.push(pre[i as int]));
                }
            }
            i = i + 1;
        }
        proof {
            assert(pre.take(pre.len() as int) =~= pre);
        }
        kept.push(CacheEntry { key: String::from_str(key), frame, inserted_at: now });
        if kept.len() > CACHE_CAPACITY {
            let _evicted = kept.remove(0);
        }
        let ghost target = spec_cache_insert(pre, key@, frame_view(frame), now);
        proof {
            Seq::lemma_filter_len(pre, pred);
        }
        self.entries = kept;
        proof {
            assert(self.view_of() =~= target);
            assert(spec_cache_wf(self.view_of())) by {
                let filtered = pre.filter(pred);
                assert forall|a: int, b: int|
                    0 <= a < b < filtered.len() implies filtered[a].key != filtered[b].key by {
                    lemma_filter_distinct(pre, pred, a, b);
                }
            }
        }
    }

    /// Looks a table up; an expired entry reads as absent.
    pub fn get(&self, key: &str, now: u64) -> (r: Option<&Frame>)
        requires
            spec_cache_wf(self.view_of()),
        ensures
            match r {
                Option::Some(f) => spec_cache_lookup(self.view_of(), key@, now) == Option::Some(
                    frame_view(*f),
                ),
                Option::None => spec_cache_lookup(self.view_of(), key@, now) is None,
            },
    {
        let ghost view = self.view_of();
        let mut i: usize = 0;
        while i < self.entries.len()
            invariant
                i <= self.entries@.len(),
                view == self.view_of(),
                spec_cache_wf(view),
                forall|j: int| 0 <= j < i ==> (#[trigger] view[j]).key != key@,
            decreases self.entries@.len() - i,
        {
            proof {
                assert(view[i as int] == CacheEntryView {
                    key: self.entries@[i as int].key@,
                    frame: frame_view(self.entries@[i as int].frame),
                    at: self.entries@[i as int].inserted_at,
                });
            }
            let e = &self.entries[i];
            if str_eq(e.key.as_str(), key) {
                proof {
                    let w = choose|w: int| 0 <= w < view.len() && (#[trigger] view[w]).key == key@;
                    assert(view[i as int].key == key@);
                    assert(w == i as int);
                }
                if e.inserted_at <= now && now - e.inserted_at < CACHE_TTL_SECONDS {
                    return Some(&e.frame);
                } else {
                    return None;
                }
            }
            i = i + 1;
        }
        proof {
            assert(spec_cache_lookup(view, key@, now) is None) by {
                if exists|w: int| 0 <= w < view.len() && (#[trigger] view[w]).key == key@ {
                    let w = choose|w: int| 0 <= w < view.len() && (#[trigger] view[w]).key == key@;
                }
            }
        }
        None
    }
}

/// Entries at distinct positions of a filtered sequence come from distinct
/// positions of the original, so distinct keys are preserved.
proof fn lemma_filter_distinct(
    s: Seq<CacheEntryView>,
    pred: spec_fn(CacheEntryView) -> bool,
    a: int,
    b: int,
)
    requires
        forall|i: int, j: int| 0 <= i < j < s.len() ==> s[i].key != s[j].key,
        0 <= a < b < s.filter(pred).len(),
    ensures
        s.filter(pred)[a].key != s.filter(pred)[b].key,
    decreases s.len(),
{
    reveal(Seq::filter);
    if s.len() > 0 {
        let fpre = s.drop_last().filter(pred);
        assert(forall|i: int, j: int|
            0 <= i < j < s.drop_last().len() ==> s.drop_last()[i].key != s.drop_last()[j].key);
        if pred(s.last()) {
            if b < fpre.len() {
                lemma_filter_distinct(s.drop_last(), pred, a, b);
            } else {
                assert(s.filter(pred)[b] == s.last());
                assert(s.filter(pred)[a] == fpre[a]);
                lemma_filter_member_of(s.drop_last(), pred, a);
                let src = choose|src: int|
                    0 <= src < s.drop_last().len() && s.drop_last()[src] == fpre[a];
                assert(s[src] == fpre[a]);
                assert(s[src].key != s.last().key);
            }
        } else {
            lemma_filter_distinct(s.drop_last(), pred, a, b);
        }
    }
}

/// Every entry of a filtered sequence stands somewhere in the original.
proof fn lemma_filter_member_of(s: Seq<CacheEntryView>, pred: spec_fn(CacheEntryView) -> bool, a: int)
    requires
        0 <= a < s.filter(pred).len(),
    ensures
        exists|src: int| 0 <= src < s.len() && s[src] == s.filter(pred)[a],
    decreases s.len(),
{
    reveal(Seq::filter);
    if s.len() > 0 {
        let fpre = s.drop_last().filter(pred);
        if pred(s.last()) && a == fpre.len() {
            assert(s[s.len() - 1] == s.filter(pred)[a]);
        } else {
            lemma_filter_member_of(s.drop_last(), pred, a);
            let src = choose|src: int|
                0 <= src < s.drop_last().len() && s.drop_last()[src] == s.filter(pred)[a];
            assert(s[src] == s.filter(pred)[a]);
        }
    }
}

/// Clones a frame.
pub fn clone_frame(f: &Frame) -> (r: Frame)
    ensures
        frame_view(r) == frame_view(*f),
{
    let mut columns: Vec<FrameColumn> = Vec::new();
    let mut i: usize = 0;
    while i < f.columns.len()
        invariant
            i <= f.columns@.len(),
            columns@.len() == i,
            forall|j: int|
                0 <= j < i ==> (#[trigger] columns@[j].name@, col_data_view(columns@[j].data))
                    == (f.columns@[j].name@, col_data_view(f.columns@[j].data)),
        decreases f.columns@.len() - i,
    {
        let col = &f.columns[i];
        columns.push(FrameColumn { name: col.name.clone(), data: clone_column_data(&col.data) });
        i = i + 1;
    }
    let r = Frame { columns };
    proof {
        assert(frame_view(r) =~= frame_view(*f));
    }
    r
}

// ---------------------------------------------------------------------------
// SQL text derived from a frame
// ---------------------------------------------------------------------------

/// The store type chosen for a column kind.
pub open spec fn spec_sql_type(cv: ColView) -> Seq<char> {
    match cv {
        ColView::Numeric(_) => "REAL"@,
        ColView::Date(_) => "INTEGER"@,
        ColView::Text(_) => "TEXT"@,
    }
}

pub open spec fn spec_col_def(c: (Seq<char>, ColView)) -> Seq<char> {
    c.0 + " "@ + spec_sql_type(c.1)
}

/// The column definitions joined with commas.
pub open spec fn spec_col_defs(fv: Seq<(Seq<char>, ColView)>) -> Seq<char>
    decreases fv.len(),
{
    if fv.len() == 0 {
        Seq::empty()
    } else if fv.len() == 1 {
        spec_col_def(fv[0])
    } else {
        spec_col_defs(fv.drop_last()) + ", "@ + spec_col_def(fv.last())
    }
}

/// The DDL issued for a table.
pub open spec fn spec_create_sql(name: Seq<char>, fv: Seq<(Seq<char>, ColView)>) -> Seq<char> {
    "CREATE TABLE IF NOT EXISTS "@ + name + " ("@ + spec_col_defs(fv) + ")"@
}

/// The column names joined with commas.
pub open spec fn spec_name_list(fv: Seq<(Seq<char>, ColView)>) -> Seq<char>
    decreases fv.len(),
{
    if fv.len() == 0 {
        Seq::empty()
    } else if fv.len() == 1 {
        fv[0].0
    } else {
        spec_name_list(fv.drop_last()) + ", "@ + fv.last().0
    }
}

/// `n` placeholders joined with commas.
pub open spec fn spec_placeholders(n: int) -> Seq<char>
    decreases n,
{
    if n <= 0 {
        Seq::empty()
    } else if n == 1 {
        "?"@
    } else {
        spec_placeholders(n - 1) + ", "@ + "?"@
    }
}

/// The insert statement issued for a table, one placeholder per column.
pub open spec fn spec_insert_sql(name: Seq<char>, fv: Seq<(Seq<char>, ColView)>) -> Seq<char> {
    "INSERT INTO "@ + name + " ("@ + spec_name_list(fv) + ") VALUES ("@ + spec_placeholders(
        fv.len() as int,
    ) + ")"@
}

/// The names of a frame's columns.
pub open spec fn spec_frame_names(fv: Seq<(Seq<char>, ColView)>) -> Seq<Seq<char>> {
    fv.map_values(|c: (Seq<char>, ColView)| c.0)
}

fn sql_type_of(d: &ColumnData) -> (r: &'static str)
    ensures
        r@ == spec_sql_type(col_data_view(*d)),
{
    match d {
        ColumnData::Numeric(_) => "REAL",
        ColumnData::Date(_) => "INTEGER",
        ColumnData::Text(_) => "TEXT",
    }
}

/// Derives the `CREATE TABLE` statement for a frame: every column appears
/// with the store type of its kind.
pub fn generate_create_table_sql(table_name: &str, df: &Frame) -> (r: String)
    ensures
        r@ == spec_create_sql(table_name@, frame_view(*df)),
{
    let ghost fv = frame_view(*df);
    let mut defs = String::new();
    let mut i: usize = 0;
    proof {
        assert(defs@ =~= spec_col_defs(fv.take(0)));
    }
    while i < df.columns.len()
        invariant
            i <= df.columns@.len(),
            fv == frame_view(*df),
            defs@ == spec_col_defs(fv.take(i as int)),
        decreases df.columns@.len() - i,
    {
        proof {
            assert(fv.take(i + 1).drop_last() =~= fv.take(i as int));
            assert(fv.take(i + 1).last() == fv[i as int]);
            assert(fv[i as int] == (df.columns@[i as int].name@, col_data_view(
                df.columns@[i as int].data,
            )));
        }
        let col = &df.columns[i];
        if i > 0 {
            defs.append(", ");
        }
        defs.append(col.name.as_str());
        defs.append(" ");
        defs.append(sql_type_of(&col.data));
        proof {
            assert(defs@ =~= spec_col_defs(fv.take(i + 1)));
        }
        i = i + 1;
    }
    proof {
        assert(fv.take(fv.len() as int) =~= fv);
    }
    let mut out = String::from_str("CREATE TABLE IF NOT EXISTS ");
    out.append(table_name);
    out.append(" (");
    out.append(defs.as_str());
    out.append(")");
    proof {
        assert(out@ =~= spec_create_sql(table_name@, fv));
    }
    out
}

/// Derives the batched `INSERT` statement for a frame.
pub fn generate_insert_sql(table_name: &str, df: &Frame) -> (r: String)
    ensures
        r@ == spec_insert_sql(table_name@, frame_view(*df)),
{
    let ghost fv = frame_view(*df);
    let mut names = String::new();
    let mut marks = String::new();
    let mut i: usize = 0;
    proof {
        assert(names@ =~= spec_name_list(fv.take(0)));
        assert(marks@ =~= spec_placeholders(0));
    }
    while i < df.columns.len()
        invariant
            i <= df.columns@.len(),
            fv == frame_view(*df),
            names@ == spec_name_list(fv.take(i as int)),
            marks@ == spec_placeholders(i as int),
        decreases df.columns@.len() - i,
    {
        proof {
            assert(fv.take(i + 1).drop_last() =~= fv.take(i as int));
            assert(fv.take(i + 1).last() == fv[i as int]);
            assert(fv[i as int] == (df.columns@[i as int].name@, col_data_view(
                df.columns@[i as int].data,
            )));
        }
        let col = &df.columns[i];
        if i > 0 {
            names.append(", ");
            marks.append(", ");
        }
        names.append(col.name.as_str());
        marks.append("?");
        proof {
            assert(names@ =~= spec_name_list(fv.take(i + 1)));
            assert(marks@ =~= spec_placeholders(i + 1));
        }
        i = i + 1;
    }
    proof {
        assert(fv.take(fv.len() as int) =~= fv);
    }
    let mut out = String::from_str("INSERT INTO ");
    out.append(table_name);
    out.append(" (");
    out.append(names.as_str());
    out.append(") VALUES (");
    out.append(marks.as_str());
    out.append(")");
    proof {
        assert(out@ =~= spec_insert_sql(table_name@, fv));
    }
    out
}

// ---------------------------------------------------------------------------
// Row parameters
// ---------------------------------------------------------------------------

/// The mathematical value of one bound parameter.
pub ghost enum ParamView {
    Null,
    Int(i64),
    Text(Seq<char>),
}

pub open spec fn spec_param_view(p: SqlParam) -> ParamView {
    match p {
        SqlParam::Null => ParamView::Null,
        SqlParam::Int(i) => ParamView::Int(i),
        SqlParam::Text(s) => ParamView::Text(s@),
    }
}

/// The parameter bound for row `r` of one column: an absent numeric or
/// date value binds null; a numeric value binds its rendering as text (the
/// REAL column affinity turns it into a real value); a date binds its epoch
/// seconds; a text cell binds its rendering.
pub open spec fn spec_row_param(cv: ColView, r: int) -> ParamView {
    match cv {
        ColView::Numeric(v) => match v[r] {
            Option::Some(t) => ParamView::Text(t),
            Option::None => ParamView::Null,
        },
        ColView::Date(v) => match v[r] {
            Option::Some(s) => ParamView::Int(s),
            Option::None => ParamView::Null,
        },
        ColView::Text(v) => ParamView::Text(v[r]),
    }
}

/// Prepares the bound parameters of one row, one per column in order.
pub fn prepare_row_params(df: &Frame, row_idx: usize) -> (r: Vec<SqlParam>)
    requires
        frame_wf(*df),
        row_idx < spec_frame_height(*df),
    ensures
        r@.len() == frame_view(*df).len(),
        forall|c: int|
            0 <= c < r@.len() ==> spec_param_view(#[trigger] r@[c]) == spec_row_param(
                frame_view(*df)[c].1,
                row_idx as int,
            ),
{
    let ghost fv = frame_view(*df);
    let mut out: Vec<SqlParam> = Vec::new();
    let mut c: usize = 0;
    while c < df.columns.len()
        invariant
            c <= df.columns@.len(),
            fv == frame_view(*df),
            frame_view_wf(fv),
            row_idx < view_height(fv),
            out@.len() == c,
            forall|k: int|
                0 <= k < c ==> spec_param_view(#[trigger] out@[k]) == spec_row_param(
                    fv[k].1,
                    row_idx as int,
                ),
        decreases df.columns@.len() - c,
    {
        proof {
            assert(fv[c as int] == (df.columns@[c as int].name@, col_data_view(
                df.columns@[c as int].data,
            )));
            assert(col_view_len(fv[c as int].1) == view_height(fv));
        }
        let col = &df.columns[c];
        let p: SqlParam = match &col.data {
            ColumnData::Numeric(v) => match &v[row_idx] {
                Option::Some(t) => SqlParam::Text(t.clone()),
                Option::None => SqlParam::Null,
            },
            ColumnData::Date(v) => match &v[row_idx] {
                Option::Some(sec) => SqlParam::Int(*sec),
                Option::None => SqlParam::Null,
            },
            ColumnData::Text(v) => SqlParam::Text(v[row_idx].clone()),
        };
        out.push(p);
        c = c + 1;
    }
    out
}

// ---------------------------------------------------------------------------
// The loader
// ---------------------------------------------------------------------------

/// The loader state: one store connection, the most recently loaded table
/// and its column names, and the bounded cache of loaded frames.
pub struct DbLoader {
    conn: rusqlite::Connection,
    cache: TableCache,
    current_table: Option<String>,
    column_names: Vec<String>,
}

impl DbLoader {
    /// The name of the most recently published table.
    pub closed spec fn spec_current_table(&self) -> Option<Seq<char>> {
        match self.current_table {
            Option::Some(s) => Option::Some(s@),
            Option::None => Option::None,
        }
    }

    /// The column names of the most recently published table.
    pub closed spec fn spec_column_names(&self) -> Seq<Seq<char>> {
        str_views(self.column_names@)
    }

    /// The cached frames.
    pub closed spec fn spec_cache(&self) -> Seq<CacheEntryView> {
        self.cache.view_of()
    }

    pub open spec fn spec_wf(&self) -> bool {
        spec_cache_wf(self.spec_cache())
    }

    /// A table name has been published and its column list is non-empty.
    pub open spec fn spec_has_data(&self) -> bool {
        self.spec_current_table() is Some && self.spec_column_names().len() > 0
    }

    /// Opens a loader over a fresh in-memory store, with nothing published
    /// and an empty cache.
    pub fn new() -> (r: Result<DbLoader, AppError>)
        ensures
            r matches Ok(l) ==> {
                &&& !l.spec_has_data()
                &&& l.spec_current_table() is None
                &&& l.spec_column_names() == Seq::<Seq<char>>::empty()
                &&& l.spec_cache() == Seq::<CacheEntryView>::empty()
                &&& l.spec_wf()
            },
            r matches Err(e) ==> e is DatabaseError,
    {
        match open_in_memory_conn() {
            Ok(conn) => {
                let l = DbLoader {
                    conn,
                    cache: TableCache::new(),
                    current_table: None,
                    column_names: Vec::new(),
                };
                proof {
                    assert(l.spec_column_names() =~= Seq::<Seq<char>>::empty());
                }
                Ok(l)
            },
            Err(e) => Err(AppError::DatabaseError(error_text(&e))),
        }
    }

    /// Whether a load has been attempted: a table name is published and its
    /// column-name list is non-empty.
    pub fn has_data(&self) -> (r: bool)
        ensures
            r == self.spec_has_data(),
    {
        match &self.current_table {
            Option::Some(_) => self.column_names.len() > 0,
            Option::None => false,
        }
    }

    /// Looks a loaded frame up in the cache.
    pub fn cached_table(&self, table_name: &str, now_seconds: u64) -> (r: Option<&Frame>)
        requires
            self.spec_wf(),
        ensures
            match r {
                Option::Some(f) => spec_cache_lookup(self.spec_cache(), table_name@, now_seconds)
                    == Option::Some(frame_view(*f)),
                Option::None => spec_cache_lookup(self.spec_cache(), table_name@, now_seconds)
                    is None,
            },
    {
        self.cache.get(table_name, now_seconds)
    }

    /// Loads a frame into the store under the given table name. The new
    /// table name, column names and cache entry are published first; then,
    /// inside one transaction, any table of that name is dropped, the
    /// schema is created, and all rows are inserted in fixed-size batches.
    /// The transaction commits only when every statement succeeded and is
    /// rolled back on the first failure, so the store never exposes a
    /// partially written table. The published metadata is not retracted on
    /// failure.
    pub fn load_dataframe(&mut self, df: &Frame, table_name: &str, now_seconds: u64) -> (r: Result<
        (),
        AppError,
    >)
        requires
            frame_wf(*df),
            old(self).spec_wf(),
        ensures
            final(self).spec_wf(),
            final(self).spec_current_table() == Option::Some(table_name@),
            final(self).spec_column_names() == spec_frame_names(frame_view(*df)),
            final(self).spec_has_data() == (frame_view(*df).len() > 0),
            final(self).spec_cache() == spec_cache_insert(
                old(self).spec_cache(),
                table_name@,
                frame_view(*df),
                now_seconds,
            ),
            r matches Err(e) ==> e is DatabaseError,
    {
        let ghost fv = frame_view(*df);
        // Publish the metadata and the cache entry before touching the store.
        self.current_table = Some(String::from_str(table_name));
        let mut names: Vec<String> = Vec::new();
        let mut i: usize = 0;
        while i < df.columns.len()
            invariant
                i <= df.columns@.len(),
                fv == frame_view(*df),
                names@.len() == i,
                forall|j: int| 0 <= j < i ==> #[trigger] names@[j]@ == fv[j].0,
            decreases df.columns@.len() - i,
        {
            proof {
                assert(fv[i as int] == (df.columns@[i as int].name@, col_data_view(
                    df.columns@[i as int].data,
                )));
            }
            names.push(df.columns[i].name.clone());
            i = i + 1;
        }
        self.column_names = names;
        proof {
            assert(self.spec_column_names() =~= spec_frame_names(fv));
        }
        self.cache.insert(table_name, clone_frame(df), now_seconds);
        // The store transaction: DROP, CREATE, batched INSERT, COMMIT.
        match exec_sql(&self.conn, "BEGIN") {
            Err(e) => {
                return Err(AppError::DatabaseError(error_text(&e)));
            },
            Ok(_) => {},
        }
        let mut drop_sql = String::from_str("DROP TABLE IF EXISTS ");
        drop_sql.append(table_name);
        match exec_sql(&self.conn, drop_sql.as_str()) {
            Err(e) => {
                let _ = exec_sql(&self.conn, "ROLLBACK");
                return Err(AppError::DatabaseError(error_text(&e)));
            },
            Ok(_) => {},
        }
        let create_sql = generate_create_table_sql(table_name, df);
        match exec_sql(&self.conn, create_sql.as_str()) {
            Err(e) => {
                let _ = exec_sql(&self.conn, "ROLLBACK");
                return Err(AppError::DatabaseError(error_text(&e)));
            },
            Ok(_) => {},
        }
        let insert_sql = generate_insert_sql(table_name, df);
        let height = df.height();
        let mut start: usize = 0;
        while start < height
            invariant
                frame_wf(*df),
                height == spec_frame_height(*df),
                start <= height,
                fv == frame_view(*df),
                self.spec_wf(),
                self.spec_current_table() == Option::Some(table_name@),
                self.spec_column_names() == spec_frame_names(fv),
                self.spec_cache() == spec_cache_insert(
                    old(self).spec_cache(),
                    table_name@,
                    fv,
                    now_seconds,
                ),
            decreases height - start,
        {
            let end: usize = if height - start < BATCH_SIZE {
                height
            } else {
                start + BATCH_SIZE
            };
            let mut ri: usize = start;
            while ri < end
                invariant
                    frame_wf(*df),
                    height == spec_frame_height(*df),
                    start <= ri <= end <= height,
                    fv == frame_view(*df),
                    self.spec_wf(),
                    self.spec_current_table() == Option::Some(table_name@),
                    self.spec_column_names() == spec_frame_names(fv),
                    self.spec_cache() == spec_cache_insert(
                        old(self).spec_cache(),
                        table_name@,
                        fv,
                        now_seconds,
                    ),
                decreases end - ri,
            {
                let params = prepare_row_params(df, ri);
                match exec_sql_params(&self.conn, insert_sql.as_str(), &params) {
                    Err(e) => {
                        let _ = exec_sql(&self.conn, "ROLLBACK");
                        return Err(AppError::DatabaseError(error_text(&e)));
                    },
                    Ok(_) => {},
                }
                ri = ri + 1;
            }
            start = end;
        }
        match exec_sql(&self.conn, "COMMIT") {
            Err(e) => {
                let _ = exec_sql(&self.conn, "ROLLBACK");
                return Err(AppError::DatabaseError(error_text(&e)));
            },
            Ok(_) => {},
        }
        Ok(())
    }
}

// ---------------------------------------------------------------------------
// Schema description
// ---------------------------------------------------------------------------

/// One column of a described table: its name and its declared store type.
pub struct SchemaCol {
    pub name: String,
    pub ctype: String,
}

/// One table as described to the query generator: name, columns, and up to
/// a few sample rows.
pub struct TableDesc {
    pub name: String,
    pub cols: Vec<SchemaCol>,
    pub samples: Vec<Vec<SqlOut>>,
}

/// The first-cell texts of the rows that carry one: how table names are
/// read from the catalog query's result.
pub open spec fn spec_first_texts(rows: Seq<Vec<SqlOut>>) -> Seq<Seq<char>>
    decreases rows.len(),
{
    if rows.len() == 0 {
        Seq::empty()
    } else {
        spec_first_texts(rows.drop_last()) + if rows.last()@.len() >= 1 && rows.last()@[0]
            is Text {
            seq![rows.last()@[0]->Text_0@]
        } else {
            Seq::empty()
        }
    }
}

/// The name/type pairs read from the column-info query's result: each row
/// carrying text in its second and third cell contributes one pair.
pub open spec fn spec_col_pairs(rows: Seq<Vec<SqlOut>>) -> Seq<(Seq<char>, Seq<char>)>
    decreases rows.len(),
{
    if rows.len() == 0 {
        Seq::empty()
    } else {
        spec_col_pairs(rows.drop_last()) + if rows.last()@.len() >= 3 && rows.last()@[1] is Text
            && rows.last()@[2] is Text {
            seq![(rows.last()@[1]->Text_0@, rows.last()@[2]->Text_0@)]
        } else {
            Seq::empty()
        }
    }
}

pub open spec fn spec_schema_col_views(cols: Seq<SchemaCol>) -> Seq<(Seq<char>, Seq<char>)> {
    cols.map_values(|c: SchemaCol| (c.name@, c.ctype@))
}

/// Extracts the table names from the catalog query's rows.
pub fn table_names(t: &QueryTable) -> (r: Vec<String>)
    ensures
        str_views(r@) == spec_first_texts(t.rows@),
{
    let mut out: Vec<String> = Vec::new();
    let mut i: usize = 0;
    proof {
        assert(str_views(out@) =~= spec_first_texts(t.rows@.take(0)));
    }
    while i < t.rows.len()
        invariant
            i <= t.rows@.len(),
            str_views(out@) == spec_first_texts(t.rows@.take(i as int)),
        decreases t.rows@.len() - i,
    {
        proof {
            assert(t.rows@.take(i + 1).drop_last() =~= t.rows@.take(i as int));
            assert(t.rows@.take(i + 1).last() == t.rows@[i as int]);
        }
        let row = &t.rows[i];
        let ghost pre = str_views(out@);
        let mut took = false;
        if row.len() >= 1 {
            match &row[0] {
                SqlOut::Text(name) => {
                    out.push(name.clone());
                    took = true;
                    proof {
                        assert(str_views(out@) =~= pre + seq![t.rows@[i as int]@[0]->Text_0@]);
                    }
                },
                _ => {},
            }
        }
        if !took {
            proof {
                assert(pre + Seq::<Seq<char>>::empty() =~= pre);
            }
        }
        i = i + 1;
    }
    proof {
        assert(t.rows@.take(t.rows@.len() as int) =~= t.rows@);
    }
    out
}

/// Extracts the column name/type pairs from the column-info query's rows.
pub fn schema_columns(t: &QueryTable) -> (r: Vec<SchemaCol>)
    ensures
        spec_schema_col_views(r@) == spec_col_pairs(t.rows@),
{
    let mut out: Vec<SchemaCol> = Vec::new();
    let mut i: usize = 0;
    proof {
        assert(spec_schema_col_views(out@) =~= spec_col_pairs(t.rows@.take(0)));
    }
    while i < t.rows.len()
        invariant
            i <= t.rows@.len(),
            spec_schema_col_views(out@) == spec_col_pairs(t.rows@.take(i as int)),
        decreases t.rows@.len() - i,
    {
        proof {
            assert(t.rows@.take(i + 1).drop_last() =~= t.rows@.take(i as int));
            assert(t.rows@.take(i + 1).last() == t.rows@[i as int]);
        }
        let row = &t.rows[i];
        let ghost pre = spec_schema_col_views(out@);
        let mut took = false;
        if row.len() >= 3 {
            match (&row[1], &row[2]) {
                (SqlOut::Text(cn), SqlOut::Text(ct)) => {
                    out.push(SchemaCol { name: cn.clone(), ctype: ct.clone() });
                    took = true;
                    proof {
                        assert(spec_schema_col_views(out@) =~= pre + seq![
                            (
                                t.rows@[i as int]@[1]->Text_0@,
                                t.rows@[i as int]@[2]->Text_0@,
                            ),
                        ]);
                    }
                },
                _ => {},
            }
        }
        if !took {
            proof {
                assert(pre + Seq::<(Seq<char>, Seq<char>)>::empty() =~= pre);
            }
        }
        i = i + 1;
    }
    proof {
        assert(t.rows@.take(t.rows@.len() as int) =~= t.rows@);
    }
    out
}

/// The rendering of one store value in the sample block: SQL-literal
/// style, strings single-quoted, absent values as NULL.
pub open spec fn spec_render_sql_value(v: SqlOut) -> Seq<char> {
    match v {
        SqlOut::Null => "NULL"@,
        SqlOut::Int(i) => spec_i64_dec(i as int),
        SqlOut::Real { bits: _, text } => text@,
        SqlOut::Text(s) => "'"@ + s@ + "'"@,
        SqlOut::Blob => "BLOB"@,
    }
}

/// The rendered values of one row joined with commas.
pub open spec fn spec_value_join(row: Seq<SqlOut>) -> Seq<char>
    decreases row.len(),
{
    if row.len() == 0 {
        Seq::empty()
    } else if row.len() == 1 {
        spec_render_sql_value(row[0])
    } else {
        spec_value_join(row.drop_last()) + ", "@ + spec_render_sql_value(row.last())
    }
}

pub open spec fn spec_col_lines(cols: Seq<SchemaCol>) -> Seq<char>
    decreases cols.len(),
{
    if cols.len() == 0 {
        Seq::empty()
    } else {
        spec_col_lines(cols.drop_last()) + "  "@ + cols.last().name@ + " "@ + cols.last().ctype@
            + "\n"@
    }
}

pub open spec fn spec_row_lines(rows: Seq<Vec<SqlOut>>) -> Seq<char>
    decreases rows.len(),
{
    if rows.len() == 0 {
        Seq::empty()
    } else {
        spec_row_lines(rows.drop_last()) + "  "@ + spec_value_join(rows.last()@) + "\n"@
    }
}

/// The text block describing one table.
pub open spec fn spec_table_block(d: TableDesc) -> Seq<char> {
    "\nTable: "@ + d.name@ + "\n"@ + "Columns:\n"@ + spec_col_lines(d.cols@)
        + "\nSample Data:\n"@ + spec_row_lines(d.samples@) + "\n"@
}

/// The whole schema text: the blocks of all tables in order.
pub open spec fn spec_schema_text(descs: Seq<TableDesc>) -> Seq<char>
    decreases descs.len(),
{
    if descs.len() == 0 {
        Seq::empty()
    } else {
        spec_schema_text(descs.drop_last()) + spec_table_block(descs.last())
    }
}

fn render_sql_value(v: &SqlOut) -> (r: String)
    ensures
        r@ == spec_render_sql_value(*v),
{
    match v {
        SqlOut::Null => String::from_str("NULL"),
        SqlOut::Int(i) => i64_to_string(*i),
        SqlOut::Real { bits: _, text } => text.clone(),
        SqlOut::Text(s) => {
            let mut out = String::from_str("'");
            out.append(s.as_str());
            out.append("'");
            proof {
                assert(out@ =~= spec_render_sql_value(*v));
            }
            out
        },
        SqlOut::Blob => String::from_str("BLOB"),
    }
}

/// Renders the description of the given tables as one plain-text block per
/// table: the table name, a `Columns:` list of name/type pairs, and a
/// `Sample Data:` section of rendered rows.
pub fn format_schema(descs: &Vec<TableDesc>) -> (r: String)
    ensures
        r@ == spec_schema_text(descs@),
{
    let mut out = String::new();
    let mut t: usize = 0;
    proof {
        assert(out@ =~= spec_schema_text(descs@.take(0)));
    }
    while t < descs.len()
        invariant
            t <= descs@.len(),
            out@ == spec_schema_text(descs@.take(t as int)),
        decreases descs@.len() - t,
    {
        proof {
            assert(descs@.take(t + 1).drop_last() =~= descs@.take(t as int));
            assert(descs@.take(t + 1).last() == descs@[t as int]);
        }
        let d = &descs[t];
        out.append("\nTable: ");
        out.append(d.name.as_str());
        out.append("\n");
        out.append("Columns:\n");
        let mut c: usize = 0;
        let mut col_text = String::new();
        proof {
            assert(col_text@ =~= spec_col_lines(d.cols@.take(0)));
        }
        while c < d.cols.len()
            invariant
                c <= d.cols@.len(),
                col_text@ == spec_col_lines(d.cols@.take(c as int)),
            decreases d.cols@.len() - c,
        {
            proof {
                assert(d.cols@.take(c + 1).drop_last() =~= d.cols@.take(c as int));
                assert(d.cols@.take(c + 1).last() == d.cols@[c as int]);
            }
            col_text.append("  ");
            col_text.append(d.cols[c].name.as_str());
            col_text.append(" ");
            col_text.append(d.cols[c].ctype.as_str());
            col_text.append("\n");
            proof {
                assert(col_text@ =~= spec_col_lines(d.cols@.take(c + 1)));
            }
            c = c + 1;
        }
        proof {
            assert(d.cols@.take(d.cols@.len() as int) =~= d.cols@);
        }
        out.append(col_text.as_str());
        out.append("\nSample Data:\n");
        let mut rlines = String::new();
        let mut ri: usize = 0;
        proof {
            assert(rlines@ =~= spec_row_lines(d.samples@.take(0)));
        }
        while ri < d.samples.len()
            invariant
                ri <= d.samples@.len(),
                rlines@ == spec_row_lines(d.samples@.take(ri as int)),
            decreases d.samples@.len() - ri,
        {
            proof {
                assert(d.samples@.take(ri + 1).drop_last() =~= d.samples@.take(ri as int));
                assert(d.samples@.take(ri + 1).last() == d.samples@[ri as int]);
            }
            let row = &d.samples[ri];
            let mut vals = String::new();
            let mut vi: usize = 0;
            proof {
                assert(vals@ =~= spec_value_join(row@.take(0)));
            }
            while vi < row.len()
                invariant
                    vi <= row@.len(),
                    vals@ == spec_value_join(row@.take(vi as int)),
                decreases row@.len() - vi,
            {
                proof {
                    assert(row@.take(vi + 1).drop_last() =~= row@.take(vi as int));
                    assert(row@.take(vi + 1).last() == row@[vi as int]);
                }
                if vi > 0 {
                    vals.append(", ");
                }
                let rendered = render_sql_value(&row[vi]);
                vals.append(rendered.as_str());
                proof {
                    assert(vals@ =~= spec_value_join(row@.take(vi + 1)));
                }
                vi = vi + 1;
            }
            proof {
                assert(row@.take(row@.len() as int) =~= row@);
            }
            rlines.append("  ");
            rlines.append(vals.as_str());
            rlines.append("\n");
            proof {
                assert(rlines@ =~= spec_row_lines(d.samples@.take(ri + 1)));
            }
            ri = ri + 1;
        }
        proof {
            assert(d.samples@.take(d.samples@.len() as int) =~= d.samples@);
        }
        out.append(rlines.as_str());
        out.append("\n");
        proof {
            assert(out@ =~= spec_schema_text(descs@.take(t + 1)));
        }
        t = t + 1;
    }
    proof {
        assert(descs@.take(descs@.len() as int) =~= descs@);
    }
    out
}

// ---------------------------------------------------------------------------
// Query output sanitization
// ---------------------------------------------------------------------------

/// One value of the generic value tree handed to consumers.
pub enum JsonVal {
    Null,
    Int(i64),
    /// A finite real value: its bit pattern and its rendering.
    Float { bits: u64, text: String },
    Text(String),
}

/// Whether the bit pattern denotes a finite IEEE-754 double: its exponent
/// field is not all ones.
pub open spec fn spec_f64_bits_finite(bits: u64) -> bool {
    (bits >> 52) & 0x7ff != 0x7ff
}

pub fn f64_bits_finite(bits: u64) -> (r: bool)
    ensures
        r == spec_f64_bits_finite(bits),
{
    (bits >> 52) & 0x7ff != 0x7ff
}

/// How one store value appears in the value tree: non-finite reals coerce
/// to null, blobs render as the fixed placeholder string.
pub open spec fn spec_json_matches(j: JsonVal, v: SqlOut) -> bool {
    match v {
        SqlOut::Null => j is Null,
        SqlOut::Int(i) => j matches JsonVal::Int(x) && x == i,
        SqlOut::Real { bits, text } => if spec_f64_bits_finite(bits) {
            j matches JsonVal::Float { bits: b, text: t } && b == bits && t@ == text@
        } else {
            j is Null
        },
        SqlOut::Text(s) => j matches JsonVal::Text(t) && t@ == s@,
        SqlOut::Blob => j matches JsonVal::Text(t) && t@ == "BLOB"@,
    }
}

/// One executed query's result as a value tree.
pub struct QueryOutput {
    pub columns: Vec<String>,
    pub rows: Vec<Vec<JsonVal>>,
}

/// The comment of an agent response together with the value trees of its
/// executed queries.
pub struct QueryResult {
    pub comment: String,
    pub data: Vec<QueryOutput>,
}

fn json_of(v: &SqlOut) -> (r: JsonVal)
    ensures
        spec_json_matches(r, *v),
{
    match v {
        SqlOut::Null => JsonVal::Null,
        SqlOut::Int(i) => JsonVal::Int(*i),
        SqlOut::Real { bits, text } => {
            if f64_bits_finite(*bits) {
                JsonVal::Float { bits: *bits, text: text.clone() }
            } else {
                JsonVal::Null
            }
        },
        SqlOut::Text(s) => JsonVal::Text(s.clone()),
        SqlOut::Blob => JsonVal::Text(String::from_str("BLOB")),
    }
}

/// Turns one raw query table into the value tree handed to consumers.
pub fn sanitize_table(t: QueryTable) -> (r: QueryOutput)
    ensures
        r.columns@ == t.columns@,
        r.rows@.len() == t.rows@.len(),
        forall|i: int| 0 <= i < t.rows@.len() ==> (#[trigger] r.rows@[i])@.len() == t.rows@[i]@.len(),
        forall|i: int, j: int|
            0 <= i < t.rows@.len() && 0 <= j < t.rows@[i]@.len() ==> spec_json_matches(
                #[trigger] r.rows@[i]@[j],
                t.rows@[i]@[j],
            ),
        forall|i: int, j: int|
            0 <= i < r.rows@.len() && 0 <= j < r.rows@[i]@.len() ==> ((#[trigger] r.rows@[i]@[j])
                matches JsonVal::Float { bits, text: _ } ==> spec_f64_bits_finite(bits)),
{
    let mut rows: Vec<Vec<JsonVal>> = Vec::new();
    let mut i: usize = 0;
    while i < t.rows.len()
        invariant
            i <= t.rows@.len(),
            rows@.len() == i,
            forall|p: int| 0 <= p < i ==> (#[trigger] rows@[p])@.len() == t.rows@[p]@.len(),
            forall|p: int, q: int|
                0 <= p < i && 0 <= q < t.rows@[p]@.len() ==> spec_json_matches(
                    #[trigger] rows@[p]@[q],
                    t.rows@[p]@[q],
                ),
        decreases t.rows@.len() - i,
    {
        let src = &t.rows[i];
        let mut row: Vec<JsonVal> = Vec::new();
        let mut j: usize = 0;
        while j < src.len()
            invariant
                j <= src@.len(),
                row@.len() == j,
                forall|q: int|
                    0 <= q < j ==> spec_json_matches(#[trigger] row@[q], src@[q]),
            decreases src@.len() - j,
        {
            row.push(json_of(&src[j]));
            j = j + 1;
        }
        rows.push(row);
        i = i + 1;
    }
    proof {
        assert forall|p: int, q: int|
            0 <= p < rows@.len() && 0 <= q < rows@[p]@.len() implies ((#[trigger] rows@[p]@[q])
            matches JsonVal::Float { bits, text: _ } ==> spec_f64_bits_finite(bits)) by {
            if rows@[p]@[q] matches JsonVal::Float { bits, text: _ } {
                assert(spec_json_matches(rows@[p]@[q], t.rows@[p]@[q]));
            }
        }
    }
    QueryOutput { columns: t.columns, rows }
}

impl DbLoader {
    /// Describes the store to the query generator: a fixed sentinel before
    /// any load was attempted; otherwise, for every table, its columns and
    /// up to three sample rows, rendered as one plain-text block.
    pub fn get_schema_with_samples(&self) -> (r: Result<String, AppError>)
        ensures
            !self.spec_has_data() ==> (r matches Ok(s) && s@
                == "No data has been loaded into the database yet"@),
            self.spec_has_data() ==> (r matches Ok(s) ==> (s@ == "No tables found in database"@
                || (exists|descs: Seq<TableDesc>|
                descs.len() > 0 && s@ == spec_schema_text(descs)))),
            r matches Err(e) ==> e is DatabaseError && self.spec_has_data(),
    {
        if !self.has_data() {
            return Ok(String::from_str("No data has been loaded into the database yet"));
        }
        let tables = match run_query(
            &self.conn,
            "SELECT name FROM sqlite_master WHERE type='table'",
        ) {
            Ok(t) => t,
            Err(e) => {
                return Err(AppError::DatabaseError(error_text(&e)));
            },
        };
        let names = table_names(&tables);
        if names.len() == 0 {
            return Ok(String::from_str("No tables found in database"));
        }
        let mut descs: Vec<TableDesc> = Vec::new();
        let mut t: usize = 0;
        while t < names.len()
            invariant
                t <= names@.len(),
                names@.len() > 0,
                descs@.len() == t,
                self.spec_has_data(),
            decreases names@.len() - t,
        {
            let name = &names[t];
            let mut pragma_sql = String::from_str("PRAGMA table_info('");
            pragma_sql.append(name.as_str());
            pragma_sql.append("')");
            let colinfo = match run_query(&self.conn, pragma_sql.as_str()) {
                Ok(ci) => ci,
                Err(e) => {
                    return Err(AppError::DatabaseError(error_text(&e)));
                },
            };
            let cols = schema_columns(&colinfo);
            let mut sample_sql = String::from_str("SELECT * FROM '");
            sample_sql.append(name.as_str());
            sample_sql.append("' LIMIT 3");
            let samples = match run_query(&self.conn, sample_sql.as_str()) {
                Ok(s) => s,
                Err(e) => {
                    return Err(AppError::DatabaseError(error_text(&e)));
                },
            };
            descs.push(TableDesc { name: name.clone(), cols, samples: samples.rows });
            t = t + 1;
        }
        let out = format_schema(&descs);
        proof {
            assert(descs@.len() > 0);
            assert(descs@.len() > 0 && out@ == spec_schema_text(descs@));
        }
        Ok(out)
    }

    /// Runs every query of the response against the store, turning each
    /// result into a value tree; the comment carries over. An empty query
    /// list yields an empty result at once.
    pub fn execute_queries(&self, response: AgentResponse) -> (r: Result<QueryResult, AppError>)
        ensures
            r matches Ok(q) ==> q.comment@ == response.comment@ && q.data@.len()
                == response.queries@.len(),
            response.queries@.len() == 0 ==> (r matches Ok(q) && q.data@.len() == 0),
            r matches Ok(q) ==> forall|i: int, j: int, k: int|
                0 <= i < q.data@.len() && 0 <= j < q.data@[i].rows@.len() && 0 <= k
                    < q.data@[i].rows@[j]@.len() ==> ((#[trigger] q.data@[i].rows@[j]@[k]) matches
                JsonVal::Float { bits, text: _ } ==> spec_f64_bits_finite(bits)),
            r matches Err(e) ==> e is DatabaseError,
    {
        let mut data: Vec<QueryOutput> = Vec::new();
        let mut i: usize = 0;
        while i < response.queries.len()
            invariant
                i <= response.queries@.len(),
                data@.len() == i,
                forall|p: int, j: int, k: int|
                    0 <= p < data@.len() && 0 <= j < data@[p].rows@.len() && 0 <= k
                        < data@[p].rows@[j]@.len() ==> ((#[trigger] data@[p].rows@[j]@[k]) matches
                    JsonVal::Float { bits, text: _ } ==> spec_f64_bits_finite(bits)),
            decreases response.queries@.len() - i,
        {
            match run_query(&self.conn, response.queries[i].as_str()) {
                Ok(t) => {
                    data.push(sanitize_table(t));
                },
                Err(e) => {
                    return Err(AppError::DatabaseError(error_text(&e)));
                },
            }
            i = i + 1;
        }
        Ok(QueryResult { comment: response.comment, data })
    }
}

} // verus!
