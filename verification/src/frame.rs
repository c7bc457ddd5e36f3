//! The typed columnar frame. Each column carries one concrete value kind:
//! numeric (held by decimal rendering, loaded with real affinity), date
//! (epoch seconds), or text. A frame is built from the raw grid by
//! per-column coercion, cleaned by dropping fully-empty rows and fully-null
//! columns, and re-scanned for text columns whose values are mostly
//! date-like strings, which are recast to the date kind.

use vstd::prelude::*;
use vstd::string::*;

use crate::cells::{cell_text, spec_cell_text, Cell};
use crate::dates::{is_date_string, parse_date_epoch, spec_date_epoch, spec_date_like};
use crate::error::AppError;
use crate::headers::str_views;
use crate::infer::{detect_column_type, spec_detect_column_type, DataType};
use crate::stats::opt_str_view;
use crate::text::{contains_string, i64_to_string, spec_i64_dec};
use crate::TYPE_DETECTION_ROWS;

verus! {

/// The values of one frame column.
pub enum ColumnData {
    /// Numeric values by their decimal rendering; `None` for a cell that
    /// could not be coerced.
    Numeric(Vec<Option<String>>),
    /// Epoch seconds; `None` for a cell that was no datetime.
    Date(Vec<Option<i64>>),
    /// Every cell's textual rendering.
    Text(Vec<String>),
}

/// One named column of a frame.
pub struct FrameColumn {
    pub name: String,
    pub data: ColumnData,
}

/// A typed columnar table.
pub struct Frame {
    pub columns: Vec<FrameColumn>,
}

/// The mathematical value of one column's data.
#[verifier::ext_equal]
pub ghost enum ColView {
    Numeric(Seq<Option<Seq<char>>>),
    Date(Seq<Option<i64>>),
    Text(Seq<Seq<char>>),
}

pub open spec fn col_data_view(d: ColumnData) -> ColView {
    match d {
        ColumnData::Numeric(v) => ColView::Numeric(
            v@.map_values(|o: Option<String>| opt_str_view(o)),
        ),
        ColumnData::Date(v) => ColView::Date(v@),
        ColumnData::Text(v) => ColView::Text(str_views(v@)),
    }
}

pub open spec fn col_view_len(cv: ColView) -> int {
    match cv {
        ColView::Numeric(v) => v.len() as int,
        ColView::Date(v) => v.len() as int,
        ColView::Text(v) => v.len() as int,
    }
}

/// The views of a sequence of named columns.
pub open spec fn cols_view(cols: Seq<FrameColumn>) -> Seq<(Seq<char>, ColView)> {
    cols.map_values(|c: FrameColumn| (c.name@, col_data_view(c.data)))
}

/// The mathematical value of a frame: its named column views, in order.
pub open spec fn frame_view(f: Frame) -> Seq<(Seq<char>, ColView)> {
    cols_view(f.columns@)
}

pub open spec fn view_height(fv: Seq<(Seq<char>, ColView)>) -> int {
    if fv.len() == 0 {
        0
    } else {
        col_view_len(fv[0].1)
    }
}

/// Well-formed: every column has the same number of rows.
pub open spec fn frame_view_wf(fv: Seq<(Seq<char>, ColView)>) -> bool {
    forall|i: int| 0 <= i < fv.len() ==> col_view_len(#[trigger] fv[i].1) == view_height(fv)
}

pub open spec fn frame_wf(f: Frame) -> bool {
    frame_view_wf(frame_view(f))
}

/// The height of a frame.
pub open spec fn spec_frame_height(f: Frame) -> int {
    view_height(frame_view(f))
}

impl Frame {
    /// The number of rows.
    pub fn height(&self) -> (r: usize)
        requires
            frame_wf(*self),
        ensures
            r == spec_frame_height(*self),
    {
        if self.columns.len() == 0 {
            0
        } else {
            proof {
                assert(frame_view(*self)[0].1 == col_data_view(self.columns@[0].data));
            }
            match &self.columns[0].data {
                ColumnData::Numeric(v) => v.len(),
                ColumnData::Date(v) => v.len(),
                ColumnData::Text(v) => v.len(),
            }
        }
    }

    /// The number of columns.
    pub fn width(&self) -> (r: usize)
        ensures
            r == frame_view(*self).len(),
    {
        self.columns.len()
    }
}

// ---------------------------------------------------------------------------
// Building
// ---------------------------------------------------------------------------

/// The numeric coercion of one cell.
pub open spec fn spec_numeric_of(c: Cell) -> Option<Seq<char>> {
    match c {
        Cell::Int(i) => Option::Some(spec_i64_dec(i as int)),
        Cell::Float(t) => Option::Some(t@),
        _ => Option::None,
    }
}

/// The date coercion of one cell: only native datetimes carry over, as
/// epoch seconds.
pub open spec fn spec_date_of(c: Cell) -> Option<i64> {
    match c {
        Cell::DateTime { seconds, text: _ } => Option::Some(seconds),
        _ => Option::None,
    }
}

/// The cells of one column across the data rows, a missing cell reading as
/// empty.
pub open spec fn spec_padded_column(data: Seq<Seq<Cell>>, idx: int) -> Seq<Cell> {
    Seq::new(
        data.len(),
        |r: int|
            if idx < data[r].len() {
                data[r][idx]
            } else {
                Cell::Empty
            },
    )
}

/// The column built for a value sequence: the coercion chosen by the type
/// inferencer, numeric and date columns keeping only coercible cells, all
/// others rendering every cell as text.
pub open spec fn spec_built_col(vals: Seq<Cell>) -> ColView {
    match spec_detect_column_type(vals) {
        DataType::Numeric => ColView::Numeric(vals.map_values(|c: Cell| spec_numeric_of(c))),
        DataType::Date => ColView::Date(vals.map_values(|c: Cell| spec_date_of(c))),
        _ => ColView::Text(vals.map_values(|c: Cell| spec_cell_text(c))),
    }
}

/// Collects the padded cells of column `idx` from the data rows.
fn padded_column(rows: &Vec<Vec<Cell>>, idx: usize) -> (r: Vec<Cell>)
    requires
        rows@.len() >= 1,
    ensures
        r@ == spec_padded_column(crate::analyzer::spec_vec_rows(rows@).skip(1), idx as int),
{
    let ghost data = crate::analyzer::spec_vec_rows(rows@).skip(1);
    let mut out: Vec<Cell> = Vec::new();
    let mut row: usize = 1;
    while row < rows.len()
        invariant
            1 <= row <= rows@.len(),
            data == crate::analyzer::spec_vec_rows(rows@).skip(1),
            out@.len() == row - 1,
            forall|j: int| 0 <= j < row - 1 ==> out@[j] == spec_padded_column(data, idx as int)[j],
        decreases rows@.len() - row,
    {
        let rrow = &rows[row];
        if idx < rrow.len() {
            out.push(rrow[idx].clone());
        } else {
            out.push(Cell::Empty);
        }
        row = row + 1;
    }
    proof {
        assert(out@ =~= spec_padded_column(data, idx as int));
    }
    out
}

/// Builds one typed frame from the raw grid (header row first) and the
/// normalized headers. Fails exactly when there are no rows or no headers.
pub fn create_dataframe(rows: &Vec<Vec<Cell>>, headers: &Vec<String>) -> (r: Result<
    Frame,
    AppError,
>)
    ensures
        r is Err <==> (rows@.len() == 0 || headers@.len() == 0),
        r matches Err(e) ==> e is InvalidInput,
        r matches Ok(f) ==> {
            let data = crate::analyzer::spec_vec_rows(rows@).skip(1);
            &&& frame_view(f).len() == headers@.len()
            &&& forall|i: int|
                0 <= i < headers@.len() ==> #[trigger] frame_view(f)[i].0 == headers@[i]@
            &&& forall|i: int|
                0 <= i < headers@.len() ==> #[trigger] frame_view(f)[i].1 == spec_built_col(
                    spec_padded_column(data, i),
                )
            &&& frame_wf(f)
            &&& spec_frame_height(f) == rows@.len() - 1
        },
{
    if rows.len() == 0 || headers.len() == 0 {
        return Err(AppError::InvalidInput(String::from_str("Empty data or headers")));
    }
    let ghost data = crate::analyzer::spec_vec_rows(rows@).skip(1);
    let mut columns: Vec<FrameColumn> = Vec::new();
    let mut ci: usize = 0;
    while ci < headers.len()
        invariant
            ci <= headers@.len(),
            rows@.len() >= 1,
            data == crate::analyzer::spec_vec_rows(rows@).skip(1),
            columns@.len() == ci,
            forall|i: int|
                0 <= i < ci ==> #[trigger] cols_view(columns@)[i].0
                    == headers@[i]@,
            forall|i: int|
                0 <= i < ci ==> #[trigger] cols_view(columns@)[i].1
                    == spec_built_col(spec_padded_column(data, i)),
            forall|i: int|
                0 <= i < ci ==> col_view_len(
                    #[trigger] cols_view(columns@)[i].1,
                ) == data.len(),
        decreases headers@.len() - ci,
    {
        let vals = padded_column(rows, ci);
        let dtype = detect_column_type(&vals);
        let name = headers[ci].clone();
        let built: ColumnData = match dtype {
            DataType::Numeric => {
                let mut v: Vec<Option<String>> = Vec::new();
                let mut k: usize = 0;
                while k < vals.len()
                    invariant
                        k <= vals@.len(),
                        v@.len() == k,
                        forall|p: int|
                            0 <= p < k ==> opt_str_view(#[trigger] v@[p]) == spec_numeric_of(
                                vals@[p],
                            ),
                    decreases vals@.len() - k,
                {
                    let entry: Option<String> = match &vals[k] {
                        Cell::Int(i) => Option::Some(i64_to_string(*i)),
                        Cell::Float(t) => Option::Some(t.clone()),
                        _ => Option::None,
                    };
                    v.push(entry);
                    k = k + 1;
                }
                ColumnData::Numeric(v)
            },
            DataType::Date => {
                let mut v: Vec<Option<i64>> = Vec::new();
                let mut k: usize = 0;
                while k < vals.len()
                    invariant
                        k <= vals@.len(),
                        v@.len() == k,
                        forall|p: int| 0 <= p < k ==> #[trigger] v@[p] == spec_date_of(vals@[p]),
                    decreases vals@.len() - k,
                {
                    let entry: Option<i64> = match &vals[k] {
                        Cell::DateTime { seconds, text: _ } => Option::Some(*seconds),
                        _ => Option::None,
                    };
                    v.push(entry);
                    k = k + 1;
                }
                ColumnData::Date(v)
            },
            _ => {
                let mut v: Vec<String> = Vec::new();
                let mut k: usize = 0;
                while k < vals.len()
                    invariant
                        k <= vals@.len(),
                        v@.len() == k,
                        forall|p: int| 0 <= p < k ==> #[trigger] v@[p]@ == spec_cell_text(vals@[p]),
                    decreases vals@.len() - k,
                {
                    v.push(cell_text(&vals[k]));
                    k = k + 1;
                }
                ColumnData::Text(v)
            },
        };
        let ghost pre_cols = columns@;
        columns.push(FrameColumn { name, data: built });
        proof {
            let fv = cols_view(columns@);
            assert forall|i: int| 0 <= i < ci implies #[trigger] fv[i] == cols_view(pre_cols)[i] by {
                assert(columns@[i] == pre_cols[i]);
                assert(cols_view(pre_cols)[i] == (pre_cols[i].name@, col_data_view(
                    pre_cols[i].data,
                )));
            }
            assert(fv[ci as int].1 == col_data_view(columns@[ci as int].data));
            assert(fv[ci as int].0 == columns@[ci as int].name@);
            match col_data_view(columns@[ci as int].data) {
                ColView::Numeric(v) => {
                    assert(v =~= vals@.map_values(|c: Cell| spec_numeric_of(c)));
                },
                ColView::Date(v) => {
                    assert(v =~= vals@.map_values(|c: Cell| spec_date_of(c)));
                },
                ColView::Text(v) => {
                    assert(v =~= vals@.map_values(|c: Cell| spec_cell_text(c)));
                },
            }
        }
        ci = ci + 1;
    }
    let f = Frame { columns };
    proof {
        assert(frame_view(f).len() == headers@.len());
        assert(view_height(frame_view(f)) == data.len() || frame_view(f).len() == 0);
        assert(data.len() == rows@.len() - 1);
    }
    Ok(f)
}

// ---------------------------------------------------------------------------
// Cleaning
// ---------------------------------------------------------------------------

/// Whether the cell at row `r` of a column counts as empty: an absent
/// numeric or date value, or an empty text rendering.
pub open spec fn spec_cell_empty_in_col(cv: ColView, r: int) -> bool {
    match cv {
        ColView::Numeric(v) => v[r] is None,
        ColView::Date(v) => v[r] is None,
        ColView::Text(v) => v[r].len() == 0,
    }
}

/// Whether every cell of row `r` is empty.
pub open spec fn spec_row_all_empty(fv: Seq<(Seq<char>, ColView)>, r: int) -> bool {
    forall|c: int| 0 <= c < fv.len() ==> spec_cell_empty_in_col(#[trigger] fv[c].1, r)
}

/// The indices of the rows that survive cleaning, in order.
pub open spec fn spec_kept_rows(fv: Seq<(Seq<char>, ColView)>, h: int) -> Seq<int>
    decreases h,
{
    if h <= 0 {
        Seq::empty()
    } else {
        spec_kept_rows(fv, h - 1) + if !spec_row_all_empty(fv, h - 1) {
            seq![h - 1]
        } else {
            Seq::empty()
        }
    }
}

/// One column restricted to the kept rows.
pub open spec fn spec_select_col(cv: ColView, keep: Seq<int>) -> ColView {
    match cv {
        ColView::Numeric(v) => ColView::Numeric(keep.map_values(|r: int| v[r])),
        ColView::Date(v) => ColView::Date(keep.map_values(|r: int| v[r])),
        ColView::Text(v) => ColView::Text(keep.map_values(|r: int| v[r])),
    }
}

/// Whether a column holds no value at all: numeric and date columns with
/// only absent entries. Text columns always hold their renderings.
pub open spec fn spec_col_all_null(cv: ColView) -> bool {
    match cv {
        ColView::Numeric(v) => forall|r: int| 0 <= r < v.len() ==> (#[trigger] v[r]) is None,
        ColView::Date(v) => forall|r: int| 0 <= r < v.len() ==> (#[trigger] v[r]) is None,
        ColView::Text(_) => false,
    }
}

/// The columns that survive cleaning, in order.
pub open spec fn spec_keep_cols(fv: Seq<(Seq<char>, ColView)>) -> Seq<(Seq<char>, ColView)>
    decreases fv.len(),
{
    if fv.len() == 0 {
        Seq::empty()
    } else {
        spec_keep_cols(fv.drop_last()) + if !spec_col_all_null(fv.last().1) {
            seq![fv.last()]
        } else {
            Seq::empty()
        }
    }
}

/// The cleaning of a frame: drop fully-empty rows, then fully-null columns;
/// a table reduced to zero rows or zero columns cleans to nothing.
pub open spec fn spec_clean(fv: Seq<(Seq<char>, ColView)>) -> Option<Seq<(Seq<char>, ColView)>> {
    let keep = spec_kept_rows(fv, view_height(fv));
    if keep.len() == 0 {
        Option::None
    } else {
        let f1 = fv.map_values(|c: (Seq<char>, ColView)| (c.0, spec_select_col(c.1, keep)));
        let f2 = spec_keep_cols(f1);
        if f2.len() == 0 {
            Option::None
        } else {
            Option::Some(f2)
        }
    }
}

fn cell_empty_in_col(col: &FrameColumn, r: usize) -> (b: bool)
    requires
        r < col_view_len(col_data_view(col.data)),
    ensures
        b == spec_cell_empty_in_col(col_data_view(col.data), r as int),
{
    match &col.data {
        ColumnData::Numeric(v) => v[r].is_none(),
        ColumnData::Date(v) => v[r].is_none(),
        ColumnData::Text(v) => v[r].as_str().is_empty(),
    }
}

fn clone_opt_string(o: &Option<String>) -> (r: Option<String>)
    ensures
        opt_str_view(r) == opt_str_view(*o),
{
    match o {
        Option::Some(s) => Option::Some(s.clone()),
        Option::None => Option::None,
    }
}

/// Drops fully-empty rows, then fully-null columns. Yields nothing when the
/// cleaned table would have no row or no column left.
pub fn clean_dataframe(df: &Frame) -> (r: Option<Frame>)
    requires
        frame_wf(*df),
    ensures
        r is Some <==> spec_clean(frame_view(*df)) is Some,
        r matches Some(g) ==> Option::Some(frame_view(g)) == spec_clean(frame_view(*df)),
        r matches Some(g) ==> frame_wf(g),
{
    let ghost fv = frame_view(*df);
    let height = df.height();
    let mut kept: Vec<usize> = Vec::new();
    let mut row: usize = 0;
    proof {
        assert(kept@.map_values(|u: usize| u as int) =~= spec_kept_rows(fv, 0));
    }
    while row < height
        invariant
            row <= height,
            height == view_height(fv),
            fv == frame_view(*df),
            frame_view_wf(fv),
            kept@.map_values(|u: usize| u as int) == spec_kept_rows(fv, row as int),
            forall|j: int| 0 <= j < kept@.len() ==> (#[trigger] kept@[j]) < row,
        decreases height - row,
    {
        let mut all_empty = true;
        let mut c: usize = 0;
        while c < df.columns.len()
            invariant
                c <= df.columns@.len(),
                row < view_height(fv),
                fv == frame_view(*df),
                frame_view_wf(fv),
                all_empty == (forall|k: int|
                    0 <= k < c ==> spec_cell_empty_in_col(#[trigger] fv[k].1, row as int)),
            decreases df.columns@.len() - c,
        {
            proof {
                assert(col_view_len(fv[c as int].1) == view_height(fv));
            }
            if !cell_empty_in_col(&df.columns[c], row) {
                all_empty = false;
                proof {
                    assert(!spec_cell_empty_in_col(fv[c as int].1, row as int));
                }
                c = df.columns.len();
            } else {
                c = c + 1;
            }
        }
        let ghost pre_kept = kept@.map_values(|u: usize| u as int);
        if !all_empty {
            proof {
                assert(!spec_row_all_empty(fv, row as int));
            }
            kept.push(row);
            proof {
                assert(kept@.map_values(|u: usize| u as int) =~= pre_kept + seq![row as int]);
            }
        } else {
            proof {
                assert(spec_row_all_empty(fv, row as int));
                assert(pre_kept + Seq::<int>::empty() =~= pre_kept);
            }
        }
        row = row + 1;
    }
    let ghost keep = spec_kept_rows(fv, view_height(fv));
    proof {
        assert(kept@.map_values(|u: usize| u as int) == keep);
    }
    if kept.len() == 0 {
        return None;
    }
    // Restrict every column to the kept rows.
    let mut f1cols: Vec<FrameColumn> = Vec::new();
    let mut ci: usize = 0;
    let ghost f1 = fv.map_values(|c: (Seq<char>, ColView)| (c.0, spec_select_col(c.1, keep)));
    while ci < df.columns.len()
        invariant
            ci <= df.columns@.len(),
            fv == frame_view(*df),
            frame_view_wf(fv),
            keep == spec_kept_rows(fv, view_height(fv)),
            kept@.map_values(|u: usize| u as int) == keep,
            forall|j: int| 0 <= j < kept@.len() ==> (#[trigger] kept@[j]) < view_height(fv),
            f1 == fv.map_values(|c: (Seq<char>, ColView)| (c.0, spec_select_col(c.1, keep))),
            f1cols@.len() == ci,
            forall|i: int|
                0 <= i < ci ==> (#[trigger] f1cols@[i].name@, col_data_view(f1cols@[i].data))
                    == f1[i],
        decreases df.columns@.len() - ci,
    {
        let col = &df.columns[ci];
        proof {
            assert(col_view_len(fv[ci as int].1) == view_height(fv));
            assert(fv[ci as int] == (col.name@, col_data_view(col.data)));
        }
        let selected: ColumnData = match &col.data {
            ColumnData::Numeric(v) => {
                let mut out: Vec<Option<String>> = Vec::new();
                let mut k: usize = 0;
                while k < kept.len()
                    invariant
                        k <= kept@.len(),
                        out@.len() == k,
                        forall|j: int| 0 <= j < kept@.len() ==> (#[trigger] kept@[j]) < v@.len(),
                        forall|p: int|
                            0 <= p < k ==> opt_str_view(#[trigger] out@[p]) == opt_str_view(
                                v@[kept@[p] as int],
                            ),
                    decreases kept@.len() - k,
                {
                    out.push(clone_opt_string(&v[kept[k]]));
                    k = k + 1;
                }
                ColumnData::Numeric(out)
            },
            ColumnData::Date(v) => {
                let mut out: Vec<Option<i64>> = Vec::new();
                let mut k: usize = 0;
                while k < kept.len()
                    invariant
                        k <= kept@.len(),
                        out@.len() == k,
                        forall|j: int| 0 <= j < kept@.len() ==> (#[trigger] kept@[j]) < v@.len(),
                        forall|p: int| 0 <= p < k ==> #[trigger] out@[p] == v@[kept@[p] as int],
                    decreases kept@.len() - k,
                {
                    out.push(v[kept[k]]);
                    k = k + 1;
                }
                ColumnData::Date(out)
            },
            ColumnData::Text(v) => {
                let mut out: Vec<String> = Vec::new();
                let mut k: usize = 0;
                while k < kept.len()
                    invariant
                        k <= kept@.len(),
                        out@.len() == k,
                        forall|j: int| 0 <= j < kept@.len() ==> (#[trigger] kept@[j]) < v@.len(),
                        forall|p: int| 0 <= p < k ==> #[trigger] out@[p]@ == v@[kept@[p] as int]@,
                    decreases kept@.len() - k,
                {
                    out.push(v[kept[k]].clone());
                    k = k + 1;
                }
                ColumnData::Text(out)
            },
        };
        proof {
            match col_data_view(selected) {
                ColView::Numeric(w) => {
                    assert(w =~= spec_select_col(col_data_view(col.data), keep)->Numeric_0);
                },
                ColView::Date(w) => {
                    assert(w =~= spec_select_col(col_data_view(col.data), keep)->Date_0);
                },
                ColView::Text(w) => {
                    assert(w =~= spec_select_col(col_data_view(col.data), keep)->Text_0);
                },
            }
        }
        f1cols.push(FrameColumn { name: col.name.clone(), data: selected });
        ci = ci + 1;
    }
    // Drop the columns that hold no value at all.
    let mut f2cols: Vec<FrameColumn> = Vec::new();
    let mut cj: usize = 0;
    proof {
        assert(f1.len() == f1cols@.len());
        assert(spec_keep_cols(f1.take(0)) =~= Seq::<(Seq<char>, ColView)>::empty());
    }
    while cj < f1cols.len()
        invariant
            cj <= f1cols@.len(),
            f1.len() == f1cols@.len(),
            forall|i: int|
                0 <= i < f1cols@.len() ==> (
                #[trigger] f1cols@[i].name@,
                col_data_view(f1cols@[i].data),
                ) == f1[i],
            cols_view(f2cols@) == spec_keep_cols(f1.take(cj as int)),
        decreases f1cols@.len() - cj,
    {
        proof {
            assert(f1.take(cj + 1).drop_last() =~= f1.take(cj as int));
            assert(f1.take(cj + 1).last() == f1[cj as int]);
        }
        let col = &f1cols[cj];
        let keep_col: bool = match &col.data {
            ColumnData::Text(_) => true,
            ColumnData::Numeric(v) => {
                let mut any: bool = false;
                let mut k: usize = 0;
                while k < v.len()
                    invariant
                        k <= v@.len(),
                        any == !(forall|p: int| 0 <= p < k ==> (#[trigger] v@[p]) is None),
                    decreases v@.len() - k,
                {
                    if v[k].is_some() {
                        any = true;
                        k = v.len();
                    } else {
                        k = k + 1;
                    }
                }
                proof {
                    let mapped = col_data_view(col.data)->Numeric_0;
                    if any {
                        let p = choose|p: int| 0 <= p < v@.len() && !((#[trigger] v@[p]) is None);
                        assert(mapped[p] == opt_str_view(v@[p]));
                        assert(!spec_col_all_null(col_data_view(col.data)));
                    } else {
                        assert forall|r: int| 0 <= r < mapped.len() implies (
                        #[trigger] mapped[r]) is None by {
                            assert(mapped[r] == opt_str_view(v@[r]));
                        }
                        assert(spec_col_all_null(col_data_view(col.data)));
                    }
                }
                any
            },
            ColumnData::Date(v) => {
                let mut any: bool = false;
                let mut k: usize = 0;
                while k < v.len()
                    invariant
                        k <= v@.len(),
                        any == !(forall|p: int| 0 <= p < k ==> (#[trigger] v@[p]) is None),
                    decreases v@.len() - k,
                {
                    if v[k].is_some() {
                        any = true;
                        k = v.len();
                    } else {
                        k = k + 1;
                    }
                }
                proof {
                    assert(col_data_view(col.data)->Date_0 == v@);
                    if any {
                        assert(!spec_col_all_null(col_data_view(col.data)));
                    } else {
                        assert(spec_col_all_null(col_data_view(col.data)));
                    }
                }
                any
            },
        };
        let ghost pre_f2 = cols_view(f2cols@);
        proof {
            assert(f1cols@[cj as int].name@ == f1[cj as int].0);
            assert(col_data_view(f1cols@[cj as int].data) == f1[cj as int].1);
        }
        if keep_col {
            proof {
                assert(!spec_col_all_null(f1[cj as int].1));
            }
            let ghost pre_f2cols = f2cols@;
            f2cols.push(FrameColumn { name: col.name.clone(), data: clone_column_data(&col.data) });
            proof {
                assert forall|i: int| 0 <= i < pre_f2cols.len() implies #[trigger] cols_view(
                    f2cols@,
                )[i] == pre_f2[i] by {
                    assert(f2cols@[i] == pre_f2cols[i]);
                    assert(pre_f2[i] == (pre_f2cols[i].name@, col_data_view(pre_f2cols[i].data)));
                }
                assert(cols_view(f2cols@)[pre_f2cols.len() as int] == (
                    f2cols@[pre_f2cols.len() as int].name@,
                    col_data_view(f2cols@[pre_f2cols.len() as int].data),
                ));
                assert(cols_view(f2cols@) =~= pre_f2 + seq![f1[cj as int]]);
            }
        } else {
            proof {
                assert(spec_col_all_null(f1[cj as int].1));
                assert(pre_f2 + Seq::<(Seq<char>, ColView)>::empty() =~= pre_f2);
            }
        }
        cj = cj + 1;
    }
    proof {
        assert(f1.take(f1.len() as int) =~= f1);
    }
    if f2cols.len() == 0 {
        return None;
    }
    let g = Frame { columns: f2cols };
    proof {
        let gv = frame_view(g);
        assert(gv == spec_keep_cols(f1));
        lemma_keep_cols_wf(f1, keep.len() as int);
        assert(frame_view_wf(gv));
    }
    Some(g)
}

/// Every selected column has exactly as many rows as indices were kept, so
/// the cleaned frame is well-formed.
proof fn lemma_keep_cols_wf(f1: Seq<(Seq<char>, ColView)>, n: int)
    requires
        forall|i: int| 0 <= i < f1.len() ==> col_view_len(#[trigger] f1[i].1) == n,
    ensures
        forall|i: int|
            0 <= i < spec_keep_cols(f1).len() ==> col_view_len(#[trigger] spec_keep_cols(f1)[i].1)
                == n,
    decreases f1.len(),
{
    if f1.len() > 0 {
        lemma_keep_cols_wf(f1.drop_last(), n);
        assert(forall|i: int|
            0 <= i < f1.drop_last().len() ==> #[trigger] f1.drop_last()[i] == f1[i]);
        let pre = spec_keep_cols(f1.drop_last());
        assert(f1.last() == f1[f1.len() - 1]);
        assert(col_view_len(f1[f1.len() - 1].1) == n);
        assert forall|i: int| 0 <= i < spec_keep_cols(f1).len() implies col_view_len(
            #[trigger] spec_keep_cols(f1)[i].1,
        ) == n by {
            if !spec_col_all_null(f1.last().1) {
                assert(spec_keep_cols(f1) == pre + seq![f1.last()]);
                if i < pre.len() {
                    assert(spec_keep_cols(f1)[i] == pre[i]);
                } else {
                    assert(spec_keep_cols(f1)[i] == f1.last());
                }
            } else {
                assert(spec_keep_cols(f1) =~= pre);
                assert(spec_keep_cols(f1)[i] == pre[i]);
            }
        }
    }
}

/// Clones a column's data.
pub fn clone_column_data(d: &ColumnData) -> (r: ColumnData)
    ensures
        col_data_view(r) == col_data_view(*d),
{
    match d {
        ColumnData::Numeric(v) => {
            let mut out: Vec<Option<String>> = Vec::new();
            let mut k: usize = 0;
            while k < v.len()
                invariant
                    k <= v@.len(),
                    out@.len() == k,
                    forall|p: int|
                        0 <= p < k ==> opt_str_view(#[trigger] out@[p]) == opt_str_view(v@[p]),
                decreases v@.len() - k,
            {
                out.push(clone_opt_string(&v[k]));
                k = k + 1;
            }
            proof {
                assert(out@.map_values(|o: Option<String>| opt_str_view(o)) =~= v@.map_values(
                    |o: Option<String>| opt_str_view(o),
                ));
            }
            ColumnData::Numeric(out)
        },
        ColumnData::Date(v) => {
            let mut out: Vec<Option<i64>> = Vec::new();
            let mut k: usize = 0;
            while k < v.len()
                invariant
                    k <= v@.len(),
                    out@.len() == k,
                    forall|p: int| 0 <= p < k ==> #[trigger] out@[p] == v@[p],
                decreases v@.len() - k,
            {
                out.push(v[k]);
                k = k + 1;
            }
            proof {
                assert(out@ =~= v@);
            }
            ColumnData::Date(out)
        },
        ColumnData::Text(v) => {
            let mut out: Vec<String> = Vec::new();
            let mut k: usize = 0;
            while k < v.len()
                invariant
                    k <= v@.len(),
                    out@.len() == k,
                    forall|p: int| 0 <= p < k ==> #[trigger] out@[p]@ == v@[p]@,
                decreases v@.len() - k,
            {
                out.push(v[k].clone());
                k = k + 1;
            }
            proof {
                assert(str_views(out@) =~= str_views(v@));
            }
            ColumnData::Text(out)
        },
    }
}

/// Whether a frame cleans to nothing depends only on its column data,
/// never on its column names.
pub proof fn lemma_clean_ignores_names(a: Seq<(Seq<char>, ColView)>, b: Seq<(Seq<char>, ColView)>)
    requires
        a.len() == b.len(),
        forall|i: int| 0 <= i < a.len() ==> #[trigger] a[i].1 == b[i].1,
    ensures
        spec_clean(a) is Some <==> spec_clean(b) is Some,
{
    assert(view_height(a) == view_height(b));
    lemma_kept_rows_agree(a, b, view_height(a));
    let keep = spec_kept_rows(a, view_height(a));
    if keep.len() > 0 {
        let fa = a.map_values(|c: (Seq<char>, ColView)| (c.0, spec_select_col(c.1, keep)));
        let fb = b.map_values(|c: (Seq<char>, ColView)| (c.0, spec_select_col(c.1, keep)));
        assert(forall|i: int| 0 <= i < fa.len() ==> #[trigger] fa[i].1 == fb[i].1);
        lemma_keep_cols_len_agree(fa, fb);
    }
}

/// The kept-row indices agree between frames with equal column data.
proof fn lemma_kept_rows_agree(a: Seq<(Seq<char>, ColView)>, b: Seq<(Seq<char>, ColView)>, h: int)
    requires
        a.len() == b.len(),
        forall|i: int| 0 <= i < a.len() ==> #[trigger] a[i].1 == b[i].1,
    ensures
        spec_kept_rows(a, h) == spec_kept_rows(b, h),
    decreases h,
{
    if h > 0 {
        lemma_kept_rows_agree(a, b, h - 1);
        if spec_row_all_empty(a, h - 1) {
            assert forall|c: int| 0 <= c < b.len() implies spec_cell_empty_in_col(
                #[trigger] b[c].1,
                h - 1,
            ) by {
                assert(a[c].1 == b[c].1);
                assert(spec_cell_empty_in_col(a[c].1, h - 1));
            }
            assert(spec_row_all_empty(b, h - 1));
        }
        if spec_row_all_empty(b, h - 1) {
            assert forall|c: int| 0 <= c < a.len() implies spec_cell_empty_in_col(
                #[trigger] a[c].1,
                h - 1,
            ) by {
                assert(a[c].1 == b[c].1);
                assert(spec_cell_empty_in_col(b[c].1, h - 1));
            }
            assert(spec_row_all_empty(a, h - 1));
        }
        assert(spec_row_all_empty(a, h - 1) == spec_row_all_empty(b, h - 1));
    }
}

/// The number of surviving columns agrees between frames with equal column
/// data.
proof fn lemma_keep_cols_len_agree(a: Seq<(Seq<char>, ColView)>, b: Seq<(Seq<char>, ColView)>)
    requires
        a.len() == b.len(),
        forall|i: int| 0 <= i < a.len() ==> #[trigger] a[i].1 == b[i].1,
    ensures
        spec_keep_cols(a).len() == spec_keep_cols(b).len(),
    decreases a.len(),
{
    if a.len() > 0 {
        assert(forall|i: int|
            0 <= i < a.drop_last().len() ==> #[trigger] a.drop_last()[i].1 == b.drop_last()[i].1);
        lemma_keep_cols_len_agree(a.drop_last(), b.drop_last());
        assert(a.last().1 == b.last().1);
    }
}

// ---------------------------------------------------------------------------
// Date re-detection
// ---------------------------------------------------------------------------

/// How many renderings in the sequence are date-like.
pub open spec fn spec_count_datelike(v: Seq<Seq<char>>) -> int
    decreases v.len(),
{
    if v.len() == 0 {
        0
    } else {
        spec_count_datelike(v.drop_last()) + if spec_date_like(v.last()) {
            1int
        } else {
            0int
        }
    }
}

/// Whether a text column's leading sample is at least 80% date-like
/// strings.
pub open spec fn spec_text_col_datey(cv: ColView) -> bool {
    match cv {
        ColView::Text(v) => {
            let n = if v.len() <= TYPE_DETECTION_ROWS {
                v.len() as int
            } else {
                TYPE_DETECTION_ROWS as int
            };
            n > 0 && 5 * spec_count_datelike(v.take(n)) >= 4 * n
        },
        _ => false,
    }
}

/// The names of the columns that the re-scan marks as dates, in order.
pub open spec fn spec_datey_names(fv: Seq<(Seq<char>, ColView)>) -> Seq<Seq<char>>
    decreases fv.len(),
{
    if fv.len() == 0 {
        Seq::empty()
    } else {
        spec_datey_names(fv.drop_last()) + if spec_text_col_datey(fv.last().1) {
            seq![fv.last().0]
        } else {
            Seq::empty()
        }
    }
}

/// Finds the text columns whose sampled values are mostly date-like
/// strings. This second pass runs on the cleaned frame, since cleaning
/// changes which rows the sampler sees.
pub fn detect_date_columns(df: &Frame) -> (r: Vec<String>)
    ensures
        str_views(r@) == spec_datey_names(frame_view(*df)),
{
    let ghost fv = frame_view(*df);
    let mut out: Vec<String> = Vec::new();
    let mut ci: usize = 0;
    proof {
        assert(str_views(out@) =~= spec_datey_names(fv.take(0)));
    }
    while ci < df.columns.len()
        invariant
            ci <= df.columns@.len(),
            fv == frame_view(*df),
            str_views(out@) == spec_datey_names(fv.take(ci as int)),
        decreases df.columns@.len() - ci,
    {
        proof {
            assert(fv.take(ci + 1).drop_last() =~= fv.take(ci as int));
            assert(fv.take(ci + 1).last() == fv[ci as int]);
            assert(fv[ci as int] == (df.columns@[ci as int].name@, col_data_view(
                df.columns@[ci as int].data,
            )));
        }
        let col = &df.columns[ci];
        let datey: bool = match &col.data {
            ColumnData::Text(v) => {
                let cap: usize = if v.len() <= TYPE_DETECTION_ROWS {
                    v.len()
                } else {
                    TYPE_DETECTION_ROWS
                };
                let ghost sample = col_data_view(col.data)->Text_0.take(cap as int);
                let mut count: u64 = 0;
                let mut k: usize = 0;
                proof {
                    assert(sample.take(0) =~= Seq::<Seq<char>>::empty());
                }
                while k < cap
                    invariant
                        k <= cap,
                        cap <= v@.len(),
                        cap <= TYPE_DETECTION_ROWS,
                        sample == col_data_view(col.data)->Text_0.take(cap as int),
                        col_data_view(col.data) == ColView::Text(str_views(v@)),
                        count <= k,
                        count == spec_count_datelike(sample.take(k as int)),
                    decreases cap - k,
                {
                    proof {
                        assert(sample.take(k + 1).drop_last() =~= sample.take(k as int));
                        assert(sample.take(k + 1).last() == v@[k as int]@);
                    }
                    if is_date_string(v[k].as_str()) {
                        count = count + 1;
                    }
                    k = k + 1;
                }
                proof {
                    assert(sample.take(cap as int) =~= sample);
                }
                cap > 0 && 5 * count >= 4 * (cap as u64)
            },
            _ => false,
        };
        let ghost pre = str_views(out@);
        if datey {
            proof {
                assert(spec_text_col_datey(fv[ci as int].1));
            }
            out.push(col.name.clone());
            proof {
                assert(str_views(out@) =~= pre + seq![fv[ci as int].0]);
            }
        } else {
            proof {
                assert(!spec_text_col_datey(fv[ci as int].1));
                assert(pre + Seq::<Seq<char>>::empty() =~= pre);
            }
        }
        ci = ci + 1;
    }
    proof {
        assert(fv.take(fv.len() as int) =~= fv);
    }
    out
}

/// The recast of one text column to dates: each date-like rendering parses
/// to epoch seconds, everything else becomes absent.
pub open spec fn spec_recast_text(v: Seq<Seq<char>>) -> Seq<Option<i64>> {
    v.map_values(
        |t: Seq<char>|
            if spec_date_like(t) {
                Option::Some(spec_date_epoch(t) as i64)
            } else {
                Option::None
            },
    )
}

/// The frame after recasting the named text columns to the date kind.
pub open spec fn spec_normalize_dates(fv: Seq<(Seq<char>, ColView)>, names: Seq<Seq<char>>) -> Seq<
    (Seq<char>, ColView),
> {
    fv.map_values(
        |c: (Seq<char>, ColView)|
            match c.1 {
                ColView::Text(v) => if names.contains(c.0) {
                    (c.0, ColView::Date(spec_recast_text(v)))
                } else {
                    c
                },
                _ => c,
            },
    )
}

/// Recasts the named text columns to the date kind, parsing each value
/// through the fixed date patterns.
pub fn normalize_date_columns(df: &Frame, date_columns: &Vec<String>) -> (r: Frame)
    ensures
        frame_view(r) == spec_normalize_dates(frame_view(*df), str_views(date_columns@)),
        frame_wf(*df) ==> frame_wf(r),
{
    let ghost fv = frame_view(*df);
    let ghost names = str_views(date_columns@);
    let mut out: Vec<FrameColumn> = Vec::new();
    let mut ci: usize = 0;
    while ci < df.columns.len()
        invariant
            ci <= df.columns@.len(),
            fv == frame_view(*df),
            names == str_views(date_columns@),
            out@.len() == ci,
            forall|i: int|
                0 <= i < ci ==> (#[trigger] out@[i].name@, col_data_view(out@[i].data))
                    == spec_normalize_dates(fv, names)[i],
        decreases df.columns@.len() - ci,
    {
        proof {
            assert(fv[ci as int] == (df.columns@[ci as int].name@, col_data_view(
                df.columns@[ci as int].data,
            )));
        }
        let col = &df.columns[ci];
        let is_text = match &col.data {
            ColumnData::Text(_) => true,
            _ => false,
        };
        let recast = is_text && contains_string(date_columns, &col.name);
        let data: ColumnData = if recast {
            match &col.data {
                ColumnData::Text(v) => {
                    let mut dates: Vec<Option<i64>> = Vec::new();
                    let mut k: usize = 0;
                    while k < v.len()
                        invariant
                            k <= v@.len(),
                            dates@.len() == k,
                            forall|p: int|
                                0 <= p < k ==> #[trigger] dates@[p] == spec_recast_text(
                                    str_views(v@),
                                )[p],
                        decreases v@.len() - k,
                    {
                        let parsed = parse_date_epoch(v[k].as_str());
                        dates.push(parsed);
                        k = k + 1;
                    }
                    ColumnData::Date(dates)
                },
                _ => ColumnData::Text(Vec::new()),
            }
        } else {
            clone_column_data(&col.data)
        };
        proof {
            if recast {
                match &col.data {
                    ColumnData::Text(v) => {
                        assert(col_data_view(data)->Date_0 =~= spec_recast_text(str_views(v@)));
                        assert(col_data_view(col.data)->Text_0 == str_views(v@));
                    },
                    _ => {},
                }
            }
        }
        out.push(FrameColumn { name: col.name.clone(), data });
        ci = ci + 1;
    }
    let r = Frame { columns: out };
    proof {
        assert(frame_view(r) =~= spec_normalize_dates(fv, names));
        if frame_view_wf(fv) {
            let rv = frame_view(r);
            assert forall|i: int| 0 <= i < rv.len() implies col_view_len(#[trigger] rv[i].1)
                == view_height(rv) by {
                assert(col_view_len(rv[i].1) == col_view_len(fv[i].1)) by {
                    match fv[i].1 {
                        ColView::Text(v) => {
                            if names.contains(fv[i].0) {
                                assert(rv[i].1 == ColView::Date(spec_recast_text(v)));
                            }
                        },
                        _ => {},
                    }
                }
                assert(col_view_len(rv[0].1) == col_view_len(fv[0].1)) by {
                    match fv[0].1 {
                        ColView::Text(v) => {
                            if names.contains(fv[0].0) {
                                assert(rv[0].1 == ColView::Date(spec_recast_text(v)));
                            }
                        },
                        _ => {},
                    }
                }
            }
        }
    }
    r
}

} // verus!
