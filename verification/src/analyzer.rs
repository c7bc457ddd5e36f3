//! Sheet analysis: a read-only report over a decoded workbook. The first
//! sheet's leading window of rows is analyzed: headers are normalized,
//! every column is classified and summarized, and the columns are grouped
//! into date, numeric and text lists. Boolean columns are classified but
//! placed in no list — a deliberate asymmetry of the report shape.

use vstd::prelude::*;
use vstd::string::*;

use crate::cells::{cell_text, spec_cell_text, Cell, SheetGrid};
use crate::error::AppError;
use crate::headers::{normalize_headers, spec_chosen_name, str_views, valid_identifier};
use crate::infer::{data_type_name, detect_column_type, spec_data_type_name,
    spec_detect_column_type, DataType};
use crate::stats::{compute_column_stats, lemma_stats_bounds, opt_str_view, spec_column_stats};
use crate::{ROW_WINDOW, SAMPLE_ROWS_CAP, SAMPLE_VALUES_CAP};

verus! {

/// The derived, immutable summary of one column.
pub struct ColumnInfo {
    pub name: String,
    pub data_type: String,
    pub sample_values: Vec<String>,
    pub null_count: usize,
    pub unique_count: usize,
    pub min_value: Option<String>,
    pub max_value: Option<String>,
    pub has_duplicates: bool,
}

/// The analysis report of one workbook.
pub struct SheetAnalysis {
    pub sheet_names: Vec<String>,
    pub row_count: usize,
    pub column_count: usize,
    pub sample_data: Vec<Vec<String>>,
    pub column_info: Vec<ColumnInfo>,
    pub date_columns: Vec<String>,
    pub numeric_columns: Vec<String>,
    pub text_columns: Vec<String>,
}

/// The views of a vector of rows of cells.
pub open spec fn spec_vec_rows(rows: Seq<Vec<Cell>>) -> Seq<Seq<Cell>> {
    rows.map_values(|row: Vec<Cell>| row@)
}

/// The window of rows taken into the analysis.
pub open spec fn spec_window(rows: Seq<Seq<Cell>>) -> Seq<Seq<Cell>> {
    if rows.len() <= ROW_WINDOW {
        rows
    } else {
        rows.take(ROW_WINDOW as int)
    }
}

/// The first sample renderings of a column's values, empties rendering as
/// the empty string.
pub open spec fn spec_sample_values(values: Seq<Cell>) -> Seq<Seq<char>> {
    let n = if values.len() <= SAMPLE_VALUES_CAP {
        values.len() as int
    } else {
        SAMPLE_VALUES_CAP as int
    };
    values.take(n).map_values(|c: Cell| spec_cell_text(c))
}

/// Everything `analyze_column` promises of a summary: the classification,
/// the statistics, the bounded samples, and the duplicate flag being a pure
/// function of the counts.
pub open spec fn spec_column_info_ok(info: ColumnInfo, values: Seq<Cell>, name: Seq<char>) -> bool {
    let st = spec_column_stats(values);
    &&& info.name@ == name
    &&& info.data_type@ == spec_data_type_name(spec_detect_column_type(values))
    &&& str_views(info.sample_values@) == spec_sample_values(values)
    &&& info.sample_values@.len() <= SAMPLE_VALUES_CAP
    &&& info.null_count == st.nulls
    &&& info.unique_count == st.seen.len()
    &&& opt_str_view(info.min_value) == st.min
    &&& opt_str_view(info.max_value) == st.max
    &&& info.has_duplicates == (st.seen.len() < values.len() - st.nulls)
}

/// The cells of one column across the data rows; a row too short to hold
/// the column contributes nothing.
pub open spec fn spec_column_cells(data_rows: Seq<Seq<Cell>>, idx: int) -> Seq<Cell>
    decreases data_rows.len(),
{
    if data_rows.len() == 0 {
        Seq::empty()
    } else {
        spec_column_cells(data_rows.drop_last(), idx) + if idx < data_rows.last().len() {
            seq![data_rows.last()[idx]]
        } else {
            Seq::empty()
        }
    }
}

/// The names among `headers` whose column type equals `t`, in header order.
pub open spec fn spec_category_list(headers: Seq<Seq<char>>, types: Seq<DataType>, t: DataType)
    -> Seq<Seq<char>>
    decreases headers.len(),
{
    if headers.len() == 0 || types.len() < headers.len() {
        Seq::empty()
    } else {
        let pre = spec_category_list(headers.drop_last(), types.drop_last(), t);
        if types[headers.len() - 1] == t {
            pre.push(headers.last())
        } else {
            pre
        }
    }
}

/// The renderings of the first sample rows of the window, header row
/// included.
pub open spec fn spec_sample_rows(window: Seq<Seq<Cell>>) -> Seq<Seq<Seq<char>>> {
    let n = if window.len() <= SAMPLE_ROWS_CAP {
        window.len() as int
    } else {
        SAMPLE_ROWS_CAP as int
    };
    window.take(n).map_values(|row: Seq<Cell>| row.map_values(|c: Cell| spec_cell_text(c)))
}

/// The views of rendered rows.
pub open spec fn spec_rendered_rows(rows: Seq<Vec<String>>) -> Seq<Seq<Seq<char>>> {
    rows.map_values(|row: Vec<String>| str_views(row@))
}

/// The names of the summarized columns, in order.
pub open spec fn spec_info_names(infos: Seq<ColumnInfo>) -> Seq<Seq<char>> {
    infos.map_values(|info: ColumnInfo| info.name@)
}

/// The raw header texts: the renderings of the window's first row.
pub open spec fn spec_header_texts(window: Seq<Seq<Cell>>) -> Seq<Seq<char>> {
    if window.len() == 0 {
        Seq::empty()
    } else {
        window[0].map_values(|c: Cell| spec_cell_text(c))
    }
}

/// The inferred types of the first `n` columns.
pub open spec fn spec_info_types(data: Seq<Seq<Cell>>, n: int) -> Seq<DataType> {
    Seq::new(n as nat, |i: int| spec_detect_column_type(spec_column_cells(data, i)))
}

proof fn lemma_str_views_push(v: Seq<String>, x: String)
    ensures
        str_views(v.push(x)) == str_views(v).push(x@),
{
    assert forall|j: int| 0 <= j < v.len() + 1 implies str_views(v.push(x))[j] == str_views(
        v,
    ).push(x@)[j] by {
        if j < v.len() {
            assert(str_views(v.push(x))[j] == v[j]@);
        } else {
            assert(str_views(v.push(x))[j] == x@);
        }
    }
    assert(str_views(v.push(x)) =~= str_views(v).push(x@));
}

proof fn lemma_render_take_step(s: Seq<Cell>, k: int)
    requires
        0 <= k < s.len(),
    ensures
        s.take(k + 1).map_values(|c: Cell| spec_cell_text(c)) == s.take(k).map_values(
            |c: Cell| spec_cell_text(c),
        ).push(spec_cell_text(s[k])),
{
    let f = |c: Cell| spec_cell_text(c);
    assert forall|j: int| 0 <= j < k + 1 implies s.take(k + 1).map_values(f)[j] == s.take(
        k,
    ).map_values(f).push(spec_cell_text(s[k]))[j] by {
        assert(s.take(k + 1).map_values(f)[j] == f(s[j]));
        if j < k {
            assert(s.take(k).map_values(f)[j] == f(s[j]));
        }
    }
    assert(s.take(k + 1).map_values(f) =~= s.take(k).map_values(f).push(spec_cell_text(s[k])));
}

proof fn lemma_category_step(
    names: Seq<Seq<char>>,
    types: Seq<DataType>,
    infos: Seq<ColumnInfo>,
    data: Seq<Seq<Cell>>,
    ci: int,
)
    requires
        0 <= ci,
        infos.len() == ci + 1,
        names == spec_info_names(infos),
        types == spec_info_types(data, ci + 1),
    ensures
        forall|t: DataType|
            spec_category_list(names, types, t) == #[trigger] spec_category_list(
                names.drop_last(),
                types.drop_last(),
                t,
            ) + if spec_detect_column_type(spec_column_cells(data, ci)) == t {
                seq![infos.last().name@]
            } else {
                Seq::<Seq<char>>::empty()
            },
{
    assert forall|t: DataType|
        spec_category_list(names, types, t) == #[trigger] spec_category_list(
            names.drop_last(),
            types.drop_last(),
            t,
        ) + if spec_detect_column_type(spec_column_cells(data, ci)) == t {
            seq![infos.last().name@]
        } else {
            Seq::<Seq<char>>::empty()
        } by {
        assert(names.len() == ci + 1);
        assert(types.len() == ci + 1);
        assert(types[ci] == spec_detect_column_type(spec_column_cells(data, ci)));
        assert(names.last() == infos.last().name@);
        if types[ci] == t {
            assert(spec_category_list(names, types, t) == spec_category_list(
                names.drop_last(),
                types.drop_last(),
                t,
            ).push(names.last()));
            assert(spec_category_list(names.drop_last(), types.drop_last(), t).push(names.last())
                =~= spec_category_list(names.drop_last(), types.drop_last(), t) + seq![
                infos.last().name@,
            ]);
        } else {
            assert(spec_category_list(names.drop_last(), types.drop_last(), t) + Seq::<
                Seq<char>,
            >::empty() =~= spec_category_list(names.drop_last(), types.drop_last(), t));
        }
    }
}

/// Takes the leading window of rows, cloning each row of cells.
fn take_window(rows: &Vec<Vec<Cell>>) -> (r: Vec<Vec<Cell>>)
    ensures
        spec_vec_rows(r@) == spec_window(spec_vec_rows(rows@)),
{
    let cap: usize = if rows.len() <= ROW_WINDOW {
        rows.len()
    } else {
        ROW_WINDOW
    };
    let mut out: Vec<Vec<Cell>> = Vec::new();
    let mut i: usize = 0;
    while i < cap
        invariant
            i <= cap,
            cap <= rows@.len(),
            out@.len() == i,
            forall|j: int| 0 <= j < i ==> out@[j]@ == #[trigger] rows@[j]@,
        decreases cap - i,
    {
        let src = &rows[i];
        let mut row: Vec<Cell> = Vec::new();
        let mut k: usize = 0;
        while k < src.len()
            invariant
                k <= src@.len(),
                row@.len() == k,
                forall|p: int| 0 <= p < k ==> row@[p] == #[trigger] src@[p],
            decreases src@.len() - k,
        {
            row.push(src[k].clone());
            k = k + 1;
        }
        proof {
            assert(row@ =~= src@);
        }
        out.push(row);
        i = i + 1;
    }
    proof {
        assert(spec_vec_rows(out@) =~= spec_window(spec_vec_rows(rows@)));
    }
    out
}

/// Extracts the cells of column `idx` from the data rows of the window.
fn column_cells(window: &Vec<Vec<Cell>>, idx: usize) -> (r: Vec<Cell>)
    requires
        window@.len() >= 1,
    ensures
        r@ == spec_column_cells(spec_vec_rows(window@).skip(1), idx as int),
{
    let ghost data = spec_vec_rows(window@).skip(1);
    let mut out: Vec<Cell> = Vec::new();
    let mut row: usize = 1;
    proof {
        assert(data.take(0) =~= Seq::<Seq<Cell>>::empty());
    }
    while row < window.len()
        invariant
            1 <= row <= window@.len(),
            data == spec_vec_rows(window@).skip(1),
            out@ == spec_column_cells(data.take(row - 1), idx as int),
        decreases window@.len() - row,
    {
        proof {
            assert(data.take(row as int).drop_last() =~= data.take(row - 1));
            assert(data.take(row as int).last() == window@[row as int]@);
        }
        let r = &window[row];
        if idx < r.len() {
            out.push(r[idx].clone());
        }
        row = row + 1;
    }
    proof {
        assert(data.take(window@.len() - 1) =~= data);
    }
    out
}

/// Renders the first sample rows of the window as strings.
fn sample_rows(window: &Vec<Vec<Cell>>) -> (r: Vec<Vec<String>>)
    ensures
        r@.len() <= SAMPLE_ROWS_CAP,
        spec_rendered_rows(r@) == spec_sample_rows(spec_vec_rows(window@)),
{
    let cap: usize = if window.len() <= SAMPLE_ROWS_CAP {
        window.len()
    } else {
        SAMPLE_ROWS_CAP
    };
    let mut out: Vec<Vec<String>> = Vec::new();
    let mut i: usize = 0;
    while i < cap
        invariant
            i <= cap,
            cap <= window@.len(),
            cap <= SAMPLE_ROWS_CAP,
            out@.len() == i,
            forall|j: int|
                0 <= j < i ==> str_views(#[trigger] out@[j]@) == window@[j]@.map_values(
                    |c: Cell| spec_cell_text(c),
                ),
        decreases cap - i,
    {
        let src = &window[i];
        let mut row: Vec<String> = Vec::new();
        let mut k: usize = 0;
        proof {
            assert(str_views(row@) =~= Seq::<Seq<char>>::empty());
            assert(src@.take(0).map_values(|c: Cell| spec_cell_text(c)) =~= Seq::<
                Seq<char>,
            >::empty());
        }
        while k < src.len()
            invariant
                k <= src@.len(),
                row@.len() == k,
                str_views(row@) == src@.take(k as int).map_values(|c: Cell| spec_cell_text(c)),
            decreases src@.len() - k,
        {
            let ghost pre_row = row@;
            let t = cell_text(&src[k]);
            row.push(t);
            proof {
                lemma_str_views_push(pre_row, row@.last());
                lemma_render_take_step(src@, k as int);
                assert(row@ =~= pre_row.push(row@.last()));
                assert(str_views(row@) == src@.take(k + 1).map_values(|c: Cell| spec_cell_text(c)));
            }
            k = k + 1;
        }
        proof {
            assert(src@.take(src@.len() as int) =~= src@);
        }
        out.push(row);
        i = i + 1;
    }
    proof {
        assert(spec_rendered_rows(out@) =~= spec_sample_rows(spec_vec_rows(window@)));
    }
    out
}

/// Every column summary keeps its counts coherent: nulls and distinct
/// values never outnumber the values, and the duplicate flag is exactly
/// the comparison of the distinct count against the non-null count.
pub proof fn lemma_column_info_invariant(info: ColumnInfo, values: Seq<Cell>, name: Seq<char>)
    requires
        spec_column_info_ok(info, values, name),
    ensures
        info.null_count + info.unique_count <= values.len(),
        info.has_duplicates == (info.unique_count < values.len() - info.null_count),
{
    lemma_stats_bounds(values);
}

/// The analyzer; it owns no state and never touches a store.
pub struct ExcelAnalyzer;

impl ExcelAnalyzer {
    /// Summarizes one column: classification from the bounded sample,
    /// statistics over all values, the first renderings as samples, and the
    /// duplicate flag computed from the counts.
    pub fn analyze_column(&self, values: &Vec<Cell>, name: &str) -> (info: ColumnInfo)
        ensures
            spec_column_info_ok(info, values@, name@),
    {
        let stats = compute_column_stats(values);
        proof {
            lemma_stats_bounds(values@);
        }
        let dtype = detect_column_type(values);
        let cap: usize = if values.len() <= SAMPLE_VALUES_CAP {
            values.len()
        } else {
            SAMPLE_VALUES_CAP
        };
        let mut sample_values: Vec<String> = Vec::new();
        let mut i: usize = 0;
        proof {
            assert(str_views(sample_values@) =~= values@.take(0).map_values(
                |c: Cell| spec_cell_text(c),
            ));
        }
        while i < cap
            invariant
                i <= cap,
                cap <= values@.len(),
                cap <= SAMPLE_VALUES_CAP,
                str_views(sample_values@) == values@.take(i as int).map_values(
                    |c: Cell| spec_cell_text(c),
                ),
                sample_values@.len() == i,
            decreases cap - i,
        {
            let ghost pre_sample = sample_values@;
            let t = cell_text(&values[i]);
            sample_values.push(t);
            proof {
                lemma_str_views_push(pre_sample, sample_values@.last());
                lemma_render_take_step(values@, i as int);
                assert(sample_values@ =~= pre_sample.push(sample_values@.last()));
                assert(str_views(sample_values@) == values@.take(i + 1).map_values(
                    |c: Cell| spec_cell_text(c),
                ));
            }
            i = i + 1;
        }
        let unique_count = stats.distinct.len();
        let total = values.len();
        let has_duplicates = unique_count < total - stats.null_count;
        proof {
            assert(values@.take(cap as int).map_values(|c: Cell| spec_cell_text(c))
                =~= spec_sample_values(values@));
        }
        ColumnInfo {
            name: String::from_str(name),
            data_type: data_type_name(&dtype),
            sample_values,
            null_count: stats.null_count,
            unique_count,
            min_value: stats.min_value,
            max_value: stats.max_value,
            has_duplicates,
        }
    }

    /// Analyzes the first sheet of a decoded workbook: takes the leading
    /// window of rows, normalizes the header row, summarizes and classifies
    /// every column, and collects bounded sample rows. Fails exactly when
    /// the workbook has no sheet.
    pub fn analyze_workbook(&self, sheets: &Vec<SheetGrid>) -> (r: Result<SheetAnalysis, AppError>)
        ensures
            r is Err <==> sheets@.len() == 0,
            r matches Ok(a) ==> {
                let window = spec_window(spec_vec_rows(sheets@[0].rows@));
                let data = window.skip(1);
                &&& a.sheet_names@.len() == sheets@.len()
                &&& forall|i: int|
                    0 <= i < sheets@.len() ==> a.sheet_names@[i]@ == #[trigger] sheets@[i].name@
                &&& a.row_count == window.len()
                &&& a.column_count == (if window.len() == 0 {
                    0int
                } else {
                    window[0].len() as int
                })
                &&& a.sample_data@.len() <= SAMPLE_ROWS_CAP
                &&& spec_rendered_rows(a.sample_data@) == spec_sample_rows(window)
                &&& a.column_info@.len() == a.column_count
                &&& forall|i: int|
                    0 <= i < a.column_info@.len() ==> spec_column_info_ok(
                        #[trigger] a.column_info@[i],
                        spec_column_cells(data, i),
                        a.column_info@[i].name@,
                    )
                &&& forall|i: int|
                    0 <= i < a.column_info@.len() ==> valid_identifier(
                        #[trigger] a.column_info@[i].name@,
                    )
                &&& forall|i: int, j: int|
                    0 <= i < j < a.column_info@.len() ==> a.column_info@[i].name@
                        != a.column_info@[j].name@
                &&& forall|i: int|
                    0 <= i < a.column_info@.len() ==> spec_chosen_name(
                        spec_info_names(a.column_info@).take(i),
                        spec_header_texts(window)[i],
                        #[trigger] a.column_info@[i].name@,
                    )
                &&& str_views(a.date_columns@) == spec_category_list(
                    spec_info_names(a.column_info@),
                    spec_info_types(data, a.column_info@.len() as int),
                    DataType::Date,
                )
                &&& str_views(a.numeric_columns@) == spec_category_list(
                    spec_info_names(a.column_info@),
                    spec_info_types(data, a.column_info@.len() as int),
                    DataType::Numeric,
                )
                &&& str_views(a.text_columns@) == spec_category_list(
                    spec_info_names(a.column_info@),
                    spec_info_types(data, a.column_info@.len() as int),
                    DataType::Text,
                )
            },
    {
        if sheets.len() == 0 {
            return Err(
                AppError::FileProcessingError(String::from_str("No sheets found in workbook")),
            );
        }
        let mut sheet_names: Vec<String> = Vec::new();
        let mut si: usize = 0;
        while si < sheets.len()
            invariant
                si <= sheets@.len(),
                sheet_names@.len() == si,
                forall|i: int| 0 <= i < si ==> sheet_names@[i]@ == #[trigger] sheets@[i].name@,
            decreases sheets@.len() - si,
        {
            sheet_names.push(sheets[si].name.clone());
            si = si + 1;
        }
        let first = &sheets[0];
        let window = take_window(&first.rows);
        let ghost wspec = spec_window(spec_vec_rows(first.rows@));
        proof {
            assert(spec_vec_rows(window@) == wspec);
        }
        let row_count = window.len();
        let column_count = if window.len() == 0 {
            0
        } else {
            window[0].len()
        };
        let ghost htexts = spec_header_texts(spec_vec_rows(window@));
        let headers = if window.len() == 0 {
            let empty: Vec<String> = Vec::new();
            empty
        } else {
            let mut texts: Vec<String> = Vec::new();
            let mut hi: usize = 0;
            let hrow = &window[0];
            while hi < hrow.len()
                invariant
                    hi <= hrow@.len(),
                    texts@.len() == hi,
                    forall|j: int| 0 <= j < hi ==> #[trigger] texts@[j]@ == spec_cell_text(hrow@[j]),
                decreases hrow@.len() - hi,
            {
                texts.push(cell_text(&hrow[hi]));
                hi = hi + 1;
            }
            proof {
                assert(spec_vec_rows(window@)[0] == window@[0]@);
                assert(forall|j: int|
                    0 <= j < texts@.len() ==> #[trigger] texts@[j]@ == htexts[j]);
            }
            let hs = normalize_headers(&texts);
            proof {
                assert forall|p: int| 0 <= p < hs@.len() implies spec_chosen_name(
                    str_views(hs@).take(p),
                    htexts[p],
                    #[trigger] hs@[p]@,
                ) by {
                    assert(texts@[p]@ == htexts[p]);
                    assert(spec_chosen_name(str_views(hs@).take(p), texts@[p]@, hs@[p]@));
                }
            }
            hs
        };
        assert(headers@.len() == column_count);
        proof {
            assert(forall|p: int|
                0 <= p < headers@.len() ==> spec_chosen_name(
                    str_views(headers@).take(p),
                    htexts[p],
                    #[trigger] headers@[p]@,
                ));
        }
        let ghost data = spec_vec_rows(window@).skip(1);
        let mut column_info: Vec<ColumnInfo> = Vec::new();
        let mut date_columns: Vec<String> = Vec::new();
        let mut numeric_columns: Vec<String> = Vec::new();
        let mut text_columns: Vec<String> = Vec::new();
        let mut ci: usize = 0;
        proof {
            assert(spec_info_names(column_info@) =~= Seq::<Seq<char>>::empty());
            assert(spec_info_types(data, 0) =~= Seq::<DataType>::empty());
            assert(str_views(date_columns@) =~= Seq::<Seq<char>>::empty());
            assert(str_views(numeric_columns@) =~= Seq::<Seq<char>>::empty());
            assert(str_views(text_columns@) =~= Seq::<Seq<char>>::empty());
        }
        while ci < headers.len()
            invariant
                ci <= headers@.len(),
                window@.len() >= 1 || headers@.len() == 0,
                data == spec_vec_rows(window@).skip(1),
                column_info@.len() == ci,
                forall|i: int|
                    0 <= i < ci ==> spec_column_info_ok(
                        #[trigger] column_info@[i],
                        spec_column_cells(data, i),
                        column_info@[i].name@,
                    ),
                forall|i: int| 0 <= i < ci ==> column_info@[i].name@ == #[trigger] headers@[i]@,
                forall|i: int| 0 <= i < headers@.len() ==> valid_identifier(#[trigger] headers@[i]@),
                forall|i: int, j: int| 0 <= i < j < headers@.len() ==> headers@[i]@ != headers@[j]@,
                str_views(date_columns@) == spec_category_list(
                    spec_info_names(column_info@),
                    spec_info_types(data, ci as int),
                    DataType::Date,
                ),
                str_views(numeric_columns@) == spec_category_list(
                    spec_info_names(column_info@),
                    spec_info_types(data, ci as int),
                    DataType::Numeric,
                ),
                str_views(text_columns@) == spec_category_list(
                    spec_info_names(column_info@),
                    spec_info_types(data, ci as int),
                    DataType::Text,
                ),
            decreases headers@.len() - ci,
        {
            let values = column_cells(&window, ci);
            let dtype = detect_column_type(&values);
            let name = &headers[ci];
            let ghost pre_date = str_views(date_columns@);
            let ghost pre_num = str_views(numeric_columns@);
            let ghost pre_text = str_views(text_columns@);
            let ghost pre_infos = column_info@;
            match dtype {
                DataType::Date => {
                    date_columns.push(name.clone());
                },
                DataType::Numeric => {
                    numeric_columns.push(name.clone());
                },
                DataType::Text => {
                    text_columns.push(name.clone());
                },
                _ => {
                },
            }
            let info = self.analyze_column(&values, name.as_str());
            column_info.push(info);
            proof {
                assert(column_info@.drop_last() =~= pre_infos);
                assert(spec_info_names(column_info@).drop_last() =~= spec_info_names(pre_infos));
                assert(spec_info_types(data, ci + 1).drop_last() =~= spec_info_types(
                    data,
                    ci as int,
                ));
                lemma_category_step(
                    spec_info_names(column_info@),
                    spec_info_types(data, ci + 1),
                    column_info@,
                    data,
                    ci as int,
                );
                assert(spec_detect_column_type(spec_column_cells(data, ci as int)) == dtype);
                if dtype == DataType::Date {
                    assert(str_views(date_columns@) =~= pre_date + seq![headers@[ci as int]@]);
                } else {
                    assert(pre_date + Seq::<Seq<char>>::empty() =~= pre_date);
                }
                if dtype == DataType::Numeric {
                    assert(str_views(numeric_columns@) =~= pre_num + seq![headers@[ci as int]@]);
                } else {
                    assert(pre_num + Seq::<Seq<char>>::empty() =~= pre_num);
                }
                if dtype == DataType::Text {
                    assert(str_views(text_columns@) =~= pre_text + seq![headers@[ci as int]@]);
                } else {
                    assert(pre_text + Seq::<Seq<char>>::empty() =~= pre_text);
                }
            }
            ci = ci + 1;
        }
        let sample_data = sample_rows(&window);
        proof {
            assert forall|i: int| 0 <= i < column_info@.len() implies valid_identifier(
                #[trigger] column_info@[i].name@,
            ) by {
                assert(column_info@[i].name@ == headers@[i]@);
            }
            assert forall|i: int, j: int|
                0 <= i < j < column_info@.len() implies column_info@[i].name@
                != column_info@[j].name@ by {
                assert(column_info@[i].name@ == headers@[i]@);
                assert(column_info@[j].name@ == headers@[j]@);
            }
            assert(spec_info_names(column_info@) =~= str_views(headers@)) by {
                assert(forall|p: int|
                    0 <= p < column_info@.len() ==> spec_info_names(column_info@)[p]
                        == #[trigger] column_info@[p].name@);
                assert(forall|p: int|
                    0 <= p < headers@.len() ==> str_views(headers@)[p] == #[trigger] headers@[p]@);
            }
            assert(htexts == spec_header_texts(spec_window(spec_vec_rows(first.rows@)))) by {
                assert(spec_vec_rows(window@) =~= spec_window(spec_vec_rows(first.rows@)));
            }
            assert forall|i: int| 0 <= i < column_info@.len() implies spec_chosen_name(
                spec_info_names(column_info@).take(i),
                htexts[i],
                #[trigger] column_info@[i].name@,
            ) by {
                assert(spec_info_names(column_info@).take(i) =~= str_views(headers@).take(i));
                assert(spec_chosen_name(str_views(headers@).take(i), htexts[i], headers@[i]@));
            }
        }
        Ok(
            SheetAnalysis {
                sheet_names,
                row_count,
                column_count,
                sample_data,
                column_info,
                date_columns,
                numeric_columns,
                text_columns,
            },
        )
    }
}

} // verus!
