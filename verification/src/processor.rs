//! Sheet processing: for every sheet of a decoded workbook, normalize its
//! headers, build and clean a typed frame, re-detect date columns, and load
//! the result into the store under a fresh table name. A sheet that fails
//! is skipped; the whole run fails only when no sheet loaded.

use vstd::prelude::*;
use vstd::string::*;

use crate::analyzer::spec_vec_rows;
use crate::cells::{cell_text, Cell, SheetGrid};
use crate::error::AppError;
use crate::frame::{clean_dataframe, create_dataframe, detect_date_columns, frame_view,
    lemma_clean_ignores_names, normalize_date_columns, spec_built_col, spec_clean,
    spec_padded_column, ColView};
use crate::headers::{clean_table_name, normalize_headers, spec_table_name};
use crate::loader::DbLoader;
use crate::text::{push_char, spec_u64_dec, u64_to_string};

verus! {

/// The table name a sheet loads under: the `excel_` prefix, the normalized
/// sheet name, and the load timestamp.
pub open spec fn spec_load_table_name(sheet_name: Seq<char>, now: u64) -> Seq<char> {
    "excel_"@ + spec_table_name(sheet_name) + seq!['_'] + spec_u64_dec(now as nat)
}

/// The data columns built from a sheet's rows, with blank names: whether a
/// frame cleans to nothing never depends on its column names.
pub open spec fn spec_built_columns(rows: Seq<Seq<Cell>>) -> Seq<(Seq<char>, ColView)> {
    Seq::new(
        rows[0].len(),
        |i: int| (Seq::<char>::empty(), spec_built_col(spec_padded_column(rows.skip(1), i))),
    )
}

/// Whether the pipeline can make anything of a sheet: it has rows, its
/// header row has cells, and the frame built from it does not clean to
/// nothing. Only such a sheet is ever counted as loaded; the store's own
/// verdict on the load can still fail it.
pub open spec fn spec_sheet_usable(sheet: SheetGrid) -> bool {
    let rows = spec_vec_rows(sheet.rows@);
    &&& rows.len() > 0
    &&& rows[0].len() > 0
    &&& spec_clean(spec_built_columns(rows)) is Some
}

/// The processor: it owns the loader it feeds.
pub struct ExcelProcessor {
    db_loader: DbLoader,
}

impl ExcelProcessor {
    pub closed spec fn spec_loader(&self) -> DbLoader {
        self.db_loader
    }

    pub open spec fn spec_wf(&self) -> bool {
        self.spec_loader().spec_wf()
    }

    pub fn new(db_loader: DbLoader) -> (r: Self)
        ensures
            r.spec_loader() == db_loader,
    {
        ExcelProcessor { db_loader }
    }

    /// The loader fed by this processor, for schema description and query
    /// execution.
    pub fn loader(&self) -> (r: &DbLoader)
        ensures
            *r == self.spec_loader(),
    {
        &self.db_loader
    }

    /// Processes every sheet: an empty sheet, a sheet whose frame cannot be
    /// built, a sheet that cleans to nothing, and a sheet whose load fails
    /// are all skipped. Returns how many sheets loaded; fails exactly when
    /// none did — in particular whenever no sheet is usable at all. On
    /// success the loader's published table name is the `excel_`-prefixed
    /// name of one of the sheets, stamped with the given time.
    pub fn process_file(&mut self, sheets: &Vec<SheetGrid>, now_seconds: u64) -> (r: Result<
        u32,
        AppError,
    >)
        requires
            old(self).spec_wf(),
        ensures
            final(self).spec_wf(),
            r matches Ok(n) ==> 1 <= n <= sheets@.len(),
            (forall|si: int| 0 <= si < sheets@.len() ==> !spec_sheet_usable(#[trigger] sheets@[si]))
                ==> r is Err,
            r is Ok ==> exists|si: int|
                0 <= si < sheets@.len() && final(self).spec_loader().spec_current_table()
                    == Option::Some(spec_load_table_name(sheets@[si].name@, now_seconds)),
            r matches Err(e) ==> e is FileProcessingError,
    {
        let mut total: u32 = 0;
        let mut si: usize = 0;
        while si < sheets.len()
            invariant
                si <= sheets@.len(),
                total as int <= si as int,
                self.spec_wf(),
                (forall|sj: int|
                    0 <= sj < si ==> !spec_sheet_usable(#[trigger] sheets@[sj])) ==> total == 0,
                total > 0 ==> exists|sj: int|
                    0 <= sj < si && self.spec_loader().spec_current_table() == Option::Some(
                        spec_load_table_name(sheets@[sj].name@, now_seconds),
                    ),
            decreases sheets@.len() - si,
        {
            let sheet = &sheets[si];
            if sheet.rows.len() > 0 {
                let hrow = &sheet.rows[0];
                let mut texts: Vec<String> = Vec::new();
                let mut hi: usize = 0;
                while hi < hrow.len()
                    invariant
                        hi <= hrow@.len(),
                        texts@.len() == hi,
                    decreases hrow@.len() - hi,
                {
                    texts.push(cell_text(&hrow[hi]));
                    hi = hi + 1;
                }
                let headers = normalize_headers(&texts);
                match create_dataframe(&sheet.rows, &headers) {
                    Err(_) => {},
                    Ok(df) => {
                        match clean_dataframe(&df) {
                            None => {},
                            Some(cleaned) => {
                                proof {
                                    lemma_sheet_usable(sheets@[si as int], frame_view(df));
                                }
                                let date_cols = detect_date_columns(&cleaned);
                                let normalized = normalize_date_columns(&cleaned, &date_cols);
                                let mut table_name = String::from_str("excel_");
                                let base = clean_table_name(sheet.name.as_str());
                                table_name.append(base.as_str());
                                push_char(&mut table_name, '_');
                                let stamp = u64_to_string(now_seconds);
                                table_name.append(stamp.as_str());
                                proof {
                                    assert(table_name@ =~= spec_load_table_name(
                                        sheets@[si as int].name@,
                                        now_seconds,
                                    ));
                                }
                                match self.db_loader.load_dataframe(
                                    &normalized,
                                    table_name.as_str(),
                                    now_seconds,
                                ) {
                                    Ok(_) => {
                                        if total < u32::MAX {
                                            total = total + 1;
                                        }
                                    },
                                    Err(_) => {},
                                }
                            },
                        }
                    },
                }
            }
            si = si + 1;
        }
        if total == 0 {
            Err(
                AppError::FileProcessingError(
                    String::from_str("No valid data found in Excel file"),
                ),
            )
        } else {
            Ok(total)
        }
    }
}

/// A sheet whose built frame cleaned to something is usable: the header
/// row is non-empty (or the build would have failed), and cleaning ignores
/// the column names the built frame carries.
proof fn lemma_sheet_usable(sheet: SheetGrid, built: Seq<(Seq<char>, ColView)>)
    requires
        spec_vec_rows(sheet.rows@).len() > 0,
        built.len() > 0,
        built.len() == spec_vec_rows(sheet.rows@)[0].len(),
        forall|i: int|
            0 <= i < built.len() ==> #[trigger] built[i].1 == spec_built_col(
                spec_padded_column(spec_vec_rows(sheet.rows@).skip(1), i),
            ),
        spec_clean(built) is Some,
    ensures
        spec_sheet_usable(sheet),
{
    let rows = spec_vec_rows(sheet.rows@);
    let anon = spec_built_columns(rows);
    assert(anon.len() == built.len());
    assert(forall|i: int| 0 <= i < built.len() ==> #[trigger] built[i].1 == anon[i].1);
    lemma_clean_ignores_names(built, anon);
}

} // verus!
