//! Column type inference. A bounded prefix of a column's values is sampled
//! (for cost control: classification can be wrong when the type distribution
//! changes after the sampled prefix), empties are set aside, and the column
//! is classified into the first category — numeric, then date, then boolean
//! — whose count reaches 80% of the non-empty sample; otherwise it is a
//! string column. A column with no non-empty sampled value is `Empty`.

use vstd::prelude::*;
use vstd::string::*;

use crate::cells::Cell;
use crate::dates::{is_date_string, spec_date_like};
use crate::TYPE_DETECTION_ROWS;

verus! {

/// The inferred type of a column.
#[derive(Clone, Copy, Debug, PartialEq, Eq, Structural)]
pub enum DataType {
    Numeric,
    Date,
    Boolean,
    Text,
    Empty,
}

/// The rendering of an inferred type in an analysis report.
pub open spec fn spec_data_type_name(t: DataType) -> Seq<char> {
    match t {
        DataType::Numeric => seq!['n', 'u', 'm', 'e', 'r', 'i', 'c'],
        DataType::Date => seq!['d', 'a', 't', 'e'],
        DataType::Boolean => seq!['b', 'o', 'o', 'l', 'e', 'a', 'n'],
        DataType::Text => seq!['s', 't', 'r', 'i', 'n', 'g'],
        DataType::Empty => seq!['e', 'm', 'p', 't', 'y'],
    }
}

pub fn data_type_name(t: &DataType) -> (r: String)
    ensures
        r@ == spec_data_type_name(*t),
{
    match t {
        DataType::Numeric => {
            let r = String::from_str("numeric");
            proof {
                reveal_strlit("numeric");
                assert("numeric"@ =~= spec_data_type_name(DataType::Numeric));
            }
            r
        },
        DataType::Date => {
            let r = String::from_str("date");
            proof {
                reveal_strlit("date");
                assert("date"@ =~= spec_data_type_name(DataType::Date));
            }
            r
        },
        DataType::Boolean => {
            let r = String::from_str("boolean");
            proof {
                reveal_strlit("boolean");
                assert("boolean"@ =~= spec_data_type_name(DataType::Boolean));
            }
            r
        },
        DataType::Text => {
            let r = String::from_str("string");
            proof {
                reveal_strlit("string");
                assert("string"@ =~= spec_data_type_name(DataType::Text));
            }
            r
        },
        DataType::Empty => {
            let r = String::from_str("empty");
            proof {
                reveal_strlit("empty");
                assert("empty"@ =~= spec_data_type_name(DataType::Empty));
            }
            r
        },
    }
}

pub open spec fn is_numeric_cell(c: Cell) -> bool {
    c is Int || c is Float
}

pub open spec fn is_date_cell(c: Cell) -> bool {
    match c {
        Cell::DateTime { .. } => true,
        Cell::Text(s) => spec_date_like(s@),
        _ => false,
    }
}

pub open spec fn is_bool_cell(c: Cell) -> bool {
    c is Bool
}

pub open spec fn is_non_empty_cell(c: Cell) -> bool {
    !(c is Empty)
}

/// How many cells of the sequence satisfy the predicate.
pub open spec fn count_cells(values: Seq<Cell>, pred: spec_fn(Cell) -> bool) -> int
    decreases values.len(),
{
    if values.len() == 0 {
        0
    } else {
        count_cells(values.drop_last(), pred) + if pred(values.last()) {
            1int
        } else {
            0int
        }
    }
}

pub proof fn lemma_count_cells_bounds(values: Seq<Cell>, pred: spec_fn(Cell) -> bool)
    ensures
        0 <= count_cells(values, pred) <= values.len(),
    decreases values.len(),
{
    if values.len() > 0 {
        lemma_count_cells_bounds(values.drop_last(), pred);
    }
}

/// The sampled prefix used for inference.
pub open spec fn spec_sample(values: Seq<Cell>) -> Seq<Cell> {
    if values.len() <= TYPE_DETECTION_ROWS {
        values
    } else {
        values.take(TYPE_DETECTION_ROWS as int)
    }
}

/// How many sampled cells are non-empty.
pub open spec fn spec_non_empty_count(values: Seq<Cell>) -> int {
    count_cells(spec_sample(values), |c: Cell| is_non_empty_cell(c))
}

/// How many sampled cells are numeric.
pub open spec fn spec_numeric_count(values: Seq<Cell>) -> int {
    count_cells(spec_sample(values), |c: Cell| is_numeric_cell(c))
}

/// How many sampled cells are date-like.
pub open spec fn spec_date_count(values: Seq<Cell>) -> int {
    count_cells(spec_sample(values), |c: Cell| is_date_cell(c))
}

/// How many sampled cells are booleans.
pub open spec fn spec_bool_count(values: Seq<Cell>) -> int {
    count_cells(spec_sample(values), |c: Cell| is_bool_cell(c))
}

/// The classification rule over the sampled prefix: first category whose
/// count reaches 80% of the non-empty sample, in the order numeric, date,
/// boolean; `Empty` when nothing non-empty was sampled.
pub open spec fn spec_detect_column_type(values: Seq<Cell>) -> DataType {
    let total = spec_non_empty_count(values);
    if total == 0 {
        DataType::Empty
    } else if 5 * spec_numeric_count(values) >= 4 * total {
        DataType::Numeric
    } else if 5 * spec_date_count(values) >= 4 * total {
        DataType::Date
    } else if 5 * spec_bool_count(values) >= 4 * total {
        DataType::Boolean
    } else {
        DataType::Text
    }
}

/// The classification threshold is the inclusive 80% cut: a column whose
/// sampled non-empty values are at least four fifths numeric is classified
/// numeric, and one below that cut never is.
pub proof fn lemma_numeric_threshold(values: Seq<Cell>)
    ensures
        (spec_non_empty_count(values) > 0 && 5 * spec_numeric_count(values) >= 4
            * spec_non_empty_count(values)) ==> spec_detect_column_type(values)
            == DataType::Numeric,
        5 * spec_numeric_count(values) < 4 * spec_non_empty_count(values)
            ==> spec_detect_column_type(values) != DataType::Numeric,
{
}

/// Classifies one column from a bounded prefix of its values.
pub fn detect_column_type(values: &Vec<Cell>) -> (r: DataType)
    ensures
        r == spec_detect_column_type(values@),
{
    let cap: usize = if values.len() <= TYPE_DETECTION_ROWS {
        values.len()
    } else {
        TYPE_DETECTION_ROWS
    };
    let ghost sample = spec_sample(values@);
    proof {
        assert(sample =~= values@.take(cap as int));
    }
    let mut numeric: u64 = 0;
    let mut date: u64 = 0;
    let mut boolean: u64 = 0;
    let mut non_empty: u64 = 0;
    let mut i: usize = 0;
    while i < cap
        invariant
            i <= cap,
            cap <= values.len(),
            cap <= TYPE_DETECTION_ROWS,
            sample == spec_sample(values@),
            sample =~= values@.take(cap as int),
            numeric == count_cells(values@.take(i as int), |c: Cell| is_numeric_cell(c)),
            date == count_cells(values@.take(i as int), |c: Cell| is_date_cell(c)),
            boolean == count_cells(values@.take(i as int), |c: Cell| is_bool_cell(c)),
            non_empty == count_cells(values@.take(i as int), |c: Cell| is_non_empty_cell(c)),
            numeric <= i && date <= i && boolean <= i && non_empty <= i,
        decreases cap - i,
    {
        proof {
            assert(values@.take(i + 1).drop_last() =~= values@.take(i as int));
            assert(values@.take(i + 1).last() == values@[i as int]);
        }
        let c = &values[i];
        match c {
            Cell::Empty => {
            },
            Cell::Int(_) => {
                numeric = numeric + 1;
                non_empty = non_empty + 1;
            },
            Cell::Float(_) => {
                numeric = numeric + 1;
                non_empty = non_empty + 1;
            },
            Cell::DateTime { .. } => {
                date = date + 1;
                non_empty = non_empty + 1;
            },
            Cell::Bool(_) => {
                boolean = boolean + 1;
                non_empty = non_empty + 1;
            },
            Cell::Text(s) => {
                if is_date_string(s.as_str()) {
                    date = date + 1;
                }
                non_empty = non_empty + 1;
            },
        }
        i = i + 1;
    }
    proof {
        assert(values@.take(cap as int) =~= sample);
    }
    if non_empty == 0 {
        DataType::Empty
    } else if 5 * numeric >= 4 * non_empty {
        DataType::Numeric
    } else if 5 * date >= 4 * non_empty {
        DataType::Date
    } else if 5 * boolean >= 4 * non_empty {
        DataType::Boolean
    } else {
        DataType::Text
    }
}

} // verus!
