//! The decoded cell model. A spreadsheet decoder turns each cell into one
//! `Cell` holding plain values: numbers, booleans, text, or a datetime that
//! already carries its epoch-seconds value. Values with no exact integer
//! form (floating-point numbers, datetimes) also carry the decoder's textual
//! rendering, which is what statistics and text columns consume.

use vstd::prelude::*;
use vstd::string::*;

use crate::text::{i64_to_string, spec_i64_dec};

verus! {

/// One decoded spreadsheet cell.
pub enum Cell {
    /// An empty cell.
    Empty,
    /// An integer cell.
    Int(i64),
    /// A floating-point cell, carried by its decimal rendering.
    Float(String),
    /// A boolean cell.
    Bool(bool),
    /// A text cell.
    Text(String),
    /// A datetime cell: seconds since the sheet format's epoch (days since
    /// the epoch times 86400, truncated), plus the decoder's rendering.
    DateTime { seconds: i64, text: String },
}

/// One decoded sheet: its name and its grid of cells, the first row being
/// the header row.
pub struct SheetGrid {
    pub name: String,
    pub rows: Vec<Vec<Cell>>,
}

/// The canonical textual rendering of a cell: empty cells render as the
/// empty string, integers and booleans by their usual notation, and float
/// and datetime cells by the rendering they carry.
pub open spec fn spec_cell_text(c: Cell) -> Seq<char> {
    match c {
        Cell::Empty => Seq::empty(),
        Cell::Int(i) => spec_i64_dec(i as int),
        Cell::Float(t) => t@,
        Cell::Bool(b) => if b {
            seq!['t', 'r', 'u', 'e']
        } else {
            seq!['f', 'a', 'l', 's', 'e']
        },
        Cell::Text(s) => s@,
        Cell::DateTime { seconds, text } => text@,
    }
}

pub fn cell_text(c: &Cell) -> (r: String)
    ensures
        r@ == spec_cell_text(*c),
{
    match c {
        Cell::Empty => String::new(),
        Cell::Int(i) => i64_to_string(*i),
        Cell::Float(t) => t.clone(),
        Cell::Bool(b) => {
            if *b {
                let r = String::from_str("true");
                proof {
                    reveal_strlit("true");
                    assert("true"@ =~= seq!['t', 'r', 'u', 'e']);
                }
                r
            } else {
                let r = String::from_str("false");
                proof {
                    reveal_strlit("false");
                    assert("false"@ =~= seq!['f', 'a', 'l', 's', 'e']);
                }
                r
            }
        },
        Cell::Text(s) => s.clone(),
        Cell::DateTime { seconds: _, text } => text.clone(),
    }
}

impl Clone for Cell {
    fn clone(&self) -> (r: Self)
        ensures
            r == *self,
    {
        match self {
            Cell::Empty => Cell::Empty,
            Cell::Int(i) => Cell::Int(*i),
            Cell::Float(t) => Cell::Float(t.clone()),
            Cell::Bool(b) => Cell::Bool(*b),
            Cell::Text(s) => Cell::Text(s.clone()),
            Cell::DateTime { seconds, text } => Cell::DateTime {
                seconds: *seconds,
                text: text.clone(),
            },
        }
    }
}

/// Whether a cell is the empty cell.
pub open spec fn spec_cell_is_empty(c: Cell) -> bool {
    c is Empty
}

pub fn cell_is_empty(c: &Cell) -> (r: bool)
    ensures
        r == spec_cell_is_empty(*c),
{
    match c {
        Cell::Empty => true,
        _ => false,
    }
}

} // verus!
