//! Typed cells and sheets, the engine's picture of a tabular source.
//!
//! The engine never decodes a spreadsheet file itself; a surrounding
//! adapter opens the file and hands the first worksheet over as a
//! `Sheet` of typed `Cell` values.

use vstd::prelude::*;

verus! {

/// One cell of a tabular source: an integer, a piece of text, a
/// boolean, or nothing.
#[derive(Debug, Clone, PartialEq, Eq)]
pub enum Cell {
    Int(i64),
    Text(String),
    Bool(bool),
    Empty,
}

impl Cell {
    /// The integer a cell holds, if it holds one.
    pub open spec fn spec_as_int(self) -> Option<i64> {
        match self {
            Cell::Int(v) => Some(v),
            _ => None,
        }
    }

    /// The boolean a cell holds, if it holds one.
    pub open spec fn spec_as_bool(self) -> Option<bool> {
        match self {
            Cell::Bool(b) => Some(b),
            _ => None,
        }
    }

    /// Whether a cell holds non-empty text.
    pub open spec fn spec_is_nonempty_text(self) -> bool {
        match self {
            Cell::Text(s) => s@.len() > 0,
            _ => false,
        }
    }

    /// The text a cell holds, or the empty sequence if it holds none.
    pub open spec fn spec_text(self) -> Seq<char> {
        match self {
            Cell::Text(s) => s@,
            _ => Seq::<char>::empty(),
        }
    }

    pub fn as_int(&self) -> (r: Option<i64>)
        ensures
            r == self.spec_as_int(),
    {
        match self {
            Cell::Int(v) => Some(*v),
            _ => None,
        }
    }

    pub fn as_bool(&self) -> (r: Option<bool>)
        ensures
            r == self.spec_as_bool(),
    {
        match self {
            Cell::Bool(b) => Some(*b),
            _ => None,
        }
    }

    pub fn is_nonempty_text(&self) -> (r: bool)
        ensures
            r == self.spec_is_nonempty_text(),
    {
        match self {
            Cell::Text(s) => !s.as_str().is_empty(),
            _ => false,
        }
    }

    /// The text a cell holds, copied out, or an empty string.
    pub fn text(&self) -> (r: String)
        ensures
            r@ == self.spec_text(),
    {
        match self {
            Cell::Text(s) => s.clone(),
            _ => String::new(),
        }
    }
}

/// The first worksheet of a tabular source: a rectangle of cells,
/// `width` columns wide, one inner vector per row.
pub struct Sheet {
    pub width: usize,
    pub rows: Vec<Vec<Cell>>,
}

impl Sheet {
    /// Every row spans exactly `width` columns.
    pub open spec fn well_formed(self) -> bool {
        forall|i: int|
            0 <= i < self.rows@.len() ==> (#[trigger] self.rows@[i])@.len() == self.width
    }

    /// Builds a sheet after checking that the rows really form a
    /// rectangle of the claimed width; `None` otherwise.
    pub fn new(width: usize, rows: Vec<Vec<Cell>>) -> (r: Option<Sheet>)
        ensures
            match r {
                Some(s) => s.well_formed() && s.width == width && s.rows@ == rows@,
                None => exists|i: int|
                    0 <= i < rows@.len() && (#[trigger] rows@[i])@.len() != width,
            },
    {
        let mut i: usize = 0;
        while i < rows.len()
            invariant
                i <= rows@.len(),
                forall|j: int| 0 <= j < i ==> (#[trigger] rows@[j])@.len() == width,
            decreases rows@.len() - i,
        {
            if rows[i].len() != width {
                assert(rows@[i as int]@.len() != width);
                return None;
            }
            i += 1;
        }
        Some(Sheet { width, rows })
    }
}

} // verus!
