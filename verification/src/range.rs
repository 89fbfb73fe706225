//! Worksheet ranges as they come from the workbook reader.
//!
//! A range is a rectangle of cells read from one worksheet. The import
//! works on the text of each cell, so a range is turned into rows of
//! strings before anything else is done with it.

use vstd::prelude::*;
use calamine::{Data, Range};
use crate::import::{Worksheet, WorksheetView};
use crate::text::{grid, Text};

verus! {

/// `calamine::Range`, a rectangle of cells. Nothing inside it is visible
/// to the verifier.
#[verifier::external_type_specification]
#[verifier::external_body]
#[verifier::reject_recursive_types(T)]
pub struct ExRange<T>(calamine::Range<T>);

/// `calamine::Data`, the value of one cell. Nothing inside it is visible
/// to the verifier.
#[verifier::external_type_specification]
#[verifier::external_body]
pub struct ExData(calamine::Data);

/// The cells that a range holds, as text, row by row from the top and in
/// each row from the left: what `calamine::Range::rows` hands out, each
/// cell written by `calamine`'s `Display` for `Data`.
pub uninterp spec fn range_texts(range: Range<Data>) -> Seq<Seq<Text>>;

/// Calls `calamine::Range::rows` and collects, for every row it yields,
/// the `to_string()` of each cell.
///
/// Not proved: that the result is determined by the range alone, which is
/// all that the name [`range_texts`] says. Nothing is claimed about the
/// number of rows, their width, or the text of any cell.
#[verifier::external_body]
fn range_rows(range: &Range<Data>) -> (rows: Vec<Vec<String>>)
    ensures
        grid(rows@) == range_texts(*range),
{
    range.rows().map(|row| row.iter().map(|cell| cell.to_string()).collect()).collect()
}

/// The worksheet `name` as it was read: the cell texts of `range`, or no
/// rows at all where the worksheet gave no range.
pub fn worksheet_from_range(name: String, range: Option<&Range<Data>>) -> (sheet: Worksheet)
    ensures
        sheet@ == (WorksheetView {
            name: name@,
            rows: match range {
                Some(cells) => Some(range_texts(*cells)),
                None => None,
            },
        }),
{
    let rows = match range {
        Some(cells) => Some(range_rows(cells)),
        None => None,
    };
    Worksheet { name, rows }
}

} // verus!
