//! From the sheet of one address block to its registers: blank cells are
//! filled from above, the rows of one address are measured together, a
//! register that stands for a series is written out once per member, and
//! the rows are gathered under their register names.

pub mod derive;
pub mod expand;
pub mod fill;
pub mod group;
pub mod rows;
pub mod template;

use crate::error::Error;
use crate::excel::{ColumnModel, Table};
use crate::parser::derive::{derive_rows, derived};
use crate::parser::expand::{expand_rows, expanded};
use crate::parser::group::{group_rows, grouped, GroupModel, RegisterGroup};
use crate::parser::rows::{missing_column, read_rows, rows_of};
use crate::parser::template::{expressions_accepted, Patterns};
use vstd::prelude::*;

verus! {

/// The registers that the sheet of an address block describes: its rows
/// are filled from above, measured address by address, written out where
/// they stand for a series, and gathered under their register names. The
/// first thing that is refused on the way is the outcome of the whole.
pub open spec fn normalized(cols: Seq<ColumnModel>) -> Result<Seq<GroupModel>, crate::error::ErrorModel> {
    match missing_column(cols) {
        Some(name) => Err(crate::error::ErrorModel::NotFound(name)),
        None => match derived(rows_of(cols)) {
            Err(e) => Err(e),
            Ok(ds) => match expanded(ds) {
                Err(e) => Err(e),
                Ok(rows) => Ok(grouped(rows)),
            },
        },
    }
}

/// Reads the registers of an address block off its sheet, with expressions
/// that are already compiled.
pub fn normalize(df: &Table, patterns: &Patterns) -> (r: Result<Vec<RegisterGroup>, Error>)
    ensures
        match normalized(df@) {
            Ok(groups) => r matches Ok(x) && x.deep_view() == groups,
            Err(e) => r matches Err(x) && x@ == e,
        },
{
    let rows = match read_rows(df) {
        Ok(rows) => rows,
        Err(e) => {
            return Err(e);
        },
    };
    let ds = match derive_rows(&rows, patterns) {
        Ok(ds) => ds,
        Err(e) => {
            return Err(e);
        },
    };
    let out = match expand_rows(&ds) {
        Ok(out) => out,
        Err(e) => {
            return Err(e);
        },
    };
    Ok(group_rows(&out))
}

/// Reads the registers of an address block off its sheet. Fails before
/// anything is read if the expression compiler refuses one of the search
/// expressions.
pub fn parser_register(df: Table) -> (r: Result<Vec<RegisterGroup>, Error>)
    ensures
        !expressions_accepted() ==> (r matches Err(e) && e@ == crate::error::ErrorModel::Regex),
        expressions_accepted() ==> match normalized(df@) {
            Ok(groups) => r matches Ok(x) && x.deep_view() == groups,
            Err(e) => r matches Err(x) && x@ == e,
        },
{
    let patterns = match Patterns::new() {
        Ok(p) => p,
        Err(e) => {
            return Err(e);
        },
    };
    normalize(&df, &patterns)
}

} // verus!
