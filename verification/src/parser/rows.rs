//! The rows of the sheet of one address block.

use crate::error::Error;
use crate::excel::{column_of, copy_cell, height_of, ColumnModel, Table};
use crate::parser::fill::{fill_forward, filled};
use vstd::prelude::*;

verus! {

/// One row of the sheet of an address block, after its blank cells were
/// filled from above.
#[derive(Debug)]
pub struct Row {
    pub addr: Option<String>,
    pub reg: Option<String>,
    pub field: Option<String>,
    pub bit: Option<String>,
    pub width: Option<String>,
    pub attribute: Option<String>,
    pub default: Option<String>,
    pub description: Option<String>,
}

/// The mathematical content of a [`Row`].
pub struct RowModel {
    pub addr: Option<Seq<char>>,
    pub reg: Option<Seq<char>>,
    pub field: Option<Seq<char>>,
    pub bit: Option<Seq<char>>,
    pub width: Option<Seq<char>>,
    pub attribute: Option<Seq<char>>,
    pub default: Option<Seq<char>>,
    pub description: Option<Seq<char>>,
}

impl DeepView for Row {
    type V = RowModel;

    open spec fn deep_view(&self) -> RowModel {
        RowModel {
            addr: self.addr.deep_view(),
            reg: self.reg.deep_view(),
            field: self.field.deep_view(),
            bit: self.bit.deep_view(),
            width: self.width.deep_view(),
            attribute: self.attribute.deep_view(),
            default: self.default.deep_view(),
            description: self.description.deep_view(),
        }
    }
}

impl View for Row {
    type V = RowModel;

    open spec fn view(&self) -> RowModel {
        self.deep_view()
    }
}

/// The first of the columns that a block sheet must have and this table
/// lacks. The column of descriptions may be absent.
pub open spec fn missing_column(cols: Seq<ColumnModel>) -> Option<Seq<char>> {
    if column_of(cols, "ADDR"@) is None {
        Some("ADDR"@)
    } else if column_of(cols, "REG"@) is None {
        Some("REG"@)
    } else if column_of(cols, "FIELD"@) is None {
        Some("FIELD"@)
    } else if column_of(cols, "BIT"@) is None {
        Some("BIT"@)
    } else if column_of(cols, "WIDTH"@) is None {
        Some("WIDTH"@)
    } else if column_of(cols, "ATTRIBUTE"@) is None {
        Some("ATTRIBUTE"@)
    } else if column_of(cols, "DEFAULT"@) is None {
        Some("DEFAULT"@)
    } else {
        None
    }
}

/// The cell in row `i` of the named column after filling from above; blank
/// where the table has no such column.
pub open spec fn cell_at(cols: Seq<ColumnModel>, name: Seq<char>, i: int) -> Option<Seq<char>> {
    match column_of(cols, name) {
        Some(c) => filled(c)[i],
        None => None,
    }
}

/// Row `i` of a block sheet after filling from above.
pub open spec fn row_at(cols: Seq<ColumnModel>, i: int) -> RowModel {
    RowModel {
        addr: cell_at(cols, "ADDR"@, i),
        reg: cell_at(cols, "REG"@, i),
        field: cell_at(cols, "FIELD"@, i),
        bit: cell_at(cols, "BIT"@, i),
        width: cell_at(cols, "WIDTH"@, i),
        attribute: cell_at(cols, "ATTRIBUTE"@, i),
        default: cell_at(cols, "DEFAULT"@, i),
        description: cell_at(cols, "DESCRIPTION"@, i),
    }
}

/// The rows of a block sheet after filling from above.
pub open spec fn rows_of(cols: Seq<ColumnModel>) -> Seq<RowModel> {
    Seq::new(height_of(cols), |i: int| row_at(cols, i))
}

fn filled_column(df: &Table, name: &str) -> (r: Option<Vec<Option<String>>>)
    ensures
        r is Some <==> column_of(df@, name@) is Some,
        r matches Some(v) ==> v.len() == height_of(df@) && forall|i: int|
            0 <= i < v.len() ==> (#[trigger] v@[i]).deep_view() == cell_at(df@, name@, i),
{
    match df.column(name) {
        Some(cells) => {
            let v = fill_forward(cells);
            assert(v.deep_view().len() == v.len());
            assert forall|i: int| 0 <= i < v.len() implies (#[trigger] v@[i]).deep_view() == cell_at(
                df@,
                name@,
                i,
            ) by {
                assert(v.deep_view()[i] == v@[i].deep_view());
            }
            Some(v)
        },
        None => None,
    }
}

fn blank_column(df: &Table, name: &str) -> (v: Vec<Option<String>>)
    requires
        column_of(df@, name@) is None,
    ensures
        v.len() == height_of(df@),
        forall|i: int| 0 <= i < v.len() ==> (#[trigger] v@[i]).deep_view() == cell_at(df@, name@, i),
{
    let h = df.height();
    let mut v: Vec<Option<String>> = Vec::new();
    let mut i: usize = 0;
    while i < h
        invariant
            i <= h,
            v.len() == i,
            forall|k: int| 0 <= k < i ==> (#[trigger] v@[k]) is None,
        decreases h - i,
    {
        v.push(None);
        i += 1;
    }
    v
}

/// Picks the columns of a block sheet, fills them from above and cuts them
/// into rows.
pub fn read_rows(df: &Table) -> (r: Result<Vec<Row>, Error>)
    ensures
        match missing_column(df@) {
            Some(name) => r matches Err(Error::NotFound(n)) && n@ == name,
            None => r matches Ok(rows) && rows.deep_view() == rows_of(df@),
        },
{
    let addr = match filled_column(df, "ADDR") {
        Some(v) => v,
        None => {
            return Err(Error::NotFound("ADDR".to_owned()));
        },
    };
    let reg = match filled_column(df, "REG") {
        Some(v) => v,
        None => {
            return Err(Error::NotFound("REG".to_owned()));
        },
    };
    let field = match filled_column(df, "FIELD") {
        Some(v) => v,
        None => {
            return Err(Error::NotFound("FIELD".to_owned()));
        },
    };
    let bit = match filled_column(df, "BIT") {
        Some(v) => v,
        None => {
            return Err(Error::NotFound("BIT".to_owned()));
        },
    };
    let width = match filled_column(df, "WIDTH") {
        Some(v) => v,
        None => {
            return Err(Error::NotFound("WIDTH".to_owned()));
        },
    };
    let attribute = match filled_column(df, "ATTRIBUTE") {
        Some(v) => v,
        None => {
            return Err(Error::NotFound("ATTRIBUTE".to_owned()));
        },
    };
    let default = match filled_column(df, "DEFAULT") {
        Some(v) => v,
        None => {
            return Err(Error::NotFound("DEFAULT".to_owned()));
        },
    };
    let description = match filled_column(df, "DESCRIPTION") {
        Some(v) => v,
        None => blank_column(df, "DESCRIPTION"),
    };
    let h = df.height();
    let mut rows: Vec<Row> = Vec::new();
    let mut i: usize = 0;
    while i < h
        invariant
            i <= h,
            h == height_of(df@),
            rows.len() == i,
            missing_column(df@) is None,
            addr.len() == h,
            forall|k: int| 0 <= k < h ==> (#[trigger] addr@[k]).deep_view() == cell_at(df@, "ADDR"@, k),
            reg.len() == h,
            forall|k: int| 0 <= k < h ==> (#[trigger] reg@[k]).deep_view() == cell_at(df@, "REG"@, k),
            field.len() == h,
            forall|k: int| 0 <= k < h ==> (#[trigger] field@[k]).deep_view() == cell_at(df@, "FIELD"@, k),
            bit.len() == h,
            forall|k: int| 0 <= k < h ==> (#[trigger] bit@[k]).deep_view() == cell_at(df@, "BIT"@, k),
            width.len() == h,
            forall|k: int| 0 <= k < h ==> (#[trigger] width@[k]).deep_view() == cell_at(df@, "WIDTH"@, k),
            attribute.len() == h,
            forall|k: int| 0 <= k < h ==> (#[trigger] attribute@[k]).deep_view() == cell_at(df@, "ATTRIBUTE"@, k),
            default.len() == h,
            forall|k: int| 0 <= k < h ==> (#[trigger] default@[k]).deep_view() == cell_at(df@, "DEFAULT"@, k),
            description.len() == h,
            forall|k: int| 0 <= k < h ==> (#[trigger] description@[k]).deep_view() == cell_at(df@, "DESCRIPTION"@, k),
            forall|k: int| 0 <= k < i ==> (#[trigger] rows@[k]).deep_view() == row_at(df@, k),
        decreases h - i,
    {
        rows.push(
            Row {
                addr: copy_cell(&addr[i]),
                reg: copy_cell(&reg[i]),
                field: copy_cell(&field[i]),
                bit: copy_cell(&bit[i]),
                width: copy_cell(&width[i]),
                attribute: copy_cell(&attribute[i]),
                default: copy_cell(&default[i]),
                description: copy_cell(&description[i]),
            },
        );
        i += 1;
    }
    assert(rows.deep_view() =~= rows_of(df@));
    Ok(rows)
}

} // verus!
