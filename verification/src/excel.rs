//! Tables of text cells, as a spreadsheet holds them: a sheet is a grid of
//! optional texts whose first row names the columns; a table is what is left
//! once the columns have their names.

use crate::error::Error;
use crate::text::{push_decimal, same_text};
use vstd::prelude::*;

verus! {

/// One column of a table: its name and its cells from top to bottom. A
/// blank cell is `None`.
#[derive(Debug)]
pub struct Column {
    pub name: String,
    pub cells: Vec<Option<String>>,
}

/// The mathematical content of a [`Column`].
pub struct ColumnModel {
    pub name: Seq<char>,
    pub cells: Seq<Option<Seq<char>>>,
}

impl DeepView for Column {
    type V = ColumnModel;

    open spec fn deep_view(&self) -> ColumnModel {
        ColumnModel { name: self.name@, cells: self.cells.deep_view() }
    }
}

impl View for Column {
    type V = ColumnModel;

    open spec fn view(&self) -> ColumnModel {
        self.deep_view()
    }
}

/// No two columns share a name.
pub open spec fn names_distinct(cols: Seq<ColumnModel>) -> bool {
    forall|i: int, j: int| 0 <= i < j < cols.len() ==> cols[i].name != cols[j].name
}

/// All columns have as many cells as the first.
pub open spec fn same_height(cols: Seq<ColumnModel>) -> bool {
    forall|i: int| 0 <= i < cols.len() ==> (#[trigger] cols[i]).cells.len() == cols[0].cells.len()
}

/// What makes a sequence of columns a table.
pub open spec fn well_formed(cols: Seq<ColumnModel>) -> bool {
    names_distinct(cols) && same_height(cols)
}

/// The number of rows of a table.
pub open spec fn height_of(cols: Seq<ColumnModel>) -> nat {
    if cols.len() == 0 {
        0
    } else {
        cols[0].cells.len()
    }
}

/// Whether column `j` bears the name of a column to its left.
pub open spec fn repeats(cols: Seq<ColumnModel>, j: int) -> bool {
    exists|i: int| 0 <= i < j && (#[trigger] cols[i]).name == cols[j].name
}

/// The leftmost column from `j` on that bears the name of a column to its
/// left.
pub open spec fn first_repeat(cols: Seq<ColumnModel>, j: int) -> Option<int>
    decreases cols.len() - j,
{
    if j < 0 || j >= cols.len() {
        None
    } else if repeats(cols, j) {
        Some(j)
    } else {
        first_repeat(cols, j + 1)
    }
}

/// The leftmost column from `j` on whose height is not that of the first
/// column.
pub open spec fn first_uneven(cols: Seq<ColumnModel>, j: int) -> Option<int>
    decreases cols.len() - j,
{
    if j < 0 || j >= cols.len() {
        None
    } else if cols[j].cells.len() != cols[0].cells.len() {
        Some(j)
    } else {
        first_uneven(cols, j + 1)
    }
}

/// What keeps a sequence of columns from being a table, if anything does:
/// the leftmost repeated name, or else the leftmost column of another
/// height.
pub open spec fn table_defect(cols: Seq<ColumnModel>) -> Option<crate::error::ErrorModel> {
    match first_repeat(cols, 0) {
        Some(j) => Some(crate::error::ErrorModel::Duplicate(cols[j].name)),
        None => match first_uneven(cols, 0) {
            Some(j) => Some(crate::error::ErrorModel::Shape(cols[j].name)),
            None => None,
        },
    }
}

/// The cells of the column with the given name, if there is one.
pub open spec fn column_of(cols: Seq<ColumnModel>, name: Seq<char>) -> Option<Seq<Option<Seq<char>>>>
    decreases cols.len(),
{
    if cols.len() == 0 {
        None
    } else if cols[0].name == name {
        Some(cols[0].cells)
    } else {
        column_of(cols.drop_first(), name)
    }
}

proof fn lemma_first_repeat_none(cols: Seq<ColumnModel>, j: int)
    requires
        0 <= j <= cols.len(),
    ensures
        first_repeat(cols, j) is None <==> (forall|b: int| j <= b < cols.len() ==> !repeats(cols, b)),
        first_repeat(cols, j) matches Some(k) ==> j <= k < cols.len() && repeats(cols, k),
    decreases cols.len() - j,
{
    if j < cols.len() {
        lemma_first_repeat_none(cols, j + 1);
    }
}

proof fn lemma_first_uneven_none(cols: Seq<ColumnModel>, j: int)
    requires
        0 <= j <= cols.len(),
    ensures
        first_uneven(cols, j) is None <==> (forall|b: int|
            j <= b < cols.len() ==> (#[trigger] cols[b]).cells.len() == cols[0].cells.len()),
        first_uneven(cols, j) matches Some(k) ==> j <= k < cols.len(),
    decreases cols.len() - j,
{
    if j < cols.len() {
        lemma_first_uneven_none(cols, j + 1);
    }
}

/// A sequence of columns is a table exactly when it has no defect.
pub proof fn lemma_defect_free(cols: Seq<ColumnModel>)
    ensures
        table_defect(cols) is None <==> well_formed(cols),
{
    lemma_first_repeat_none(cols, 0);
    lemma_first_uneven_none(cols, 0);
    if names_distinct(cols) {
        assert forall|b: int| 0 <= b < cols.len() implies !repeats(cols, b) by {}
    }
    if first_repeat(cols, 0) is None {
        assert forall|i: int, j: int| 0 <= i < j < cols.len() implies cols[i].name
            != cols[j].name by {
            assert(!repeats(cols, j));
        }
    }
}

/// In a table, the column found under a name is the only one of that name.
pub proof fn lemma_column_of(cols: Seq<ColumnModel>, name: Seq<char>)
    ensures
        column_of(cols, name) is None <==> (forall|i: int|
            0 <= i < cols.len() ==> (#[trigger] cols[i]).name != name),
        column_of(cols, name) matches Some(cells) ==> exists|i: int|
            0 <= i < cols.len() && (#[trigger] cols[i]).name == name && cols[i].cells == cells,
    decreases cols.len(),
{
    if cols.len() > 0 && cols[0].name != name {
        let rest = cols.drop_first();
        lemma_column_of(rest, name);
        assert forall|i: int| 0 <= i < rest.len() implies (#[trigger] rest[i]) == cols[i + 1] by {}
        if column_of(rest, name) is None {
            assert forall|i: int| 0 <= i < cols.len() implies (#[trigger] cols[i]).name != name by {
                if i > 0 {
                    assert(rest[i - 1] == cols[i]);
                }
            }
        } else {
            let i = choose|i: int|
                0 <= i < rest.len() && (#[trigger] rest[i]).name == name && rest[i].cells
                    == column_of(rest, name)->0;
            assert(cols[i + 1].name == name);
        }
    }
}

/// A table: columns of one height under distinct names.
#[derive(Debug)]
pub struct Table {
    columns: Vec<Column>,
}

impl View for Table {
    type V = Seq<ColumnModel>;

    closed spec fn view(&self) -> Seq<ColumnModel> {
        self.columns.deep_view()
    }
}

fn copy_text(s: &String) -> (r: String)
    ensures
        r@ == s@,
{
    s.clone()
}

/// The text of a cell, where a blank cell reads as the empty text.
pub fn text_of_cell(cell: &Option<String>) -> (r: String)
    ensures
        r@ == header_text(cell.deep_view()),
{
    match cell {
        Some(s) => copy_text(s),
        None => String::new(),
    }
}

/// A copy of a cell.
pub fn copy_cell(c: &Option<String>) -> (r: Option<String>)
    ensures
        r.deep_view() == c.deep_view(),
{
    match c {
        Some(s) => Some(copy_text(s)),
        None => None,
    }
}

impl Table {
    #[verifier::type_invariant]
    spec fn valid(&self) -> bool {
        well_formed(self.columns.deep_view())
    }

    /// Makes a table of the given columns, unless two of them share a name
    /// or their heights differ.
    pub fn new(columns: Vec<Column>) -> (r: Result<Table, Error>)
        ensures
            match table_defect(columns.deep_view()) {
                None => r matches Ok(t) && t@ == columns.deep_view(),
                Some(e) => r matches Err(x) && x@ == e,
            },
            r is Ok ==> well_formed(columns.deep_view()),
    {
        let ghost cols = columns.deep_view();
        let mut j: usize = 0;
        while j < columns.len()
            invariant
                j <= columns.len(),
                cols == columns.deep_view(),
                forall|b: int| 0 <= b < j ==> !repeats(cols, b),
            decreases columns.len() - j,
        {
            let mut i: usize = 0;
            while i < j
                invariant
                    i <= j < columns.len(),
                    cols == columns.deep_view(),
                    forall|b: int| 0 <= b < j ==> !repeats(cols, b),
                    forall|a: int| 0 <= a < i ==> (#[trigger] cols[a]).name != cols[j as int].name,
                decreases j - i,
            {
                if columns[i].name == columns[j].name {
                    proof {
                        assert(cols[i as int].name == cols[j as int].name);
                        assert(repeats(cols, j as int));
                        lemma_first_repeat_from(cols, 0, j as int);
                    }
                    return Err(Error::Duplicate(copy_text(&columns[j].name)));
                }
                i += 1;
            }
            j += 1;
        }
        proof {
            lemma_first_repeat_none(cols, 0);
        }
        let mut k: usize = 0;
        while k < columns.len()
            invariant
                k <= columns.len(),
                cols == columns.deep_view(),
                first_repeat(cols, 0) is None,
                forall|b: int| 0 <= b < k ==> (#[trigger] cols[b]).cells.len() == cols[0].cells.len(),
            decreases columns.len() - k,
        {
            if columns[k].cells.len() != columns[0].cells.len() {
                proof {
                    lemma_first_uneven_from(cols, 0, k as int);
                }
                return Err(Error::Shape(copy_text(&columns[k].name)));
            }
            k += 1;
        }
        proof {
            lemma_first_uneven_none(cols, 0);
            lemma_defect_free(cols);
        }
        Ok(Table { columns })
    }

    /// A copy of the table.
    pub fn copy(&self) -> (r: Table)
        ensures
            r@ == self@,
    {
        proof {
            use_type_invariant(self);
        }
        let mut columns: Vec<Column> = Vec::new();
        let mut i: usize = 0;
        while i < self.columns.len()
            invariant
                i <= self.columns.len(),
                columns.len() == i,
                forall|k: int| 0 <= k < i ==> (#[trigger] columns@[k]).deep_view() == self.columns@[k].deep_view(),
            decreases self.columns.len() - i,
        {
            let c = &self.columns[i];
            let mut cells: Vec<Option<String>> = Vec::new();
            let mut j: usize = 0;
            while j < c.cells.len()
                invariant
                    j <= c.cells.len(),
                    cells.len() == j,
                    forall|k: int| 0 <= k < j ==> (#[trigger] cells@[k]).deep_view() == c.cells@[k].deep_view(),
                decreases c.cells.len() - j,
            {
                cells.push(copy_cell(&c.cells[j]));
                j += 1;
            }
            assert(cells.deep_view() =~= c.cells.deep_view());
            columns.push(Column { name: copy_text(&c.name), cells });
            i += 1;
        }
        assert(columns.deep_view() =~= self.columns.deep_view());
        Table { columns }
    }

    /// The columns, from left to right.
    pub fn columns(&self) -> (r: &Vec<Column>)
        ensures
            r.deep_view() == self@,
            well_formed(self@),
    {
        proof {
            use_type_invariant(self);
        }
        &self.columns
    }

    /// The number of rows.
    pub fn height(&self) -> (h: usize)
        ensures
            h == height_of(self@),
            well_formed(self@),
    {
        proof {
            use_type_invariant(self);
        }
        if self.columns.len() == 0 {
            0
        } else {
            self.columns[0].cells.len()
        }
    }

    /// The cells of the column with the given name, if there is one.
    pub fn column(&self, name: &str) -> (r: Option<&Vec<Option<String>>>)
        ensures
            r.deep_view() == column_of(self@, name@),
            r matches Some(cells) ==> cells.len() == height_of(self@),
            well_formed(self@),
    {
        proof {
            use_type_invariant(self);
        }
        let ghost cols = self.columns.deep_view();
        let mut i: usize = 0;
        assert(cols.skip(0) =~= cols);
        while i < self.columns.len()
            invariant
                i <= self.columns.len(),
                cols == self.columns.deep_view(),
                well_formed(cols),
                column_of(cols, name@) == column_of(cols.skip(i as int), name@),
            decreases self.columns.len() - i,
        {
            proof {
                assert(cols.skip(i as int)[0] == cols[i as int]);
                assert(cols.skip(i as int).drop_first() =~= cols.skip(i + 1));
                assert(cols[i as int] == self.columns@[i as int].deep_view());
            }
            if same_text(self.columns[i].name.as_str(), name) {
                let cells = &self.columns[i].cells;
                assert(cells.deep_view() == cols[i as int].cells);
                assert(cells.deep_view().len() == cells.len());
                return Some(cells);
            }
            i += 1;
        }
        None
    }
}

proof fn lemma_first_repeat_from(cols: Seq<ColumnModel>, j: int, k: int)
    requires
        0 <= j <= k < cols.len(),
        forall|b: int| j <= b < k ==> !repeats(cols, b),
        repeats(cols, k),
    ensures
        first_repeat(cols, j) == Some(k),
    decreases k - j,
{
    if j < k {
        lemma_first_repeat_from(cols, j + 1, k);
    }
}

proof fn lemma_first_uneven_from(cols: Seq<ColumnModel>, j: int, k: int)
    requires
        0 <= j <= k < cols.len(),
        forall|b: int| j <= b < k ==> (#[trigger] cols[b]).cells.len() == cols[0].cells.len(),
        cols[k].cells.len() != cols[0].cells.len(),
    ensures
        first_uneven(cols, j) == Some(k),
    decreases k - j,
{
    if j < k {
        lemma_first_uneven_from(cols, j + 1, k);
    }
}

/// A sheet as it is read: rows of cells from top to bottom, the first of
/// which holds the headers.
#[derive(Debug)]
pub struct Sheet {
    pub rows: Vec<Vec<Option<String>>>,
}

impl View for Sheet {
    type V = Seq<Seq<Option<Seq<char>>>>;

    open spec fn view(&self) -> Seq<Seq<Option<Seq<char>>>> {
        self.rows.deep_view()
    }
}

/// The text of a header cell: a blank one reads as the empty text.
pub open spec fn header_text(cell: Option<Seq<char>>) -> Seq<char> {
    match cell {
        Some(s) => s,
        None => Seq::empty(),
    }
}

/// The header texts of a header row.
pub open spec fn headers_of(row: Seq<Option<Seq<char>>>) -> Seq<Seq<char>> {
    Seq::new(row.len(), |i: int| header_text(row[i]))
}

/// How often `x` occurs in `s`.
pub open spec fn count_of(s: Seq<Seq<char>>, x: Seq<char>) -> nat
    decreases s.len(),
{
    if s.len() == 0 {
        0
    } else {
        count_of(s.drop_last(), x) + if s.last() == x {
            1nat
        } else {
            0nat
        }
    }
}

/// The name of column `i`: its header, and for a header that already
/// occurred `n` times to the left, the header followed by `_duplicated_`
/// and `n`.
pub open spec fn column_name(headers: Seq<Seq<char>>, i: int) -> Seq<char> {
    let n = count_of(headers.take(i), headers[i]);
    if n == 0 {
        headers[i]
    } else {
        headers[i] + "_duplicated_"@ + crate::text::decimal_text(n)
    }
}

/// The cells below the header in column `c`.
pub open spec fn column_cells(rows: Seq<Seq<Option<Seq<char>>>>, c: int) -> Seq<Option<Seq<char>>> {
    Seq::new((rows.len() - 1) as nat, |r: int| rows[r + 1][c])
}

/// The columns of a sheet whose rows all have the width of the first.
pub open spec fn sheet_columns(rows: Seq<Seq<Option<Seq<char>>>>) -> Seq<ColumnModel> {
    Seq::new(
        rows[0].len(),
        |c: int| ColumnModel { name: column_name(headers_of(rows[0]), c), cells: column_cells(rows, c) },
    )
}

/// The topmost row from `r` on whose width is not that of the first row.
pub open spec fn first_ragged(rows: Seq<Seq<Option<Seq<char>>>>, r: int) -> Option<int>
    decreases rows.len() - r,
{
    if r < 0 || r >= rows.len() {
        None
    } else if rows[r].len() != rows[0].len() {
        Some(r)
    } else {
        first_ragged(rows, r + 1)
    }
}

/// The table that a sheet holds. A sheet without any row holds none; nor
/// does one with a row of another width than the first, which is named in
/// the error by its index; nor does one whose columns, once named, make no
/// table.
pub open spec fn table_of(rows: Seq<Seq<Option<Seq<char>>>>) -> Result<
    Seq<ColumnModel>,
    crate::error::ErrorModel,
> {
    if rows.len() == 0 {
        Err(crate::error::ErrorModel::Empty("No data"@))
    } else {
        match first_ragged(rows, 0) {
            Some(r) => Err(crate::error::ErrorModel::Shape(crate::text::decimal_text(r as nat))),
            None => match table_defect(sheet_columns(rows)) {
                Some(e) => Err(e),
                None => Ok(sheet_columns(rows)),
            },
        }
    }
}

proof fn lemma_first_ragged_from(rows: Seq<Seq<Option<Seq<char>>>>, j: int, k: int)
    requires
        0 <= j <= k <= rows.len(),
        forall|b: int| j <= b < k ==> (#[trigger] rows[b]).len() == rows[0].len(),
        k < rows.len() ==> rows[k].len() != rows[0].len(),
    ensures
        first_ragged(rows, j) == if k < rows.len() {
            Some(k)
        } else {
            None
        },
    decreases k - j,
{
    if j < k {
        lemma_first_ragged_from(rows, j + 1, k);
    }
}

fn header_row(row: &Vec<Option<String>>) -> (h: Vec<String>)
    ensures
        h.deep_view() == headers_of(row.deep_view()),
{
    let mut h: Vec<String> = Vec::new();
    let mut i: usize = 0;
    while i < row.len()
        invariant
            i <= row.len(),
            h.len() == i,
            forall|j: int| 0 <= j < i ==> (#[trigger] h@[j])@ == header_text(row@[j].deep_view()),
        decreases row.len() - i,
    {
        h.push(text_of_cell(&row[i]));
        i += 1;
    }
    assert(h.deep_view() =~= headers_of(row.deep_view()));
    h
}

fn name_of_column(headers: &Vec<String>, c: usize) -> (name: String)
    requires
        c < headers.len(),
    ensures
        name@ == column_name(headers.deep_view(), c as int),
{
    let ghost hs = headers.deep_view();
    let mut n: u64 = 0;
    let mut j: usize = 0;
    assert(hs.take(0) =~= Seq::<Seq<char>>::empty());
    while j < c
        invariant
            j <= c < headers.len(),
            hs == headers.deep_view(),
            n == count_of(hs.take(j as int), hs[c as int]),
            n <= j,
        decreases c - j,
    {
        proof {
            assert(hs.take(j + 1).drop_last() =~= hs.take(j as int));
            assert(hs.take(j + 1).last() == hs[j as int]);
            assert(hs[j as int] == headers@[j as int]@);
            assert(hs[c as int] == headers@[c as int]@);
        }
        if headers[j] == headers[c] {
            n += 1;
        }
        j += 1;
    }
    let mut name = copy_text(&headers[c]);
    assert(hs[c as int] == headers@[c as int]@);
    if n > 0 {
        name.append("_duplicated_");
        push_decimal(&mut name, n);
    }
    name
}

fn cells_below(rows: &Vec<Vec<Option<String>>>, c: usize) -> (cells: Vec<Option<String>>)
    requires
        rows.len() > 0,
        forall|r: int| 0 <= r < rows.len() ==> c < (#[trigger] rows@[r]).len(),
    ensures
        cells.deep_view() == column_cells(rows.deep_view(), c as int),
{
    let mut cells: Vec<Option<String>> = Vec::new();
    let mut r: usize = 1;
    while r < rows.len()
        invariant
            1 <= r <= rows.len(),
            cells.len() == r - 1,
            forall|r: int| 0 <= r < rows.len() ==> c < (#[trigger] rows@[r]).len(),
            forall|k: int|
                0 <= k < r - 1 ==> (#[trigger] cells@[k]).deep_view() == rows@[k + 1]@[c as int].deep_view(),
        decreases rows.len() - r,
    {
        cells.push(copy_cell(&rows[r][c]));
        r += 1;
    }
    assert(cells.deep_view() =~= column_cells(rows.deep_view(), c as int));
    cells
}

impl Sheet {
    /// Names the columns after the first row and makes a table of the rows
    /// below it.
    pub fn to_data_frame(&self) -> (r: Result<Table, Error>)
        ensures
            match table_of(self@) {
                Ok(cols) => r matches Ok(t) && t@ == cols,
                Err(e) => r matches Err(x) && x@ == e,
            },
    {
        let ghost rows = self.rows.deep_view();
        if self.rows.len() == 0 {
            return Err(Error::Empty("No data".to_owned()));
        }
        let width = self.rows[0].len();
        assert(rows[0].len() == width);
        let mut r: usize = 0;
        while r < self.rows.len()
            invariant
                r <= self.rows.len(),
                rows == self.rows.deep_view(),
                rows[0].len() == width,
                forall|b: int| 0 <= b < r ==> (#[trigger] rows[b]).len() == width,
            decreases self.rows.len() - r,
        {
            assert(rows[r as int].len() == self.rows@[r as int].len());
            if self.rows[r].len() != width {
                proof {
                    lemma_first_ragged_from(rows, 0, r as int);
                }
                let mut at = String::new();
                push_decimal(&mut at, r as u64);
                assert(at@ =~= crate::text::decimal_text(r as nat));
                return Err(Error::Shape(at));
            }
            r += 1;
        }
        proof {
            lemma_first_ragged_from(rows, 0, rows.len() as int);
            assert forall|k: int| 0 <= k < self.rows.len() implies (#[trigger] self.rows@[k]).len()
                == width by {
                assert(rows[k].len() == self.rows@[k].len());
            }
        }
        let headers = header_row(&self.rows[0]);
        assert(headers.deep_view() == headers_of(rows[0]));
        let mut columns: Vec<Column> = Vec::new();
        let mut c: usize = 0;
        while c < width
            invariant
                c <= width,
                self.rows.len() > 0,
                rows == self.rows.deep_view(),
                rows[0].len() == width,
                headers.deep_view() == headers_of(rows[0]),
                headers.len() == width,
                forall|k: int| 0 <= k < self.rows.len() ==> (#[trigger] self.rows@[k]).len() == width,
                columns.len() == c,
                forall|k: int| 0 <= k < c ==> (#[trigger] columns@[k]).deep_view() == sheet_columns(rows)[k],
            decreases width - c,
        {
            let name = name_of_column(&headers, c);
            let cells = cells_below(&self.rows, c);
            columns.push(Column { name, cells });
            c += 1;
        }
        assert(columns.deep_view() =~= sheet_columns(rows));
        Table::new(columns)
    }
}

} // verus!
