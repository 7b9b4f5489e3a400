//! What the rows of one address have in common: the width of the register
//! they describe, whether it stands for a series, and where the series
//! begins.

use crate::error::Error;
use crate::excel::{copy_cell, header_text, text_of_cell};
use crate::outcome::{all_or_first, lemma_all_or_first_step, lemma_failure_stays};
use crate::parser::rows::{Row, RowModel};
use crate::parser::template::{
    base_address, bit_offset_of, is_series, series_base, series_first, series_last, Patterns,
};
use crate::text::{decimal_u32, parse_u32};
use vstd::prelude::*;

verus! {

/// A row together with what was derived for it.
#[derive(Debug)]
pub struct Derived {
    pub row: Row,
    /// The widths of all rows of this row's address, added up.
    pub reg_width: u32,
    /// That width in whole bytes.
    pub bytes: u32,
    /// Whether the register of this address stands for a series.
    pub expandable: bool,
    /// What the members of the series are named after.
    pub base_reg: Option<String>,
    /// The first and the last member of the series.
    pub first: Option<u32>,
    pub last: Option<u32>,
    /// The address as a number.
    pub base_addr: Option<u32>,
    /// The low end of this row's bit range, as it is written.
    pub bit_offset: Option<String>,
}

/// The mathematical content of a [`Derived`].
pub struct DerivedModel {
    pub row: RowModel,
    pub reg_width: u32,
    pub bytes: u32,
    pub expandable: bool,
    pub base_reg: Option<Seq<char>>,
    pub first: Option<u32>,
    pub last: Option<u32>,
    pub base_addr: Option<u32>,
    pub bit_offset: Option<Seq<char>>,
}

impl DeepView for Derived {
    type V = DerivedModel;

    open spec fn deep_view(&self) -> DerivedModel {
        DerivedModel {
            row: self.row.deep_view(),
            reg_width: self.reg_width,
            bytes: self.bytes,
            expandable: self.expandable,
            base_reg: self.base_reg.deep_view(),
            first: self.first,
            last: self.last,
            base_addr: self.base_addr,
            bit_offset: self.bit_offset.deep_view(),
        }
    }
}

impl View for Derived {
    type V = DerivedModel;

    open spec fn view(&self) -> DerivedModel {
        self.deep_view()
    }
}

/// The width that a cell gives: none for a blank cell, which counts as 0,
/// and the decimal number for a written one. `None` marks a written cell
/// that denotes no number.
pub open spec fn width_of(cell: Option<Seq<char>>) -> Option<u32> {
    match cell {
        None => Some(0u32),
        Some(s) => decimal_u32(s),
    }
}

/// The width that a cell adds to its register.
pub open spec fn width_or_zero(cell: Option<Seq<char>>) -> nat {
    match width_of(cell) {
        Some(w) => w as nat,
        None => 0,
    }
}

/// The widths of the rows with the given address, added up.
pub open spec fn total_width(rows: Seq<RowModel>, addr: Option<Seq<char>>) -> nat
    decreases rows.len(),
{
    if rows.len() == 0 {
        0
    } else {
        total_width(rows.drop_last(), addr) + if rows.last().addr == addr {
            width_or_zero(rows.last().width)
        } else {
            0
        }
    }
}

/// The first row from `j` on with the given address; the number of rows
/// where there is none.
pub open spec fn leader_from(rows: Seq<RowModel>, addr: Option<Seq<char>>, j: int) -> int
    decreases rows.len() - j,
{
    if j < 0 || j >= rows.len() {
        rows.len() as int
    } else if rows[j].addr == addr {
        j
    } else {
        leader_from(rows, addr, j + 1)
    }
}

/// The first row with the address of row `i`.
pub open spec fn leader(rows: Seq<RowModel>, i: int) -> int {
    leader_from(rows, rows[i].addr, 0)
}

/// Row `i` with what is derived for it. Refused are, in this order: a
/// written width that denotes no number, widths of one address that add up
/// beyond 32 bits, and a written address without a number.
pub open spec fn derive_row(rows: Seq<RowModel>, i: int) -> Result<DerivedModel, crate::error::ErrorModel> {
    let row = rows[i];
    let total = total_width(rows, row.addr);
    let first_reg = rows[leader(rows, i)].reg;
    if width_of(row.width) is None {
        Err(crate::error::ErrorModel::ParseInt(row.width->0))
    } else if total > u32::MAX {
        Err(crate::error::ErrorModel::Overflow(header_text(row.addr)))
    } else {
        match base_address(row.addr) {
            Err(e) => Err(e),
            Ok(base) => Ok(
                DerivedModel {
                    row: row,
                    reg_width: total as u32,
                    bytes: (total / 8) as u32,
                    expandable: is_series(first_reg),
                    base_reg: series_base(first_reg),
                    first: series_first(first_reg),
                    last: series_last(first_reg),
                    base_addr: base,
                    bit_offset: bit_offset_of(row.bit),
                },
            ),
        }
    }
}

/// Every row with what is derived for it, or why it is refused.
pub open spec fn derive_items(rows: Seq<RowModel>) -> Seq<Result<DerivedModel, crate::error::ErrorModel>> {
    Seq::new(rows.len(), |i: int| derive_row(rows, i))
}

/// The rows with what is derived for them, unless one of them is refused:
/// then the first refusal.
pub open spec fn derived(rows: Seq<RowModel>) -> Result<Seq<DerivedModel>, crate::error::ErrorModel> {
    all_or_first(derive_items(rows))
}

/// The leader of a row is a row at or above it with the same address, and
/// no row above the leader has that address.
pub proof fn lemma_leader(rows: Seq<RowModel>, i: int)
    requires
        0 <= i < rows.len(),
    ensures
        0 <= leader(rows, i) <= i,
        rows[leader(rows, i)].addr == rows[i].addr,
        forall|k: int| 0 <= k < leader(rows, i) ==> (#[trigger] rows[k]).addr != rows[i].addr,
{
    lemma_leader_from(rows, rows[i].addr, 0, i);
}

proof fn lemma_leader_from(rows: Seq<RowModel>, addr: Option<Seq<char>>, j: int, i: int)
    requires
        0 <= j <= i < rows.len(),
        rows[i].addr == addr,
    ensures
        j <= leader_from(rows, addr, j) <= i,
        rows[leader_from(rows, addr, j)].addr == addr,
        forall|k: int| j <= k < leader_from(rows, addr, j) ==> (#[trigger] rows[k]).addr != addr,
    decreases i - j,
{
    if rows[j].addr != addr {
        lemma_leader_from(rows, addr, j + 1, i);
    }
}

/// Whether two cells hold the same.
pub fn same_cell(a: &Option<String>, b: &Option<String>) -> (r: bool)
    ensures
        r == (a.deep_view() == b.deep_view()),
{
    match (a, b) {
        (Some(x), Some(y)) => *x == *y,
        (None, None) => true,
        _ => false,
    }
}

/// A copy of a row.
pub fn copy_row(row: &Row) -> (r: Row)
    ensures
        r.deep_view() == row.deep_view(),
{
    Row {
        addr: copy_cell(&row.addr),
        reg: copy_cell(&row.reg),
        field: copy_cell(&row.field),
        bit: copy_cell(&row.bit),
        width: copy_cell(&row.width),
        attribute: copy_cell(&row.attribute),
        default: copy_cell(&row.default),
        description: copy_cell(&row.description),
    }
}

fn read_width(cell: &Option<String>) -> (r: Option<u32>)
    ensures
        r == width_of(cell.deep_view()),
{
    match cell {
        None => Some(0),
        Some(s) => parse_u32(s.as_str()),
    }
}

fn read_widths(rows: &Vec<Row>) -> (widths: Vec<Option<u32>>)
    ensures
        widths.len() == rows.len(),
        forall|i: int| 0 <= i < rows.len() ==> #[trigger] widths@[i] == width_of(rows.deep_view()[i].width),
{
    let mut widths: Vec<Option<u32>> = Vec::new();
    let mut i: usize = 0;
    while i < rows.len()
        invariant
            i <= rows.len(),
            widths.len() == i,
            forall|k: int| 0 <= k < i ==> #[trigger] widths@[k] == width_of(rows.deep_view()[k].width),
        decreases rows.len() - i,
    {
        assert(rows.deep_view()[i as int] == rows@[i as int].deep_view());
        widths.push(read_width(&rows[i].width));
        i += 1;
    }
    widths
}

fn find_leader(rows: &Vec<Row>, i: usize) -> (l: usize)
    requires
        i < rows.len(),
    ensures
        l == leader(rows.deep_view(), i as int),
        l <= i,
{
    let ghost m = rows.deep_view();
    let mut j: usize = 0;
    proof {
        lemma_leader_from(m, m[i as int].addr, 0, i as int);
    }
    loop
        invariant
            j <= i < rows.len(),
            m == rows.deep_view(),
            leader(m, i as int) == leader_from(m, m[i as int].addr, j as int),
            j <= leader(m, i as int) <= i,
        decreases i - j,
    {
        assert(m[j as int] == rows@[j as int].deep_view());
        assert(m[i as int] == rows@[i as int].deep_view());
        if same_cell(&rows[j].addr, &rows[i].addr) {
            return j;
        }
        proof {
            lemma_leader_from(m, m[i as int].addr, j + 1, i as int);
        }
        j += 1;
    }
}

fn sum_widths(rows: &Vec<Row>, widths: &Vec<Option<u32>>, i: usize) -> (r: Option<u32>)
    requires
        i < rows.len(),
        widths.len() == rows.len(),
        forall|k: int| 0 <= k < rows.len() ==> #[trigger] widths@[k] == width_of(rows.deep_view()[k].width),
    ensures
        match r {
            Some(t) => t == total_width(rows.deep_view(), rows.deep_view()[i as int].addr),
            None => total_width(rows.deep_view(), rows.deep_view()[i as int].addr) > u32::MAX,
        },
{
    let ghost m = rows.deep_view();
    let ghost addr = m[i as int].addr;
    let mut acc: u64 = 0;
    let mut over = false;
    let mut k: usize = 0;
    assert(m.take(0) =~= Seq::<RowModel>::empty());
    while k < rows.len()
        invariant
            k <= rows.len(),
            i < rows.len(),
            m == rows.deep_view(),
            addr == m[i as int].addr,
            widths.len() == rows.len(),
            forall|k: int| 0 <= k < rows.len() ==> #[trigger] widths@[k] == width_of(m[k].width),
            !over ==> acc == total_width(m.take(k as int), addr) && acc <= u32::MAX,
            over ==> total_width(m.take(k as int), addr) > u32::MAX,
        decreases rows.len() - k,
    {
        proof {
            assert(m.take(k + 1).drop_last() =~= m.take(k as int));
            assert(m.take(k + 1).last() == m[k as int]);
            assert(m[k as int] == rows@[k as int].deep_view());
            assert(m[i as int] == rows@[i as int].deep_view());
        }
        if !over && same_cell(&rows[k].addr, &rows[i].addr) {
            let w: u64 = match widths[k] {
                Some(w) => w as u64,
                None => 0,
            };
            acc = acc + w;
            if acc > 0xffff_ffff {
                over = true;
            }
        }
        k += 1;
    }
    assert(m.take(k as int) =~= m);
    if over {
        None
    } else {
        Some(acc as u32)
    }
}

fn derive_one(rows: &Vec<Row>, widths: &Vec<Option<u32>>, patterns: &Patterns, i: usize) -> (r: Result<
    Derived,
    Error,
>)
    requires
        i < rows.len(),
        widths.len() == rows.len(),
        forall|k: int| 0 <= k < rows.len() ==> #[trigger] widths@[k] == width_of(rows.deep_view()[k].width),
    ensures
        match derive_row(rows.deep_view(), i as int) {
            Ok(d) => r matches Ok(x) && x.deep_view() == d,
            Err(e) => r matches Err(x) && x@ == e,
        },
{
    let ghost m = rows.deep_view();
    assert(m[i as int] == rows@[i as int].deep_view());
    let row = &rows[i];
    match (&widths[i], &row.width) {
        (None, Some(w)) => {
            return Err(Error::ParseInt(w.clone()));
        },
        _ => {},
    }
    let total = match sum_widths(rows, widths, i) {
        Some(t) => t,
        None => {
            return Err(Error::Overflow(text_of_cell(&row.addr)));
        },
    };
    let l = find_leader(rows, i);
    assert(m[l as int] == rows@[l as int].deep_view());
    let first_reg = &rows[l].reg;
    let base_addr = match patterns.address_of(&row.addr) {
        Ok(b) => b,
        Err(e) => {
            return Err(e);
        },
    };
    Ok(
        Derived {
            row: copy_row(row),
            reg_width: total,
            bytes: total / 8,
            expandable: patterns.stands_for_series(first_reg),
            base_reg: patterns.base_of_series(first_reg),
            first: patterns.first_of_series(first_reg),
            last: patterns.last_of_series(first_reg),
            base_addr,
            bit_offset: patterns.bit_offset(&row.bit),
        },
    )
}

/// Derives, row by row, what the rows of one address have in common, and
/// stops at the first row that is refused.
pub fn derive_rows(rows: &Vec<Row>, patterns: &Patterns) -> (r: Result<Vec<Derived>, Error>)
    ensures
        match derived(rows.deep_view()) {
            Ok(ds) => r matches Ok(x) && x.deep_view() == ds,
            Err(e) => r matches Err(x) && x@ == e,
        },
{
    let ghost m = rows.deep_view();
    let ghost items = derive_items(m);
    let widths = read_widths(rows);
    let mut out: Vec<Derived> = Vec::new();
    let mut i: usize = 0;
    assert(items.take(0) =~= Seq::<Result<DerivedModel, crate::error::ErrorModel>>::empty());
    assert(out.deep_view() =~= Seq::<DerivedModel>::empty());
    while i < rows.len()
        invariant
            i <= rows.len(),
            m == rows.deep_view(),
            items == derive_items(m),
            widths.len() == rows.len(),
            forall|k: int| 0 <= k < rows.len() ==> #[trigger] widths@[k] == width_of(m[k].width),
            all_or_first(items.take(i as int)) == Ok::<Seq<DerivedModel>, crate::error::ErrorModel>(
                out.deep_view(),
            ),
        decreases rows.len() - i,
    {
        proof {
            lemma_all_or_first_step(items, i as int);
        }
        match derive_one(rows, &widths, patterns, i) {
            Ok(d) => {
                let ghost before = out.deep_view();
                out.push(d);
                assert(out.deep_view() =~= before.push(d.deep_view()));
            },
            Err(e) => {
                proof {
                    lemma_failure_stays(items, i + 1);
                }
                return Err(e);
            },
        }
        i += 1;
    }
    assert(items.take(i as int) =~= items);
    Ok(out)
}

} // verus!
