//! Writing a series out: a register that stands for a series becomes one
//! register per member, each under its own name and at its own address.

use crate::error::Error;
use crate::excel::{copy_cell, header_text, text_of_cell};
use crate::outcome::{
    all_or_first, joined, lemma_all_or_first_step, lemma_failure_stays, lemma_joined_step,
};
use crate::parser::derive::{Derived, DerivedModel};
use crate::text::{decimal_text, hex_text, push_decimal, push_hex};
use vstd::prelude::*;

verus! {

/// One row of a register as it goes into the result: the name and address
/// of the register, and the field that the row describes.
#[derive(Debug)]
pub struct FieldRow {
    pub reg: Option<String>,
    pub addr: Option<String>,
    pub reg_width: String,
    pub field: Option<String>,
    pub width: Option<String>,
    pub attribute: Option<String>,
    pub bytes: u32,
    pub bit_offset: Option<String>,
    pub default: Option<String>,
    pub description: String,
}

/// The mathematical content of a [`FieldRow`].
pub struct FieldRowModel {
    pub reg: Option<Seq<char>>,
    pub addr: Option<Seq<char>>,
    pub reg_width: Seq<char>,
    pub field: Option<Seq<char>>,
    pub width: Option<Seq<char>>,
    pub attribute: Option<Seq<char>>,
    pub bytes: u32,
    pub bit_offset: Option<Seq<char>>,
    pub default: Option<Seq<char>>,
    pub description: Seq<char>,
}

impl DeepView for FieldRow {
    type V = FieldRowModel;

    open spec fn deep_view(&self) -> FieldRowModel {
        FieldRowModel {
            reg: self.reg.deep_view(),
            addr: self.addr.deep_view(),
            reg_width: self.reg_width@,
            field: self.field.deep_view(),
            width: self.width.deep_view(),
            attribute: self.attribute.deep_view(),
            bytes: self.bytes,
            bit_offset: self.bit_offset.deep_view(),
            default: self.default.deep_view(),
            description: self.description@,
        }
    }
}

impl View for FieldRow {
    type V = FieldRowModel;

    open spec fn view(&self) -> FieldRowModel {
        self.deep_view()
    }
}

/// A description as it goes into the result: a blank one is replaced.
pub open spec fn described(description: Option<Seq<char>>) -> Seq<char> {
    match description {
        Some(s) => s,
        None => "No Description"@,
    }
}

/// The row of a register under the given name and address.
pub open spec fn row_under(d: DerivedModel, reg: Option<Seq<char>>, addr: Option<Seq<char>>) -> FieldRowModel {
    FieldRowModel {
        reg: reg,
        addr: addr,
        reg_width: decimal_text(d.reg_width as nat),
        field: d.row.field,
        width: d.row.width,
        attribute: d.row.attribute,
        bytes: d.bytes,
        bit_offset: d.bit_offset,
        default: d.row.default,
        description: described(d.row.description),
    }
}

/// The name of member `k` of a series.
pub open spec fn member_name(base: Option<Seq<char>>, k: int) -> Option<Seq<char>> {
    match base {
        Some(b) => Some(b + "_"@ + decimal_text(k as nat)),
        None => None,
    }
}

/// The address of member `k` of a series: as many bytes above the base as
/// `k` registers take, in capital hexadecimal after `0x`.
pub open spec fn member_address(base: Option<u32>, bytes: u32, k: int) -> Option<Seq<char>> {
    match base {
        Some(a) => Some("0x"@ + hex_text((a + k * bytes) as nat)),
        None => None,
    }
}

/// The row of member `k` of a series.
pub open spec fn member_row(d: DerivedModel, k: int) -> FieldRowModel {
    row_under(d, member_name(d.base_reg, k), member_address(d.base_addr, d.bytes, k))
}

/// The rows of `count` members in a row, from member `from` on.
pub open spec fn member_rows(d: DerivedModel, from: int, count: nat) -> Seq<FieldRowModel> {
    Seq::new(count, |n: int| member_row(d, from + n))
}

/// Whether a cell is written and not empty.
pub open spec fn is_written(cell: Option<Seq<char>>) -> bool {
    match cell {
        Some(s) => s.len() > 0,
        None => false,
    }
}

/// What one row becomes. A row of a series becomes one row per member from
/// the first to the last, and nothing where a bound is missing or the first
/// lies beyond the last; it is refused where the last member's address does
/// not fit in 32 bits. Any other row stays as it is if its field is
/// written, and is dropped if not.
pub open spec fn expansion(d: DerivedModel) -> Result<Seq<FieldRowModel>, crate::error::ErrorModel> {
    if d.expandable {
        if d.first is Some && d.last is Some && d.first->0 <= d.last->0 {
            if d.base_addr is Some && d.base_addr->0 + d.last->0 * d.bytes > u32::MAX {
                Err(crate::error::ErrorModel::Overflow(header_text(d.row.addr)))
            } else {
                Ok(member_rows(d, d.first->0 as int, (d.last->0 - d.first->0 + 1) as nat))
            }
        } else {
            Ok(Seq::empty())
        }
    } else if is_written(d.row.field) {
        Ok(seq![row_under(d, d.row.reg, d.row.addr)])
    } else {
        Ok(Seq::empty())
    }
}

/// What each row becomes.
pub open spec fn expand_items(ds: Seq<DerivedModel>) -> Seq<Result<Seq<FieldRowModel>, crate::error::ErrorModel>> {
    Seq::new(ds.len(), |i: int| expansion(ds[i]))
}

/// What the rows become, one after the other, unless one of them is
/// refused: then the first refusal.
pub open spec fn expanded(ds: Seq<DerivedModel>) -> Result<Seq<FieldRowModel>, crate::error::ErrorModel> {
    match all_or_first(expand_items(ds)) {
        Ok(parts) => Ok(joined(parts)),
        Err(e) => Err(e),
    }
}

/// A series with the bounds `first` and `last` is written out as exactly
/// `last - first + 1` rows per row of its register; the `n`-th of them is
/// named after the base with the number `first + n`, and lies `first + n`
/// register sizes above the base address.
pub proof fn lemma_series_members(d: DerivedModel)
    requires
        d.expandable,
        d.first is Some,
        d.last is Some,
        d.first->0 <= d.last->0,
        expansion(d) is Ok,
    ensures
        expansion(d)->Ok_0.len() == d.last->0 - d.first->0 + 1,
        forall|n: int|
            0 <= n <= d.last->0 - d.first->0 ==> (#[trigger] expansion(d)->Ok_0[n]).reg == member_name(
                d.base_reg,
                d.first->0 + n,
            ) && expansion(d)->Ok_0[n].addr == member_address(d.base_addr, d.bytes, d.first->0 + n),
        d.base_addr is Some ==> d.base_addr->0 + d.last->0 * d.bytes <= u32::MAX,
{
}

fn built_row(d: &Derived, reg: Option<String>, addr: Option<String>) -> (r: FieldRow)
    ensures
        r.deep_view() == row_under(d.deep_view(), reg.deep_view(), addr.deep_view()),
{
    let mut reg_width = String::new();
    push_decimal(&mut reg_width, d.reg_width as u64);
    assert(reg_width@ =~= decimal_text(d.reg_width as nat));
    let description = match &d.row.description {
        Some(s) => s.clone(),
        None => "No Description".to_owned(),
    };
    FieldRow {
        reg,
        addr,
        reg_width,
        field: copy_cell(&d.row.field),
        width: copy_cell(&d.row.width),
        attribute: copy_cell(&d.row.attribute),
        bytes: d.bytes,
        bit_offset: copy_cell(&d.bit_offset),
        default: copy_cell(&d.row.default),
        description,
    }
}

fn built_member(d: &Derived, k: u32) -> (r: FieldRow)
    requires
        d.base_addr is Some ==> d.base_addr->0 + k * d.bytes <= u32::MAX,
    ensures
        r.deep_view() == member_row(d.deep_view(), k as int),
{
    let reg = match &d.base_reg {
        Some(b) => {
            let mut name = b.clone();
            name.append("_");
            push_decimal(&mut name, k as u64);
            Some(name)
        },
        None => None,
    };
    let addr = match d.base_addr {
        Some(a) => {
            assert(k * d.bytes >= 0) by (nonlinear_arith);
            let at: u64 = a as u64 + (k as u64) * (d.bytes as u64);
            let mut text = "0x".to_owned();
            push_hex(&mut text, at);
            Some(text)
        },
        None => None,
    };
    built_row(d, reg, addr)
}

fn is_cell_written(cell: &Option<String>) -> (b: bool)
    ensures
        b == is_written(cell.deep_view()),
{
    match cell {
        Some(s) => s.as_str().unicode_len() > 0,
        None => false,
    }
}

fn expand_one(d: &Derived, out: &mut Vec<FieldRow>) -> (r: Result<(), Error>)
    ensures
        match expansion(d.deep_view()) {
            Ok(rows) => r is Ok && final(out).deep_view() == old(out).deep_view() + rows,
            Err(e) => r matches Err(x) && x@ == e && final(out).deep_view() == old(out).deep_view(),
        },
{
    let ghost dm = d.deep_view();
    let ghost before = out.deep_view();
    if d.expandable {
        match (d.first, d.last) {
            (Some(a), Some(b)) => {
                if a > b {
                    assert(out.deep_view() =~= before + Seq::<FieldRowModel>::empty());
                    return Ok(());
                }
                match d.base_addr {
                    Some(base) => {
                        assert(b * d.bytes <= 0xffff_ffff * 0xffff_ffff) by (nonlinear_arith)
                            requires
                                0 <= b <= 0xffff_ffff,
                                0 <= d.bytes <= 0xffff_ffff,
                        ;
                        if base as u64 + (b as u64) * (d.bytes as u64) > 0xffff_ffff {
                            return Err(Error::Overflow(text_of_cell(&d.row.addr)));
                        }
                    },
                    None => {},
                }
                let mut k: u64 = a as u64;
                assert(out.deep_view() =~= before + member_rows(dm, a as int, 0));
                while k <= b as u64
                    invariant
                        a <= k <= b + 1,
                        dm == d.deep_view(),
                        d.base_addr is Some ==> d.base_addr->0 + b * d.bytes <= u32::MAX,
                        out.deep_view() == before + member_rows(dm, a as int, (k - a) as nat),
                    decreases b + 1 - k,
                {
                    proof {
                        let kk = k as int;
                        let bb = b as int;
                        let w = d.bytes as int;
                        assert(kk * w <= bb * w) by (nonlinear_arith)
                            requires
                                0 <= kk <= bb,
                                0 <= w,
                        ;
                    }
                    let row = built_member(d, k as u32);
                    let ghost so_far = out.deep_view();
                    out.push(row);
                    assert(out.deep_view() =~= so_far.push(row.deep_view()));
                    assert(member_rows(dm, a as int, (k + 1 - a) as nat) =~= member_rows(
                        dm,
                        a as int,
                        (k - a) as nat,
                    ).push(member_row(dm, k as int)));
                    assert(out.deep_view() =~= before + member_rows(dm, a as int, (k + 1 - a) as nat));
                    k += 1;
                }
                Ok(())
            },
            _ => {
                assert(out.deep_view() =~= before + Seq::<FieldRowModel>::empty());
                Ok(())
            },
        }
    } else if is_cell_written(&d.row.field) {
        let row = built_row(d, copy_cell(&d.row.reg), copy_cell(&d.row.addr));
        out.push(row);
        assert(out.deep_view() =~= before.push(row.deep_view()));
        assert(out.deep_view() =~= before + seq![row_under(dm, dm.row.reg, dm.row.addr)]);
        Ok(())
    } else {
        assert(out.deep_view() =~= before + Seq::<FieldRowModel>::empty());
        Ok(())
    }
}

/// Writes every series out and drops the rows without a field, stopping at
/// the first row that is refused.
pub fn expand_rows(ds: &Vec<Derived>) -> (r: Result<Vec<FieldRow>, Error>)
    ensures
        match expanded(ds.deep_view()) {
            Ok(rows) => r matches Ok(x) && x.deep_view() == rows,
            Err(e) => r matches Err(x) && x@ == e,
        },
{
    let ghost m = ds.deep_view();
    let ghost items = expand_items(m);
    let mut out: Vec<FieldRow> = Vec::new();
    let mut i: usize = 0;
    assert(items.take(0) =~= Seq::<Result<Seq<FieldRowModel>, crate::error::ErrorModel>>::empty());
    assert(out.deep_view() =~= Seq::<FieldRowModel>::empty());
    while i < ds.len()
        invariant
            i <= ds.len(),
            m == ds.deep_view(),
            items == expand_items(m),
            all_or_first(items.take(i as int)) is Ok,
            out.deep_view() == joined(all_or_first(items.take(i as int))->Ok_0),
        decreases ds.len() - i,
    {
        proof {
            lemma_all_or_first_step(items, i as int);
            assert(m[i as int] == ds@[i as int].deep_view());
        }
        match expand_one(&ds[i], &mut out) {
            Ok(()) => {
                proof {
                    let parts = all_or_first(items.take(i as int))->Ok_0;
                    let next = all_or_first(items.take(i + 1))->Ok_0;
                    let rows = expansion(m[i as int])->Ok_0;
                    assert(next == parts.push(rows));
                    assert(next.take(parts.len() as int) =~= parts);
                    assert(next.take(next.len() as int) =~= next);
                    lemma_joined_step(next, parts.len() as int);
                }
            },
            Err(e) => {
                proof {
                    lemma_failure_stays(items, i + 1);
                }
                return Err(e);
            },
        }
        i += 1;
    }
    assert(items.take(i as int) =~= items);
    Ok(out)
}

} // verus!
