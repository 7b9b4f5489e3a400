//! Gathering rows under their register names, in the order in which the
//! names are first seen.

use crate::excel::copy_cell;
use crate::parser::derive::same_cell;
use crate::parser::expand::{FieldRow, FieldRowModel};
use vstd::prelude::*;

verus! {

/// The rows of one register, under its name.
#[derive(Debug)]
pub struct RegisterGroup {
    pub reg: Option<String>,
    pub rows: Vec<FieldRow>,
}

/// The mathematical content of a [`RegisterGroup`].
pub struct GroupModel {
    pub reg: Option<Seq<char>>,
    pub rows: Seq<FieldRowModel>,
}

impl DeepView for RegisterGroup {
    type V = GroupModel;

    open spec fn deep_view(&self) -> GroupModel {
        GroupModel { reg: self.reg.deep_view(), rows: self.rows.deep_view() }
    }
}

impl View for RegisterGroup {
    type V = GroupModel;

    open spec fn view(&self) -> GroupModel {
        self.deep_view()
    }
}

/// The register names of the rows, each once, in the order in which they
/// are first seen.
pub open spec fn names_seen(rows: Seq<FieldRowModel>) -> Seq<Option<Seq<char>>>
    decreases rows.len(),
{
    if rows.len() == 0 {
        Seq::empty()
    } else {
        let before = names_seen(rows.drop_last());
        if before.contains(rows.last().reg) {
            before
        } else {
            before.push(rows.last().reg)
        }
    }
}

/// The rows with the given register name, in their order.
pub open spec fn rows_named(rows: Seq<FieldRowModel>, name: Option<Seq<char>>) -> Seq<FieldRowModel>
    decreases rows.len(),
{
    if rows.len() == 0 {
        Seq::empty()
    } else {
        let before = rows_named(rows.drop_last(), name);
        if rows.last().reg == name {
            before.push(rows.last())
        } else {
            before
        }
    }
}

/// The rows gathered under their register names: one group per name, in
/// the order in which the names are first seen, each with its rows in their
/// order.
pub open spec fn grouped(rows: Seq<FieldRowModel>) -> Seq<GroupModel> {
    Seq::new(
        names_seen(rows).len(),
        |g: int| GroupModel { reg: names_seen(rows)[g], rows: rows_named(rows, names_seen(rows)[g]) },
    )
}

/// The first row with the given register name; the number of rows where
/// there is none.
pub open spec fn first_row_named(rows: Seq<FieldRowModel>, name: Option<Seq<char>>) -> int
    decreases rows.len(),
{
    if rows.len() == 0 {
        0
    } else {
        let before = first_row_named(rows.drop_last(), name);
        if before < rows.len() - 1 {
            before
        } else if rows.last().reg == name {
            rows.len() - 1
        } else {
            rows.len() as int
        }
    }
}

/// Where a name is first seen: at a row that bears it, above which no row
/// does.
pub proof fn lemma_first_row_named(rows: Seq<FieldRowModel>, name: Option<Seq<char>>)
    ensures
        0 <= first_row_named(rows, name) <= rows.len(),
        first_row_named(rows, name) < rows.len() ==> rows[first_row_named(rows, name)].reg == name,
        forall|i: int| 0 <= i < first_row_named(rows, name) ==> (#[trigger] rows[i]).reg != name,
        names_seen(rows).contains(name) <==> first_row_named(rows, name) < rows.len(),
    decreases rows.len(),
{
    if rows.len() > 0 {
        let p = rows.drop_last();
        lemma_first_row_named(p, name);
        assert forall|i: int| 0 <= i < first_row_named(rows, name) implies (#[trigger] rows[i]).reg
            != name by {
            if i < p.len() {
                assert(rows[i] == p[i]);
            }
        }
        let before = names_seen(p);
        if before.contains(rows.last().reg) {
        } else {
            let s = before.push(rows.last().reg);
            assert(s[before.len() as int] == rows.last().reg);
            if before.contains(name) {
                let k = choose|k: int| 0 <= k < before.len() && before[k] == name;
                assert(s[k] == name);
            }
        }
    }
}

/// Registers come in the order in which their names are first seen: the
/// names are distinct, every row's name is among them, and of any two of
/// them the earlier one is first seen on an earlier row.
pub proof fn lemma_first_seen_order(rows: Seq<FieldRowModel>)
    ensures
        grouped(rows).len() == names_seen(rows).len(),
        forall|g: int, h: int|
            #![trigger names_seen(rows)[g], names_seen(rows)[h]]
            0 <= g < h < names_seen(rows).len() ==> names_seen(rows)[g] != names_seen(rows)[h],
        forall|i: int| 0 <= i < rows.len() ==> names_seen(rows).contains((#[trigger] rows[i]).reg),
        forall|g: int, h: int|
            #![trigger names_seen(rows)[g], names_seen(rows)[h]]
            0 <= g < h < names_seen(rows).len() ==> first_row_named(rows, names_seen(rows)[g])
                < first_row_named(rows, names_seen(rows)[h]) < rows.len(),
    decreases rows.len(),
{
    if rows.len() > 0 {
        let p = rows.drop_last();
        let before = names_seen(p);
        let names = names_seen(rows);
        let last = rows.last().reg;
        lemma_first_seen_order(p);
        assert forall|i: int| 0 <= i < rows.len() implies names.contains((#[trigger] rows[i]).reg) by {
            if i < p.len() {
                assert(rows[i] == p[i]);
                let k = choose|k: int| 0 <= k < before.len() && before[k] == p[i].reg;
                assert(names[k] == rows[i].reg);
            } else {
                if before.contains(last) {
                } else {
                    assert(names[before.len() as int] == last);
                }
            }
        }
        assert forall|g: int, h: int|
            #![trigger names[g], names[h]]
            0 <= g < h < names.len() implies names[g] != names[h] && first_row_named(rows, names[g])
            < first_row_named(rows, names[h]) < rows.len() by {
            lemma_first_row_named(p, names[g]);
            lemma_first_row_named(p, names[h]);
            lemma_first_row_named(rows, names[g]);
            lemma_first_row_named(rows, names[h]);
            assert(before.contains(names[g])) by {
                assert(before[g] == names[g]);
            }
            if h < before.len() {
                assert(before[h] == names[h]);
                assert(before.contains(names[h]));
            } else {
                assert(names[h] == last);
                assert(!before.contains(last));
            }
        }
    }
}

/// Every row of a group bears the name of the group.
pub proof fn lemma_rows_named(rows: Seq<FieldRowModel>, name: Option<Seq<char>>)
    ensures
        rows_named(rows, name).len() <= rows.len(),
        forall|k: int| 0 <= k < rows_named(rows, name).len() ==> (#[trigger] rows_named(rows, name)[k]).reg == name,
        rows_named(rows, name).len() > 0 <==> first_row_named(rows, name) < rows.len(),
    decreases rows.len(),
{
    if rows.len() > 0 {
        lemma_rows_named(rows.drop_last(), name);
        lemma_first_row_named(rows.drop_last(), name);
    }
}

/// A copy of a row.
pub fn copy_field_row(row: &FieldRow) -> (r: FieldRow)
    ensures
        r.deep_view() == row.deep_view(),
{
    FieldRow {
        reg: copy_cell(&row.reg),
        addr: copy_cell(&row.addr),
        reg_width: row.reg_width.clone(),
        field: copy_cell(&row.field),
        width: copy_cell(&row.width),
        attribute: copy_cell(&row.attribute),
        bytes: row.bytes,
        bit_offset: copy_cell(&row.bit_offset),
        default: copy_cell(&row.default),
        description: row.description.clone(),
    }
}

fn holds(names: &Vec<Option<String>>, name: &Option<String>) -> (b: bool)
    ensures
        b == names.deep_view().contains(name.deep_view()),
{
    let mut k: usize = 0;
    while k < names.len()
        invariant
            k <= names.len(),
            forall|j: int| 0 <= j < k ==> names.deep_view()[j] != name.deep_view(),
        decreases names.len() - k,
    {
        assert(names.deep_view()[k as int] == names@[k as int].deep_view());
        if same_cell(&names[k], name) {
            return true;
        }
        k += 1;
    }
    false
}

fn names_of(rows: &Vec<FieldRow>) -> (names: Vec<Option<String>>)
    ensures
        names.deep_view() == names_seen(rows.deep_view()),
{
    let ghost m = rows.deep_view();
    let mut names: Vec<Option<String>> = Vec::new();
    let mut i: usize = 0;
    assert(m.take(0) =~= Seq::<FieldRowModel>::empty());
    assert(names.deep_view() =~= Seq::<Option<Seq<char>>>::empty());
    while i < rows.len()
        invariant
            i <= rows.len(),
            m == rows.deep_view(),
            names.deep_view() == names_seen(m.take(i as int)),
        decreases rows.len() - i,
    {
        proof {
            assert(m.take(i + 1).drop_last() =~= m.take(i as int));
            assert(m.take(i + 1).last() == m[i as int]);
            assert(m[i as int] == rows@[i as int].deep_view());
        }
        if !holds(&names, &rows[i].reg) {
            let ghost before = names.deep_view();
            let name = copy_cell(&rows[i].reg);
            names.push(name);
            assert(names.deep_view() =~= before.push(name.deep_view()));
        }
        i += 1;
    }
    assert(m.take(i as int) =~= m);
    names
}

fn rows_of_name(rows: &Vec<FieldRow>, name: &Option<String>) -> (picked: Vec<FieldRow>)
    ensures
        picked.deep_view() == rows_named(rows.deep_view(), name.deep_view()),
{
    let ghost m = rows.deep_view();
    let mut picked: Vec<FieldRow> = Vec::new();
    let mut i: usize = 0;
    assert(m.take(0) =~= Seq::<FieldRowModel>::empty());
    assert(picked.deep_view() =~= Seq::<FieldRowModel>::empty());
    while i < rows.len()
        invariant
            i <= rows.len(),
            m == rows.deep_view(),
            picked.deep_view() == rows_named(m.take(i as int), name.deep_view()),
        decreases rows.len() - i,
    {
        proof {
            assert(m.take(i + 1).drop_last() =~= m.take(i as int));
            assert(m.take(i + 1).last() == m[i as int]);
            assert(m[i as int] == rows@[i as int].deep_view());
        }
        if same_cell(&rows[i].reg, name) {
            let ghost before = picked.deep_view();
            let row = copy_field_row(&rows[i]);
            picked.push(row);
            assert(picked.deep_view() =~= before.push(row.deep_view()));
        }
        i += 1;
    }
    assert(m.take(i as int) =~= m);
    picked
}

/// Gathers the rows under their register names, in the order in which the
/// names are first seen.
pub fn group_rows(rows: &Vec<FieldRow>) -> (groups: Vec<RegisterGroup>)
    ensures
        groups.deep_view() == grouped(rows.deep_view()),
{
    let ghost m = rows.deep_view();
    let names = names_of(rows);
    let mut groups: Vec<RegisterGroup> = Vec::new();
    let mut g: usize = 0;
    while g < names.len()
        invariant
            g <= names.len(),
            m == rows.deep_view(),
            names.deep_view() == names_seen(m),
            groups.len() == g,
            forall|k: int| 0 <= k < g ==> (#[trigger] groups@[k]).deep_view() == grouped(m)[k],
        decreases names.len() - g,
    {
        assert(names.deep_view()[g as int] == names@[g as int].deep_view());
        let picked = rows_of_name(rows, &names[g]);
        groups.push(RegisterGroup { reg: copy_cell(&names[g]), rows: picked });
        g += 1;
    }
    assert(groups.deep_view() =~= grouped(m));
    groups
}

} // verus!
