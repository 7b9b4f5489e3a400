//! Filling blank cells from above, which undoes the vertical merging of
//! cells in a sheet.

use crate::excel::copy_cell;
use vstd::prelude::*;

verus! {

/// The cell at `i` after filling: the cell itself if it is written, else
/// the filled cell above it, and blank above the first row.
pub open spec fn fill_at(cells: Seq<Option<Seq<char>>>, i: int) -> Option<Seq<char>>
    decreases i + 1,
{
    if i < 0 || i >= cells.len() {
        None
    } else if cells[i] is Some {
        cells[i]
    } else {
        fill_at(cells, i - 1)
    }
}

/// A column with every blank cell filled from above.
pub open spec fn filled(cells: Seq<Option<Seq<char>>>) -> Seq<Option<Seq<char>>> {
    Seq::new(cells.len(), |i: int| fill_at(cells, i))
}

/// The row of the nearest written cell at or above row `i`; -1 where
/// there is none.
pub open spec fn source_at(cells: Seq<Option<Seq<char>>>, i: int) -> int
    decreases i + 1,
{
    if i < 0 || i >= cells.len() {
        -1
    } else if cells[i] is Some {
        i
    } else {
        source_at(cells, i - 1)
    }
}

/// A filled cell holds what the nearest written cell at or above it holds.
pub proof fn lemma_fill_source(cells: Seq<Option<Seq<char>>>, i: int)
    requires
        0 <= i < cells.len(),
    ensures
        -1 <= source_at(cells, i) <= i,
        source_at(cells, i) >= 0 ==> cells[source_at(cells, i)] is Some && fill_at(cells, i)
            == cells[source_at(cells, i)],
        source_at(cells, i) < 0 ==> fill_at(cells, i) is None,
        forall|k: int| source_at(cells, i) < k <= i ==> (#[trigger] cells[k]) is None,
    decreases i,
{
    if cells[i] is None {
        if i > 0 {
            lemma_fill_source(cells, i - 1);
        } else {
            assert(source_at(cells, i - 1) == -1);
            assert(fill_at(cells, i - 1) is None);
        }
    }
}

/// Filling from above gives each cell the nearest written cell at or above
/// it, and leaves blank only the cells above the first written one.
pub proof fn lemma_fill_takes_nearest(cells: Seq<Option<Seq<char>>>, i: int)
    requires
        0 <= i < cells.len(),
    ensures
        filled(cells)[i] is Some ==> exists|j: int|
            0 <= j <= i && cells[j] == filled(cells)[i] && forall|k: int|
                j < k <= i ==> (#[trigger] cells[k]) is None,
        filled(cells)[i] is None ==> forall|k: int| 0 <= k <= i ==> (#[trigger] cells[k]) is None,
{
    lemma_fill_source(cells, i);
    let j = source_at(cells, i);
    if filled(cells)[i] is Some {
        assert(0 <= j <= i && cells[j] == filled(cells)[i] && forall|k: int|
            j < k <= i ==> (#[trigger] cells[k]) is None);
    }
}

/// Filling from above never changes a written cell, and filling twice is
/// filling once.
pub proof fn lemma_fill_keeps_written(cells: Seq<Option<Seq<char>>>)
    ensures
        filled(cells).len() == cells.len(),
        forall|i: int| 0 <= i < cells.len() && cells[i] is Some ==> filled(cells)[i] == cells[i],
        filled(filled(cells)) == filled(cells),
{
    let f = filled(cells);
    assert forall|i: int| 0 <= i < f.len() implies fill_at(f, i) == f[i] by {
        lemma_fill_again(cells, i);
    }
    assert(filled(f) =~= f);
}

proof fn lemma_fill_again(cells: Seq<Option<Seq<char>>>, i: int)
    requires
        0 <= i < cells.len(),
    ensures
        fill_at(filled(cells), i) == fill_at(cells, i),
    decreases i,
{
    let f = filled(cells);
    assert(f[i] == fill_at(cells, i));
    if cells[i] is None {
        if i > 0 {
            lemma_fill_again(cells, i - 1);
        } else {
            assert(fill_at(cells, i - 1) is None);
            assert(fill_at(f, i - 1) is None);
        }
    }
}

/// Fills every blank cell of a column from the nearest written cell above.
pub fn fill_forward(cells: &Vec<Option<String>>) -> (r: Vec<Option<String>>)
    ensures
        r.deep_view() == filled(cells.deep_view()),
{
    let ghost model = cells.deep_view();
    let mut out: Vec<Option<String>> = Vec::new();
    let mut last: Option<String> = None;
    let mut i: usize = 0;
    while i < cells.len()
        invariant
            i <= cells.len(),
            model == cells.deep_view(),
            out.len() == i,
            last.deep_view() == fill_at(model, i - 1),
            forall|k: int| 0 <= k < i ==> (#[trigger] out@[k]).deep_view() == fill_at(model, k),
        decreases cells.len() - i,
    {
        assert(model[i as int] == cells@[i as int].deep_view());
        if cells[i].is_some() {
            last = copy_cell(&cells[i]);
        }
        out.push(copy_cell(&last));
        i += 1;
    }
    assert(out.deep_view() =~= filled(model));
    out
}


} // verus!
