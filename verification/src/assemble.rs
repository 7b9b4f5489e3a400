//! Putting a component together from the sheets of a workbook: the sheet
//! `version` says what the component is, the sheet `address_map` lists its
//! address blocks, and each block has a sheet of its own under its name.

use crate::error::Error;
use crate::excel::{height_of, table_of, ColumnModel, Sheet, Table};
use crate::outcome::{
    all_or_first, lemma_all_or_first_step, lemma_all_succeed,
    lemma_failure_stays, lemma_first_failure,
};
use crate::parser::template::expressions_accepted;
use crate::parser::{normalized, parser_register};
use crate::schema::base::{
    block_failed, block_head, block_made, block_started, component_head, df_to_blks, df_to_compo,
    df_to_regs, missing_map_column, registers_of, Block, BlockModel, Component, ComponentModel,
    Register, RegisterModel,
};
use vstd::prelude::*;

verus! {

/// A sheet as it is read, under its name.
#[derive(Debug)]
pub struct NamedSheet {
    pub name: String,
    pub sheet: Sheet,
}

/// The mathematical content of a [`NamedSheet`].
pub struct NamedSheetModel {
    pub name: Seq<char>,
    pub rows: Seq<Seq<Option<Seq<char>>>>,
}

impl DeepView for NamedSheet {
    type V = NamedSheetModel;

    open spec fn deep_view(&self) -> NamedSheetModel {
        NamedSheetModel { name: self.name@, rows: self.sheet@ }
    }
}

/// A table under the name of its sheet.
#[derive(Debug)]
pub struct Page {
    pub name: String,
    pub table: Table,
}

/// The mathematical content of a [`Page`].
pub struct PageModel {
    pub name: Seq<char>,
    pub table: Seq<ColumnModel>,
}

impl DeepView for Page {
    type V = PageModel;

    open spec fn deep_view(&self) -> PageModel {
        PageModel { name: self.name@, table: self.table@ }
    }
}

/// The tables of a workbook, each under the name of its sheet.
#[derive(Debug)]
pub struct Workbook {
    pub pages: Vec<Page>,
}

impl View for Workbook {
    type V = Seq<PageModel>;

    open spec fn view(&self) -> Seq<PageModel> {
        self.pages.deep_view()
    }
}

/// The table that a sheet holds, under the name of the sheet.
pub open spec fn page_of(s: NamedSheetModel) -> Result<PageModel, crate::error::ErrorModel> {
    match table_of(s.rows) {
        Ok(t) => Ok(PageModel { name: s.name, table: t }),
        Err(e) => Err(e),
    }
}

/// What each sheet gives.
pub open spec fn page_items(sheets: Seq<NamedSheetModel>) -> Seq<Result<PageModel, crate::error::ErrorModel>> {
    Seq::new(sheets.len(), |i: int| page_of(sheets[i]))
}

/// The tables of all sheets, unless one of the sheets holds no table: then
/// the first refusal.
pub open spec fn pages_of(sheets: Seq<NamedSheetModel>) -> Result<Seq<PageModel>, crate::error::ErrorModel> {
    all_or_first(page_items(sheets))
}

/// The table under a name. Of two tables under one name the later one
/// counts.
pub open spec fn table_named(pages: Seq<PageModel>, name: Seq<char>) -> Option<Seq<ColumnModel>>
    decreases pages.len(),
{
    if pages.len() == 0 {
        None
    } else if pages.last().name == name {
        Some(pages.last().table)
    } else {
        table_named(pages.drop_last(), name)
    }
}

/// The registers of the block with the given name: what its sheet gives.
/// Refused are a block without a sheet and, if the expression compiler
/// refuses a search expression, every block that has one.
pub open spec fn block_registers(pages: Seq<PageModel>, name: Seq<char>) -> Result<
    Seq<RegisterModel>,
    crate::error::ErrorModel,
> {
    match table_named(pages, name) {
        None => Err(crate::error::ErrorModel::NotFound(name)),
        Some(t) => if !expressions_accepted() {
            Err(crate::error::ErrorModel::Regex)
        } else {
            match normalized(t) {
                Err(e) => Err(e),
                Ok(groups) => registers_of(groups),
            }
        },
    }
}

/// The block of row `i` of the address map.
pub open spec fn block_of(pages: Seq<PageModel>, map: Seq<ColumnModel>, i: int) -> Result<
    BlockModel,
    crate::error::ErrorModel,
> {
    match block_head(map, i) {
        Err(e) => Err(e),
        Ok(head) => match block_registers(pages, head.name) {
            Err(e) => Err(e),
            Ok(regs) => Ok(BlockModel { regs: regs, ..head }),
        },
    }
}

/// What each row of the address map gives.
pub open spec fn block_items(pages: Seq<PageModel>, map: Seq<ColumnModel>) -> Seq<
    Result<BlockModel, crate::error::ErrorModel>,
> {
    Seq::new(height_of(map), |i: int| block_of(pages, map, i))
}

/// The blocks of the component, in the order of the address map. Refused
/// are a workbook without the sheet `address_map`, an address map that
/// lacks a column, and the first row that gives no block.
pub open spec fn blocks_of(pages: Seq<PageModel>) -> Result<Seq<BlockModel>, crate::error::ErrorModel> {
    match table_named(pages, "address_map"@) {
        None => Err(crate::error::ErrorModel::NotFound("address_map"@)),
        Some(map) => match missing_map_column(map) {
            Some(name) => Err(crate::error::ErrorModel::NotFound(name)),
            None => all_or_first(block_items(pages, map)),
        },
    }
}

/// The component that a workbook describes. Refused are a workbook without
/// the sheet `version`, a sheet `version` that does not say what the
/// component is, and blocks that are refused; in this order.
pub open spec fn assembled(pages: Seq<PageModel>) -> Result<ComponentModel, crate::error::ErrorModel> {
    match table_named(pages, "version"@) {
        None => Err(crate::error::ErrorModel::NotFound("version"@)),
        Some(v) => match component_head(v) {
            Err(e) => Err(e),
            Ok(head) => match blocks_of(pages) {
                Err(e) => Err(e),
                Ok(blks) => Ok(ComponentModel { blks: blks, ..head }),
            },
        },
    }
}

impl Workbook {
    /// Makes tables of all sheets, and stops at the first sheet that holds
    /// none.
    pub fn from_sheets(sheets: &Vec<NamedSheet>) -> (r: Result<Workbook, Error>)
        ensures
            match pages_of(sheets.deep_view()) {
                Ok(pages) => r matches Ok(w) && w@ == pages,
                Err(e) => r matches Err(x) && x@ == e,
            },
    {
        let ghost m = sheets.deep_view();
        let ghost items = page_items(m);
        let mut pages: Vec<Page> = Vec::new();
        let mut i: usize = 0;
        assert(items.take(0) =~= Seq::<Result<PageModel, crate::error::ErrorModel>>::empty());
        assert(pages.deep_view() =~= Seq::<PageModel>::empty());
        while i < sheets.len()
            invariant
                i <= sheets.len(),
                m == sheets.deep_view(),
                items == page_items(m),
                all_or_first(items.take(i as int)) == Ok::<Seq<PageModel>, crate::error::ErrorModel>(
                    pages.deep_view(),
                ),
            decreases sheets.len() - i,
        {
            proof {
                lemma_all_or_first_step(items, i as int);
                assert(m[i as int] == sheets@[i as int].deep_view());
            }
            match sheets[i].sheet.to_data_frame() {
                Ok(table) => {
                    let ghost before = pages.deep_view();
                    let page = Page { name: sheets[i].name.clone(), table };
                    pages.push(page);
                    assert(pages.deep_view() =~= before.push(page.deep_view()));
                },
                Err(e) => {
                    proof {
                        lemma_failure_stays(items, i + 1);
                    }
                    return Err(e);
                },
            }
            i += 1;
        }
        assert(items.take(i as int) =~= items);
        Ok(Workbook { pages })
    }

    /// A copy of the table under a name.
    pub fn table(&self, name: &str) -> (r: Option<Table>)
        ensures
            match table_named(self@, name@) {
                Some(t) => r matches Some(x) && x@ == t,
                None => r is None,
            },
    {
        let ghost m = self.pages.deep_view();
        let mut i: usize = self.pages.len();
        assert(m.take(i as int) =~= m);
        while i > 0
            invariant
                i <= self.pages.len(),
                m == self.pages.deep_view(),
                table_named(m, name@) == table_named(m.take(i as int), name@),
            decreases i,
        {
            i -= 1;
            proof {
                assert(m.take(i + 1).drop_last() =~= m.take(i as int));
                assert(m.take(i + 1).last() == m[i as int]);
                assert(m[i as int] == self.pages@[i as int].deep_view());
            }
            if crate::text::same_text(self.pages[i].name.as_str(), name) {
                return Some(self.pages[i].table.copy());
            }
        }
        None
    }
}

/// Reads the registers of the block with the given name off its sheet.
pub fn registers_of_block(workbook: &Workbook, name: &str) -> (r: Result<Vec<Register>, Error>)
    ensures
        match block_registers(workbook@, name@) {
            Ok(regs) => r matches Ok(x) && x.deep_view() == regs,
            Err(e) => r matches Err(x) && x@ == e,
        },
{
    match workbook.table(name) {
        None => Err(Error::NotFound(name.to_owned())),
        Some(t) => match parser_register(t) {
            Ok(groups) => df_to_regs(groups),
            Err(e) => Err(e),
        },
    }
}

/// Makes the blocks of the component, in the order of the address map.
pub fn blocks_of_workbook(workbook: &Workbook) -> (r: Result<Vec<Block>, Error>)
    ensures
        match blocks_of(workbook@) {
            Ok(blks) => r matches Ok(x) && x.deep_view() == blks,
            Err(e) => r matches Err(x) && x@ == e,
        },
{
    let map = match workbook.table("address_map") {
        Some(t) => t,
        None => {
            return Err(Error::NotFound("address_map".to_owned()));
        },
    };
    let ghost pages = workbook@;
    let ghost cols = map@;
    let extractor = |name: &str| -> (r: Result<Vec<Register>, Error>)
        ensures
            match block_registers(workbook@, name@) {
                Ok(regs) => r matches Ok(x) && x.deep_view() == regs,
                Err(e) => r matches Err(x) && x@ == e,
            },
        { registers_of_block(workbook, name) };
    let ghost f = extractor;
    let r = df_to_blks(map, extractor);
    proof {
        if missing_map_column(cols) is None {
            let items = block_items(pages, cols);
            match &r {
                Ok(blocks) => {
                    let v = blocks.deep_view();
                    assert forall|i: int| 0 <= i < items.len() implies (#[trigger] items[i]) == Ok::<
                        BlockModel,
                        crate::error::ErrorModel,
                    >(v[i]) by {
                        assert(block_made(cols, i, blocks@[i]@, f));
                    }
                    lemma_all_succeed(items, v);
                },
                Err(e) => {
                    let i = choose|i: int|
                        0 <= i < height_of(cols) && block_failed(cols, i, e@, f) && forall|k: int|
                            0 <= k < i ==> block_started(cols, k, f);
                    assert forall|k: int| 0 <= k < i implies (#[trigger] items[k]) is Ok by {
                        assert(block_started(cols, k, f));
                    }
                    assert(items[i] == Err::<BlockModel, crate::error::ErrorModel>(e@));
                    lemma_first_failure(items, i, e@);
                },
            }
        }
    }
    r
}

/// Puts the component together from the tables of a workbook.
pub fn assemble(workbook: &Workbook) -> (r: Result<Component, Error>)
    ensures
        match assembled(workbook@) {
            Ok(c) => r matches Ok(x) && x@ == c,
            Err(e) => r matches Err(x) && x@ == e,
        },
{
    let version = match workbook.table("version") {
        Some(t) => t,
        None => {
            return Err(Error::NotFound("version".to_owned()));
        },
    };
    let extractor = || -> (r: Result<Vec<Block>, Error>)
        ensures
            match blocks_of(workbook@) {
                Ok(blks) => r matches Ok(x) && x.deep_view() == blks,
                Err(e) => r matches Err(x) && x@ == e,
            },
        { blocks_of_workbook(workbook) };
    df_to_compo(version, extractor)
}

} // verus!
