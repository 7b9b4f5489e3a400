//! The register map itself: a component, its address blocks, their
//! registers and the fields of these; and how it is read off tables.

use crate::error::Error;
use crate::excel::{column_of, header_text, height_of, text_of_cell, ColumnModel, Table};
use crate::outcome::{all_or_first, lemma_all_or_first_step, lemma_failure_stays};
use crate::parser::expand::{FieldRow, FieldRowModel};
use crate::parser::group::{GroupModel, RegisterGroup};
use vstd::prelude::*;

verus! {

/// A bit field of a register.
#[derive(Debug)]
pub struct Field {
    name: String,
    offset: String,
    width: String,
    attr: String,
    reset: String,
    desc: String,
}

/// The mathematical content of a [`Field`].
pub struct FieldModel {
    pub name: Seq<char>,
    pub offset: Seq<char>,
    pub width: Seq<char>,
    pub attr: Seq<char>,
    pub reset: Seq<char>,
    pub desc: Seq<char>,
}

impl DeepView for Field {
    type V = FieldModel;

    closed spec fn deep_view(&self) -> FieldModel {
        FieldModel {
            name: self.name@,
            offset: self.offset@,
            width: self.width@,
            attr: self.attr@,
            reset: self.reset@,
            desc: self.desc@,
        }
    }
}

impl View for Field {
    type V = FieldModel;

    open spec fn view(&self) -> FieldModel {
        self.deep_view()
    }
}

/// A register of an address block.
#[derive(Debug)]
pub struct Register {
    name: String,
    offset: String,
    size: String,
    fields: Vec<Field>,
}

/// The mathematical content of a [`Register`].
pub struct RegisterModel {
    pub name: Seq<char>,
    pub offset: Seq<char>,
    pub size: Seq<char>,
    pub fields: Seq<FieldModel>,
}

impl DeepView for Register {
    type V = RegisterModel;

    closed spec fn deep_view(&self) -> RegisterModel {
        RegisterModel {
            name: self.name@,
            offset: self.offset@,
            size: self.size@,
            fields: self.fields.deep_view(),
        }
    }
}

impl View for Register {
    type V = RegisterModel;

    open spec fn view(&self) -> RegisterModel {
        self.deep_view()
    }
}

/// An address block of a component.
#[derive(Debug)]
pub struct Block {
    name: String,
    offset: String,
    range: String,
    size: String,
    regs: Vec<Register>,
}

/// The mathematical content of a [`Block`].
pub struct BlockModel {
    pub name: Seq<char>,
    pub offset: Seq<char>,
    pub range: Seq<char>,
    pub size: Seq<char>,
    pub regs: Seq<RegisterModel>,
}

impl DeepView for Block {
    type V = BlockModel;

    closed spec fn deep_view(&self) -> BlockModel {
        BlockModel {
            name: self.name@,
            offset: self.offset@,
            range: self.range@,
            size: self.size@,
            regs: self.regs.deep_view(),
        }
    }
}

impl View for Block {
    type V = BlockModel;

    open spec fn view(&self) -> BlockModel {
        self.deep_view()
    }
}

/// A component: what the whole workbook describes.
#[derive(Debug)]
pub struct Component {
    vendor: String,
    library: String,
    name: String,
    version: String,
    blks: Vec<Block>,
}

/// The mathematical content of a [`Component`].
pub struct ComponentModel {
    pub vendor: Seq<char>,
    pub library: Seq<char>,
    pub name: Seq<char>,
    pub version: Seq<char>,
    pub blks: Seq<BlockModel>,
}

impl DeepView for Component {
    type V = ComponentModel;

    closed spec fn deep_view(&self) -> ComponentModel {
        ComponentModel {
            vendor: self.vendor@,
            library: self.library@,
            name: self.name@,
            version: self.version@,
            blks: self.blks.deep_view(),
        }
    }
}

impl View for Component {
    type V = ComponentModel;

    open spec fn view(&self) -> ComponentModel {
        self.deep_view()
    }
}

impl Component {
    /// A component with the given vendor, library, name, version and blocks.
    pub fn new(vendor: String, library: String, name: String, version: String, blks: Vec<Block>) -> (r: Component)
        ensures
            r@ == (ComponentModel {
                vendor: vendor@,
                library: library@,
                name: name@,
                version: version@,
                blks: blks.deep_view(),
            }),
    {
        Component { vendor, library, name, version, blks }
    }

    /// Who offers the component.
    pub fn vendor(&self) -> (r: &str)
        ensures
            r@ == self@.vendor,
    {
        self.vendor.as_str()
    }

    /// The library that the component belongs to.
    pub fn library(&self) -> (r: &str)
        ensures
            r@ == self@.library,
    {
        self.library.as_str()
    }

    /// The name of the component.
    pub fn name(&self) -> (r: &str)
        ensures
            r@ == self@.name,
    {
        self.name.as_str()
    }

    /// The version of the component.
    pub fn version(&self) -> (r: &str)
        ensures
            r@ == self@.version,
    {
        self.version.as_str()
    }

    /// The address blocks of the component, in the order of the address map.
    pub fn blks(&self) -> (r: &Vec<Block>)
        ensures
            r.deep_view() == self@.blks,
    {
        &self.blks
    }
}

impl Block {
    /// A block with the given name, offset, range, width and registers.
    pub fn new(name: String, offset: String, range: String, size: String, regs: Vec<Register>) -> (r: Block)
        ensures
            r@ == (BlockModel {
                name: name@,
                offset: offset@,
                range: range@,
                size: size@,
                regs: regs.deep_view(),
            }),
    {
        Block { name, offset, range, size, regs }
    }

    /// The name of the block, which is also the name of its sheet.
    pub fn name(&self) -> (r: &str)
        ensures
            r@ == self@.name,
    {
        self.name.as_str()
    }

    /// The address at which the block begins.
    pub fn offset(&self) -> (r: &str)
        ensures
            r@ == self@.offset,
    {
        self.offset.as_str()
    }

    /// The extent of the block.
    pub fn range(&self) -> (r: &str)
        ensures
            r@ == self@.range,
    {
        self.range.as_str()
    }

    /// The width of the block in bits.
    pub fn size(&self) -> (r: &str)
        ensures
            r@ == self@.size,
    {
        self.size.as_str()
    }

    /// The registers of the block, in the order in which they are first seen.
    pub fn regs(&self) -> (r: &Vec<Register>)
        ensures
            r.deep_view() == self@.regs,
    {
        &self.regs
    }
}

impl Register {
    /// A register with the given name, address, size and fields.
    pub fn new(name: String, offset: String, size: String, fields: Vec<Field>) -> (r: Register)
        ensures
            r@ == (RegisterModel {
                name: name@,
                offset: offset@,
                size: size@,
                fields: fields.deep_view(),
            }),
    {
        Register { name, offset, size, fields }
    }

    /// The name of the register.
    pub fn name(&self) -> (r: &str)
        ensures
            r@ == self@.name,
    {
        self.name.as_str()
    }

    /// The address of the register within its block.
    pub fn offset(&self) -> (r: &str)
        ensures
            r@ == self@.offset,
    {
        self.offset.as_str()
    }

    /// The number of bits of the register, in decimal.
    pub fn size(&self) -> (r: &str)
        ensures
            r@ == self@.size,
    {
        self.size.as_str()
    }

    /// The fields of the register, in the order of the sheet.
    pub fn fields(&self) -> (r: &Vec<Field>)
        ensures
            r.deep_view() == self@.fields,
    {
        &self.fields
    }
}

impl Field {
    /// A field with the given name, bit position, width, attribute, reset
    /// value and description.
    pub fn new(name: String, offset: String, width: String, attr: String, reset: String, desc: String) -> (r: Field)
        ensures
            r@ == (FieldModel {
                name: name@,
                offset: offset@,
                width: width@,
                attr: attr@,
                reset: reset@,
                desc: desc@,
            }),
    {
        Field { name, offset, width, attr, reset, desc }
    }

    /// The name of the field.
    pub fn name(&self) -> (r: &str)
        ensures
            r@ == self@.name,
    {
        self.name.as_str()
    }

    /// The position of the lowest bit of the field, as it is written; empty where the sheet gives none.
    pub fn offset(&self) -> (r: &str)
        ensures
            r@ == self@.offset,
    {
        self.offset.as_str()
    }

    /// The number of bits of the field, as it is written.
    pub fn width(&self) -> (r: &str)
        ensures
            r@ == self@.width,
    {
        self.width.as_str()
    }

    /// The attribute code of the field, as it is written.
    pub fn attr(&self) -> (r: &str)
        ensures
            r@ == self@.attr,
    {
        self.attr.as_str()
    }

    /// The value of the field after reset.
    pub fn reset(&self) -> (r: &str)
        ensures
            r@ == self@.reset,
    {
        self.reset.as_str()
    }

    /// What the field is for.
    pub fn desc(&self) -> (r: &str)
        ensures
            r@ == self@.desc,
    {
        self.desc.as_str()
    }
}

/// Whether a row lacks something that a field cannot do without: its
/// name, its width, its attribute or its value after reset.
pub open spec fn lacks_data(row: FieldRowModel) -> bool {
    row.field is None || row.width is None || row.attribute is None || row.default is None
}

/// The field that a row describes. A row without a bit position gives a
/// field with an empty one.
pub open spec fn field_of(row: FieldRowModel) -> FieldModel {
    FieldModel {
        name: row.field->0,
        offset: header_text(row.bit_offset),
        width: row.width->0,
        attr: row.attribute->0,
        reset: row.default->0,
        desc: row.description,
    }
}

/// The fields that rows describe.
pub open spec fn fields_of(rows: Seq<FieldRowModel>) -> Seq<FieldModel> {
    Seq::new(rows.len(), |i: int| field_of(rows[i]))
}

/// Whether one of the rows lacks data.
pub open spec fn some_row_lacks_data(rows: Seq<FieldRowModel>) -> bool {
    exists|i: int| 0 <= i < rows.len() && lacks_data(#[trigger] rows[i])
}

/// The register that a group of rows describes: named as the group, at the
/// address and of the size that its first row gives. A group without a
/// name, without a row or without an address is refused, and so is one
/// with a row that lacks data.
pub open spec fn register_of(g: GroupModel) -> Result<RegisterModel, crate::error::ErrorModel> {
    if g.reg is None || g.rows.len() == 0 || g.rows[0].addr is None {
        Err(crate::error::ErrorModel::Empty("No data in DataFrame"@))
    } else if some_row_lacks_data(g.rows) {
        Err(crate::error::ErrorModel::Empty("No data found in dataframe"@))
    } else {
        Ok(
            RegisterModel {
                name: g.reg->0,
                offset: g.rows[0].addr->0,
                size: g.rows[0].reg_width,
                fields: fields_of(g.rows),
            },
        )
    }
}

/// What each group gives.
pub open spec fn register_items(groups: Seq<GroupModel>) -> Seq<Result<RegisterModel, crate::error::ErrorModel>> {
    Seq::new(groups.len(), |i: int| register_of(groups[i]))
}

/// The registers that the groups describe, in order, unless one of the
/// groups is refused: then the first refusal.
pub open spec fn registers_of(groups: Seq<GroupModel>) -> Result<Seq<RegisterModel>, crate::error::ErrorModel> {
    all_or_first(register_items(groups))
}

fn field_from(row: &FieldRow) -> (r: Option<Field>)
    ensures
        r is None <==> lacks_data(row.deep_view()),
        r matches Some(f) ==> f@ == field_of(row.deep_view()),
{
    match (&row.field, &row.width, &row.attribute, &row.default) {
        (Some(name), Some(width), Some(attr), Some(reset)) => Some(
            Field::new(
                name.clone(),
                text_of_cell(&row.bit_offset),
                width.clone(),
                attr.clone(),
                reset.clone(),
                row.description.clone(),
            ),
        ),
        _ => None,
    }
}

fn fields_from(rows: &Vec<FieldRow>) -> (r: Option<Vec<Field>>)
    ensures
        r is None <==> some_row_lacks_data(rows.deep_view()),
        r matches Some(fs) ==> fs.deep_view() == fields_of(rows.deep_view()),
{
    let ghost m = rows.deep_view();
    let mut fields: Vec<Field> = Vec::new();
    let mut i: usize = 0;
    while i < rows.len()
        invariant
            i <= rows.len(),
            m == rows.deep_view(),
            fields.len() == i,
            forall|k: int| 0 <= k < i ==> !lacks_data(#[trigger] m[k]),
            forall|k: int| 0 <= k < i ==> (#[trigger] fields@[k])@ == field_of(m[k]),
        decreases rows.len() - i,
    {
        assert(m[i as int] == rows@[i as int].deep_view());
        match field_from(&rows[i]) {
            Some(f) => {
                fields.push(f);
            },
            None => {
                assert(lacks_data(m[i as int]));
                return None;
            },
        }
        i += 1;
    }
    assert(fields.deep_view() =~= fields_of(m));
    Some(fields)
}

fn register_from(group: &RegisterGroup) -> (r: Result<Register, Error>)
    ensures
        match register_of(group.deep_view()) {
            Ok(reg) => r matches Ok(x) && x@ == reg,
            Err(e) => r matches Err(x) && x@ == e,
        },
{
    let ghost g = group.deep_view();
    let name = match &group.reg {
        Some(n) => n.clone(),
        None => {
            return Err(Error::Empty("No data in DataFrame".to_owned()));
        },
    };
    if group.rows.len() == 0 {
        return Err(Error::Empty("No data in DataFrame".to_owned()));
    }
    assert(g.rows[0] == group.rows@[0].deep_view());
    let offset = match &group.rows[0].addr {
        Some(a) => a.clone(),
        None => {
            return Err(Error::Empty("No data in DataFrame".to_owned()));
        },
    };
    let size = group.rows[0].reg_width.clone();
    match fields_from(&group.rows) {
        Some(fields) => Ok(Register::new(name, offset, size, fields)),
        None => Err(Error::Empty("No data found in dataframe".to_owned())),
    }
}

/// Makes registers of the groups of rows that the sheet of an address
/// block gave, and stops at the first group that is refused.
pub fn df_to_regs(df: Vec<RegisterGroup>) -> (r: Result<Vec<Register>, Error>)
    ensures
        match registers_of(df.deep_view()) {
            Ok(regs) => r matches Ok(x) && x.deep_view() == regs,
            Err(e) => r matches Err(x) && x@ == e,
        },
{
    let ghost m = df.deep_view();
    let ghost items = register_items(m);
    let mut out: Vec<Register> = Vec::new();
    let mut i: usize = 0;
    assert(items.take(0) =~= Seq::<Result<RegisterModel, crate::error::ErrorModel>>::empty());
    assert(out.deep_view() =~= Seq::<RegisterModel>::empty());
    while i < df.len()
        invariant
            i <= df.len(),
            m == df.deep_view(),
            items == register_items(m),
            all_or_first(items.take(i as int)) == Ok::<Seq<RegisterModel>, crate::error::ErrorModel>(
                out.deep_view(),
            ),
        decreases df.len() - i,
    {
        proof {
            lemma_all_or_first_step(items, i as int);
            assert(m[i as int] == df@[i as int].deep_view());
        }
        match register_from(&df[i]) {
            Ok(reg) => {
                let ghost before = out.deep_view();
                out.push(reg);
                assert(out.deep_view() =~= before.push(reg@));
            },
            Err(e) => {
                proof {
                    lemma_failure_stays(items, i + 1);
                }
                return Err(e);
            },
        }
        i += 1;
    }
    assert(items.take(i as int) =~= items);
    Ok(out)
}

/// The first of the columns that an address map must have and this table
/// lacks.
pub open spec fn missing_map_column(cols: Seq<ColumnModel>) -> Option<Seq<char>> {
    if column_of(cols, "BLOCK"@) is None {
        Some("BLOCK"@)
    } else if column_of(cols, "OFFSET"@) is None {
        Some("OFFSET"@)
    } else if column_of(cols, "RANGE"@) is None {
        Some("RANGE"@)
    } else {
        None
    }
}

/// What row `i` of an address map says of its block, without the
/// registers; refused where the row leaves the name, the offset or the
/// range blank. The width of every block is 32.
pub open spec fn block_head(cols: Seq<ColumnModel>, i: int) -> Result<BlockModel, crate::error::ErrorModel> {
    let name = column_of(cols, "BLOCK"@)->0[i];
    let offset = column_of(cols, "OFFSET"@)->0[i];
    let range = column_of(cols, "RANGE"@)->0[i];
    if name is None || offset is None || range is None {
        Err(crate::error::ErrorModel::Empty("No data in DataFrame"@))
    } else {
        Ok(
            BlockModel {
                name: name->0,
                offset: offset->0,
                range: range->0,
                size: "32"@,
                regs: Seq::empty(),
            },
        )
    }
}

/// Whether `b` is the block of row `i` of an address map, with registers
/// that the extractor handed out for the name of the block.
pub open spec fn block_made<F: Fn(&str) -> Result<Vec<Register>, Error>>(
    cols: Seq<ColumnModel>,
    i: int,
    b: BlockModel,
    extractor: F,
) -> bool {
    &&& block_head(cols, i) matches Ok(head)
    &&& b == (BlockModel { regs: b.regs, ..head })
    &&& exists|name: &str, regs: Vec<Register>|
        name@ == head.name && regs.deep_view() == b.regs && call_ensures(
            extractor,
            (name,),
            Ok::<Vec<Register>, Error>(regs),
        )
}

/// Whether row `i` of an address map is accepted and the extractor handed
/// out registers for the name of its block.
pub open spec fn block_started<F: Fn(&str) -> Result<Vec<Register>, Error>>(
    cols: Seq<ColumnModel>,
    i: int,
    extractor: F,
) -> bool {
    &&& block_head(cols, i) matches Ok(head)
    &&& exists|name: &str, regs: Vec<Register>|
        name@ == head.name && call_ensures(extractor, (name,), Ok::<Vec<Register>, Error>(regs))
}

/// Whether the making of blocks stopped at row `i` of an address map with
/// the failure `e`: because the row is refused, or because the extractor
/// failed so for the name of the block.
pub open spec fn block_failed<F: Fn(&str) -> Result<Vec<Register>, Error>>(
    cols: Seq<ColumnModel>,
    i: int,
    e: crate::error::ErrorModel,
    extractor: F,
) -> bool {
    match block_head(cols, i) {
        Err(x) => e == x,
        Ok(head) => exists|name: &str, err: Error|
            name@ == head.name && err@ == e && call_ensures(
                extractor,
                (name,),
                Err::<Vec<Register>, Error>(err),
            ),
    }
}

/// Makes the blocks of an address map, row by row: the name, the offset
/// and the range are read off the row, and the registers are asked of the
/// extractor under the name of the block. The first row that is refused, or
/// for which the extractor fails, ends the making with that failure.
pub fn df_to_blks<F>(df: Table, registers_extractor: F) -> (r: Result<Vec<Block>, Error>) where
    F: Fn(&str) -> Result<Vec<Register>, Error>,

    requires
        forall|name: &str| call_requires(registers_extractor, (name,)),
    ensures
        match missing_map_column(df@) {
            Some(name) => r matches Err(Error::NotFound(n)) && n@ == name,
            None => match r {
                Ok(blocks) => blocks.len() == height_of(df@) && forall|i: int|
                    0 <= i < blocks.len() ==> block_made(df@, i, (#[trigger] blocks@[i])@, registers_extractor),
                Err(e) => exists|i: int|
                    0 <= i < height_of(df@) && block_failed(df@, i, e@, registers_extractor)
                        && forall|k: int| 0 <= k < i ==> block_started(df@, k, registers_extractor),
            },
        },
{
    let names = match df.column("BLOCK") {
        Some(c) => c,
        None => {
            return Err(Error::NotFound("BLOCK".to_owned()));
        },
    };
    let offsets = match df.column("OFFSET") {
        Some(c) => c,
        None => {
            return Err(Error::NotFound("OFFSET".to_owned()));
        },
    };
    let ranges = match df.column("RANGE") {
        Some(c) => c,
        None => {
            return Err(Error::NotFound("RANGE".to_owned()));
        },
    };
    let h = df.height();
    let mut blocks: Vec<Block> = Vec::new();
    let mut i: usize = 0;
    while i < h
        invariant
            i <= h,
            h == height_of(df@),
            names.len() == h,
            offsets.len() == h,
            ranges.len() == h,
            missing_map_column(df@) is None,
            Some(names.deep_view()) == column_of(df@, "BLOCK"@),
            Some(offsets.deep_view()) == column_of(df@, "OFFSET"@),
            Some(ranges.deep_view()) == column_of(df@, "RANGE"@),
            forall|name: &str| call_requires(registers_extractor, (name,)),
            blocks.len() == i,
            forall|k: int| 0 <= k < i ==> block_made(df@, k, (#[trigger] blocks@[k])@, registers_extractor),
        decreases h - i,
    {
        proof {
            assert(names.deep_view()[i as int] == names@[i as int].deep_view());
            assert(offsets.deep_view()[i as int] == offsets@[i as int].deep_view());
            assert(ranges.deep_view()[i as int] == ranges@[i as int].deep_view());
        }
        match (&names[i], &offsets[i], &ranges[i]) {
            (Some(name), Some(offset), Some(range)) => {
                match registers_extractor(name.as_str()) {
                    Ok(regs) => {
                        let block = Block::new(
                            name.clone(),
                            offset.clone(),
                            range.clone(),
                            "32".to_owned(),
                            regs,
                        );
                        assert(block_made(df@, i as int, block@, registers_extractor));
                        blocks.push(block);
                    },
                    Err(e) => {
                        proof {
                            assert(block_failed(df@, i as int, e@, registers_extractor));
                            assert forall|k: int| 0 <= k < i implies block_started(
                                df@,
                                k,
                                registers_extractor,
                            ) by {
                                assert(block_made(df@, k, blocks@[k]@, registers_extractor));
                            }
                        }
                        return Err(e);
                    },
                }
            },
            _ => {
                let e = Error::Empty("No data in DataFrame".to_owned());
                proof {
                    assert(block_failed(df@, i as int, e@, registers_extractor));
                    assert forall|k: int| 0 <= k < i implies block_started(
                        df@,
                        k,
                        registers_extractor,
                    ) by {
                        assert(block_made(df@, k, blocks@[k]@, registers_extractor));
                    }
                }
                return Err(e);
            },
        }
        i += 1;
    }
    Ok(blocks)
}

/// The first row from `from` on whose tag is the given one; the number of
/// rows where there is none.
pub open spec fn tag_row(tags: Seq<Option<Seq<char>>>, tag: Seq<char>, from: int) -> int
    decreases tags.len() - from,
{
    if from < 0 || from >= tags.len() {
        tags.len() as int
    } else if tags[from] == Some(tag) {
        from
    } else {
        tag_row(tags, tag, from + 1)
    }
}

/// The value that a sheet of tags and values gives for a tag: the value in
/// the first row that bears the tag. Refused are a sheet without the column
/// of tags or of values, a tag that no row bears, and a blank value.
pub open spec fn tag_value(cols: Seq<ColumnModel>, tag: Seq<char>) -> Result<Seq<char>, crate::error::ErrorModel> {
    match column_of(cols, "TAG"@) {
        None => Err(crate::error::ErrorModel::NotFound("TAG"@)),
        Some(tags) => match column_of(cols, "VALUE"@) {
            None => Err(crate::error::ErrorModel::NotFound("VALUE"@)),
            Some(values) => if tag_row(tags, tag, 0) >= tags.len() {
                Err(crate::error::ErrorModel::NotFound(tag))
            } else {
                match values[tag_row(tags, tag, 0)] {
                    Some(v) => Ok(v),
                    None => Err(crate::error::ErrorModel::Empty("No data in DataFrame"@)),
                }
            },
        },
    }
}

/// What a sheet of tags and values says of the component, without the
/// blocks: vendor, library, name and version, looked up in this order.
pub open spec fn component_head(cols: Seq<ColumnModel>) -> Result<ComponentModel, crate::error::ErrorModel> {
    match tag_value(cols, "VENDOR"@) {
        Err(e) => Err(e),
        Ok(vendor) => match tag_value(cols, "LIBRARY"@) {
            Err(e) => Err(e),
            Ok(library) => match tag_value(cols, "NAME"@) {
                Err(e) => Err(e),
                Ok(name) => match tag_value(cols, "VERSION"@) {
                    Err(e) => Err(e),
                    Ok(version) => Ok(
                        ComponentModel {
                            vendor: vendor,
                            library: library,
                            name: name,
                            version: version,
                            blks: Seq::empty(),
                        },
                    ),
                },
            },
        },
    }
}

/// The row that bears a tag does bear it, and no row above it does.
pub proof fn lemma_tag_row(tags: Seq<Option<Seq<char>>>, tag: Seq<char>, from: int)
    requires
        0 <= from <= tags.len(),
    ensures
        from <= tag_row(tags, tag, from) <= tags.len(),
        tag_row(tags, tag, from) < tags.len() ==> tags[tag_row(tags, tag, from)] == Some(tag),
        forall|k: int| from <= k < tag_row(tags, tag, from) ==> (#[trigger] tags[k]) != Some(tag),
    decreases tags.len() - from,
{
    if from < tags.len() && tags[from] != Some(tag) {
        lemma_tag_row(tags, tag, from + 1);
    }
}

fn cell_is(cell: &Option<String>, text: &str) -> (b: bool)
    ensures
        b == (cell.deep_view() == Some(text@)),
{
    match cell {
        Some(s) => crate::text::same_text(s.as_str(), text),
        None => false,
    }
}

/// Looks a tag up in a sheet of tags and values.
pub fn lookup_tag(df: &Table, tag: &str) -> (r: Result<String, Error>)
    ensures
        match tag_value(df@, tag@) {
            Ok(v) => r matches Ok(x) && x@ == v,
            Err(e) => r matches Err(x) && x@ == e,
        },
{
    let tags = match df.column("TAG") {
        Some(c) => c,
        None => {
            return Err(Error::NotFound("TAG".to_owned()));
        },
    };
    let values = match df.column("VALUE") {
        Some(c) => c,
        None => {
            return Err(Error::NotFound("VALUE".to_owned()));
        },
    };
    let ghost t = tags.deep_view();
    let mut i: usize = 0;
    while i < tags.len()
        invariant
            i <= tags.len(),
            t == tags.deep_view(),
            tags.len() == values.len(),
            Some(t) == column_of(df@, "TAG"@),
            Some(values.deep_view()) == column_of(df@, "VALUE"@),
            tag_row(t, tag@, 0) == tag_row(t, tag@, i as int),
        decreases tags.len() - i,
    {
        assert(t[i as int] == tags@[i as int].deep_view());
        if cell_is(&tags[i], tag) {
            assert(values.deep_view()[i as int] == values@[i as int].deep_view());
            return match &values[i] {
                Some(v) => Ok(v.clone()),
                None => Err(Error::Empty("No data in DataFrame".to_owned())),
            };
        }
        i += 1;
    }
    Err(Error::NotFound(tag.to_owned()))
}

/// Makes the component: vendor, library, name and version are looked up in
/// the sheet of tags and values, and then the blocks are asked of the
/// extractor. A failed lookup ends the making before the extractor is
/// asked; a failure of the extractor is handed on.
pub fn df_to_compo<F>(df: Table, blocks_extractor: F) -> (r: Result<Component, Error>) where
    F: FnOnce() -> Result<Vec<Block>, Error>,

    requires
        call_requires(blocks_extractor, ()),
    ensures
        match component_head(df@) {
            Err(e) => r matches Err(x) && x@ == e,
            Ok(head) => match r {
                Ok(c) => c@ == (ComponentModel { blks: c@.blks, ..head }) && exists|blks: Vec<Block>|
                    blks.deep_view() == c@.blks && call_ensures(
                        blocks_extractor,
                        (),
                        Ok::<Vec<Block>, Error>(blks),
                    ),
                Err(e) => exists|err: Error|
                    err@ == e@ && call_ensures(blocks_extractor, (), Err::<Vec<Block>, Error>(err)),
            },
        },
{
    let vendor = match lookup_tag(&df, "VENDOR") {
        Ok(v) => v,
        Err(e) => {
            return Err(e);
        },
    };
    let library = match lookup_tag(&df, "LIBRARY") {
        Ok(v) => v,
        Err(e) => {
            return Err(e);
        },
    };
    let name = match lookup_tag(&df, "NAME") {
        Ok(v) => v,
        Err(e) => {
            return Err(e);
        },
    };
    let version = match lookup_tag(&df, "VERSION") {
        Ok(v) => v,
        Err(e) => {
            return Err(e);
        },
    };
    match blocks_extractor() {
        Ok(blks) => Ok(Component::new(vendor, library, name, version, blks)),
        Err(e) => Err(e),
    }
}

/// Registers come in the order of their groups, each under the name of its
/// group and with one field per row of the group.
pub proof fn lemma_registers_follow_groups(groups: Seq<GroupModel>)
    requires
        registers_of(groups) is Ok,
    ensures
        registers_of(groups)->Ok_0.len() == groups.len(),
        forall|i: int|
            0 <= i < groups.len() ==> groups[i].reg == Some(
                (#[trigger] registers_of(groups)->Ok_0[i]).name,
            ) && registers_of(groups)->Ok_0[i].fields.len() == groups[i].rows.len(),
{
    let items = register_items(groups);
    let regs = registers_of(groups)->Ok_0;
    crate::outcome::lemma_all_or_first(items);
    assert forall|i: int| 0 <= i < groups.len() implies groups[i].reg == Some((#[trigger] regs[i]).name)
        && regs[i].fields.len() == groups[i].rows.len() by {
        assert(items[i] == register_of(groups[i]));
    }
}

} // verus!
