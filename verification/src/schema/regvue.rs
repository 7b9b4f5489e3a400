//! The register description for viewers: a flat collection of elements,
//! one per address block and one per register, and how it is made of a
//! register map.

use crate::error::Error;
use crate::outcome::{
    all_or_first, joined, lemma_all_or_first_step, lemma_failure_stays, lemma_joined_step,
};
use crate::schema::base;
use crate::text::{decimal_i32, lower_text, parse_i32, same_text, to_lower_text};
use vstd::prelude::*;

verus! {

/// The name of the schema.
pub const SCHEMA_NAME: &'static str = "register-description-format";

/// The reset that a description names where it names no other.
pub const DEFAULT_RESET: &'static str = "RS";

/// The schema that a register description follows.
#[derive(Debug)]
pub struct Schema {
    pub name: String,
    pub version: String,
}

/// The mathematical content of a [`Schema`].
pub struct SchemaModel {
    pub name: Seq<char>,
    pub version: Seq<char>,
}

impl DeepView for Schema {
    type V = SchemaModel;

    open spec fn deep_view(&self) -> SchemaModel {
        SchemaModel {
            name: self.name@,
            version: self.version@,
        }
    }
}

impl View for Schema {
    type V = SchemaModel;

    open spec fn view(&self) -> SchemaModel {
        self.deep_view()
    }
}

/// A link to further reading.
#[derive(Debug)]
pub struct Link {
    pub text: Option<String>,
    pub href: Option<String>,
}

/// The mathematical content of a [`Link`].
pub struct LinkModel {
    pub text: Option<Seq<char>>,
    pub href: Option<Seq<char>>,
}

impl DeepView for Link {
    type V = LinkModel;

    open spec fn deep_view(&self) -> LinkModel {
        LinkModel {
            text: self.text.deep_view(),
            href: self.href.deep_view(),
        }
    }
}

impl View for Link {
    type V = LinkModel;

    open spec fn view(&self) -> LinkModel {
        self.deep_view()
    }
}

/// The entry point of a register description.
#[derive(Debug)]
pub struct Root {
    pub desc: String,
    pub version: Option<String>,
    pub links: Option<Vec<Link>>,
    pub doc: Option<String>,
    pub children: Vec<String>,
    pub expanded: Option<Vec<String>>,
    pub data_width: Option<i32>,
    pub default_reset: Option<String>,
}

/// The mathematical content of a [`Root`].
pub struct RootModel {
    pub desc: Seq<char>,
    pub version: Option<Seq<char>>,
    pub links: Option<Seq<LinkModel>>,
    pub doc: Option<Seq<char>>,
    pub children: Seq<Seq<char>>,
    pub expanded: Option<Seq<Seq<char>>>,
    pub data_width: Option<i32>,
    pub default_reset: Option<Seq<char>>,
}

impl DeepView for Root {
    type V = RootModel;

    open spec fn deep_view(&self) -> RootModel {
        RootModel {
            desc: self.desc@,
            version: self.version.deep_view(),
            links: self.links.deep_view(),
            doc: self.doc.deep_view(),
            children: self.children.deep_view(),
            expanded: self.expanded.deep_view(),
            data_width: self.data_width,
            default_reset: self.default_reset.deep_view(),
        }
    }
}

impl View for Root {
    type V = RootModel;

    open spec fn view(&self) -> RootModel {
        self.deep_view()
    }
}

/// A named value of a field.
#[derive(Debug)]
pub struct EnumValue {
    pub name: Option<String>,
    pub value: Option<String>,
    pub doc: Option<String>,
}

/// The mathematical content of a [`EnumValue`].
pub struct EnumValueModel {
    pub name: Option<Seq<char>>,
    pub value: Option<Seq<char>>,
    pub doc: Option<Seq<char>>,
}

impl DeepView for EnumValue {
    type V = EnumValueModel;

    open spec fn deep_view(&self) -> EnumValueModel {
        EnumValueModel {
            name: self.name.deep_view(),
            value: self.value.deep_view(),
            doc: self.doc.deep_view(),
        }
    }
}

impl View for EnumValue {
    type V = EnumValueModel;

    open spec fn view(&self) -> EnumValueModel {
        self.deep_view()
    }
}

/// A reset value under the names of the resets that give it.
#[derive(Debug)]
pub struct Reset {
    pub value: Option<String>,
    pub names: Option<Vec<String>>,
}

/// The mathematical content of a [`Reset`].
pub struct ResetModel {
    pub value: Option<Seq<char>>,
    pub names: Option<Seq<Seq<char>>>,
}

impl DeepView for Reset {
    type V = ResetModel;

    open spec fn deep_view(&self) -> ResetModel {
        ResetModel {
            value: self.value.deep_view(),
            names: self.names.deep_view(),
        }
    }
}

impl View for Reset {
    type V = ResetModel;

    open spec fn view(&self) -> ResetModel {
        self.deep_view()
    }
}

/// A bit field of a register.
#[derive(Debug)]
pub struct Field {
    pub name: String,
    pub nbits: i32,
    pub lsb: i32,
    pub access: String,
    pub reset: Option<String>,
    pub doc: Option<String>,
    pub values: Option<EnumValue>,
    pub repr: Option<String>,
    pub custom_decode: Option<String>,
    pub custom_encode: Option<String>,
}

/// The mathematical content of a [`Field`].
pub struct FieldModel {
    pub name: Seq<char>,
    pub nbits: i32,
    pub lsb: i32,
    pub access: Seq<char>,
    pub reset: Option<Seq<char>>,
    pub doc: Option<Seq<char>>,
    pub values: Option<EnumValueModel>,
    pub repr: Option<Seq<char>>,
    pub custom_decode: Option<Seq<char>>,
    pub custom_encode: Option<Seq<char>>,
}

impl DeepView for Field {
    type V = FieldModel;

    open spec fn deep_view(&self) -> FieldModel {
        FieldModel {
            name: self.name@,
            nbits: self.nbits,
            lsb: self.lsb,
            access: self.access@,
            reset: self.reset.deep_view(),
            doc: self.doc.deep_view(),
            values: self.values.deep_view(),
            repr: self.repr.deep_view(),
            custom_decode: self.custom_decode.deep_view(),
            custom_encode: self.custom_encode.deep_view(),
        }
    }
}

impl View for Field {
    type V = FieldModel;

    open spec fn view(&self) -> FieldModel {
        self.deep_view()
    }
}

/// An address block or a register, under its identifier.
#[derive(Debug)]
pub struct Element {
    pub kind: String,
    pub id: String,
    pub version: Option<String>,
    pub name: String,
    pub offset: Option<String>,
    pub size: Option<String>,
    pub links: Option<Vec<Link>>,
    pub children: Option<Vec<String>>,
    pub url: Option<String>,
    pub desc: Option<String>,
    pub fields: Option<Vec<Field>>,
    pub doc: Option<String>,
    pub data_width: Option<i32>,
    pub default_reset: Option<String>,
}

/// The mathematical content of a [`Element`].
pub struct ElementModel {
    pub kind: Seq<char>,
    pub id: Seq<char>,
    pub version: Option<Seq<char>>,
    pub name: Seq<char>,
    pub offset: Option<Seq<char>>,
    pub size: Option<Seq<char>>,
    pub links: Option<Seq<LinkModel>>,
    pub children: Option<Seq<Seq<char>>>,
    pub url: Option<Seq<char>>,
    pub desc: Option<Seq<char>>,
    pub fields: Option<Seq<FieldModel>>,
    pub doc: Option<Seq<char>>,
    pub data_width: Option<i32>,
    pub default_reset: Option<Seq<char>>,
}

impl DeepView for Element {
    type V = ElementModel;

    open spec fn deep_view(&self) -> ElementModel {
        ElementModel {
            kind: self.kind@,
            id: self.id@,
            version: self.version.deep_view(),
            name: self.name@,
            offset: self.offset.deep_view(),
            size: self.size.deep_view(),
            links: self.links.deep_view(),
            children: self.children.deep_view(),
            url: self.url.deep_view(),
            desc: self.desc.deep_view(),
            fields: self.fields.deep_view(),
            doc: self.doc.deep_view(),
            data_width: self.data_width,
            default_reset: self.default_reset.deep_view(),
        }
    }
}

impl View for Element {
    type V = ElementModel;

    open spec fn view(&self) -> ElementModel {
        self.deep_view()
    }
}

/// A register description: schema, entry point, and the elements, of which no two share an identifier.
#[derive(Debug)]
pub struct Document {
    pub schema: Schema,
    pub root: Root,
    pub elements: Vec<Element>,
}

/// The mathematical content of a [`Document`].
pub struct DocumentModel {
    pub schema: SchemaModel,
    pub root: RootModel,
    pub elements: Seq<ElementModel>,
}

impl DeepView for Document {
    type V = DocumentModel;

    open spec fn deep_view(&self) -> DocumentModel {
        DocumentModel {
            schema: self.schema.deep_view(),
            root: self.root.deep_view(),
            elements: self.elements.deep_view(),
        }
    }
}

impl View for Document {
    type V = DocumentModel;

    open spec fn view(&self) -> DocumentModel {
        self.deep_view()
    }
}

/// The field of the description for a field of the register map: the low
/// bit and the number of bits are read as signed decimal numbers, and the
/// access is the attribute code in small letters. A field whose bit
/// position or width denotes no number is refused, the position first.
pub open spec fn field_entry(f: base::FieldModel) -> Result<FieldModel, crate::error::ErrorModel> {
    match decimal_i32(f.offset) {
        None => Err(crate::error::ErrorModel::ParseInt(f.offset)),
        Some(lsb) => match decimal_i32(f.width) {
            None => Err(crate::error::ErrorModel::ParseInt(f.width)),
            Some(nbits) => Ok(
                FieldModel {
                    name: f.name,
                    nbits: nbits,
                    lsb: lsb,
                    access: lower_text(f.attr),
                    reset: Some(f.reset),
                    doc: Some(f.desc),
                    values: None,
                    repr: None,
                    custom_decode: None,
                    custom_encode: None,
                },
            ),
        },
    }
}

/// What each field gives.
pub open spec fn field_entries(fields: Seq<base::FieldModel>) -> Seq<Result<FieldModel, crate::error::ErrorModel>> {
    Seq::new(fields.len(), |i: int| field_entry(fields[i]))
}

/// The identifier of a register: the name of its block, a dot, and its own
/// name.
pub open spec fn register_id(block: Seq<char>, reg: Seq<char>) -> Seq<char> {
    block + "."@ + reg
}

/// The element of a register, with every field of the register in its
/// order; or the first refusal among the fields.
pub open spec fn register_element(block: Seq<char>, r: base::RegisterModel) -> Result<
    ElementModel,
    crate::error::ErrorModel,
> {
    match all_or_first(field_entries(r.fields)) {
        Err(e) => Err(e),
        Ok(fields) => Ok(
            ElementModel {
                kind: "reg"@,
                id: register_id(block, r.name),
                version: None,
                name: r.name,
                offset: Some(r.offset),
                size: None,
                links: None,
                children: None,
                url: None,
                desc: None,
                fields: Some(fields),
                doc: None,
                data_width: None,
                default_reset: None,
            },
        ),
    }
}

/// What each register of a block gives.
pub open spec fn register_elements(block: Seq<char>, regs: Seq<base::RegisterModel>) -> Seq<
    Result<ElementModel, crate::error::ErrorModel>,
> {
    Seq::new(regs.len(), |i: int| register_element(block, regs[i]))
}

/// The identifiers of the registers of a block, in their order.
pub open spec fn register_ids(block: Seq<char>, regs: Seq<base::RegisterModel>) -> Seq<Seq<char>> {
    Seq::new(regs.len(), |i: int| register_id(block, regs[i].name))
}

/// The element of a block: it goes by the name of the block and lists the
/// identifiers of its registers.
pub open spec fn block_element(b: base::BlockModel) -> ElementModel {
    ElementModel {
        kind: "blk"@,
        id: b.name,
        version: None,
        name: b.name,
        offset: None,
        size: None,
        links: None,
        children: Some(register_ids(b.name, b.regs)),
        url: None,
        desc: None,
        fields: None,
        doc: None,
        data_width: None,
        default_reset: None,
    }
}

/// The elements that a block gives: its own, then those of its registers;
/// or the first refusal among the registers.
pub open spec fn block_part(b: base::BlockModel) -> Result<Seq<ElementModel>, crate::error::ErrorModel> {
    match all_or_first(register_elements(b.name, b.regs)) {
        Err(e) => Err(e),
        Ok(regs) => Ok(seq![block_element(b)] + regs),
    }
}

/// What each block gives.
pub open spec fn block_parts(blks: Seq<base::BlockModel>) -> Seq<Result<Seq<ElementModel>, crate::error::ErrorModel>> {
    Seq::new(blks.len(), |i: int| block_part(blks[i]))
}

/// The names of the blocks, in their order.
pub open spec fn block_names(blks: Seq<base::BlockModel>) -> Seq<Seq<char>> {
    Seq::new(blks.len(), |i: int| blks[i].name)
}

/// The first place from `from` on that holds an element with the given
/// identifier; the number of elements where there is none.
pub open spec fn place_of(s: Seq<ElementModel>, id: Seq<char>, from: int) -> int
    decreases s.len() - from,
{
    if from < 0 || from >= s.len() {
        s.len() as int
    } else if s[from].id == id {
        from
    } else {
        place_of(s, id, from + 1)
    }
}

/// A collection with one more element put in: it takes the place of the
/// element with its identifier, or the place after the last.
pub open spec fn put(s: Seq<ElementModel>, e: ElementModel) -> Seq<ElementModel> {
    let p = place_of(s, e.id, 0);
    if p < s.len() {
        s.update(p, e)
    } else {
        s.push(e)
    }
}

/// The collection that is left when the elements are put in one after the
/// other.
pub open spec fn settled(items: Seq<ElementModel>) -> Seq<ElementModel>
    decreases items.len(),
{
    if items.len() == 0 {
        Seq::empty()
    } else {
        put(settled(items.drop_last()), items.last())
    }
}

/// The version as the description writes it.
pub open spec fn version_text(version: Seq<char>) -> Seq<char> {
    "v"@ + version
}

/// The register description of a register map. The first field whose bit
/// position or width denotes no number makes the whole fail.
pub open spec fn document_of(c: base::ComponentModel) -> Result<DocumentModel, crate::error::ErrorModel> {
    match all_or_first(block_parts(c.blks)) {
        Err(e) => Err(e),
        Ok(parts) => Ok(
            DocumentModel {
                schema: SchemaModel { name: SCHEMA_NAME@, version: version_text(c.version) },
                root: RootModel {
                    desc: c.name,
                    version: Some(version_text(c.version)),
                    links: None,
                    doc: None,
                    children: block_names(c.blks),
                    expanded: None,
                    data_width: None,
                    default_reset: Some(DEFAULT_RESET@),
                },
                elements: settled(joined(parts)),
            },
        ),
    }
}

/// Where an identifier is found, an element with that identifier stands,
/// and none stands before it.
pub proof fn lemma_place_of(s: Seq<ElementModel>, id: Seq<char>, from: int)
    requires
        0 <= from <= s.len(),
    ensures
        from <= place_of(s, id, from) <= s.len(),
        place_of(s, id, from) < s.len() ==> s[place_of(s, id, from)].id == id,
        forall|k: int| from <= k < place_of(s, id, from) ==> (#[trigger] s[k]).id != id,
    decreases s.len() - from,
{
    if from < s.len() && s[from].id != id {
        lemma_place_of(s, id, from + 1);
    }
}

/// No two elements of a settled collection share an identifier, and every
/// identifier that was put in is found in it.
pub proof fn lemma_settled(items: Seq<ElementModel>)
    ensures
        forall|i: int, j: int|
            #![trigger settled(items)[i], settled(items)[j]]
            0 <= i < j < settled(items).len() ==> settled(items)[i].id != settled(items)[j].id,
        forall|k: int|
            0 <= k < items.len() ==> place_of(settled(items), (#[trigger] items[k]).id, 0) < settled(
                items,
            ).len(),
    decreases items.len(),
{
    if items.len() > 0 {
        let before = settled(items.drop_last());
        let e = items.last();
        let after = settled(items);
        let p = place_of(before, e.id, 0);
        lemma_settled(items.drop_last());
        lemma_place_of(before, e.id, 0);
        assert forall|i: int, j: int|
            #![trigger after[i], after[j]]
            0 <= i < j < after.len() implies after[i].id != after[j].id by {
            if p < before.len() {
                assert(after[i].id == before[i].id);
                assert(after[j].id == before[j].id);
            } else {
                if j < before.len() {
                    assert(after[i] == before[i]);
                    assert(after[j] == before[j]);
                } else {
                    assert(after[i] == before[i]);
                }
            }
        }
        assert forall|k: int| 0 <= k < items.len() implies place_of(
            after,
            (#[trigger] items[k]).id,
            0,
        ) < after.len() by {
            let id = items[k].id;
            lemma_place_of(after, id, 0);
            if k < items.len() - 1 {
                assert(items.drop_last()[k] == items[k]);
                let q = place_of(before, id, 0);
                lemma_place_of(before, id, 0);
                assert(after[q].id == id);
            } else {
                if p < before.len() {
                    assert(after[p].id == id);
                } else {
                    assert(after[before.len() as int].id == id);
                }
            }
        }
    }
}

impl Field {
    /// The field of the description for a field of the register map.
    pub fn of(f: &base::Field) -> (r: Result<Field, Error>)
        ensures
            match field_entry(f@) {
                Ok(x) => r matches Ok(y) && y@ == x,
                Err(e) => r matches Err(y) && y@ == e,
            },
    {
        let lsb = match parse_i32(f.offset()) {
            Some(n) => n,
            None => {
                return Err(Error::ParseInt(f.offset().to_owned()));
            },
        };
        let nbits = match parse_i32(f.width()) {
            Some(n) => n,
            None => {
                return Err(Error::ParseInt(f.width().to_owned()));
            },
        };
        Ok(
            Field {
                name: f.name().to_owned(),
                nbits,
                lsb,
                access: to_lower_text(f.attr()),
                reset: Some(f.reset().to_owned()),
                doc: Some(f.desc().to_owned()),
                values: None,
                repr: None,
                custom_decode: None,
                custom_encode: None,
            },
        )
    }
}

fn id_of_register(block: &str, reg: &str) -> (id: String)
    ensures
        id@ == register_id(block@, reg@),
{
    let mut id = block.to_owned();
    id.append(".");
    id.append(reg);
    id
}

impl Element {
    /// The element of a register of the block with the given name.
    pub fn of_register(block: &str, r: &base::Register) -> (out: Result<Element, Error>)
        ensures
            match register_element(block@, r@) {
                Ok(x) => out matches Ok(y) && y@ == x,
                Err(e) => out matches Err(y) && y@ == e,
            },
    {
        let fs = r.fields();
        let ghost m = fs.deep_view();
        let ghost items = field_entries(m);
        let mut fields: Vec<Field> = Vec::new();
        let mut i: usize = 0;
        assert(items.take(0) =~= Seq::<Result<FieldModel, crate::error::ErrorModel>>::empty());
        assert(fields.deep_view() =~= Seq::<FieldModel>::empty());
        while i < fs.len()
            invariant
                i <= fs.len(),
                m == fs.deep_view(),
                m == r@.fields,
                items == field_entries(m),
                all_or_first(items.take(i as int)) == Ok::<Seq<FieldModel>, crate::error::ErrorModel>(
                    fields.deep_view(),
                ),
            decreases fs.len() - i,
        {
            proof {
                lemma_all_or_first_step(items, i as int);
                assert(m[i as int] == fs@[i as int]@);
            }
            match Field::of(&fs[i]) {
                Ok(x) => {
                    let ghost before = fields.deep_view();
                    fields.push(x);
                    assert(fields.deep_view() =~= before.push(x@));
                },
                Err(e) => {
                    proof {
                        lemma_failure_stays(items, i + 1);
                    }
                    return Err(e);
                },
            }
            i += 1;
        }
        assert(items.take(i as int) =~= items);
        Ok(
            Element {
                kind: "reg".to_owned(),
                id: id_of_register(block, r.name()),
                version: None,
                name: r.name().to_owned(),
                offset: Some(r.offset().to_owned()),
                size: None,
                links: None,
                children: None,
                url: None,
                desc: None,
                fields: Some(fields),
                doc: None,
                data_width: None,
                default_reset: None,
            },
        )
    }

    /// The element of a block.
    pub fn of_block(b: &base::Block) -> (out: Element)
        ensures
            out@ == block_element(b@),
    {
        let regs = b.regs();
        let mut children: Vec<String> = Vec::new();
        let mut i: usize = 0;
        while i < regs.len()
            invariant
                i <= regs.len(),
                regs.deep_view() == b@.regs,
                children.len() == i,
                forall|k: int|
                    0 <= k < i ==> (#[trigger] children@[k])@ == register_id(b@.name, b@.regs[k].name),
            decreases regs.len() - i,
        {
            assert(regs.deep_view()[i as int] == regs@[i as int]@);
            children.push(id_of_register(b.name(), regs[i].name()));
            i += 1;
        }
        assert(children.deep_view() =~= register_ids(b@.name, b@.regs));
        Element {
            kind: "blk".to_owned(),
            id: b.name().to_owned(),
            version: None,
            name: b.name().to_owned(),
            offset: None,
            size: None,
            links: None,
            children: Some(children),
            url: None,
            desc: None,
            fields: None,
            doc: None,
            data_width: None,
            default_reset: None,
        }
    }
}

/// Puts an element into a collection: in the place of the element with its
/// identifier, or after the last.
pub fn put_element(elements: &mut Vec<Element>, e: Element)
    ensures
        final(elements).deep_view() == put(old(elements).deep_view(), e@),
{
    let ghost before = elements.deep_view();
    let mut i: usize = 0;
    while i < elements.len()
        invariant
            i <= elements.len(),
            elements.deep_view() == before,
            before == old(elements).deep_view(),
            place_of(before, e@.id, 0) == place_of(before, e@.id, i as int),
        decreases elements.len() - i,
    {
        assert(before[i as int] == elements@[i as int]@);
        if same_text(elements[i].id.as_str(), e.id.as_str()) {
            assert(before[i as int].id == e@.id);
            assert(place_of(before, e@.id, i as int) == i);
            assert(before.len() == elements.len());
            elements.set(i, e);
            assert(elements.deep_view() =~= before.update(i as int, e@));
            return ;
        }
        i += 1;
    }
    elements.push(e);
    assert(elements.deep_view() =~= before.push(e@));
}

impl Document {
    /// The register description of a register map.
    pub fn try_from(base: &base::Component) -> (out: Result<Document, Error>)
        ensures
            match document_of(base@) {
                Ok(x) => out matches Ok(y) && y@ == x,
                Err(e) => out matches Err(y) && y@ == e,
            },
    {
        let blks = base.blks();
        let ghost m = blks.deep_view();
        let ghost items = block_parts(m);
        let mut elements: Vec<Element> = Vec::new();
        let mut children: Vec<String> = Vec::new();
        let mut b: usize = 0;
        proof {
            assert(items.take(0) =~= Seq::<Result<Seq<ElementModel>, crate::error::ErrorModel>>::empty());
            assert(elements.deep_view() =~= Seq::<ElementModel>::empty());
        }
        while b < blks.len()
            invariant
                b <= blks.len(),
                m == blks.deep_view(),
                m == base@.blks,
                items == block_parts(m),
                all_or_first(items.take(b as int)) is Ok,
                elements.deep_view() == settled(joined(all_or_first(items.take(b as int))->Ok_0)),
                children.len() == b,
                forall|k: int| 0 <= k < b ==> (#[trigger] children@[k])@ == m[k].name,
            decreases blks.len() - b,
        {
            let blk = &blks[b];
            proof {
                lemma_all_or_first_step(items, b as int);
                assert(m[b as int] == blks@[b as int]@);
            }
            let ghost pre = joined(all_or_first(items.take(b as int))->Ok_0);
            let ghost head = block_element(blk@);
            let ghost reg_items = register_elements(blk@.name, blk@.regs);
            children.push(blk.name().to_owned());
            put_element(&mut elements, Element::of_block(blk));
            let regs = blk.regs();
            let mut r: usize = 0;
            proof {
                assert(reg_items.take(0) =~= Seq::<Result<ElementModel, crate::error::ErrorModel>>::empty());
                assert((pre + seq![head]).drop_last() =~= pre);
                assert(pre + seq![head] + Seq::<ElementModel>::empty() =~= pre + seq![head]);
            }
            while r < regs.len()
                invariant
                    r <= regs.len(),
                    b < blks.len(),
                    m == blks.deep_view(),
                    m == base@.blks,
                    items == block_parts(m),
                    blk@ == m[b as int],
                    regs.deep_view() == blk@.regs,
                    reg_items == register_elements(blk@.name, blk@.regs),
                    head == block_element(blk@),
                    all_or_first(items.take(b as int)) is Ok,
                    all_or_first(reg_items.take(r as int)) is Ok,
                    elements.deep_view() == settled(
                        pre + seq![head] + all_or_first(reg_items.take(r as int))->Ok_0,
                    ),
                decreases regs.len() - r,
            {
                proof {
                    lemma_all_or_first_step(reg_items, r as int);
                    assert(regs.deep_view()[r as int] == regs@[r as int]@);
                }
                match Element::of_register(blk.name(), &regs[r]) {
                    Ok(e) => {
                        proof {
                            let so_far = all_or_first(reg_items.take(r as int))->Ok_0;
                            let all = pre + seq![head] + so_far.push(e@);
                            assert(all.drop_last() =~= pre + seq![head] + so_far);
                            assert(all.last() == e@);
                        }
                        put_element(&mut elements, e);
                    },
                    Err(e) => {
                        proof {
                            lemma_failure_stays(reg_items, r + 1);
                            lemma_all_or_first_step(items, b as int);
                            lemma_failure_stays(items, b + 1);
                        }
                        return Err(e);
                    },
                }
                r += 1;
            }
            proof {
                assert(reg_items.take(r as int) =~= reg_items);
                let parts = all_or_first(items.take(b as int))->Ok_0;
                let next = all_or_first(items.take(b + 1))->Ok_0;
                let part = block_part(m[b as int])->Ok_0;
                assert(next == parts.push(part));
                assert(next.take(parts.len() as int) =~= parts);
                assert(next.take(next.len() as int) =~= next);
                lemma_joined_step(next, parts.len() as int);
                assert(pre + seq![head] + all_or_first(reg_items)->Ok_0 =~= pre + part);
            }
            b += 1;
        }
        proof {
            assert(items.take(b as int) =~= items);
            assert(children.deep_view() =~= block_names(m));
        }
        let mut version = "v".to_owned();
        version.append(base.version());
        let mut root_version = "v".to_owned();
        root_version.append(base.version());
        Ok(
            Document {
                schema: Schema { name: SCHEMA_NAME.to_owned(), version },
                root: Root {
                    desc: base.name().to_owned(),
                    version: Some(root_version),
                    links: None,
                    doc: None,
                    children,
                    expanded: None,
                    data_width: None,
                    default_reset: Some(DEFAULT_RESET.to_owned()),
                },
                elements,
            },
        )
    }
}

} // verus!
