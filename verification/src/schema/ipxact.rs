//! The component description: a tree of component, memory maps, address
//! blocks, registers and fields, and how it is made of a register map.

use crate::error::Error;
use crate::outcome::{
    all_or_first, joined, lemma_all_or_first_step, lemma_failure_stays, lemma_joined_step,
};
use crate::pattern::{accepts, compile, expression_of, has_match, is_match};
use crate::schema::attr::{
    access_value, extract_access_value, extract_modified_write_value, extract_read_action_value,
    modified_write_value, read_action_value,
};
use crate::schema::base;
use regex::Regex;
use vstd::prelude::*;

verus! {

/// The name space of the component description.
pub const IEEE1685_2014_NS: &'static str = "http://www.accellera.org/XMLSchema/IPXACT/1685-2014";

/// The name space of schema instances.
pub const XSI_NS: &'static str = "http://www.w3.org/2001/XMLSchema-instance";

/// Where the schema of the component description is found.
pub const SCHEMA_LOCATION: &'static str =
    "http://www.accellera.org/XMLSchema/IPXACT/1685-2014 http://www.accellera.org/XMLSchema/IPXACT/1685-2014/index.xsd";

/// The names of fields that only fill space: `rsvd` or `reserved`, in any
/// case of the letters, and digits after it.
pub const RESERVED: &'static str = "(?i)^(rsvd|reserved)\\d*$";

/// The value of a field after reset.
#[derive(Debug)]
pub struct Reset {
    pub value: String,
}

/// The mathematical content of a [`Reset`].
pub struct ResetModel {
    pub value: Seq<char>,
}

impl DeepView for Reset {
    type V = ResetModel;

    open spec fn deep_view(&self) -> ResetModel {
        ResetModel {
            value: self.value@,
        }
    }
}

impl View for Reset {
    type V = ResetModel;

    open spec fn view(&self) -> ResetModel {
        self.deep_view()
    }
}

/// The reset values of a field.
#[derive(Debug)]
pub struct Resets {
    pub reset: Vec<Reset>,
}

/// The mathematical content of a [`Resets`].
pub struct ResetsModel {
    pub reset: Seq<ResetModel>,
}

impl DeepView for Resets {
    type V = ResetsModel;

    open spec fn deep_view(&self) -> ResetsModel {
        ResetsModel {
            reset: self.reset.deep_view(),
        }
    }
}

impl View for Resets {
    type V = ResetsModel;

    open spec fn view(&self) -> ResetsModel {
        self.deep_view()
    }
}

/// A bit field of a register.
#[derive(Debug)]
pub struct Field {
    pub name: String,
    pub description: Option<String>,
    pub bit_offset: String,
    pub bit_width: String,
    pub access: String,
    pub modified_write_value: Option<String>,
    pub read_action: Option<String>,
    pub resets: Resets,
}

/// The mathematical content of a [`Field`].
pub struct FieldModel {
    pub name: Seq<char>,
    pub description: Option<Seq<char>>,
    pub bit_offset: Seq<char>,
    pub bit_width: Seq<char>,
    pub access: Seq<char>,
    pub modified_write_value: Option<Seq<char>>,
    pub read_action: Option<Seq<char>>,
    pub resets: ResetsModel,
}

impl DeepView for Field {
    type V = FieldModel;

    open spec fn deep_view(&self) -> FieldModel {
        FieldModel {
            name: self.name@,
            description: self.description.deep_view(),
            bit_offset: self.bit_offset@,
            bit_width: self.bit_width@,
            access: self.access@,
            modified_write_value: self.modified_write_value.deep_view(),
            read_action: self.read_action.deep_view(),
            resets: self.resets.deep_view(),
        }
    }
}

impl View for Field {
    type V = FieldModel;

    open spec fn view(&self) -> FieldModel {
        self.deep_view()
    }
}

/// A register of an address block.
#[derive(Debug)]
pub struct Register {
    pub name: String,
    pub description: Option<String>,
    pub address_offset: String,
    pub size: String,
    pub field: Vec<Field>,
}

/// The mathematical content of a [`Register`].
pub struct RegisterModel {
    pub name: Seq<char>,
    pub description: Option<Seq<char>>,
    pub address_offset: Seq<char>,
    pub size: Seq<char>,
    pub field: Seq<FieldModel>,
}

impl DeepView for Register {
    type V = RegisterModel;

    open spec fn deep_view(&self) -> RegisterModel {
        RegisterModel {
            name: self.name@,
            description: self.description.deep_view(),
            address_offset: self.address_offset@,
            size: self.size@,
            field: self.field.deep_view(),
        }
    }
}

impl View for Register {
    type V = RegisterModel;

    open spec fn view(&self) -> RegisterModel {
        self.deep_view()
    }
}

/// An address block of a memory map.
#[derive(Debug)]
pub struct Block {
    pub name: String,
    pub description: Option<String>,
    pub base_address: String,
    pub range: String,
    pub width: String,
    pub register: Vec<Register>,
}

/// The mathematical content of a [`Block`].
pub struct BlockModel {
    pub name: Seq<char>,
    pub description: Option<Seq<char>>,
    pub base_address: Seq<char>,
    pub range: Seq<char>,
    pub width: Seq<char>,
    pub register: Seq<RegisterModel>,
}

impl DeepView for Block {
    type V = BlockModel;

    open spec fn deep_view(&self) -> BlockModel {
        BlockModel {
            name: self.name@,
            description: self.description.deep_view(),
            base_address: self.base_address@,
            range: self.range@,
            width: self.width@,
            register: self.register.deep_view(),
        }
    }
}

impl View for Block {
    type V = BlockModel;

    open spec fn view(&self) -> BlockModel {
        self.deep_view()
    }
}

/// A memory map of a component.
#[derive(Debug)]
pub struct MemoryMap {
    pub name: String,
    pub address_block: Vec<Block>,
}

/// The mathematical content of a [`MemoryMap`].
pub struct MemoryMapModel {
    pub name: Seq<char>,
    pub address_block: Seq<BlockModel>,
}

impl DeepView for MemoryMap {
    type V = MemoryMapModel;

    open spec fn deep_view(&self) -> MemoryMapModel {
        MemoryMapModel {
            name: self.name@,
            address_block: self.address_block.deep_view(),
        }
    }
}

impl View for MemoryMap {
    type V = MemoryMapModel;

    open spec fn view(&self) -> MemoryMapModel {
        self.deep_view()
    }
}

/// The memory maps of a component.
#[derive(Debug)]
pub struct MemoryMaps {
    pub memory_map: Vec<MemoryMap>,
}

/// The mathematical content of a [`MemoryMaps`].
pub struct MemoryMapsModel {
    pub memory_map: Seq<MemoryMapModel>,
}

impl DeepView for MemoryMaps {
    type V = MemoryMapsModel;

    open spec fn deep_view(&self) -> MemoryMapsModel {
        MemoryMapsModel {
            memory_map: self.memory_map.deep_view(),
        }
    }
}

impl View for MemoryMaps {
    type V = MemoryMapsModel;

    open spec fn view(&self) -> MemoryMapsModel {
        self.deep_view()
    }
}

/// The root of a component description.
#[derive(Debug)]
pub struct Component {
    pub xmlns_ipxact: String,
    pub xmlns_xsi: String,
    pub schema_location: String,
    pub vendor: String,
    pub library: String,
    pub name: String,
    pub version: String,
    pub memory_maps: MemoryMaps,
}

/// The mathematical content of a [`Component`].
pub struct ComponentModel {
    pub xmlns_ipxact: Seq<char>,
    pub xmlns_xsi: Seq<char>,
    pub schema_location: Seq<char>,
    pub vendor: Seq<char>,
    pub library: Seq<char>,
    pub name: Seq<char>,
    pub version: Seq<char>,
    pub memory_maps: MemoryMapsModel,
}

impl DeepView for Component {
    type V = ComponentModel;

    open spec fn deep_view(&self) -> ComponentModel {
        ComponentModel {
            xmlns_ipxact: self.xmlns_ipxact@,
            xmlns_xsi: self.xmlns_xsi@,
            schema_location: self.schema_location@,
            vendor: self.vendor@,
            library: self.library@,
            name: self.name@,
            version: self.version@,
            memory_maps: self.memory_maps.deep_view(),
        }
    }
}

impl View for Component {
    type V = ComponentModel;

    open spec fn view(&self) -> ComponentModel {
        self.deep_view()
    }
}

/// Whether a field only fills space, going by its name.
pub open spec fn is_reserved(name: Seq<char>) -> bool {
    has_match(RESERVED@, name)
}

/// The field of the component description for a field of the register map:
/// its attribute code is replaced by what the code says about access, about
/// writes and about reads. A field whose attribute is no code is refused.
pub open spec fn field_out(f: base::FieldModel) -> Result<FieldModel, crate::error::ErrorModel> {
    match access_value(f.attr) {
        None => Err(crate::error::ErrorModel::NotFound(f.attr)),
        Some(access) => Ok(
            FieldModel {
                name: f.name,
                description: Some(f.desc),
                bit_offset: f.offset,
                bit_width: f.width,
                access: access,
                modified_write_value: modified_write_value(f.attr)->0,
                read_action: read_action_value(f.attr)->0,
                resets: ResetsModel { reset: seq![ResetModel { value: f.reset }] },
            },
        ),
    }
}

/// What a field of the register map adds to its register in the component
/// description: nothing if it only fills space, else its field.
pub open spec fn field_part(f: base::FieldModel) -> Result<Seq<FieldModel>, crate::error::ErrorModel> {
    if is_reserved(f.name) {
        Ok(Seq::empty())
    } else {
        match field_out(f) {
            Ok(x) => Ok(seq![x]),
            Err(e) => Err(e),
        }
    }
}

/// What each field adds.
pub open spec fn field_parts(fields: Seq<base::FieldModel>) -> Seq<Result<Seq<FieldModel>, crate::error::ErrorModel>> {
    Seq::new(fields.len(), |i: int| field_part(fields[i]))
}

/// The fields of a register in the component description: those that do
/// not only fill space, in their order; or the first refusal among them.
pub open spec fn fields_out(fields: Seq<base::FieldModel>) -> Result<Seq<FieldModel>, crate::error::ErrorModel> {
    match all_or_first(field_parts(fields)) {
        Ok(parts) => Ok(joined(parts)),
        Err(e) => Err(e),
    }
}

/// The register of the component description for a register of the
/// register map.
pub open spec fn register_out(r: base::RegisterModel) -> Result<RegisterModel, crate::error::ErrorModel> {
    match fields_out(r.fields) {
        Ok(fields) => Ok(
            RegisterModel {
                name: r.name,
                description: None,
                address_offset: r.offset,
                size: r.size,
                field: fields,
            },
        ),
        Err(e) => Err(e),
    }
}

/// What each register gives.
pub open spec fn register_items(regs: Seq<base::RegisterModel>) -> Seq<Result<RegisterModel, crate::error::ErrorModel>> {
    Seq::new(regs.len(), |i: int| register_out(regs[i]))
}

/// The address block of the component description for a block of the
/// register map.
pub open spec fn block_out(b: base::BlockModel) -> Result<BlockModel, crate::error::ErrorModel> {
    match all_or_first(register_items(b.regs)) {
        Ok(regs) => Ok(
            BlockModel {
                name: b.name,
                description: None,
                base_address: b.offset,
                range: b.range,
                width: b.size,
                register: regs,
            },
        ),
        Err(e) => Err(e),
    }
}

/// What each block gives.
pub open spec fn block_items(blks: Seq<base::BlockModel>) -> Seq<Result<BlockModel, crate::error::ErrorModel>> {
    Seq::new(blks.len(), |i: int| block_out(blks[i]))
}

/// The component description of a register map: one memory map, named as
/// the component, with the blocks, registers and fields of the register map
/// in their order, without the fields that only fill space. The first field
/// whose attribute is no code makes the whole fail.
pub open spec fn component_out(c: base::ComponentModel) -> Result<ComponentModel, crate::error::ErrorModel> {
    match all_or_first(block_items(c.blks)) {
        Ok(blocks) => Ok(
            ComponentModel {
                xmlns_ipxact: IEEE1685_2014_NS@,
                xmlns_xsi: XSI_NS@,
                schema_location: SCHEMA_LOCATION@,
                vendor: c.vendor,
                library: c.library,
                name: c.name,
                version: c.version,
                memory_maps: MemoryMapsModel {
                    memory_map: seq![MemoryMapModel { name: c.name, address_block: blocks }],
                },
            },
        ),
        Err(e) => Err(e),
    }
}

/// The expression for the names of fields that only fill space, compiled.
pub struct ReservedNames {
    re: Regex,
}

impl ReservedNames {
    #[verifier::type_invariant]
    spec fn valid(&self) -> bool {
        expression_of(self.re) == RESERVED@
    }

    /// Compiles the expression.
    pub fn new() -> (r: Result<ReservedNames, Error>)
        ensures
            r is Ok <==> accepts(RESERVED@),
            r matches Err(e) ==> e@ == crate::error::ErrorModel::Regex,
    {
        match compile(RESERVED) {
            Ok(re) => Ok(ReservedNames { re }),
            Err(e) => Err(Error::Regex(e)),
        }
    }

    /// Whether a field of the given name only fills space.
    pub fn holds(&self, name: &str) -> (b: bool)
        ensures
            b == is_reserved(name@),
    {
        proof {
            use_type_invariant(self);
        }
        is_match(&self.re, name)
    }
}

impl Field {
    /// The field of the component description for a field of the register
    /// map.
    pub fn of(f: &base::Field) -> (r: Result<Field, Error>)
        ensures
            match field_out(f@) {
                Ok(x) => r matches Ok(y) && y@ == x,
                Err(e) => r matches Err(y) && y@ == e,
            },
    {
        proof {
            crate::schema::attr::lemma_decoders_agree(f@.attr);
        }
        let access = match extract_access_value(f.attr()) {
            Ok(a) => a,
            Err(e) => {
                return Err(e);
            },
        };
        let modified_write_value = match extract_modified_write_value(f.attr()) {
            Ok(a) => a,
            Err(e) => {
                return Err(e);
            },
        };
        let read_action = match extract_read_action_value(f.attr()) {
            Ok(a) => a,
            Err(e) => {
                return Err(e);
            },
        };
        let mut reset: Vec<Reset> = Vec::new();
        reset.push(Reset { value: f.reset().to_owned() });
        assert(reset.deep_view() =~= seq![ResetModel { value: f@.reset }]);
        Ok(
            Field {
                name: f.name().to_owned(),
                description: Some(f.desc().to_owned()),
                bit_offset: f.offset().to_owned(),
                bit_width: f.width().to_owned(),
                access,
                modified_write_value,
                read_action,
                resets: Resets { reset },
            },
        )
    }
}

fn fields_from(fields: &Vec<base::Field>, reserved: &ReservedNames) -> (r: Result<Vec<Field>, Error>)
    ensures
        match fields_out(fields.deep_view()) {
            Ok(x) => r matches Ok(y) && y.deep_view() == x,
            Err(e) => r matches Err(y) && y@ == e,
        },
{
    let ghost m = fields.deep_view();
    let ghost items = field_parts(m);
    let mut out: Vec<Field> = Vec::new();
    let mut i: usize = 0;
    assert(items.take(0) =~= Seq::<Result<Seq<FieldModel>, crate::error::ErrorModel>>::empty());
    assert(out.deep_view() =~= Seq::<FieldModel>::empty());
    while i < fields.len()
        invariant
            i <= fields.len(),
            m == fields.deep_view(),
            items == field_parts(m),
            all_or_first(items.take(i as int)) is Ok,
            out.deep_view() == joined(all_or_first(items.take(i as int))->Ok_0),
        decreases fields.len() - i,
    {
        proof {
            lemma_all_or_first_step(items, i as int);
            assert(m[i as int] == fields@[i as int]@);
        }
        let ghost before = out.deep_view();
        if !reserved.holds(fields[i].name()) {
            match Field::of(&fields[i]) {
                Ok(f) => {
                    out.push(f);
                    assert(out.deep_view() =~= before + seq![f@]);
                },
                Err(e) => {
                    proof {
                        lemma_failure_stays(items, i + 1);
                    }
                    return Err(e);
                },
            }
        } else {
            assert(out.deep_view() =~= before + Seq::<FieldModel>::empty());
        }
        proof {
            let parts = all_or_first(items.take(i as int))->Ok_0;
            let next = all_or_first(items.take(i + 1))->Ok_0;
            let part = field_part(m[i as int])->Ok_0;
            assert(next == parts.push(part));
            assert(next.take(parts.len() as int) =~= parts);
            assert(next.take(next.len() as int) =~= next);
            lemma_joined_step(next, parts.len() as int);
        }
        i += 1;
    }
    assert(items.take(i as int) =~= items);
    Ok(out)
}

fn register_from(r: &base::Register, reserved: &ReservedNames) -> (out: Result<Register, Error>)
    ensures
        match register_out(r@) {
            Ok(x) => out matches Ok(y) && y@ == x,
            Err(e) => out matches Err(y) && y@ == e,
        },
{
    match fields_from(r.fields(), reserved) {
        Ok(field) => Ok(
            Register {
                name: r.name().to_owned(),
                description: None,
                address_offset: r.offset().to_owned(),
                size: r.size().to_owned(),
                field,
            },
        ),
        Err(e) => Err(e),
    }
}

fn block_from(b: &base::Block, reserved: &ReservedNames) -> (out: Result<Block, Error>)
    ensures
        match block_out(b@) {
            Ok(x) => out matches Ok(y) && y@ == x,
            Err(e) => out matches Err(y) && y@ == e,
        },
{
    let regs = b.regs();
    let ghost m = regs.deep_view();
    let ghost items = register_items(m);
    let mut register: Vec<Register> = Vec::new();
    let mut i: usize = 0;
    assert(items.take(0) =~= Seq::<Result<RegisterModel, crate::error::ErrorModel>>::empty());
    assert(register.deep_view() =~= Seq::<RegisterModel>::empty());
    while i < regs.len()
        invariant
            i <= regs.len(),
            m == regs.deep_view(),
            m == b@.regs,
            items == register_items(m),
            all_or_first(items.take(i as int)) == Ok::<Seq<RegisterModel>, crate::error::ErrorModel>(
                register.deep_view(),
            ),
        decreases regs.len() - i,
    {
        proof {
            lemma_all_or_first_step(items, i as int);
            assert(m[i as int] == regs@[i as int]@);
        }
        match register_from(&regs[i], reserved) {
            Ok(x) => {
                let ghost before = register.deep_view();
                register.push(x);
                assert(register.deep_view() =~= before.push(x@));
            },
            Err(e) => {
                proof {
                    lemma_failure_stays(items, i + 1);
                }
                return Err(e);
            },
        }
        i += 1;
    }
    assert(items.take(i as int) =~= items);
    Ok(
        Block {
            name: b.name().to_owned(),
            description: None,
            base_address: b.offset().to_owned(),
            range: b.range().to_owned(),
            width: b.size().to_owned(),
            register,
        },
    )
}

impl Component {
    /// The component description of a register map, with an expression for
    /// the names of space-filling fields that is already compiled.
    pub fn of(c: &base::Component, reserved: &ReservedNames) -> (out: Result<Component, Error>)
        ensures
            match component_out(c@) {
                Ok(x) => out matches Ok(y) && y@ == x,
                Err(e) => out matches Err(y) && y@ == e,
            },
    {
        let blks = c.blks();
        let ghost m = blks.deep_view();
        let ghost items = block_items(m);
        let mut address_block: Vec<Block> = Vec::new();
        let mut i: usize = 0;
        assert(items.take(0) =~= Seq::<Result<BlockModel, crate::error::ErrorModel>>::empty());
        assert(address_block.deep_view() =~= Seq::<BlockModel>::empty());
        while i < blks.len()
            invariant
                i <= blks.len(),
                m == blks.deep_view(),
                m == c@.blks,
                items == block_items(m),
                all_or_first(items.take(i as int)) == Ok::<Seq<BlockModel>, crate::error::ErrorModel>(
                    address_block.deep_view(),
                ),
            decreases blks.len() - i,
        {
            proof {
                lemma_all_or_first_step(items, i as int);
                assert(m[i as int] == blks@[i as int]@);
            }
            match block_from(&blks[i], reserved) {
                Ok(x) => {
                    let ghost before = address_block.deep_view();
                    address_block.push(x);
                    assert(address_block.deep_view() =~= before.push(x@));
                },
                Err(e) => {
                    proof {
                        lemma_failure_stays(items, i + 1);
                    }
                    return Err(e);
                },
            }
            i += 1;
        }
        assert(items.take(i as int) =~= items);
        let mut memory_map: Vec<MemoryMap> = Vec::new();
        let map = MemoryMap { name: c.name().to_owned(), address_block };
        memory_map.push(map);
        assert(memory_map.deep_view() =~= seq![map@]);
        Ok(
            Component {
                xmlns_ipxact: IEEE1685_2014_NS.to_owned(),
                xmlns_xsi: XSI_NS.to_owned(),
                schema_location: SCHEMA_LOCATION.to_owned(),
                vendor: c.vendor().to_owned(),
                library: c.library().to_owned(),
                name: c.name().to_owned(),
                version: c.version().to_owned(),
                memory_maps: MemoryMaps { memory_map },
            },
        )
    }

    /// The component description of a register map. Fails before anything
    /// is made if the expression compiler refuses the expression for the
    /// names of space-filling fields.
    pub fn try_from(base: &base::Component) -> (out: Result<Component, Error>)
        ensures
            !accepts(RESERVED@) ==> (out matches Err(e) && e@ == crate::error::ErrorModel::Regex),
            accepts(RESERVED@) ==> match component_out(base@) {
                Ok(x) => out matches Ok(y) && y@ == x,
                Err(e) => out matches Err(y) && y@ == e,
            },
    {
        let reserved = match ReservedNames::new() {
            Ok(r) => r,
            Err(e) => {
                return Err(e);
            },
        };
        Component::of(base, &reserved)
    }
}

} // verus!
