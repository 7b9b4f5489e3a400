use regmap::assemble::{assemble, blocks_of_workbook, registers_of_block, NamedSheet, Workbook};
use regmap::error::Error;
use regmap::excel::{Column, Sheet, Table};
use regmap::parser::expand::FieldRow;
use regmap::parser::group::RegisterGroup;
use regmap::schema::base::{
    df_to_blks, df_to_compo, df_to_regs, lookup_tag, Block, Component, Field, Register,
};
use regmap::schema::ipxact;
use regmap::schema::regvue;

fn cell(s: &str) -> Option<String> {
    if s.is_empty() {
        None
    } else {
        Some(s.to_string())
    }
}

fn sheet(name: &str, rows: &[&[&str]]) -> NamedSheet {
    NamedSheet {
        name: name.to_string(),
        sheet: Sheet { rows: rows.iter().map(|r| r.iter().map(|c| cell(c)).collect()).collect() },
    }
}

fn table(rows: &[&[&str]]) -> Table {
    sheet("", rows).sheet.to_data_frame().unwrap()
}

fn field(name: &str, offset: &str, width: &str, attr: &str) -> Field {
    Field::new(
        name.to_string(),
        offset.to_string(),
        width.to_string(),
        attr.to_string(),
        "0x0".to_string(),
        format!("about {}", name),
    )
}

fn component(fields: Vec<Field>) -> Component {
    let reg = Register::new("reg0".to_string(), "0x0".to_string(), "32".to_string(), fields);
    let block = Block::new(
        "block0".to_string(),
        "0x1000".to_string(),
        "0x100".to_string(),
        "32".to_string(),
        vec![reg],
    );
    Component::new(
        "acme".to_string(),
        "chips".to_string(),
        "uart".to_string(),
        "1.2".to_string(),
        vec![block],
    )
}

fn version_sheet() -> NamedSheet {
    sheet(
        "version",
        &[&["TAG", "VALUE"], &["VENDOR", "acme"], &["LIBRARY", "chips"], &["NAME", "uart"], &["VERSION", "1.2"]],
    )
}

const HEAD: [&str; 8] = ["ADDR", "REG", "FIELD", "BIT", "WIDTH", "ATTRIBUTE", "DEFAULT", "DESCRIPTION"];

fn two_register_workbook() -> Workbook {
    let sheets = vec![
        version_sheet(),
        sheet("address_map", &[&["BLOCK", "OFFSET", "RANGE"], &["block0", "0x0", "0x100"]]),
        sheet(
            "block0",
            &[
                &HEAD,
                &["0x0", "reg0", "field0", "[31:0]", "32", "RW", "0x1234", "whole"],
                &["0x4", "reg1", "lane3", "[31:24]", "8", "RO", "0x0", ""],
                &["", "", "lane2", "[23:16]", "8", "RW", "0x0", ""],
                &["", "", "lane1", "[15:8]", "8", "RO", "0x0", ""],
                &["", "", "lane0", "[7:0]", "8", "RW", "0x0", ""],
            ],
        ),
    ];
    Workbook::from_sheets(&sheets).unwrap()
}

#[test]
fn end_to_end_one_block_two_registers() {
    let c = assemble(&two_register_workbook()).unwrap();
    assert_eq!(c.vendor(), "acme");
    assert_eq!(c.library(), "chips");
    assert_eq!(c.name(), "uart");
    assert_eq!(c.version(), "1.2");
    assert_eq!(c.blks().len(), 1);
    let b = &c.blks()[0];
    assert_eq!((b.name(), b.offset(), b.range(), b.size()), ("block0", "0x0", "0x100", "32"));
    assert_eq!(b.regs().len(), 2);
    let r0 = &b.regs()[0];
    assert_eq!((r0.name(), r0.offset(), r0.size()), ("reg0", "0x0", "32"));
    assert_eq!(r0.fields().len(), 1);
    let f = &r0.fields()[0];
    assert_eq!(
        (f.name(), f.offset(), f.width(), f.attr(), f.reset(), f.desc()),
        ("field0", "0", "32", "RW", "0x1234", "whole")
    );
    let r1 = &b.regs()[1];
    assert_eq!((r1.name(), r1.offset(), r1.size()), ("reg1", "0x4", "32"));
    let lanes: Vec<(&str, &str, &str)> =
        r1.fields().iter().map(|f| (f.name(), f.offset(), f.attr())).collect();
    assert_eq!(
        lanes,
        vec![("lane3", "24", "RO"), ("lane2", "16", "RW"), ("lane1", "8", "RO"), ("lane0", "0", "RW")]
    );
    assert_eq!(r1.fields()[1].desc(), "whole");

    let x = ipxact::Component::try_from(&c).unwrap();
    let regs = &x.memory_maps.memory_map[0].address_block[0].register;
    assert_eq!(regs.len(), 2);
    assert_eq!(regs[0].field.len(), 1);
    assert_eq!(regs[0].field[0].access, "read-write");
    assert_eq!(regs[0].field[0].modified_write_value, None);
    assert_eq!(regs[0].field[0].read_action, None);
    assert_eq!(regs[0].field[0].resets.reset.len(), 1);
    assert_eq!(regs[0].field[0].resets.reset[0].value, "0x1234");
    let access: Vec<&str> = regs[1].field.iter().map(|f| f.access.as_str()).collect();
    assert_eq!(access, vec!["read-only", "read-write", "read-only", "read-write"]);
    let names: Vec<&str> = regs[1].field.iter().map(|f| f.name.as_str()).collect();
    assert_eq!(names, vec!["lane3", "lane2", "lane1", "lane0"]);
}

#[test]
fn the_component_description_has_its_fixed_parts() {
    let x = ipxact::Component::try_from(&component(vec![field("f", "0", "1", "rw")])).unwrap();
    assert_eq!(x.xmlns_ipxact, "http://www.accellera.org/XMLSchema/IPXACT/1685-2014");
    assert_eq!(x.xmlns_xsi, "http://www.w3.org/2001/XMLSchema-instance");
    assert_eq!(
        x.schema_location,
        "http://www.accellera.org/XMLSchema/IPXACT/1685-2014 http://www.accellera.org/XMLSchema/IPXACT/1685-2014/index.xsd"
    );
    assert_eq!((x.vendor.as_str(), x.library.as_str()), ("acme", "chips"));
    assert_eq!((x.name.as_str(), x.version.as_str()), ("uart", "1.2"));
    assert_eq!(x.memory_maps.memory_map.len(), 1);
    let map = &x.memory_maps.memory_map[0];
    assert_eq!(map.name, "uart");
    let b = &map.address_block[0];
    assert_eq!(b.name, "block0");
    assert_eq!(b.description, None);
    assert_eq!(b.base_address, "0x1000");
    assert_eq!(b.range, "0x100");
    assert_eq!(b.width, "32");
    let r = &b.register[0];
    assert_eq!((r.name.as_str(), r.address_offset.as_str(), r.size.as_str()), ("reg0", "0x0", "32"));
    assert_eq!(r.description, None);
    let f = &r.field[0];
    assert_eq!((f.name.as_str(), f.bit_offset.as_str(), f.bit_width.as_str()), ("f", "0", "1"));
    assert_eq!(f.description.as_deref(), Some("about f"));
    assert_eq!(f.access, "read-write");
}

#[test]
fn space_filling_fields_are_left_out_of_the_component_description_only() {
    let c = component(vec![
        field("reserved", "24", "8", "RO"),
        field("ctrl", "16", "8", "W1C"),
        field("rsvd3", "8", "8", "RO"),
        field("RSVD", "4", "4", "RO"),
        field("Reserved12", "2", "2", "RO"),
        field("reserved_x", "1", "1", "RO"),
        field("unreserved", "0", "1", "RO"),
    ]);
    let x = ipxact::Component::try_from(&c).unwrap();
    let kept: Vec<&str> = x.memory_maps.memory_map[0].address_block[0].register[0]
        .field
        .iter()
        .map(|f| f.name.as_str())
        .collect();
    assert_eq!(kept, vec!["ctrl", "reserved_x", "unreserved"]);
    let d = regvue::Document::try_from(&c).unwrap();
    let reg = d.elements.iter().find(|e| e.id == "block0.reg0").unwrap();
    let shown: Vec<&str> = reg.fields.as_ref().unwrap().iter().map(|f| f.name.as_str()).collect();
    assert_eq!(
        shown,
        vec!["reserved", "ctrl", "rsvd3", "RSVD", "Reserved12", "reserved_x", "unreserved"]
    );
}

#[test]
fn the_names_of_space_fillers_are_recognised() {
    let r = ipxact::ReservedNames::new().unwrap();
    for name in ["reserved", "rsvd", "rsvd3", "reserved007", "RSVD", "Reserved1"] {
        assert!(r.holds(name), "{}", name);
    }
    for name in ["", "reserve", "rsvd_1", "xrsvd", "rsvd3a", "reserved ", "res"] {
        assert!(!r.holds(name), "{}", name);
    }
}

#[test]
fn a_space_filler_needs_no_attribute() {
    let c = component(vec![field("rsvd", "1", "1", "none"), field("f", "0", "1", "RO")]);
    assert!(ipxact::Component::try_from(&c).is_ok());
}

#[test]
fn an_unknown_attribute_makes_the_component_description_fail() {
    let c = component(vec![field("a", "1", "1", "RW"), field("b", "0", "1", "XX"), field("c", "0", "1", "YY")]);
    assert_eq!(ipxact::Component::try_from(&c).err(), Some(Error::NotFound("XX".to_string())));
    assert!(regvue::Document::try_from(&c).is_ok());
}

#[test]
fn the_register_description_is_a_flat_collection() {
    let c = assemble(&two_register_workbook()).unwrap();
    let d = regvue::Document::try_from(&c).unwrap();
    assert_eq!(d.schema.name, "register-description-format");
    assert_eq!(d.schema.version, "v1.2");
    assert_eq!(d.root.desc, "uart");
    assert_eq!(d.root.version.as_deref(), Some("v1.2"));
    assert_eq!(d.root.children, vec!["block0"]);
    assert_eq!(d.root.default_reset.as_deref(), Some("RS"));
    assert_eq!(d.root.links.is_none() && d.root.doc.is_none() && d.root.expanded.is_none(), true);
    assert_eq!(d.root.data_width, None);
    let ids: Vec<&str> = d.elements.iter().map(|e| e.id.as_str()).collect();
    assert_eq!(ids, vec!["block0", "block0.reg0", "block0.reg1"]);
    let b = &d.elements[0];
    assert_eq!((b.kind.as_str(), b.name.as_str()), ("blk", "block0"));
    assert_eq!(b.children.as_ref().unwrap(), &vec!["block0.reg0".to_string(), "block0.reg1".to_string()]);
    assert!(b.fields.is_none() && b.offset.is_none());
    let r = &d.elements[2];
    assert_eq!((r.kind.as_str(), r.name.as_str()), ("reg", "reg1"));
    assert_eq!(r.offset.as_deref(), Some("0x4"));
    assert!(r.children.is_none());
    let f = &r.fields.as_ref().unwrap()[0];
    assert_eq!((f.name.as_str(), f.lsb, f.nbits, f.access.as_str()), ("lane3", 24, 8, "ro"));
    assert_eq!(f.reset.as_deref(), Some("0x0"));
    assert_eq!(f.doc.as_deref(), Some("whole"));
    assert!(f.values.is_none() && f.repr.is_none());
}

#[test]
fn the_register_description_needs_numbers() {
    let c = component(vec![field("a", "", "1", "RW")]);
    assert_eq!(regvue::Document::try_from(&c).err(), Some(Error::ParseInt(String::new())));
    let c = component(vec![field("a", "1", "1", "RW"), field("b", "x", "y", "RW")]);
    assert_eq!(regvue::Document::try_from(&c).err(), Some(Error::ParseInt("x".to_string())));
    let c = component(vec![field("b", "3", "y", "RW")]);
    assert_eq!(regvue::Document::try_from(&c).err(), Some(Error::ParseInt("y".to_string())));
    let c = component(vec![field("b", "-3", "+4", "Rw")]);
    let d = regvue::Document::try_from(&c).unwrap();
    let f = &d.elements[1].fields.as_ref().unwrap()[0];
    assert_eq!((f.lsb, f.nbits, f.access.as_str()), (-3, 4, "rw"));
}

#[test]
fn a_later_element_takes_the_place_of_an_earlier_one_with_its_identifier() {
    let reg = |n: &str, o: &str| Register::new(n.to_string(), o.to_string(), "8".to_string(), vec![]);
    let blk = |n: &str, regs: Vec<Register>| {
        Block::new(n.to_string(), "0".to_string(), "1".to_string(), "32".to_string(), regs)
    };
    let c = Component::new(
        "v".to_string(),
        "l".to_string(),
        "n".to_string(),
        "1".to_string(),
        vec![blk("a", vec![reg("x", "0x0"), reg("x", "0x4")]), blk("b", vec![]), blk("a", vec![reg("y", "0x8")])],
    );
    let d = regvue::Document::try_from(&c).unwrap();
    let ids: Vec<&str> = d.elements.iter().map(|e| e.id.as_str()).collect();
    assert_eq!(ids, vec!["a", "a.x", "b", "a.y"]);
    assert_eq!(d.elements[1].offset.as_deref(), Some("0x4"));
    assert_eq!(d.elements[0].children.as_ref().unwrap(), &vec!["a.y".to_string()]);
    assert_eq!(d.root.children, vec!["a", "b", "a"]);
    let mut elements = Vec::new();
    regvue::put_element(&mut elements, regvue::Element::of_block(&blk("k", vec![])));
    regvue::put_element(&mut elements, regvue::Element::of_block(&blk("k", vec![reg("r", "0")])));
    assert_eq!(elements.len(), 1);
    assert_eq!(elements[0].children.as_ref().unwrap().len(), 1);
}

#[test]
fn groups_become_registers() {
    let row = |field: &str, bit: &str| FieldRow {
        reg: cell("r"),
        addr: cell("0x8"),
        reg_width: "16".to_string(),
        field: cell(field),
        width: cell("8"),
        attribute: cell("RW"),
        bytes: 2,
        bit_offset: cell(bit),
        default: cell("0"),
        description: "d".to_string(),
    };
    let regs =
        df_to_regs(vec![RegisterGroup { reg: cell("r"), rows: vec![row("hi", "8"), row("lo", "")] }]).unwrap();
    assert_eq!(regs.len(), 1);
    assert_eq!((regs[0].name(), regs[0].offset(), regs[0].size()), ("r", "0x8", "16"));
    assert_eq!(regs[0].fields()[0].offset(), "8");
    assert_eq!(regs[0].fields()[1].offset(), "");
    assert_eq!(regs[0].fields()[1].name(), "lo");
    assert_eq!(df_to_regs(vec![]).unwrap().len(), 0);
    let no_data = Error::Empty("No data in DataFrame".to_string());
    let not_found = Error::Empty("No data found in dataframe".to_string());
    assert_eq!(
        df_to_regs(vec![RegisterGroup { reg: None, rows: vec![row("hi", "8")] }]).err(),
        Some(Error::Empty("No data in DataFrame".to_string()))
    );
    assert_eq!(df_to_regs(vec![RegisterGroup { reg: cell("r"), rows: vec![] }]).err(), Some(no_data));
    let mut blank_addr = row("f", "0");
    blank_addr.addr = None;
    assert_eq!(
        df_to_regs(vec![RegisterGroup { reg: cell("r"), rows: vec![blank_addr] }]).err(),
        Some(Error::Empty("No data in DataFrame".to_string()))
    );
    for which in 0..4 {
        let mut r = row("f", "0");
        match which {
            0 => r.field = None,
            1 => r.width = None,
            2 => r.attribute = None,
            _ => r.default = None,
        }
        let groups = vec![
            RegisterGroup { reg: cell("ok"), rows: vec![row("g", "1")] },
            RegisterGroup { reg: cell("r"), rows: vec![row("g", "1"), r] },
        ];
        assert_eq!(df_to_regs(groups).err(), Some(Error::Empty("No data found in dataframe".to_string())));
    }
    assert_eq!(not_found, Error::Empty("No data found in dataframe".to_string()));
}

#[test]
fn tags_are_looked_up_by_exact_match() {
    let t = table(&[&["TAG", "VALUE"], &["vendor", "low"], &["VENDOR", "acme"], &["VENDOR", "second"], &["NAME", ""]]);
    assert_eq!(lookup_tag(&t, "VENDOR"), Ok("acme".to_string()));
    assert_eq!(lookup_tag(&t, "vendor"), Ok("low".to_string()));
    assert_eq!(lookup_tag(&t, "LIBRARY"), Err(Error::NotFound("LIBRARY".to_string())));
    assert_eq!(lookup_tag(&t, "NAME"), Err(Error::Empty("No data in DataFrame".to_string())));
    let t = table(&[&["VENDOR", "NAME"], &["acme", "uart"]]);
    assert_eq!(lookup_tag(&t, "VENDOR"), Err(Error::NotFound("TAG".to_string())));
    let t = table(&[&["TAG"], &["VENDOR"]]);
    assert_eq!(lookup_tag(&t, "VENDOR"), Err(Error::NotFound("VALUE".to_string())));
}

#[test]
fn the_component_is_made_of_tags_and_blocks() {
    let version = || version_sheet().sheet.to_data_frame().unwrap();
    let c = df_to_compo(version(), || Ok(vec![])).unwrap();
    assert_eq!((c.vendor(), c.library(), c.name(), c.version()), ("acme", "chips", "uart", "1.2"));
    assert_eq!(c.blks().len(), 0);
    let r = df_to_compo(version(), || Err(Error::NotFound("address_map".to_string())));
    assert_eq!(r.err(), Some(Error::NotFound("address_map".to_string())));
    for missing in ["VENDOR", "LIBRARY", "NAME", "VERSION"] {
        let rows: Vec<Vec<&str>> = [["TAG", "VALUE"], ["VENDOR", "a"], ["LIBRARY", "b"], ["NAME", "c"], ["VERSION", "d"]]
            .iter()
            .filter(|r| r[0] != missing)
            .map(|r| r.to_vec())
            .collect();
        let refs: Vec<&[&str]> = rows.iter().map(|r| r.as_slice()).collect();
        let mut asked = false;
        let r = df_to_compo(table(&refs), || {
            asked = true;
            Ok(vec![])
        });
        assert_eq!(r.err(), Some(Error::NotFound(missing.to_string())));
        assert!(!asked);
    }
}

#[test]
fn blocks_are_made_row_by_row() {
    let map = || table(&[&["BLOCK", "OFFSET", "RANGE"], &["b0", "0x0", "0x10"], &["b1", "0x10", "0x20"]]);
    let one = |name: &str| {
        Ok(vec![Register::new(format!("{}_reg", name), "0x0".to_string(), "8".to_string(), vec![])])
    };
    let blocks = df_to_blks(map(), one).unwrap();
    assert_eq!(blocks.len(), 2);
    assert_eq!((blocks[1].name(), blocks[1].offset(), blocks[1].range(), blocks[1].size()), ("b1", "0x10", "0x20", "32"));
    assert_eq!(blocks[0].regs()[0].name(), "b0_reg");
    assert_eq!(blocks[1].regs()[0].name(), "b1_reg");
    let fail_second = |name: &str| {
        if name == "b1" {
            Err(Error::NotFound(name.to_string()))
        } else {
            Ok(vec![])
        }
    };
    assert_eq!(df_to_blks(map(), fail_second).err(), Some(Error::NotFound("b1".to_string())));
    let holes = table(&[&["BLOCK", "OFFSET", "RANGE"], &["b0", "0x0", "0x10"], &["b1", "", "0x20"]]);
    assert_eq!(df_to_blks(holes, one).err(), Some(Error::Empty("No data in DataFrame".to_string())));
    for missing in ["BLOCK", "OFFSET", "RANGE"] {
        let head: Vec<&str> = ["BLOCK", "OFFSET", "RANGE"].into_iter().filter(|n| *n != missing).collect();
        let t = table(&[&head, &["x", "y"]]);
        assert_eq!(df_to_blks(t, one).err(), Some(Error::NotFound(missing.to_string())));
    }
    let empty = table(&[&["BLOCK", "OFFSET", "RANGE"]]);
    assert_eq!(df_to_blks(empty, |_: &str| Err(Error::Empty(String::new()))).unwrap().len(), 0);
}

#[test]
fn missing_sheets_are_reported_by_name() {
    let block_sheet = || sheet("b0", &[&HEAD, &["0x0", "r", "f", "[0]", "8", "RW", "0", ""]]);
    let map = || sheet("address_map", &[&["BLOCK", "OFFSET", "RANGE"], &["b0", "0x0", "0x10"], &["b1", "0x10", "0x10"]]);
    let w = Workbook::from_sheets(&vec![map(), block_sheet()]).unwrap();
    assert_eq!(assemble(&w).err(), Some(Error::NotFound("version".to_string())));
    let w = Workbook::from_sheets(&vec![version_sheet(), block_sheet()]).unwrap();
    assert_eq!(assemble(&w).err(), Some(Error::NotFound("address_map".to_string())));
    let w = Workbook::from_sheets(&vec![version_sheet(), map(), block_sheet()]).unwrap();
    assert_eq!(assemble(&w).err(), Some(Error::NotFound("b1".to_string())));
    assert_eq!(registers_of_block(&w, "b0").unwrap().len(), 1);
    assert_eq!(registers_of_block(&w, "B0").err(), Some(Error::NotFound("B0".to_string())));
    assert_eq!(blocks_of_workbook(&w).err(), Some(Error::NotFound("b1".to_string())));
    let w = Workbook::from_sheets(&vec![]).unwrap();
    assert_eq!(assemble(&w).err(), Some(Error::NotFound("version".to_string())));
}

#[test]
fn a_sheet_may_serve_several_blocks() {
    let sheets = vec![
        version_sheet(),
        sheet("address_map", &[&["BLOCK", "OFFSET", "RANGE"], &["b0", "0x0", "0x10"], &["b0", "0x10", "0x10"]]),
        sheet("b0", &[&HEAD, &["0x0", "r", "f", "[0]", "8", "RW", "0", ""]]),
    ];
    let c = assemble(&Workbook::from_sheets(&sheets).unwrap()).unwrap();
    assert_eq!(c.blks().len(), 2);
    assert_eq!(c.blks()[1].offset(), "0x10");
    assert_eq!(c.blks()[1].regs()[0].name(), "r");
}

#[test]
fn of_two_sheets_under_one_name_the_later_counts() {
    let sheets = vec![
        version_sheet(),
        sheet("version", &[&["TAG", "VALUE"], &["VENDOR", "other"], &["LIBRARY", "l"], &["NAME", "n"], &["VERSION", "2"]]),
        sheet("address_map", &[&["BLOCK", "OFFSET", "RANGE"]]),
    ];
    let w = Workbook::from_sheets(&sheets).unwrap();
    assert_eq!(w.pages.len(), 3);
    assert_eq!(assemble(&w).unwrap().vendor(), "other");
    assert!(w.table("nothing").is_none());
}

#[test]
fn a_sheet_that_holds_no_table_stops_the_reading() {
    let sheets = vec![version_sheet(), NamedSheet { name: "blank".to_string(), sheet: Sheet { rows: vec![] } }];
    assert_eq!(Workbook::from_sheets(&sheets).err(), Some(Error::Empty("No data".to_string())));
}

#[test]
fn a_failure_in_a_block_sheet_ends_the_assembly() {
    let sheets = vec![
        version_sheet(),
        sheet("address_map", &[&["BLOCK", "OFFSET", "RANGE"], &["b0", "0x0", "0x10"]]),
        sheet("b0", &[&HEAD, &["0x0", "r", "f", "[0]", "eight", "RW", "0", ""]]),
    ];
    let w = Workbook::from_sheets(&sheets).unwrap();
    assert_eq!(assemble(&w).err(), Some(Error::ParseInt("eight".to_string())));
    let table = Table::new(vec![Column { name: "ADDR".to_string(), cells: vec![] }]).unwrap();
    assert_eq!(regmap::parser::parser_register(table).err(), Some(Error::NotFound("REG".to_string())));
}

#[test]
fn scalars_go_unchanged_into_both_descriptions() {
    let sheets = vec![
        sheet("version", &[&["TAG", "VALUE"], &["VERSION", "2024.1-rc"], &["NAME", "Über IP"], &["LIBRARY", "lib/a"], &["VENDOR", "v & co"]]),
        sheet("address_map", &[&["BLOCK", "OFFSET", "RANGE"]]),
    ];
    let c = assemble(&Workbook::from_sheets(&sheets).unwrap()).unwrap();
    let x = ipxact::Component::try_from(&c).unwrap();
    assert_eq!((x.vendor.as_str(), x.library.as_str()), ("v & co", "lib/a"));
    assert_eq!((x.name.as_str(), x.version.as_str()), ("Über IP", "2024.1-rc"));
    let d = regvue::Document::try_from(&c).unwrap();
    assert_eq!(d.root.desc, "Über IP");
    assert_eq!(d.root.version.as_deref(), Some("v2024.1-rc"));
    assert_eq!(d.schema.version, "v2024.1-rc");
    assert!(d.elements.is_empty());
}
