use regmap::error::Error;
use regmap::excel::{Column, Table};
use regmap::parser::derive::{derive_rows, Derived};
use regmap::parser::expand::{expand_rows, FieldRow};
use regmap::parser::group::{group_rows, RegisterGroup};
use regmap::parser::rows::{read_rows, Row};
use regmap::parser::template::Patterns;
use regmap::parser::{normalize, parser_register};

fn cell(s: &str) -> Option<String> {
    if s.is_empty() {
        None
    } else {
        Some(s.to_string())
    }
}

fn column(name: &str, cells: &[&str]) -> Column {
    Column { name: name.to_string(), cells: cells.iter().map(|c| cell(c)).collect() }
}

const NAMES: [&str; 8] = ["ADDR", "REG", "FIELD", "BIT", "WIDTH", "ATTRIBUTE", "DEFAULT", "DESCRIPTION"];

/// A block sheet from rows of eight cells in the order of `NAMES`.
fn block(rows: &[[&str; 8]]) -> Table {
    let mut columns = Vec::new();
    for (c, name) in NAMES.iter().enumerate() {
        let cells: Vec<&str> = rows.iter().map(|r| r[c]).collect();
        columns.push(column(name, &cells));
    }
    Table::new(columns).unwrap()
}

fn names(groups: &[RegisterGroup]) -> Vec<String> {
    groups.iter().map(|g| g.reg.clone().unwrap_or_default()).collect()
}

fn fields(g: &RegisterGroup) -> Vec<String> {
    g.rows.iter().map(|r| r.field.clone().unwrap_or_default()).collect()
}

#[test]
fn series_is_written_out_per_member() {
    let df = block(&[["0x100", "REGX{n}, n=0~3", "data", "[31:0]", "32", "RW", "0x0", "payload"]]);
    let groups = parser_register(df).unwrap();
    assert_eq!(groups.len(), 4);
    assert_eq!(names(&groups), vec!["REGX_0", "REGX_1", "REGX_2", "REGX_3"]);
    let addrs: Vec<String> = groups.iter().map(|g| g.rows[0].addr.clone().unwrap()).collect();
    assert_eq!(addrs, vec!["0x100", "0x104", "0x108", "0x10C"]);
    for g in &groups {
        assert_eq!(g.rows.len(), 1);
        assert_eq!(g.rows[0].reg_width, "32");
        assert_eq!(g.rows[0].bytes, 4);
        assert_eq!(g.rows[0].field.as_deref(), Some("data"));
        assert_eq!(g.rows[0].width.as_deref(), Some("32"));
        assert_eq!(g.rows[0].attribute.as_deref(), Some("RW"));
        assert_eq!(g.rows[0].default.as_deref(), Some("0x0"));
        assert_eq!(g.rows[0].bit_offset.as_deref(), Some("0"));
        assert_eq!(g.rows[0].description, "payload");
    }
}

#[test]
fn series_with_several_fields_keeps_them_per_member() {
    let df = block(&[
        ["0x20", "CH{n}_CTRL, n = 2 ~ 3", "hi", "[15:8]", "8", "RW", "0", ""],
        ["", "", "lo", "[7:0]", "8", "RO", "1", "low byte"],
    ]);
    let groups = parser_register(df).unwrap();
    assert_eq!(names(&groups), vec!["CH_2", "CH_3"]);
    for (g, addr) in groups.iter().zip(["0x24", "0x26"]) {
        assert_eq!(fields(g), vec!["hi", "lo"]);
        assert_eq!(g.rows[0].addr.as_deref(), Some(addr));
        assert_eq!(g.rows[1].addr.as_deref(), Some(addr));
        assert_eq!(g.rows[0].reg_width, "16");
        assert_eq!(g.rows[0].bytes, 2);
        assert_eq!(g.rows[0].bit_offset.as_deref(), Some("8"));
        assert_eq!(g.rows[1].bit_offset.as_deref(), Some("0"));
        assert_eq!(g.rows[0].description, "No Description");
        assert_eq!(g.rows[1].description, "low byte");
    }
}

#[test]
fn merged_cells_are_filled_before_anything_else() {
    let df = block(&[
        ["0x0", "reg0", "a", "[31:16]", "16", "RW", "0x0", "first"],
        ["", "", "b", "[15:0]", "", "", "", ""],
        ["0x4", "reg1", "c", "[31:0]", "32", "RO", "0x1", ""],
    ]);
    let rows = read_rows(&df).unwrap();
    assert_eq!(rows.len(), 3);
    assert_eq!(rows[1].addr.as_deref(), Some("0x0"));
    assert_eq!(rows[1].reg.as_deref(), Some("reg0"));
    assert_eq!(rows[1].width.as_deref(), Some("16"));
    assert_eq!(rows[1].attribute.as_deref(), Some("RW"));
    assert_eq!(rows[1].default.as_deref(), Some("0x0"));
    assert_eq!(rows[1].description.as_deref(), Some("first"));
    assert_eq!(rows[2].description.as_deref(), Some("first"));
    let groups = parser_register(df).unwrap();
    assert_eq!(names(&groups), vec!["reg0", "reg1"]);
    assert_eq!(fields(&groups[0]), vec!["a", "b"]);
    assert_eq!(groups[0].rows[0].reg_width, "32");
    assert_eq!(groups[0].rows[1].reg_width, "32");
    assert_eq!(groups[0].rows[1].bytes, 4);
}

#[test]
fn registers_keep_the_order_in_which_they_are_first_seen() {
    let df = block(&[
        ["0x8", "zeta", "f0", "[0]", "1", "RW", "0", ""],
        ["0x0", "alpha", "f1", "[0]", "1", "RW", "0", ""],
        ["0x4", "mid", "f2", "[0]", "1", "RW", "0", ""],
        ["0xC", "alpha", "f3", "[1]", "1", "RW", "0", ""],
    ]);
    let groups = parser_register(df).unwrap();
    assert_eq!(names(&groups), vec!["zeta", "alpha", "mid"]);
    assert_eq!(fields(&groups[1]), vec!["f1", "f3"]);
    assert_eq!(groups[1].rows[0].addr.as_deref(), Some("0x0"));
    assert_eq!(groups[1].rows[1].addr.as_deref(), Some("0xC"));
}

#[test]
fn a_single_field_still_gives_a_register() {
    let df = block(&[["0x0", "only", "f", "[0]", "1", "RW", "0", "d"]]);
    let groups = parser_register(df).unwrap();
    assert_eq!(groups.len(), 1);
    assert_eq!(fields(&groups[0]), vec!["f"]);
}

#[test]
fn rows_without_a_field_are_dropped_unless_they_belong_to_a_series() {
    let df = block(&[
        ["0x0", "plain", "", "[0]", "1", "RW", "0", ""],
        ["0x4", "kept", "f", "[0]", "1", "RW", "0", ""],
    ]);
    let groups = parser_register(df).unwrap();
    assert_eq!(names(&groups), vec!["kept"]);
    let mut columns = vec![
        column("ADDR", &["0x0", "0x4"]),
        column("REG", &["S{n}, n=0~1", "t"]),
    ];
    columns.push(Column { name: "FIELD".to_string(), cells: vec![None, Some(String::new())] });
    for n in ["BIT", "WIDTH", "ATTRIBUTE", "DEFAULT"] {
        columns.push(column(n, &["1", "1"]));
    }
    let groups = parser_register(Table::new(columns).unwrap()).unwrap();
    assert_eq!(names(&groups), vec!["S_0", "S_1"]);
    assert_eq!(groups[0].rows[0].field, None);
}

#[test]
fn a_series_without_both_bounds_is_dropped() {
    for reg in ["R{n}", "R{n}, n=0", "R{n}, ~3", "R{n}, n=x~3", "R{n}, n=0~99999999999", "R{n}, n=3~1"] {
        let df = block(&[
            ["0x0", reg, "f", "[0]", "1", "RW", "0", ""],
            ["0x4", "after", "g", "[0]", "1", "RW", "0", ""],
        ]);
        let groups = parser_register(df).unwrap();
        assert_eq!(names(&groups), vec!["after"], "for {}", reg);
    }
}

#[test]
fn a_series_of_one_member_is_written_out() {
    let df = block(&[["0x10", "R{n}, n=7~7", "f", "[3]", "8", "RW", "0", ""]]);
    let groups = parser_register(df).unwrap();
    assert_eq!(names(&groups), vec!["R_7"]);
    assert_eq!(groups[0].rows[0].addr.as_deref(), Some("0x17"));
    assert_eq!(groups[0].rows[0].bit_offset.as_deref(), Some("3"));
}

#[test]
fn a_width_that_is_no_number_is_fatal() {
    let df = block(&[
        ["0x0", "a", "f", "[0]", "1", "RW", "0", ""],
        ["0x4", "b", "g", "[0]", "wide", "RW", "0", ""],
    ]);
    assert_eq!(parser_register(df).err(), Some(Error::ParseInt("wide".to_string())));
    let df = block(&[["0x0", "a", "f", "[0]", "4294967296", "RW", "0", ""]]);
    assert_eq!(parser_register(df).err(), Some(Error::ParseInt("4294967296".to_string())));
}

#[test]
fn an_address_without_hexadecimal_digits_is_fatal() {
    let df = block(&[["100", "a", "f", "[0]", "1", "RW", "0", ""]]);
    assert_eq!(parser_register(df).err(), Some(Error::ParseInt("100".to_string())));
    let df = block(&[["0x1FFFFFFFF", "a", "f", "[0]", "1", "RW", "0", ""]]);
    assert_eq!(parser_register(df).err(), Some(Error::ParseInt("0x1FFFFFFFF".to_string())));
}

#[test]
fn an_address_is_found_anywhere_in_its_cell() {
    let df = block(&[["base 0x1f (hex)", "R{n}, n=1~1", "f", "[0]", "16", "RW", "0", ""]]);
    let groups = parser_register(df).unwrap();
    assert_eq!(groups[0].rows[0].addr.as_deref(), Some("0x21"));
}

#[test]
fn numbers_beyond_32_bits_are_fatal() {
    let df = block(&[
        ["0x0", "a", "f", "[0]", "4294967295", "RW", "0", ""],
        ["", "", "g", "[0]", "1", "", "", ""],
    ]);
    assert_eq!(parser_register(df).err(), Some(Error::Overflow("0x0".to_string())));
    let df = block(&[["0xFFFFFFFC", "R{n}, n=0~1", "f", "[0]", "32", "RW", "0", ""]]);
    assert_eq!(parser_register(df).err(), Some(Error::Overflow("0xFFFFFFFC".to_string())));
    let df = block(&[["0xFFFFFFFC", "R{n}, n=0~0", "f", "[0]", "32", "RW", "0", ""]]);
    let groups = parser_register(df).unwrap();
    assert_eq!(groups[0].rows[0].addr.as_deref(), Some("0xFFFFFFFC"));
}

#[test]
fn a_bit_range_without_a_low_end_is_tolerated() {
    let df = block(&[
        ["0x0", "a", "f", "31:0", "32", "RW", "0", ""],
        ["0x4", "b", "g", "", "32", "RW", "0", ""],
        ["0x8", "c", "h", "[7]", "32", "RW", "0", ""],
    ]);
    let mut columns = Vec::new();
    for c in df.columns() {
        let cells = if c.name == "BIT" { vec![cell("31:0"), None, cell("[7]")] } else { c.cells.clone() };
        columns.push(Column { name: c.name.clone(), cells });
    }
    let groups = parser_register(Table::new(columns).unwrap()).unwrap();
    assert_eq!(groups[0].rows[0].bit_offset, None);
    assert_eq!(groups[1].rows[0].bit_offset, None);
    assert_eq!(groups[2].rows[0].bit_offset.as_deref(), Some("7"));
}

#[test]
fn a_missing_column_is_reported_by_name() {
    for missing in ["ADDR", "REG", "FIELD", "BIT", "WIDTH", "ATTRIBUTE", "DEFAULT"] {
        let columns: Vec<Column> =
            NAMES.iter().filter(|n| **n != missing).map(|n| column(n, &["1"])).collect();
        let r = parser_register(Table::new(columns).unwrap());
        assert_eq!(r.err(), Some(Error::NotFound(missing.to_string())));
    }
    let r = parser_register(Table::new(vec![]).unwrap());
    assert_eq!(r.err(), Some(Error::NotFound("ADDR".to_string())));
}

#[test]
fn the_column_of_descriptions_may_be_absent() {
    let columns: Vec<Column> = vec![
        column("ADDR", &["0x0"]),
        column("REG", &["a"]),
        column("FIELD", &["f"]),
        column("BIT", &["[0]"]),
        column("WIDTH", &["8"]),
        column("ATTRIBUTE", &["RW"]),
        column("DEFAULT", &["0"]),
    ];
    let groups = parser_register(Table::new(columns).unwrap()).unwrap();
    assert_eq!(groups[0].rows[0].description, "No Description");
}

#[test]
fn an_empty_sheet_gives_no_register() {
    let columns: Vec<Column> = NAMES.iter().map(|n| column(n, &[])).collect();
    assert_eq!(parser_register(Table::new(columns).unwrap()).unwrap().len(), 0);
}

#[test]
fn rows_of_one_address_are_measured_together_wherever_they_stand() {
    let df = block(&[
        ["0x0", "a", "f", "[0]", "8", "RW", "0", ""],
        ["0x4", "b", "g", "[0]", "16", "RW", "0", ""],
        ["0x0", "c", "h", "[8]", "24", "RW", "0", ""],
    ]);
    let rows: Vec<Row> = read_rows(&df).unwrap();
    let patterns = Patterns::new().unwrap();
    let ds: Vec<Derived> = derive_rows(&rows, &patterns).unwrap();
    assert_eq!(ds[0].reg_width, 32);
    assert_eq!(ds[0].bytes, 4);
    assert_eq!(ds[1].reg_width, 16);
    assert_eq!(ds[1].bytes, 2);
    assert_eq!(ds[2].reg_width, 32);
    assert_eq!(ds[0].base_addr, Some(0));
    assert_eq!(ds[1].base_addr, Some(4));
    assert!(!ds[0].expandable);
    let out: Vec<FieldRow> = expand_rows(&ds).unwrap();
    assert_eq!(out.len(), 3);
    let groups = group_rows(&out);
    assert_eq!(names(&groups), vec!["a", "b", "c"]);
    let again = normalize(&df, &patterns).unwrap();
    assert_eq!(names(&again), vec!["a", "b", "c"]);
}

#[test]
fn the_series_is_read_off_the_first_row_of_its_address() {
    let df = block(&[
        ["0x0", "R{n}, n=1~2", "f", "[0]", "8", "RW", "0", ""],
        ["0x0", "other", "g", "[8]", "8", "RW", "0", ""],
    ]);
    let groups = parser_register(df).unwrap();
    assert_eq!(names(&groups), vec!["R_1", "R_2"]);
    assert_eq!(fields(&groups[0]), vec!["f", "g"]);
    assert_eq!(groups[0].rows[0].addr.as_deref(), Some("0x2"));
    assert_eq!(groups[1].rows[1].addr.as_deref(), Some("0x4"));
}

#[test]
fn the_parts_of_a_register_name_are_found_by_the_expressions() {
    let p = Patterns::new().unwrap();
    let reg = Some("REGx{n}, n = 10 ~ 12".to_string());
    assert!(p.stands_for_series(&reg));
    assert_eq!(p.base_of_series(&reg), Some("REGx".to_string()));
    assert_eq!(p.first_of_series(&reg), Some(10));
    assert_eq!(p.last_of_series(&reg), Some(12));
    let plain = Some("n=1~2".to_string());
    assert!(!p.stands_for_series(&plain));
    assert_eq!(p.base_of_series(&plain), None);
    assert_eq!(p.first_of_series(&plain), Some(1));
    assert!(!p.stands_for_series(&None));
    assert_eq!(p.first_of_series(&None), None);
    assert_eq!(p.address_of(&Some("0x10".to_string())), Ok(Some(16)));
    assert_eq!(p.address_of(&None), Ok(None));
    assert_eq!(p.address_of(&Some("x10".to_string())), Err(Error::ParseInt("x10".to_string())));
    assert_eq!(p.bit_offset(&Some("[31:16]".to_string())), Some("16".to_string()));
    assert_eq!(p.bit_offset(&Some("[5]".to_string())), Some("5".to_string()));
    assert_eq!(p.bit_offset(&Some("[a:b]".to_string())), None);
    assert_eq!(p.bit_offset(&Some("x[3:2] y[1:0]".to_string())), Some("2".to_string()));
    assert_eq!(p.bit_offset(&None), None);
}
