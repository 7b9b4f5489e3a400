use regmap::error::Error;
use regmap::schema::attr::{
    extract_access_value, extract_modified_write_value, extract_read_action_value, Access,
    Attribute, ModifiedWrite, ReadAction,
};

fn row(code: &str) -> (String, Option<String>, Option<String>) {
    (
        extract_access_value(code).unwrap(),
        extract_modified_write_value(code).unwrap(),
        extract_read_action_value(code).unwrap(),
    )
}

fn expect(code: &str, access: &str, write: Option<&str>, read: Option<&str>) {
    let (a, w, r) = row(code);
    assert_eq!(a, access, "access of {}", code);
    assert_eq!(w.as_deref(), write, "write effect of {}", code);
    assert_eq!(r.as_deref(), read, "read effect of {}", code);
}

#[test]
fn every_code_decodes_as_tabulated() {
    expect("RO", "read-only", None, None);
    expect("RW", "read-write", None, None);
    expect("RC", "read-write", None, Some("clear"));
    expect("RS", "read-write", None, Some("set"));
    expect("WO", "write-only", None, None);
    expect("W1", "writeOnce", None, None);
    expect("WO1", "writeOnce", None, None);
    expect("WC", "write-only", Some("clear"), None);
    expect("WOC", "write-only", Some("clear"), None);
    expect("WS", "write-only", Some("set"), None);
    expect("WOS", "write-only", Some("set"), None);
    expect("WRC", "read-write", Some("oneToClear"), Some("clear"));
    expect("WRS", "read-write", Some("oneToSet"), Some("set"));
    expect("W1C", "read-write", Some("oneToClear"), None);
    expect("W1S", "read-write", Some("oneToSet"), None);
    expect("W1T", "read-write", Some("oneToToggle"), None);
    expect("W0C", "read-write", Some("zeroToClear"), None);
    expect("W0S", "read-write", Some("zeroToSet"), None);
    expect("W0T", "read-write", Some("zeroToToggle"), None);
    expect("WSRC", "read-write", Some("oneToSet"), Some("clear"));
    expect("WCRS", "read-write", Some("oneToClear"), Some("set"));
    expect("W1SRC", "read-write", Some("oneToSet"), Some("clear"));
    expect("W1CRS", "read-write", Some("oneToClear"), Some("set"));
    expect("W0SRC", "read-write", Some("zeroToSet"), Some("clear"));
    expect("W0CRS", "read-write", Some("zeroToClear"), Some("set"));
}

#[test]
fn codes_are_read_in_any_case() {
    expect("rw", "read-write", None, None);
    expect("w1c", "read-write", Some("oneToClear"), None);
    expect("W0sRc", "read-write", Some("zeroToSet"), Some("clear"));
    assert_eq!(Attribute::parse("wo1"), Some(Attribute::WO1));
}

#[test]
fn other_texts_are_refused_by_all_three() {
    for code in ["", "R", "RWX", "W2C", " RW", "RW ", "read-write", "W1SRCX", "ＲＷ"] {
        assert_eq!(extract_access_value(code), Err(Error::NotFound(code.to_string())));
        assert_eq!(extract_modified_write_value(code), Err(Error::NotFound(code.to_string())));
        assert_eq!(extract_read_action_value(code), Err(Error::NotFound(code.to_string())));
        assert_eq!(Attribute::parse(code), None);
    }
}

#[test]
fn the_error_keeps_the_text_as_written() {
    assert_eq!(extract_access_value("rwx"), Err(Error::NotFound("rwx".to_string())));
}

#[test]
fn enumerations_give_their_words() {
    assert_eq!(Attribute::W1.access(), Access::WriteOnce);
    assert_eq!(Attribute::W1.modified_write(), None);
    assert_eq!(Attribute::WC.modified_write(), Some(ModifiedWrite::ClearOnWrite));
    assert_eq!(Attribute::RS.read_action(), Some(ReadAction::SetOnRead));
    assert_eq!(Access::WriteOnce.as_str(), "writeOnce");
    assert_eq!(ModifiedWrite::ZeroToToggle.as_str(), "zeroToToggle");
    assert_eq!(ModifiedWrite::SetOnWrite.as_str(), "set");
    assert_eq!(ReadAction::ClearOnRead.as_str(), "clear");
}
