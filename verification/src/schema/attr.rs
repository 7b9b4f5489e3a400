//! The closed vocabulary of attribute codes, and what each code says about
//! how software may access a field.

use crate::error::Error;
use crate::text::{chars_of, lower_text, same_chars, to_upper, upper_text};
use vstd::prelude::*;

verus! {

/// The attribute codes. A code is written without regard to the case of its
/// letters.
#[derive(Debug, Clone, Copy, PartialEq, Eq, Structural)]
pub enum Attribute {
    RO,
    RW,
    RC,
    RS,
    WO,
    W1,
    WO1,
    WC,
    WOC,
    WS,
    WOS,
    WRC,
    WRS,
    W1C,
    W1S,
    W1T,
    W0C,
    W0S,
    W0T,
    WSRC,
    WCRS,
    W1SRC,
    W1CRS,
    W0SRC,
    W0CRS,
}

/// Who may read and who may write a field.
#[derive(Debug, Clone, Copy, PartialEq, Eq, Structural)]
pub enum Access {
    ReadOnly,
    ReadWrite,
    WriteOnly,
    WriteOnce,
}

/// What a write does to a field beyond storing the written value.
#[derive(Debug, Clone, Copy, PartialEq, Eq, Structural)]
pub enum ModifiedWrite {
    OneToClear,
    OneToSet,
    OneToToggle,
    ZeroToClear,
    ZeroToSet,
    ZeroToToggle,
    ClearOnWrite,
    SetOnWrite,
}

/// What a read does to a field beyond handing out its value.
#[derive(Debug, Clone, Copy, PartialEq, Eq, Structural)]
pub enum ReadAction {
    ClearOnRead,
    SetOnRead,
}

/// How a code is spelled, in capital letters.
pub open spec fn spelling(a: Attribute) -> Seq<char> {
    match a {
        Attribute::RO => "RO"@,
        Attribute::RW => "RW"@,
        Attribute::RC => "RC"@,
        Attribute::RS => "RS"@,
        Attribute::WO => "WO"@,
        Attribute::W1 => "W1"@,
        Attribute::WO1 => "WO1"@,
        Attribute::WC => "WC"@,
        Attribute::WOC => "WOC"@,
        Attribute::WS => "WS"@,
        Attribute::WOS => "WOS"@,
        Attribute::WRC => "WRC"@,
        Attribute::WRS => "WRS"@,
        Attribute::W1C => "W1C"@,
        Attribute::W1S => "W1S"@,
        Attribute::W1T => "W1T"@,
        Attribute::W0C => "W0C"@,
        Attribute::W0S => "W0S"@,
        Attribute::W0T => "W0T"@,
        Attribute::WSRC => "WSRC"@,
        Attribute::WCRS => "WCRS"@,
        Attribute::W1SRC => "W1SRC"@,
        Attribute::W1CRS => "W1CRS"@,
        Attribute::W0SRC => "W0SRC"@,
        Attribute::W0CRS => "W0CRS"@,
    }
}

/// The code that a text spells once its letters are capitalised, if any.
pub open spec fn recognized(code: Seq<char>) -> Option<Attribute> {
    let u = upper_text(code);
    if u == "RO"@ {
        Some(Attribute::RO)
    } else if u == "RW"@ {
        Some(Attribute::RW)
    } else if u == "RC"@ {
        Some(Attribute::RC)
    } else if u == "RS"@ {
        Some(Attribute::RS)
    } else if u == "WO"@ {
        Some(Attribute::WO)
    } else if u == "W1"@ {
        Some(Attribute::W1)
    } else if u == "WO1"@ {
        Some(Attribute::WO1)
    } else if u == "WC"@ {
        Some(Attribute::WC)
    } else if u == "WOC"@ {
        Some(Attribute::WOC)
    } else if u == "WS"@ {
        Some(Attribute::WS)
    } else if u == "WOS"@ {
        Some(Attribute::WOS)
    } else if u == "WRC"@ {
        Some(Attribute::WRC)
    } else if u == "WRS"@ {
        Some(Attribute::WRS)
    } else if u == "W1C"@ {
        Some(Attribute::W1C)
    } else if u == "W1S"@ {
        Some(Attribute::W1S)
    } else if u == "W1T"@ {
        Some(Attribute::W1T)
    } else if u == "W0C"@ {
        Some(Attribute::W0C)
    } else if u == "W0S"@ {
        Some(Attribute::W0S)
    } else if u == "W0T"@ {
        Some(Attribute::W0T)
    } else if u == "WSRC"@ {
        Some(Attribute::WSRC)
    } else if u == "WCRS"@ {
        Some(Attribute::WCRS)
    } else if u == "W1SRC"@ {
        Some(Attribute::W1SRC)
    } else if u == "W1CRS"@ {
        Some(Attribute::W1CRS)
    } else if u == "W0SRC"@ {
        Some(Attribute::W0SRC)
    } else if u == "W0CRS"@ {
        Some(Attribute::W0CRS)
    } else {
        None
    }
}

/// The access that a code grants.
pub open spec fn access_of(a: Attribute) -> Access {
    match a {
        Attribute::RO => Access::ReadOnly,
        Attribute::RW | Attribute::RC | Attribute::RS | Attribute::WRC | Attribute::WRS | Attribute::W1C | Attribute::W1S | Attribute::W1T | Attribute::W0C | Attribute::W0S | Attribute::W0T | Attribute::WSRC | Attribute::WCRS | Attribute::W1SRC | Attribute::W1CRS | Attribute::W0SRC | Attribute::W0CRS => Access::ReadWrite,
        Attribute::WO | Attribute::WC | Attribute::WOC | Attribute::WS | Attribute::WOS => Access::WriteOnly,
        Attribute::W1 | Attribute::WO1 => Access::WriteOnce,
    }
}

/// The effect of a write under a code, if it has one.
pub open spec fn modified_write_of(a: Attribute) -> Option<ModifiedWrite> {
    match a {
        Attribute::RO | Attribute::RW | Attribute::RC | Attribute::RS | Attribute::WO | Attribute::W1 | Attribute::WO1 => None,
        Attribute::WC | Attribute::WOC => Some(ModifiedWrite::ClearOnWrite),
        Attribute::WS | Attribute::WOS => Some(ModifiedWrite::SetOnWrite),
        Attribute::WRC | Attribute::W1C | Attribute::WCRS | Attribute::W1CRS => Some(ModifiedWrite::OneToClear),
        Attribute::WRS | Attribute::W1S | Attribute::WSRC | Attribute::W1SRC => Some(ModifiedWrite::OneToSet),
        Attribute::W1T => Some(ModifiedWrite::OneToToggle),
        Attribute::W0C | Attribute::W0CRS => Some(ModifiedWrite::ZeroToClear),
        Attribute::W0S | Attribute::W0SRC => Some(ModifiedWrite::ZeroToSet),
        Attribute::W0T => Some(ModifiedWrite::ZeroToToggle),
    }
}

/// The effect of a read under a code, if it has one.
pub open spec fn read_action_of(a: Attribute) -> Option<ReadAction> {
    match a {
        Attribute::RO | Attribute::RW | Attribute::WO | Attribute::W1 | Attribute::WO1 | Attribute::WC | Attribute::WOC | Attribute::WS | Attribute::WOS | Attribute::W1C | Attribute::W1S | Attribute::W1T | Attribute::W0C | Attribute::W0S | Attribute::W0T => None,
        Attribute::RC | Attribute::WRC | Attribute::WSRC | Attribute::W1SRC | Attribute::W0SRC => Some(ReadAction::ClearOnRead),
        Attribute::RS | Attribute::WRS | Attribute::WCRS | Attribute::W1CRS | Attribute::W0CRS => Some(ReadAction::SetOnRead),
    }
}

/// The word that the component description uses for an access.
pub open spec fn access_text(a: Access) -> Seq<char> {
    match a {
        Access::ReadOnly => "read-only"@,
        Access::ReadWrite => "read-write"@,
        Access::WriteOnly => "write-only"@,
        Access::WriteOnce => "writeOnce"@,
    }
}

/// The word that the component description uses for the effect of a write.
pub open spec fn modified_write_text(m: ModifiedWrite) -> Seq<char> {
    match m {
        ModifiedWrite::OneToClear => "oneToClear"@,
        ModifiedWrite::OneToSet => "oneToSet"@,
        ModifiedWrite::OneToToggle => "oneToToggle"@,
        ModifiedWrite::ZeroToClear => "zeroToClear"@,
        ModifiedWrite::ZeroToSet => "zeroToSet"@,
        ModifiedWrite::ZeroToToggle => "zeroToToggle"@,
        ModifiedWrite::ClearOnWrite => "clear"@,
        ModifiedWrite::SetOnWrite => "set"@,
    }
}

/// The word that the component description uses for the effect of a read.
pub open spec fn read_action_text(r: ReadAction) -> Seq<char> {
    match r {
        ReadAction::ClearOnRead => "clear"@,
        ReadAction::SetOnRead => "set"@,
    }
}

/// The access word of a code, where the text spells one.
pub open spec fn access_value(code: Seq<char>) -> Option<Seq<char>> {
    match recognized(code) {
        Some(a) => Some(access_text(access_of(a))),
        None => None,
    }
}

/// The write-effect word of a code, where the text spells one: the outer
/// `Option` says whether it does, the inner one whether the code has such
/// an effect.
pub open spec fn modified_write_value(code: Seq<char>) -> Option<Option<Seq<char>>> {
    match recognized(code) {
        Some(a) => Some(
            match modified_write_of(a) {
                Some(m) => Some(modified_write_text(m)),
                None => None,
            },
        ),
        None => None,
    }
}

/// The read-effect word of a code, where the text spells one: the outer
/// `Option` says whether it does, the inner one whether the code has such
/// an effect.
pub open spec fn read_action_value(code: Seq<char>) -> Option<Option<Seq<char>>> {
    match recognized(code) {
        Some(a) => Some(
            match read_action_of(a) {
                Some(r) => Some(read_action_text(r)),
                None => None,
            },
        ),
        None => None,
    }
}

fn spells(u: &Vec<char>, word: &str) -> (b: bool)
    ensures
        b == (u@ == word@),
{
    let w = chars_of(word);
    same_chars(u, &w)
}

impl Attribute {
    /// Reads a code, whatever the case of its letters.
    pub fn parse(code: &str) -> (r: Option<Attribute>)
        ensures
            r == recognized(code@),
    {
        let v = chars_of(code);
        let mut u: Vec<char> = Vec::new();
        let mut i: usize = 0;
        while i < v.len()
            invariant
                i <= v.len(),
                v@ == code@,
                u@ == upper_text(code@).take(i as int),
            decreases v.len() - i,
        {
            u.push(to_upper(v[i]));
            i += 1;
        }
        assert(u@ =~= upper_text(code@));
        if spells(&u, "RO") {
            Some(Attribute::RO)
        } else if spells(&u, "RW") {
            Some(Attribute::RW)
        } else if spells(&u, "RC") {
            Some(Attribute::RC)
        } else if spells(&u, "RS") {
            Some(Attribute::RS)
        } else if spells(&u, "WO") {
            Some(Attribute::WO)
        } else if spells(&u, "W1") {
            Some(Attribute::W1)
        } else if spells(&u, "WO1") {
            Some(Attribute::WO1)
        } else if spells(&u, "WC") {
            Some(Attribute::WC)
        } else if spells(&u, "WOC") {
            Some(Attribute::WOC)
        } else if spells(&u, "WS") {
            Some(Attribute::WS)
        } else if spells(&u, "WOS") {
            Some(Attribute::WOS)
        } else if spells(&u, "WRC") {
            Some(Attribute::WRC)
        } else if spells(&u, "WRS") {
            Some(Attribute::WRS)
        } else if spells(&u, "W1C") {
            Some(Attribute::W1C)
        } else if spells(&u, "W1S") {
            Some(Attribute::W1S)
        } else if spells(&u, "W1T") {
            Some(Attribute::W1T)
        } else if spells(&u, "W0C") {
            Some(Attribute::W0C)
        } else if spells(&u, "W0S") {
            Some(Attribute::W0S)
        } else if spells(&u, "W0T") {
            Some(Attribute::W0T)
        } else if spells(&u, "WSRC") {
            Some(Attribute::WSRC)
        } else if spells(&u, "WCRS") {
            Some(Attribute::WCRS)
        } else if spells(&u, "W1SRC") {
            Some(Attribute::W1SRC)
        } else if spells(&u, "W1CRS") {
            Some(Attribute::W1CRS)
        } else if spells(&u, "W0SRC") {
            Some(Attribute::W0SRC)
        } else if spells(&u, "W0CRS") {
            Some(Attribute::W0CRS)
        } else {
            None
        }
    }

    /// The access that the code grants.
    pub fn access(self) -> (r: Access)
        ensures
            r == access_of(self),
    {
        match self {
            Attribute::RO => Access::ReadOnly,
            Attribute::RW | Attribute::RC | Attribute::RS | Attribute::WRC | Attribute::WRS | Attribute::W1C | Attribute::W1S | Attribute::W1T | Attribute::W0C | Attribute::W0S | Attribute::W0T | Attribute::WSRC | Attribute::WCRS | Attribute::W1SRC | Attribute::W1CRS | Attribute::W0SRC | Attribute::W0CRS => Access::ReadWrite,
            Attribute::WO | Attribute::WC | Attribute::WOC | Attribute::WS | Attribute::WOS => Access::WriteOnly,
            Attribute::W1 | Attribute::WO1 => Access::WriteOnce,
        }
    }

    /// The effect of a write under the code, if it has one.
    pub fn modified_write(self) -> (r: Option<ModifiedWrite>)
        ensures
            r == modified_write_of(self),
    {
        match self {
            Attribute::RO | Attribute::RW | Attribute::RC | Attribute::RS | Attribute::WO | Attribute::W1 | Attribute::WO1 => None,
            Attribute::WC | Attribute::WOC => Some(ModifiedWrite::ClearOnWrite),
            Attribute::WS | Attribute::WOS => Some(ModifiedWrite::SetOnWrite),
            Attribute::WRC | Attribute::W1C | Attribute::WCRS | Attribute::W1CRS => Some(ModifiedWrite::OneToClear),
            Attribute::WRS | Attribute::W1S | Attribute::WSRC | Attribute::W1SRC => Some(ModifiedWrite::OneToSet),
            Attribute::W1T => Some(ModifiedWrite::OneToToggle),
            Attribute::W0C | Attribute::W0CRS => Some(ModifiedWrite::ZeroToClear),
            Attribute::W0S | Attribute::W0SRC => Some(ModifiedWrite::ZeroToSet),
            Attribute::W0T => Some(ModifiedWrite::ZeroToToggle),
        }
    }

    /// The effect of a read under the code, if it has one.
    pub fn read_action(self) -> (r: Option<ReadAction>)
        ensures
            r == read_action_of(self),
    {
        match self {
            Attribute::RO | Attribute::RW | Attribute::WO | Attribute::W1 | Attribute::WO1 | Attribute::WC | Attribute::WOC | Attribute::WS | Attribute::WOS | Attribute::W1C | Attribute::W1S | Attribute::W1T | Attribute::W0C | Attribute::W0S | Attribute::W0T => None,
            Attribute::RC | Attribute::WRC | Attribute::WSRC | Attribute::W1SRC | Attribute::W0SRC => Some(ReadAction::ClearOnRead),
            Attribute::RS | Attribute::WRS | Attribute::WCRS | Attribute::W1CRS | Attribute::W0CRS => Some(ReadAction::SetOnRead),
        }
    }
}

impl Access {
    /// The word that the component description uses for the access.
    pub fn as_str(self) -> (s: &'static str)
        ensures
            s@ == access_text(self),
    {
        match self {
            Access::ReadOnly => "read-only",
            Access::ReadWrite => "read-write",
            Access::WriteOnly => "write-only",
            Access::WriteOnce => "writeOnce",
        }
    }
}

impl ModifiedWrite {
    /// The word that the component description uses for the effect.
    pub fn as_str(self) -> (s: &'static str)
        ensures
            s@ == modified_write_text(self),
    {
        match self {
            ModifiedWrite::OneToClear => "oneToClear",
            ModifiedWrite::OneToSet => "oneToSet",
            ModifiedWrite::OneToToggle => "oneToToggle",
            ModifiedWrite::ZeroToClear => "zeroToClear",
            ModifiedWrite::ZeroToSet => "zeroToSet",
            ModifiedWrite::ZeroToToggle => "zeroToToggle",
            ModifiedWrite::ClearOnWrite => "clear",
            ModifiedWrite::SetOnWrite => "set",
        }
    }
}

impl ReadAction {
    /// The word that the component description uses for the effect.
    pub fn as_str(self) -> (s: &'static str)
        ensures
            s@ == read_action_text(self),
    {
        match self {
            ReadAction::ClearOnRead => "clear",
            ReadAction::SetOnRead => "set",
        }
    }
}

/// The access word for an attribute code; a text that spells no code is
/// refused, and handed back in the error.
pub fn extract_access_value(attr: &str) -> (r: Result<String, Error>)
    ensures
        match access_value(attr@) {
            Some(word) => r matches Ok(s) && s@ == word,
            None => r matches Err(Error::NotFound(key)) && key@ == attr@,
        },
{
    match Attribute::parse(attr) {
        Some(a) => Ok(a.access().as_str().to_owned()),
        None => Err(Error::NotFound(attr.to_owned())),
    }
}

/// The write-effect word for an attribute code, if the code has one; a text
/// that spells no code is refused, and handed back in the error.
pub fn extract_modified_write_value(attr: &str) -> (r: Result<Option<String>, Error>)
    ensures
        match modified_write_value(attr@) {
            Some(word) => r matches Ok(s) && s.deep_view() == word,
            None => r matches Err(Error::NotFound(key)) && key@ == attr@,
        },
{
    match Attribute::parse(attr) {
        Some(a) => match a.modified_write() {
            Some(m) => Ok(Some(m.as_str().to_owned())),
            None => Ok(None),
        },
        None => Err(Error::NotFound(attr.to_owned())),
    }
}

/// The read-effect word for an attribute code, if the code has one; a text
/// that spells no code is refused, and handed back in the error.
pub fn extract_read_action_value(attr: &str) -> (r: Result<Option<String>, Error>)
    ensures
        match read_action_value(attr@) {
            Some(word) => r matches Ok(s) && s.deep_view() == word,
            None => r matches Err(Error::NotFound(key)) && key@ == attr@,
        },
{
    match Attribute::parse(attr) {
        Some(a) => match a.read_action() {
            Some(x) => Ok(Some(x.as_str().to_owned())),
            None => Ok(None),
        },
        None => Err(Error::NotFound(attr.to_owned())),
    }
}

/// Every code of the vocabulary is read as itself: no two codes share a
/// spelling, and none is shadowed by another.
pub proof fn lemma_spelling_is_recognized(a: Attribute)
    ensures
        recognized(spelling(a)) == Some(a),
{
    reveal_strlit("RO");
    assert("RO"@.len() == 2 && "RO"@[0] == 'R' && "RO"@[1] == 'O');
    reveal_strlit("RW");
    assert("RW"@.len() == 2 && "RW"@[0] == 'R' && "RW"@[1] == 'W');
    reveal_strlit("RC");
    assert("RC"@.len() == 2 && "RC"@[0] == 'R' && "RC"@[1] == 'C');
    reveal_strlit("RS");
    assert("RS"@.len() == 2 && "RS"@[0] == 'R' && "RS"@[1] == 'S');
    reveal_strlit("WO");
    assert("WO"@.len() == 2 && "WO"@[0] == 'W' && "WO"@[1] == 'O');
    reveal_strlit("W1");
    assert("W1"@.len() == 2 && "W1"@[0] == 'W' && "W1"@[1] == '1');
    reveal_strlit("WO1");
    assert("WO1"@.len() == 3 && "WO1"@[0] == 'W' && "WO1"@[1] == 'O' && "WO1"@[2] == '1');
    reveal_strlit("WC");
    assert("WC"@.len() == 2 && "WC"@[0] == 'W' && "WC"@[1] == 'C');
    reveal_strlit("WOC");
    assert("WOC"@.len() == 3 && "WOC"@[0] == 'W' && "WOC"@[1] == 'O' && "WOC"@[2] == 'C');
    reveal_strlit("WS");
    assert("WS"@.len() == 2 && "WS"@[0] == 'W' && "WS"@[1] == 'S');
    reveal_strlit("WOS");
    assert("WOS"@.len() == 3 && "WOS"@[0] == 'W' && "WOS"@[1] == 'O' && "WOS"@[2] == 'S');
    reveal_strlit("WRC");
    assert("WRC"@.len() == 3 && "WRC"@[0] == 'W' && "WRC"@[1] == 'R' && "WRC"@[2] == 'C');
    reveal_strlit("WRS");
    assert("WRS"@.len() == 3 && "WRS"@[0] == 'W' && "WRS"@[1] == 'R' && "WRS"@[2] == 'S');
    reveal_strlit("W1C");
    assert("W1C"@.len() == 3 && "W1C"@[0] == 'W' && "W1C"@[1] == '1' && "W1C"@[2] == 'C');
    reveal_strlit("W1S");
    assert("W1S"@.len() == 3 && "W1S"@[0] == 'W' && "W1S"@[1] == '1' && "W1S"@[2] == 'S');
    reveal_strlit("W1T");
    assert("W1T"@.len() == 3 && "W1T"@[0] == 'W' && "W1T"@[1] == '1' && "W1T"@[2] == 'T');
    reveal_strlit("W0C");
    assert("W0C"@.len() == 3 && "W0C"@[0] == 'W' && "W0C"@[1] == '0' && "W0C"@[2] == 'C');
    reveal_strlit("W0S");
    assert("W0S"@.len() == 3 && "W0S"@[0] == 'W' && "W0S"@[1] == '0' && "W0S"@[2] == 'S');
    reveal_strlit("W0T");
    assert("W0T"@.len() == 3 && "W0T"@[0] == 'W' && "W0T"@[1] == '0' && "W0T"@[2] == 'T');
    reveal_strlit("WSRC");
    assert("WSRC"@.len() == 4 && "WSRC"@[0] == 'W' && "WSRC"@[1] == 'S' && "WSRC"@[2] == 'R' && "WSRC"@[3] == 'C');
    reveal_strlit("WCRS");
    assert("WCRS"@.len() == 4 && "WCRS"@[0] == 'W' && "WCRS"@[1] == 'C' && "WCRS"@[2] == 'R' && "WCRS"@[3] == 'S');
    reveal_strlit("W1SRC");
    assert("W1SRC"@.len() == 5 && "W1SRC"@[0] == 'W' && "W1SRC"@[1] == '1' && "W1SRC"@[2] == 'S' && "W1SRC"@[3] == 'R' && "W1SRC"@[4] == 'C');
    reveal_strlit("W1CRS");
    assert("W1CRS"@.len() == 5 && "W1CRS"@[0] == 'W' && "W1CRS"@[1] == '1' && "W1CRS"@[2] == 'C' && "W1CRS"@[3] == 'R' && "W1CRS"@[4] == 'S');
    reveal_strlit("W0SRC");
    assert("W0SRC"@.len() == 5 && "W0SRC"@[0] == 'W' && "W0SRC"@[1] == '0' && "W0SRC"@[2] == 'S' && "W0SRC"@[3] == 'R' && "W0SRC"@[4] == 'C');
    reveal_strlit("W0CRS");
    assert("W0CRS"@.len() == 5 && "W0CRS"@[0] == 'W' && "W0CRS"@[1] == '0' && "W0CRS"@[2] == 'C' && "W0CRS"@[3] == 'R' && "W0CRS"@[4] == 'S');
    assert(upper_text(spelling(a)) =~= spelling(a));
}

/// The case of the letters does not matter to what a code means.
pub proof fn lemma_case_is_ignored(code: Seq<char>)
    ensures
        recognized(upper_text(code)) == recognized(code),
        recognized(lower_text(code)) == recognized(code),
{
    assert(upper_text(upper_text(code)) =~= upper_text(code));
    assert(upper_text(lower_text(code)) =~= upper_text(code));
}

/// A text is refused by all three decoders or by none of them.
pub proof fn lemma_decoders_agree(code: Seq<char>)
    ensures
        access_value(code) is Some <==> recognized(code) is Some,
        modified_write_value(code) is Some <==> recognized(code) is Some,
        read_action_value(code) is Some <==> recognized(code) is Some,
{
}

} // verus!
