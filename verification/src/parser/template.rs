//! The search expressions that read a row: whether a register name stands
//! for a series and with what bounds, where an address has its digits, and
//! where a bit range has its low end.

use crate::error::Error;
use crate::pattern::{accepts, capture, compile, expression_of, first_group, has_match, is_match};
use crate::text::{decimal_u32, hex_u32, parse_hex_u32, parse_u32};
use regex::Regex;
use vstd::prelude::*;

verus! {

/// A register name that stands for a series: any text, captured, before
/// `{n}`.
pub const TEMPLATE: &'static str = "(.*?)\\{n\\}";

/// The first member of a series: the digits after `n`, `=`, and any blanks
/// around it.
pub const FIRST: &'static str = "n\\s*=\\s*(\\d+)";

/// The last member of a series: the digits after `~` and any blanks.
pub const LAST: &'static str = "~\\s*(\\d+)";

/// The hexadecimal digits of an address, after `0x`.
pub const ADDRESS: &'static str = "0x([0-9a-fA-F]+)";

/// The low end of a bit range: the digits before `]`, after `[` and an
/// optional high end with its colon.
pub const BIT: &'static str = "\\[(?:\\d+:)?(\\d+)\\]";

/// Whether the expression compiler accepts the five expressions.
pub open spec fn expressions_accepted() -> bool {
    accepts(TEMPLATE@) && accepts(FIRST@) && accepts(LAST@) && accepts(ADDRESS@) && accepts(BIT@)
}

/// Whether a register name stands for a series.
pub open spec fn is_series(reg: Option<Seq<char>>) -> bool {
    match reg {
        Some(r) => has_match(TEMPLATE@, r),
        None => false,
    }
}

/// What the members of a series are named after.
pub open spec fn series_base(reg: Option<Seq<char>>) -> Option<Seq<char>> {
    match reg {
        Some(r) => first_group(TEMPLATE@, r),
        None => None,
    }
}

/// The number that a captured text denotes in decimal, if it denotes one
/// that fits in 32 bits.
pub open spec fn captured_number(digits: Option<Seq<char>>) -> Option<u32> {
    match digits {
        Some(d) => decimal_u32(d),
        None => None,
    }
}

/// The first member of a series, where the register name gives it.
pub open spec fn series_first(reg: Option<Seq<char>>) -> Option<u32> {
    match reg {
        Some(r) => captured_number(first_group(FIRST@, r)),
        None => None,
    }
}

/// The last member of a series, where the register name gives it.
pub open spec fn series_last(reg: Option<Seq<char>>) -> Option<u32> {
    match reg {
        Some(r) => captured_number(first_group(LAST@, r)),
        None => None,
    }
}

/// The number of an address, given the digits found in it: a blank address
/// has none; a written one must have digits that fit in 32 bits, and is
/// refused otherwise.
pub open spec fn address_number(addr: Option<Seq<char>>, digits: Option<Seq<char>>) -> Result<
    Option<u32>,
    crate::error::ErrorModel,
> {
    match addr {
        None => Ok(None),
        Some(a) => match digits {
            Some(d) => match hex_u32(d) {
                Some(v) => Ok(Some(v)),
                None => Err(crate::error::ErrorModel::ParseInt(a)),
            },
            None => Err(crate::error::ErrorModel::ParseInt(a)),
        },
    }
}

/// The digits that the address expression finds in an address.
pub open spec fn address_digits(addr: Option<Seq<char>>) -> Option<Seq<char>> {
    match addr {
        Some(a) => first_group(ADDRESS@, a),
        None => None,
    }
}

/// The number of an address.
pub open spec fn base_address(addr: Option<Seq<char>>) -> Result<Option<u32>, crate::error::ErrorModel> {
    address_number(addr, address_digits(addr))
}

/// The low end of a bit range, as it is written.
pub open spec fn bit_offset_of(bit: Option<Seq<char>>) -> Option<Seq<char>> {
    match bit {
        Some(b) => first_group(BIT@, b),
        None => None,
    }
}

/// The number that a captured text denotes in decimal.
pub fn number_of(digits: &Option<String>) -> (r: Option<u32>)
    ensures
        r == captured_number(digits.deep_view()),
{
    match digits {
        Some(d) => parse_u32(d.as_str()),
        None => None,
    }
}

/// The number of an address, given the digits found in it.
pub fn number_of_address(addr: &Option<String>, digits: &Option<String>) -> (r: Result<
    Option<u32>,
    Error,
>)
    ensures
        match address_number(addr.deep_view(), digits.deep_view()) {
            Ok(v) => r == Ok::<Option<u32>, Error>(v),
            Err(e) => r matches Err(x) && x@ == e,
        },
{
    match addr {
        None => Ok(None),
        Some(a) => {
            let value = match digits {
                Some(d) => parse_hex_u32(d.as_str()),
                None => None,
            };
            match value {
                Some(v) => Ok(Some(v)),
                None => Err(Error::ParseInt(a.clone())),
            }
        },
    }
}

/// The five expressions, compiled.
pub struct Patterns {
    template: Regex,
    first: Regex,
    last: Regex,
    address: Regex,
    bit: Regex,
}

impl Patterns {
    #[verifier::type_invariant]
    spec fn valid(&self) -> bool {
        &&& expression_of(self.template) == TEMPLATE@
        &&& expression_of(self.first) == FIRST@
        &&& expression_of(self.last) == LAST@
        &&& expression_of(self.address) == ADDRESS@
        &&& expression_of(self.bit) == BIT@
    }

    /// Compiles the five expressions.
    pub fn new() -> (r: Result<Patterns, Error>)
        ensures
            r is Ok <==> expressions_accepted(),
            r matches Err(e) ==> e@ == crate::error::ErrorModel::Regex,
    {
        let template = match compile(TEMPLATE) {
            Ok(re) => re,
            Err(e) => {
                return Err(Error::Regex(e));
            },
        };
        let first = match compile(FIRST) {
            Ok(re) => re,
            Err(e) => {
                return Err(Error::Regex(e));
            },
        };
        let last = match compile(LAST) {
            Ok(re) => re,
            Err(e) => {
                return Err(Error::Regex(e));
            },
        };
        let address = match compile(ADDRESS) {
            Ok(re) => re,
            Err(e) => {
                return Err(Error::Regex(e));
            },
        };
        let bit = match compile(BIT) {
            Ok(re) => re,
            Err(e) => {
                return Err(Error::Regex(e));
            },
        };
        Ok(Patterns { template, first, last, address, bit })
    }

    /// Whether a register name stands for a series.
    pub fn stands_for_series(&self, reg: &Option<String>) -> (b: bool)
        ensures
            b == is_series(reg.deep_view()),
    {
        proof {
            use_type_invariant(self);
        }
        match reg {
            Some(r) => is_match(&self.template, r.as_str()),
            None => false,
        }
    }

    /// What the members of a series are named after.
    pub fn base_of_series(&self, reg: &Option<String>) -> (r: Option<String>)
        ensures
            r.deep_view() == series_base(reg.deep_view()),
    {
        proof {
            use_type_invariant(self);
        }
        match reg {
            Some(r) => capture(&self.template, r.as_str()),
            None => None,
        }
    }

    /// The first member of a series, where the register name gives it.
    pub fn first_of_series(&self, reg: &Option<String>) -> (r: Option<u32>)
        ensures
            r == series_first(reg.deep_view()),
    {
        proof {
            use_type_invariant(self);
        }
        match reg {
            Some(r) => number_of(&capture(&self.first, r.as_str())),
            None => None,
        }
    }

    /// The last member of a series, where the register name gives it.
    pub fn last_of_series(&self, reg: &Option<String>) -> (r: Option<u32>)
        ensures
            r == series_last(reg.deep_view()),
    {
        proof {
            use_type_invariant(self);
        }
        match reg {
            Some(r) => number_of(&capture(&self.last, r.as_str())),
            None => None,
        }
    }

    /// The number of an address.
    pub fn address_of(&self, addr: &Option<String>) -> (r: Result<Option<u32>, Error>)
        ensures
            match base_address(addr.deep_view()) {
                Ok(v) => r == Ok::<Option<u32>, Error>(v),
                Err(e) => r matches Err(x) && x@ == e,
            },
    {
        proof {
            use_type_invariant(self);
        }
        let digits = match addr {
            Some(a) => capture(&self.address, a.as_str()),
            None => None,
        };
        number_of_address(addr, &digits)
    }

    /// The low end of a bit range, as it is written.
    pub fn bit_offset(&self, bit: &Option<String>) -> (r: Option<String>)
        ensures
            r.deep_view() == bit_offset_of(bit.deep_view()),
    {
        proof {
            use_type_invariant(self);
        }
        match bit {
            Some(b) => capture(&self.bit, b.as_str()),
            None => None,
        }
    }
}

} // verus!
