//! Character-level helpers: case folding, and reading and writing numbers in
//! decimal and hexadecimal notation.

use vstd::prelude::*;

verus! {

/// `String::push` appends exactly one character at the end of the string.
pub assume_specification[ String::push ](s: &mut String, c: char)
    ensures
        final(s)@ == old(s)@.push(c),
;

/// ASCII upper-casing of one character; every other character is left alone.
pub open spec fn upper(c: char) -> char {
    if 'a' <= c && c <= 'z' {
        ((c as u8) - 32) as char
    } else {
        c
    }
}

/// ASCII lower-casing of one character; every other character is left alone.
pub open spec fn lower(c: char) -> char {
    if 'A' <= c && c <= 'Z' {
        ((c as u8) + 32) as char
    } else {
        c
    }
}

/// A text with every ASCII letter upper-cased.
pub open spec fn upper_text(s: Seq<char>) -> Seq<char> {
    Seq::new(s.len(), |i: int| upper(s[i]))
}

/// A text with every ASCII letter lower-cased.
pub open spec fn lower_text(s: Seq<char>) -> Seq<char> {
    Seq::new(s.len(), |i: int| lower(s[i]))
}

/// The character with an ASCII letter capitalised.
pub fn to_upper(c: char) -> (r: char)
    ensures
        r == upper(c),
{
    if 'a' <= c && c <= 'z' {
        ((c as u8) - 32) as char
    } else {
        c
    }
}

/// The character with an ASCII letter made small.
pub fn to_lower(c: char) -> (r: char)
    ensures
        r == lower(c),
{
    if 'A' <= c && c <= 'Z' {
        ((c as u8) + 32) as char
    } else {
        c
    }
}

/// The characters of a text, in order.
pub fn chars_of(s: &str) -> (v: Vec<char>)
    ensures
        v@ == s@,
{
    let mut v: Vec<char> = Vec::new();
    for c in it: s.chars()
        invariant
            it.seq() == s@,
            v@ == s@.take(it.index() as int),
    {
        v.push(c);
    }
    v
}

/// Whether two sequences of characters are the same.
pub fn same_chars(a: &Vec<char>, b: &Vec<char>) -> (r: bool)
    ensures
        r == (a@ == b@),
{
    if a.len() != b.len() {
        return false;
    }
    let mut i: usize = 0;
    while i < a.len()
        invariant
            i <= a.len(),
            a.len() == b.len(),
            forall|j: int| 0 <= j < i ==> a@[j] == b@[j],
        decreases a.len() - i,
    {
        if a[i] != b[i] {
            return false;
        }
        i += 1;
    }
    assert(a@ =~= b@);
    true
}

/// Whether two texts are the same.
pub fn same_text(a: &str, b: &str) -> (r: bool)
    ensures
        r == (a@ == b@),
{
    let x = chars_of(a);
    let y = chars_of(b);
    same_chars(&x, &y)
}

/// The text with every ASCII letter lower-cased.
pub fn to_lower_text(s: &str) -> (r: String)
    ensures
        r@ == lower_text(s@),
{
    let v = chars_of(s);
    let mut r = String::new();
    let mut i: usize = 0;
    while i < v.len()
        invariant
            i <= v.len(),
            v@ == s@,
            r@ == lower_text(s@).take(i as int),
        decreases v.len() - i,
    {
        r.push(to_lower(v[i]));
        i += 1;
    }
    r
}

/// Whether `c` is one of `0`..`9`, `a`..`f`, `A`..`F`.
pub open spec fn is_hex_digit(c: char) -> bool {
    ('0' <= c && c <= '9') || ('a' <= c && c <= 'f') || ('A' <= c && c <= 'F')
}

/// The value of a hexadecimal digit; 0 for any other character.
pub open spec fn digit_value(c: char) -> nat {
    if '0' <= c && c <= '9' {
        (c as u8 - 48) as nat
    } else if 'a' <= c && c <= 'f' {
        (c as u8 - 87) as nat
    } else if 'A' <= c && c <= 'F' {
        (c as u8 - 55) as nat
    } else {
        0
    }
}

/// Whether `c` is a digit of the positional system with the given radix
/// (at most 16).
pub open spec fn is_digit_in(c: char, radix: nat) -> bool {
    is_hex_digit(c) && digit_value(c) < radix
}

/// Whether every character of `s` is a digit in the given radix.
pub open spec fn all_digits_in(s: Seq<char>, radix: nat) -> bool {
    forall|i: int| 0 <= i < s.len() ==> is_digit_in(#[trigger] s[i], radix)
}

/// The number that the digit string `s` denotes in the given radix, most
/// significant digit first.
pub open spec fn value_in(s: Seq<char>, radix: nat) -> nat
    decreases s.len(),
{
    if s.len() == 0 {
        0
    } else {
        value_in(s.drop_last(), radix) * radix + digit_value(s.last())
    }
}

/// The number that `s` denotes, when `s` is a non-empty digit string in the
/// given radix and denotes at most `max`.
pub open spec fn unsigned_in(s: Seq<char>, radix: nat, max: nat) -> Option<nat> {
    if s.len() > 0 && all_digits_in(s, radix) && value_in(s, radix) <= max {
        Some(value_in(s, radix))
    } else {
        None
    }
}

/// A prefix of a digit string never denotes more than the whole string.
pub proof fn lemma_value_in_prefix(s: Seq<char>, radix: nat, i: int)
    requires
        0 <= i <= s.len(),
        radix >= 1,
    ensures
        value_in(s.take(i), radix) <= value_in(s, radix),
    decreases s.len(),
{
    if i == s.len() {
        assert(s.take(i) =~= s);
    } else {
        assert(s.take(i) =~= s.drop_last().take(i));
        lemma_value_in_prefix(s.drop_last(), radix, i);
        let x = value_in(s.drop_last(), radix);
        assert(x * radix >= x) by (nonlinear_arith)
            requires
                radix >= 1,
                x >= 0,
        ;
    }
}

fn digit_of(c: char) -> (d: Option<u64>)
    ensures
        d is Some <==> is_hex_digit(c),
        d matches Some(v) ==> v == digit_value(c),
{
    if '0' <= c && c <= '9' {
        Some((c as u8 - 48) as u64)
    } else if 'a' <= c && c <= 'f' {
        Some((c as u8 - 87) as u64)
    } else if 'A' <= c && c <= 'F' {
        Some((c as u8 - 55) as u64)
    } else {
        None
    }
}

/// Reads a non-empty digit string in the given radix, refusing any other
/// character and any number above `max`.
fn parse_unsigned(s: &Vec<char>, radix: u64, max: u64) -> (r: Option<u64>)
    requires
        1 <= radix <= 16,
        max <= 0x1_0000_0000,
    ensures
        r matches Some(v) ==> unsigned_in(s@, radix as nat, max as nat) == Some(v as nat),
        r is None ==> unsigned_in(s@, radix as nat, max as nat) is None,
{
    if s.len() == 0 {
        return None;
    }
    let mut acc: u64 = 0;
    let mut i: usize = 0;
    while i < s.len()
        invariant
            i <= s.len(),
            1 <= radix <= 16,
            max <= 0x1_0000_0000,
            acc <= max,
            acc == value_in(s@.take(i as int), radix as nat),
            all_digits_in(s@.take(i as int), radix as nat),
        decreases s.len() - i,
    {
        let c = s[i];
        proof {
            assert(s@.take(i + 1).drop_last() =~= s@.take(i as int));
            assert(s@.take(i + 1).last() == c);
        }
        match digit_of(c) {
            Some(d) => {
                if d >= radix {
                    assert(!is_digit_in(s@[i as int], radix as nat));
                    return None;
                }
                assert(acc * radix + d <= 0x1_0000_0000 * 16 + 16) by (nonlinear_arith)
                    requires
                        acc <= 0x1_0000_0000,
                        radix <= 16,
                        d < 16,
                ;
                let next = acc * radix + d;
                if next > max {
                    proof {
                        lemma_value_in_prefix(s@, radix as nat, i + 1);
                    }
                    return None;
                }
                acc = next;
            },
            None => {
                assert(!is_digit_in(s@[i as int], radix as nat));
                return None;
            },
        }
        i += 1;
    }
    assert(s@.take(i as int) =~= s@);
    Some(acc)
}

/// The decimal number that a text denotes, if it is a non-empty string of
/// the digits `0`..`9` and fits in 32 bits.
pub open spec fn decimal_u32(s: Seq<char>) -> Option<u32> {
    match unsigned_in(s, 10, u32::MAX as nat) {
        Some(v) => Some(v as u32),
        None => None,
    }
}

/// The hexadecimal number that a text denotes, if it is a non-empty string
/// of hexadecimal digits and fits in 32 bits.
pub open spec fn hex_u32(s: Seq<char>) -> Option<u32> {
    match unsigned_in(s, 16, u32::MAX as nat) {
        Some(v) => Some(v as u32),
        None => None,
    }
}

/// Reads an unsigned decimal number of at most 32 bits.
pub fn parse_u32(s: &str) -> (r: Option<u32>)
    ensures
        r == decimal_u32(s@),
{
    let v = chars_of(s);
    match parse_unsigned(&v, 10, 0xffff_ffff) {
        Some(n) => Some(n as u32),
        None => None,
    }
}

/// Reads a hexadecimal number of at most 32 bits, without any prefix.
pub fn parse_hex_u32(s: &str) -> (r: Option<u32>)
    ensures
        r == hex_u32(s@),
{
    let v = chars_of(s);
    match parse_unsigned(&v, 16, 0xffff_ffff) {
        Some(n) => Some(n as u32),
        None => None,
    }
}

/// The signed decimal number that a text denotes: an optional `+` or `-`,
/// then a non-empty string of the digits `0`..`9`, within 32 signed bits.
pub open spec fn decimal_i32(s: Seq<char>) -> Option<i32> {
    if s.len() > 0 && s[0] == '-' {
        match unsigned_in(s.drop_first(), 10, 0x8000_0000) {
            Some(v) => Some((-(v as int)) as i32),
            None => None,
        }
    } else if s.len() > 0 && s[0] == '+' {
        match unsigned_in(s.drop_first(), 10, 0x7fff_ffff) {
            Some(v) => Some(v as i32),
            None => None,
        }
    } else {
        match unsigned_in(s, 10, 0x7fff_ffff) {
            Some(v) => Some(v as i32),
            None => None,
        }
    }
}

/// Reads a signed decimal number of at most 32 bits.
pub fn parse_i32(s: &str) -> (r: Option<i32>)
    ensures
        r == decimal_i32(s@),
{
    let mut v = chars_of(s);
    if v.len() > 0 && v[0] == '-' {
        v.remove(0);
        assert(v@ =~= s@.drop_first());
        match parse_unsigned(&v, 10, 0x8000_0000) {
            Some(n) => Some((0 - (n as i64)) as i32),
            None => None,
        }
    } else if v.len() > 0 && v[0] == '+' {
        v.remove(0);
        assert(v@ =~= s@.drop_first());
        match parse_unsigned(&v, 10, 0x7fff_ffff) {
            Some(n) => Some(n as i32),
            None => None,
        }
    } else {
        match parse_unsigned(&v, 10, 0x7fff_ffff) {
            Some(n) => Some(n as i32),
            None => None,
        }
    }
}

/// The character that writes a digit below 16, with capital letters above 9.
pub open spec fn digit_char(d: nat) -> char {
    if d < 10 {
        ((48 + d) as u8) as char
    } else {
        ((55 + d) as u8) as char
    }
}

/// Decimal notation of a number, without leading zeros.
pub open spec fn decimal_text(n: nat) -> Seq<char>
    decreases n,
{
    if n < 10 {
        seq![digit_char(n)]
    } else {
        decimal_text(n / 10).push(digit_char(n % 10))
    }
}

/// Hexadecimal notation of a number, with capital letters and without
/// leading zeros.
pub open spec fn hex_text(n: nat) -> Seq<char>
    decreases n,
{
    if n < 16 {
        seq![digit_char(n)]
    } else {
        hex_text(n / 16).push(digit_char(n % 16))
    }
}

/// Reading back a number written in decimal gives the number again.
pub proof fn lemma_decimal_round_trip(n: nat)
    ensures
        decimal_text(n).len() > 0,
        all_digits_in(decimal_text(n), 10),
        value_in(decimal_text(n), 10) == n,
    decreases n,
{
    let t = decimal_text(n);
    if n < 10 {
        assert(t.drop_last() =~= Seq::<char>::empty());
        assert(value_in(t.drop_last(), 10) == 0);
    } else {
        lemma_decimal_round_trip(n / 10);
        let q = decimal_text(n / 10);
        assert(t.drop_last() =~= q);
        assert(t.last() == digit_char(n % 10));
        assert forall|i: int| 0 <= i < t.len() implies is_digit_in(#[trigger] t[i], 10) by {
            if i < q.len() {
                assert(t[i] == q[i]);
            }
        }
    }
}

/// Reading back a number written in hexadecimal gives the number again.
pub proof fn lemma_hex_round_trip(n: nat)
    ensures
        hex_text(n).len() > 0,
        all_digits_in(hex_text(n), 16),
        value_in(hex_text(n), 16) == n,
    decreases n,
{
    let t = hex_text(n);
    if n < 16 {
        assert(t.drop_last() =~= Seq::<char>::empty());
        assert(value_in(t.drop_last(), 16) == 0);
    } else {
        lemma_hex_round_trip(n / 16);
        let q = hex_text(n / 16);
        assert(t.drop_last() =~= q);
        assert(t.last() == digit_char(n % 16));
        assert forall|i: int| 0 <= i < t.len() implies is_digit_in(#[trigger] t[i], 16) by {
            if i < q.len() {
                assert(t[i] == q[i]);
            }
        }
    }
}

fn digit_to_char(d: u64) -> (c: char)
    requires
        d < 16,
    ensures
        c == digit_char(d as nat),
{
    if d < 10 {
        ((48 + d) as u8) as char
    } else {
        ((55 + d) as u8) as char
    }
}

/// Appends the decimal notation of `n`.
pub fn push_decimal(out: &mut String, n: u64)
    ensures
        final(out)@ == old(out)@ + decimal_text(n as nat),
    decreases n,
{
    if n >= 10 {
        push_decimal(out, n / 10);
    }
    out.push(digit_to_char(n % 10));
    assert(out@ =~= old(out)@ + decimal_text(n as nat));
}

/// Appends the hexadecimal notation of `n`, with capital letters.
pub fn push_hex(out: &mut String, n: u64)
    ensures
        final(out)@ == old(out)@ + hex_text(n as nat),
    decreases n,
{
    if n >= 16 {
        push_hex(out, n / 16);
    }
    out.push(digit_to_char(n % 16));
    assert(out@ =~= old(out)@ + hex_text(n as nat));
}

} // verus!
