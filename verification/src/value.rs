//! The 16-bit machine word.
//!
//! A `Value` serves both as a literal constant and as a memory address; the
//! two uses share one value space.  Identifier text that is bound neither as
//! an argument nor as a define is parsed as a numeric literal in decimal or
//! with a `0x`/`0b`/`0o` radix prefix.

use vstd::prelude::*;

verus! {

/// A 16-bit unsigned machine word, used both as a literal and as an address.
#[derive(Debug, Clone, Copy, PartialEq, Eq, Hash, Structural)]
pub struct Value(pub u16);

impl View for Value {
    type V = u16;

    open spec fn view(&self) -> u16 {
        self.0
    }
}

impl Value {
    pub fn new(value: u16) -> (r: Value)
        ensures
            r@ == value,
    {
        Value(value)
    }

    pub fn get(&self) -> (r: u16)
        ensures
            r == self@,
    {
        self.0
    }

    /// The address of the command after one that starts at `self`:
    /// five bytes further on, or `None` when that would not fit in a word.
    pub fn next_command(&self) -> (r: Option<Value>)
        ensures
            self@ + 5 <= u16::MAX ==> r is Some && r->0@ == self@ + 5,
            self@ + 5 > u16::MAX ==> r is None,
    {
        match self.0.checked_add(5) {
            Some(v) => Some(Value(v)),
            None => None,
        }
    }

    /// Parses identifier text as a numeric literal.
    pub fn parse_literal(s: &str) -> (r: Option<Value>)
        ensures
            match parse_value(s@) {
                Some(v) => r is Some && r->0@ == v,
                None => r is None,
            },
    {
        let cs = chars_vec(s);
        let radix: u16;
        let start: usize;
        if cs.len() >= 2 && cs[0] == '0' && cs[1] == 'x' {
            radix = 16;
            start = 2;
        } else if cs.len() >= 2 && cs[0] == '0' && cs[1] == 'b' {
            radix = 2;
            start = 2;
        } else if cs.len() >= 2 && cs[0] == '0' && cs[1] == 'o' {
            radix = 8;
            start = 2;
        } else {
            radix = 10;
            start = 0;
        }
        proof {
            assert(cs@.skip(0) =~= cs@);
        }
        match parse_radix_exec(&cs, start, radix) {
            Some(v) => Some(Value(v)),
            None => None,
        }
    }

    /// Renders the word as `0x` followed by four lower-case hex digits.
    pub fn to_hex(&self) -> (r: String)
        ensures
            r@ == hex_literal(self@),
    {
        let mut s = String::new();
        s.append(hex_digit_str(self.0 / 4096));
        s.append(hex_digit_str((self.0 / 256) % 16));
        s.append(hex_digit_str((self.0 / 16) % 16));
        s.append(hex_digit_str(self.0 % 16));
        let mut r = String::new();
        r.append("0x");
        r.append(s.as_str());
        proof {
            reveal_strlit("0x");
            assert(r@ =~= hex_literal(self@));
        }
        r
    }
}

/// The value of `c` as a digit, when it is one that radix `radix` admits.
pub open spec fn digit_value(c: char, radix: u16) -> Option<u16> {
    let u = c as int;
    let d: int = if 48 <= u && u <= 57 {
        u - 48
    } else if 97 <= u && u <= 122 {
        u - 97 + 10
    } else if 65 <= u && u <= 90 {
        u - 65 + 10
    } else {
        99
    };
    if d < radix {
        Some(d as u16)
    } else {
        None
    }
}

/// Folds digits left to right onto `acc`; `None` on an invalid digit or
/// when the value leaves the 16-bit range.
pub open spec fn parse_digits(s: Seq<char>, radix: u16, acc: int) -> Option<int>
    decreases s.len(),
{
    if s.len() == 0 {
        Some(acc)
    } else {
        match digit_value(s[0], radix) {
            Some(d) => {
                let acc2 = acc * radix + d;
                if acc2 > 0xFFFF {
                    None
                } else {
                    parse_digits(s.drop_first(), radix, acc2)
                }
            },
            None => None,
        }
    }
}

/// True when every character is a valid zero digit, so that a `-` sign still
/// yields the value zero.
pub open spec fn all_zero_digits(s: Seq<char>, radix: u16) -> bool
    decreases s.len(),
{
    if s.len() == 0 {
        true
    } else {
        digit_value(s[0], radix) == Some(0u16) && all_zero_digits(s.drop_first(), radix)
    }
}

/// Digit-sequence parsing after the radix prefix: an optional single sign,
/// then at least one digit.  A `-` sign is accepted only over zero digits.
pub open spec fn parse_radix(s: Seq<char>, radix: u16) -> Option<u16> {
    if s.len() == 0 {
        None
    } else if s[0] == '+' {
        if s.len() == 1 {
            None
        } else {
            match parse_digits(s.drop_first(), radix, 0) {
                Some(v) => Some(v as u16),
                None => None,
            }
        }
    } else if s[0] == '-' {
        if s.len() > 1 && all_zero_digits(s.drop_first(), radix) {
            Some(0u16)
        } else {
            None
        }
    } else {
        match parse_digits(s, radix, 0) {
            Some(v) => Some(v as u16),
            None => None,
        }
    }
}

/// The redirect rule's last resort: the identifier text read as a number,
/// decimal by default or with a `0x`, `0b` or `0o` prefix.
pub open spec fn parse_value(s: Seq<char>) -> Option<u16> {
    if s.len() >= 2 && s[0] == '0' && s[1] == 'x' {
        parse_radix(s.skip(2), 16)
    } else if s.len() >= 2 && s[0] == '0' && s[1] == 'b' {
        parse_radix(s.skip(2), 2)
    } else if s.len() >= 2 && s[0] == '0' && s[1] == 'o' {
        parse_radix(s.skip(2), 8)
    } else {
        parse_radix(s, 10)
    }
}

/// The hex digit character for `d < 16`.
pub open spec fn hex_digit(d: u16) -> char {
    if d == 0 { '0' } else if d == 1 { '1' } else if d == 2 { '2' } else if d == 3 { '3' }
    else if d == 4 { '4' } else if d == 5 { '5' } else if d == 6 { '6' } else if d == 7 { '7' }
    else if d == 8 { '8' } else if d == 9 { '9' } else if d == 10 { 'a' } else if d == 11 { 'b' }
    else if d == 12 { 'c' } else if d == 13 { 'd' } else if d == 14 { 'e' } else { 'f' }
}

/// Four hex digits, most significant first.
pub open spec fn hex4(v: u16) -> Seq<char> {
    seq![
        hex_digit(v / 4096),
        hex_digit((v / 256) % 16),
        hex_digit((v / 16) % 16),
        hex_digit(v % 16),
    ]
}

/// The conventional rendering of a word: `0x` and four hex digits.
pub open spec fn hex_literal(v: u16) -> Seq<char> {
    seq!['0', 'x'] + hex4(v)
}

/// The characters of `s`, in order.
fn chars_vec(s: &str) -> (r: Vec<char>)
    ensures
        r@ == s@,
{
    broadcast use vstd::string::next_postcondition;
    broadcast use vstd::string::axiom_spec_iter;

    let mut it = s.chars();
    let mut r: Vec<char> = Vec::new();
    loop
        invariant
            vstd::std_specs::iter::IteratorSpec::obeys_prophetic_iter_laws(&it),
            vstd::std_specs::iter::IteratorSpec::decrease(&it) is Some,
            r@ + vstd::std_specs::iter::IteratorSpec::remaining(&it) == s@,
        decreases vstd::std_specs::iter::IteratorSpec::decrease(&it)->0,
    {
        match it.next() {
            Some(c) => {
                r.push(c);
            },
            None => {
                proof {
                    assert(r@ =~= s@);
                }
                return r;
            },
        }
    }
}

fn digit_exec(c: char, radix: u16) -> (r: Option<u16>)
    ensures
        r == digit_value(c, radix),
{
    let u = c as u32;
    let d: u32 = if 48 <= u && u <= 57 {
        u - 48
    } else if 97 <= u && u <= 122 {
        u - 97 + 10
    } else if 65 <= u && u <= 90 {
        u - 65 + 10
    } else {
        99
    };
    if d < radix as u32 {
        Some(d as u16)
    } else {
        None
    }
}

fn parse_radix_exec(cs: &Vec<char>, start: usize, radix: u16) -> (r: Option<u16>)
    requires
        start <= cs@.len(),
        2 <= radix <= 16,
    ensures
        r == parse_radix(cs@.skip(start as int), radix),
{
    let len = cs.len();
    if start == len {
        return None;
    }
    let first = cs[start];
    proof {
        assert(cs@.skip(start as int).drop_first() =~= cs@.skip(start as int + 1));
        assert(cs@.skip(start as int)[0] == cs@[start as int]);
    }
    if first == '+' {
        if start + 1 == len {
            return None;
        }
        match parse_digits_exec(cs, start + 1, radix) {
            Some(v) => Some(v),
            None => None,
        }
    } else if first == '-' {
        if start + 1 == len {
            return None;
        }
        if zero_digits_exec(cs, start + 1, radix) {
            Some(0)
        } else {
            None
        }
    } else {
        proof {
            assert(cs@.skip(start as int).drop_first() =~= cs@.skip(start as int + 1));
        }
        match parse_digits_exec(cs, start, radix) {
            Some(v) => Some(v),
            None => None,
        }
    }
}

fn parse_digits_exec(cs: &Vec<char>, start: usize, radix: u16) -> (r: Option<u16>)
    requires
        start <= cs@.len(),
        2 <= radix <= 16,
    ensures
        match parse_digits(cs@.skip(start as int), radix, 0) {
            Some(v) => r is Some && r->0 == v,
            None => r is None,
        },
{
    let len = cs.len();
    let mut acc: u32 = 0;
    let mut i: usize = start;
    while i < len
        invariant
            start <= i <= len,
            len == cs@.len(),
            2 <= radix <= 16,
            acc <= 0xFFFF,
            parse_digits(cs@.skip(start as int), radix, 0) == parse_digits(
                cs@.skip(i as int),
                radix,
                acc as int,
            ),
        decreases len - i,
    {
        proof {
            assert(cs@.skip(i as int).drop_first() =~= cs@.skip(i as int + 1));
            assert(cs@.skip(i as int)[0] == cs@[i as int]);
        }
        match digit_exec(cs[i], radix) {
            Some(d) => {
                proof {
                    assert(acc as int * radix as int <= 0xFFFF * 16) by (nonlinear_arith)
                        requires
                            acc <= 0xFFFF,
                            radix <= 16,
                    ;
                }
                let acc2: u32 = acc * radix as u32 + d as u32;
                if acc2 > 0xFFFF {
                    return None;
                }
                acc = acc2;
            },
            None => {
                return None;
            },
        }
        i = i + 1;
    }
    proof {
        assert(cs@.skip(len as int) =~= Seq::<char>::empty());
    }
    Some(acc as u16)
}

fn zero_digits_exec(cs: &Vec<char>, start: usize, radix: u16) -> (r: bool)
    requires
        start <= cs@.len(),
        2 <= radix <= 16,
    ensures
        r == all_zero_digits(cs@.skip(start as int), radix),
{
    let len = cs.len();
    let mut i: usize = start;
    while i < len
        invariant
            start <= i <= len,
            len == cs@.len(),
            2 <= radix <= 16,
            all_zero_digits(cs@.skip(start as int), radix) == all_zero_digits(
                cs@.skip(i as int),
                radix,
            ),
        decreases len - i,
    {
        proof {
            assert(cs@.skip(i as int).drop_first() =~= cs@.skip(i as int + 1));
            assert(cs@.skip(i as int)[0] == cs@[i as int]);
        }
        match digit_exec(cs[i], radix) {
            Some(d) => {
                if d != 0 {
                    return false;
                }
            },
            None => {
                return false;
            },
        }
        i = i + 1;
    }
    proof {
        assert(cs@.skip(len as int) =~= Seq::<char>::empty());
    }
    true
}

fn hex_digit_str(d: u16) -> (r: &'static str)
    requires
        d < 16,
    ensures
        r@ == seq![hex_digit(d)],
{
    proof {
        reveal_strlit("0");
        reveal_strlit("1");
        reveal_strlit("2");
        reveal_strlit("3");
        reveal_strlit("4");
        reveal_strlit("5");
        reveal_strlit("6");
        reveal_strlit("7");
        reveal_strlit("8");
        reveal_strlit("9");
        reveal_strlit("a");
        reveal_strlit("b");
        reveal_strlit("c");
        reveal_strlit("d");
        reveal_strlit("e");
        reveal_strlit("f");
    }
    let r: &'static str = if d == 0 { "0" } else if d == 1 { "1" } else if d == 2 { "2" }
    else if d == 3 { "3" } else if d == 4 { "4" } else if d == 5 { "5" } else if d == 6 { "6" }
    else if d == 7 { "7" } else if d == 8 { "8" } else if d == 9 { "9" } else if d == 10 { "a" }
    else if d == 11 { "b" } else if d == 12 { "c" } else if d == 13 { "d" } else if d == 14 { "e" }
    else { "f" };
    proof {
        assert(r@ =~= seq![hex_digit(d)]);
    }
    r
}

} // verus!
