//! Decimal integer parsing (`str::parse` for integers).

use vstd::prelude::*;
use vstd::string::*;
use crate::text::{chars_of, push_char};

verus! {

broadcast use vstd::string::group_string_axioms;

/// Why a decimal integer did not parse (`std::num::IntErrorKind`).
#[derive(Debug, Clone, Copy, PartialEq, Eq, Structural)]
pub enum IntErrorKind {
    Empty,
    InvalidDigit,
    PosOverflow,
    NegOverflow,
}

impl IntErrorKind {
    /// The error's message (`ParseIntError`'s description).
    pub fn message(&self) -> (m: &'static str)
        ensures
            m@ == int_error_text(*self),
    {
        match self {
            IntErrorKind::Empty => "cannot parse integer from empty string",
            IntErrorKind::InvalidDigit => "invalid digit found in string",
            IntErrorKind::PosOverflow => "number too large to fit in target type",
            IntErrorKind::NegOverflow => "number too small to fit in target type",
        }
    }
}

/// The message of each error kind.
pub open spec fn int_error_text(k: IntErrorKind) -> Seq<char> {
    match k {
        IntErrorKind::Empty => "cannot parse integer from empty string"@,
        IntErrorKind::InvalidDigit => "invalid digit found in string"@,
        IntErrorKind::PosOverflow => "number too large to fit in target type"@,
        IntErrorKind::NegOverflow => "number too small to fit in target type"@,
    }
}

/// The value of an ASCII decimal digit.
pub open spec fn digit_value(c: char) -> Option<int> {
    if '0' <= c && c <= '9' {
        Some(c as int - '0' as int)
    } else {
        None
    }
}

/// Reading the digits `ds` after the value `acc`, up to `max`.
pub open spec fn accumulate_up(ds: Seq<char>, acc: int, max: int) -> Result<int, IntErrorKind>
    decreases ds.len(),
{
    if ds.len() == 0 {
        Ok(acc)
    } else {
        match digit_value(ds[0]) {
            None => Err(IntErrorKind::InvalidDigit),
            Some(d) => if acc * 10 + d > max {
                Err(IntErrorKind::PosOverflow)
            } else {
                accumulate_up(ds.drop_first(), acc * 10 + d, max)
            },
        }
    }
}

/// Reading the digits `ds` of a negative number after the value `acc`,
/// down to `min`.
pub open spec fn accumulate_down(ds: Seq<char>, acc: int, min: int) -> Result<int, IntErrorKind>
    decreases ds.len(),
{
    if ds.len() == 0 {
        Ok(acc)
    } else {
        match digit_value(ds[0]) {
            None => Err(IntErrorKind::InvalidDigit),
            Some(d) => if acc * 10 - d < min {
                Err(IntErrorKind::NegOverflow)
            } else {
                accumulate_down(ds.drop_first(), acc * 10 - d, min)
            },
        }
    }
}

/// An unsigned decimal no greater than `max`: an optional `+` and digits.
pub open spec fn parse_unsigned(s: Seq<char>, max: int) -> Result<int, IntErrorKind> {
    if s.len() == 0 {
        Err(IntErrorKind::Empty)
    } else if s.len() == 1 && (s[0] == '+' || s[0] == '-') {
        Err(IntErrorKind::InvalidDigit)
    } else if s[0] == '+' {
        accumulate_up(s.drop_first(), 0, max)
    } else {
        accumulate_up(s, 0, max)
    }
}

/// A signed decimal in the range of `i64`: an optional sign and digits.
pub open spec fn parse_signed(s: Seq<char>) -> Result<int, IntErrorKind> {
    if s.len() == 0 {
        Err(IntErrorKind::Empty)
    } else if s.len() == 1 && (s[0] == '+' || s[0] == '-') {
        Err(IntErrorKind::InvalidDigit)
    } else if s[0] == '-' {
        accumulate_down(s.drop_first(), 0, i64::MIN as int)
    } else if s[0] == '+' {
        accumulate_up(s.drop_first(), 0, i64::MAX as int)
    } else {
        accumulate_up(s, 0, i64::MAX as int)
    }
}

fn digit_of(c: char) -> (r: Option<u64>)
    ensures
        match r {
            Some(d) => digit_value(c) == Some(d as int) && d <= 9,
            None => digit_value(c) is None,
        },
{
    if '0' <= c && c <= '9' {
        Some((c as u32 - '0' as u32) as u64)
    } else {
        None
    }
}

fn accumulate_up_exec(v: &Vec<char>, start: usize, max: u64) -> (r: Result<u64, IntErrorKind>)
    requires
        start <= v@.len(),
    ensures
        match r {
            Ok(n) => accumulate_up(v@.skip(start as int), 0, max as int) == Ok::<int, IntErrorKind>(n as int) && n <= max,
            Err(k) => accumulate_up(v@.skip(start as int), 0, max as int) == Err::<int, IntErrorKind>(k),
        },
{
    let mut acc: u64 = 0;
    let mut i: usize = start;
    while i < v.len()
        invariant
            start <= i <= v@.len(),
            acc <= max,
            accumulate_up(v@.skip(start as int), 0, max as int) == accumulate_up(v@.skip(i as int), acc as int, max as int),
        decreases v@.len() - i,
    {
        assert(v@.skip(i as int).drop_first() == v@.skip(i + 1));
        assert(v@.skip(i as int)[0] == v@[i as int]);
        match digit_of(v[i]) {
            None => {
                return Err(IntErrorKind::InvalidDigit);
            },
            Some(d) => {
                if (acc as u128) * 10 + (d as u128) > max as u128 {
                    return Err(IntErrorKind::PosOverflow);
                }
                acc = acc * 10 + d;
            },
        }
        i = i + 1;
    }
    assert(v@.skip(i as int).len() == 0);
    Ok(acc)
}

fn accumulate_down_exec(v: &Vec<char>, start: usize) -> (r: Result<i64, IntErrorKind>)
    requires
        start <= v@.len(),
    ensures
        match r {
            Ok(n) => accumulate_down(v@.skip(start as int), 0, i64::MIN as int) == Ok::<int, IntErrorKind>(n as int),
            Err(k) => accumulate_down(v@.skip(start as int), 0, i64::MIN as int) == Err::<int, IntErrorKind>(k),
        },
{
    let mut acc: i64 = 0;
    let mut i: usize = start;
    while i < v.len()
        invariant
            start <= i <= v@.len(),
            acc <= 0,
            accumulate_down(v@.skip(start as int), 0, i64::MIN as int) == accumulate_down(v@.skip(i as int), acc as int, i64::MIN as int),
        decreases v@.len() - i,
    {
        assert(v@.skip(i as int).drop_first() == v@.skip(i + 1));
        assert(v@.skip(i as int)[0] == v@[i as int]);
        match digit_of(v[i]) {
            None => {
                return Err(IntErrorKind::InvalidDigit);
            },
            Some(d) => {
                let di = d as i64;
                if (acc as i128) * 10 - (di as i128) < i64::MIN as i128 {
                    return Err(IntErrorKind::NegOverflow);
                }
                acc = acc * 10 - di;
            },
        }
        i = i + 1;
    }
    assert(v@.skip(i as int).len() == 0);
    Ok(acc)
}

/// An unsigned decimal no greater than `max` (`u64`/`u32` `from_str`).
pub fn parse_unsigned_text(s: &str, max: u64) -> (r: Result<u64, IntErrorKind>)
    ensures
        match r {
            Ok(n) => parse_unsigned(s@, max as int) == Ok::<int, IntErrorKind>(n as int),
            Err(k) => parse_unsigned(s@, max as int) == Err::<int, IntErrorKind>(k),
        },
{
    let v = chars_of(s);
    if v.len() == 0 {
        return Err(IntErrorKind::Empty);
    }
    if v.len() == 1 && (v[0] == '+' || v[0] == '-') {
        return Err(IntErrorKind::InvalidDigit);
    }
    if v[0] == '+' {
        assert(v@.skip(1) == v@.drop_first());
        accumulate_up_exec(&v, 1, max)
    } else {
        assert(v@.skip(0) == v@);
        accumulate_up_exec(&v, 0, max)
    }
}

/// A signed decimal in the range of `i64` (`i64::from_str`).
pub fn parse_i64(s: &str) -> (r: Result<i64, IntErrorKind>)
    ensures
        match r {
            Ok(n) => parse_signed(s@) == Ok::<int, IntErrorKind>(n as int),
            Err(k) => parse_signed(s@) == Err::<int, IntErrorKind>(k),
        },
{
    let v = chars_of(s);
    if v.len() == 0 {
        return Err(IntErrorKind::Empty);
    }
    if v.len() == 1 && (v[0] == '+' || v[0] == '-') {
        return Err(IntErrorKind::InvalidDigit);
    }
    if v[0] == '-' {
        assert(v@.skip(1) == v@.drop_first());
        accumulate_down_exec(&v, 1)
    } else if v[0] == '+' {
        assert(v@.skip(1) == v@.drop_first());
        match accumulate_up_exec(&v, 1, i64::MAX as u64) {
            Ok(n) => Ok(n as i64),
            Err(k) => Err(k),
        }
    } else {
        assert(v@.skip(0) == v@);
        match accumulate_up_exec(&v, 0, i64::MAX as u64) {
            Ok(n) => Ok(n as i64),
            Err(k) => Err(k),
        }
    }
}

/// The ASCII digit character for `d` (`0 <= d <= 9`).
pub open spec fn digit_char(d: int) -> char {
    (d + '0' as int) as char
}

/// The decimal rendering of `n`: its digits, with no sign and no leading zero.
pub open spec fn decimal_text(n: nat) -> Seq<char>
    decreases n,
{
    if n < 10 {
        seq![digit_char(n as int)]
    } else {
        decimal_text(n / 10).push(digit_char((n % 10) as int))
    }
}

/// Appends the decimal rendering of `n` to `out` (the `Display` of `u64`).
pub fn append_decimal(out: &mut String, n: u64)
    ensures
        final(out)@ == old(out)@ + decimal_text(n as nat),
    decreases n,
{
    if n >= 10 {
        append_decimal(out, n / 10);
    }
    let d: u8 = (n % 10) as u8;
    let c: char = (d + 48u8) as char;
    assert(c == digit_char((n % 10) as int));
    push_char(out, c);
    assert(old(out)@ + decimal_text(n as nat) == (old(out)@ + (if n >= 10 { decimal_text((n / 10) as nat) } else { Seq::empty() })).push(c));
}

proof fn lemma_accumulate_push(ds: Seq<char>, c: char, acc: int, max: int, v: int)
    requires
        accumulate_up(ds, acc, max) == Ok::<int, IntErrorKind>(v),
        digit_value(c) is Some,
        v * 10 + digit_value(c)->0 <= max,
    ensures
        accumulate_up(ds.push(c), acc, max) == Ok::<int, IntErrorKind>(v * 10 + digit_value(c)->0),
    decreases ds.len(),
{
    let e = digit_value(c)->0;
    assert(ds.push(c)[0] == if ds.len() == 0 { c } else { ds[0] });
    if ds.len() == 0 {
        assert(v == acc);
        assert(ds.push(c).drop_first() == Seq::<char>::empty());
        assert(accumulate_up(Seq::<char>::empty(), acc * 10 + e, max) == Ok::<int, IntErrorKind>(acc * 10 + e));
    } else {
        let d = digit_value(ds[0])->0;
        assert(acc * 10 + d <= max);
        assert(ds.push(c).drop_first() == ds.drop_first().push(c));
        lemma_accumulate_push(ds.drop_first(), c, acc * 10 + d, max, v);
    }
}

proof fn lemma_decimal_accumulates(n: nat, max: int)
    requires
        n <= max,
    ensures
        accumulate_up(decimal_text(n), 0, max) == Ok::<int, IntErrorKind>(n as int),
        decimal_text(n).len() > 0,
        digit_value(decimal_text(n)[0]) is Some,
    decreases n,
{
    if n < 10 {
        let c = digit_char(n as int);
        assert(c as int == n + 48);
        assert(digit_value(c) == Some(n as int));
        assert(seq![c].drop_first() == Seq::<char>::empty());
        assert(accumulate_up(Seq::<char>::empty(), n as int, max) == Ok::<int, IntErrorKind>(n as int));
    } else {
        let q = n / 10;
        let r = n % 10;
        vstd::arithmetic::div_mod::lemma_fundamental_div_mod(n as int, 10);
        lemma_decimal_accumulates(q, max);
        lemma_accumulate_push(decimal_text(q), digit_char(r as int), 0, max, q as int);
    }
}

/// Reading back a rendered number gives the number: `decimal_text(n)` parses
/// to `n` under any bound `max` no smaller than `n`.
pub proof fn lemma_decimal_roundtrip(n: nat, max: int)
    requires
        n <= max,
    ensures
        parse_unsigned(decimal_text(n), max) == Ok::<int, IntErrorKind>(n as int),
{
    lemma_decimal_accumulates(n, max);
}

} // verus!
