//! Reading the value of an integral literal.
use vstd::prelude::*;
use crate::text::{push_str, str_chars};

verus! {

/// Why a text is not a 32-bit signed integer.
#[derive(Clone, Copy, Debug, PartialEq, Eq, Structural)]
pub enum IntErrorKind {
    Empty,
    InvalidDigit,
    PosOverflow,
    NegOverflow,
}

/// The debug spelling of the error, as the standard parse error writes it.
pub open spec fn int_error_text(k: IntErrorKind) -> Seq<char> {
    match k {
        IntErrorKind::Empty => "ParseIntError { kind: Empty }"@,
        IntErrorKind::InvalidDigit => "ParseIntError { kind: InvalidDigit }"@,
        IntErrorKind::PosOverflow => "ParseIntError { kind: PosOverflow }"@,
        IntErrorKind::NegOverflow => "ParseIntError { kind: NegOverflow }"@,
    }
}

pub open spec fn digit_value(c: char) -> int {
    (c as int) - ('0' as int)
}

/// Reads the digits `ds` after the value `acc` read so far, left to right:
/// the first non-digit is an error, and so is the first digit that takes
/// the value out of the range of `i32`.
pub open spec fn spec_parse_digits(ds: Seq<char>, negative: bool, acc: int) -> Result<
    int,
    IntErrorKind,
>
    decreases ds.len(),
{
    if ds.len() == 0 {
        Ok(acc)
    } else if !('0' <= ds[0] && ds[0] <= '9') {
        Err(IntErrorKind::InvalidDigit)
    } else {
        let next = if negative {
            acc * 10 - digit_value(ds[0])
        } else {
            acc * 10 + digit_value(ds[0])
        };
        if next > i32::MAX {
            Err(IntErrorKind::PosOverflow)
        } else if next < i32::MIN {
            Err(IntErrorKind::NegOverflow)
        } else {
            spec_parse_digits(ds.skip(1), negative, next)
        }
    }
}

/// The value of `s` as a decimal `i32`, with an optional leading '+' or '-'.
pub open spec fn spec_parse_i32(s: Seq<char>) -> Result<int, IntErrorKind> {
    if s.len() == 0 {
        Err(IntErrorKind::Empty)
    } else if (s[0] == '+' || s[0] == '-') && s.len() == 1 {
        Err(IntErrorKind::InvalidDigit)
    } else if s[0] == '+' {
        spec_parse_digits(s.skip(1), false, 0)
    } else if s[0] == '-' {
        spec_parse_digits(s.skip(1), true, 0)
    } else {
        spec_parse_digits(s, false, 0)
    }
}

proof fn lemma_parse_digits_range(ds: Seq<char>, negative: bool, acc: int)
    requires
        i32::MIN <= acc <= i32::MAX,
    ensures
        spec_parse_digits(ds, negative, acc) matches Ok(v) ==> i32::MIN <= v <= i32::MAX,
    decreases ds.len(),
{
    if ds.len() > 0 && '0' <= ds[0] && ds[0] <= '9' {
        let next = if negative {
            acc * 10 - digit_value(ds[0])
        } else {
            acc * 10 + digit_value(ds[0])
        };
        if i32::MIN <= next <= i32::MAX {
            lemma_parse_digits_range(ds.skip(1), negative, next);
        }
    }
}

/// The digit chars map to 0 through 9.
fn digit_of_char(c: char) -> (d: i32)
    requires
        '0' <= c <= '9',
    ensures
        d == digit_value(c),
        0 <= d <= 9,
{
    (c as u32 - '0' as u32) as i32
}

/// Reads `text` as a decimal `i32`, as the standard `i32` parser does.
pub fn parse_i32(text: &str) -> (r: Result<i32, IntErrorKind>)
    ensures
        match spec_parse_i32(text@) {
            Ok(v) => r == Ok::<i32, IntErrorKind>(v as i32) && i32::MIN <= v <= i32::MAX,
            Err(k) => r == Err::<i32, IntErrorKind>(k),
        },
{
    let s = str_chars(text);
    if s.len() == 0 {
        return Err(IntErrorKind::Empty);
    }
    if (s[0] == '+' || s[0] == '-') && s.len() == 1 {
        return Err(IntErrorKind::InvalidDigit);
    }
    let negative = s[0] == '-';
    let start: usize = if s[0] == '+' || s[0] == '-' { 1 } else { 0 };
    let ghost ds = s@.skip(start as int);
    assert(s@.skip(0) =~= s@);
    assert(spec_parse_i32(text@) == spec_parse_digits(ds, negative, 0));
    let mut acc: i32 = 0;
    let mut i: usize = start;
    while i < s.len()
        invariant
            s@ == text@,
            start <= i <= s@.len(),
            ds == s@.skip(start as int),
            spec_parse_i32(text@) == spec_parse_digits(ds, negative, 0),
            spec_parse_digits(ds, negative, 0) == spec_parse_digits(
                s@.skip(i as int),
                negative,
                acc as int,
            ),
        decreases s@.len() - i,
    {
        let c = s[i];
        assert(s@.skip(i as int)[0] == c);
        assert(s@.skip(i as int).skip(1) =~= s@.skip(i + 1));
        if !('0' <= c && c <= '9') {
            return Err(IntErrorKind::InvalidDigit);
        }
        let d = digit_of_char(c);
        let wide: i64 = if negative {
            (acc as i64) * 10 - (d as i64)
        } else {
            (acc as i64) * 10 + (d as i64)
        };
        if wide > i32::MAX as i64 {
            return Err(IntErrorKind::PosOverflow);
        }
        if wide < i32::MIN as i64 {
            return Err(IntErrorKind::NegOverflow);
        }
        acc = wide as i32;
        i += 1;
    }
    assert(s@.skip(i as int) =~= Seq::<char>::empty());
    proof {
        lemma_parse_digits_range(ds, negative, 0);
    }
    Ok(acc)
}

/// The debug spelling of a parse error.
pub fn int_error_to_text(k: IntErrorKind) -> (s: String)
    ensures
        s@ == int_error_text(k),
{
    let mut s = String::new();
    match k {
        IntErrorKind::Empty => push_str(&mut s, "ParseIntError { kind: Empty }"),
        IntErrorKind::InvalidDigit => push_str(&mut s, "ParseIntError { kind: InvalidDigit }"),
        IntErrorKind::PosOverflow => push_str(&mut s, "ParseIntError { kind: PosOverflow }"),
        IntErrorKind::NegOverflow => push_str(&mut s, "ParseIntError { kind: NegOverflow }"),
    }
    assert(s@ =~= int_error_text(k));
    s
}

} // verus!
