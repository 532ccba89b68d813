//! Decimal numerals: what a run of digits stands for, the integers that a
//! text spells, and the text that spells an integer.
use vstd::prelude::*;
use vstd::string::*;
use crate::text::chars_of;

verus! {

/// One of the ten ASCII digits.
pub open spec fn is_digit(c: char) -> bool {
    '0' <= c && c <= '9'
}

/// The number that a digit stands for.
pub open spec fn digit_value(c: char) -> nat {
    (c as u32 - '0' as u32) as nat
}

/// The digit that stands for a number below ten.
pub open spec fn digit_char(d: nat) -> char {
    ((d + '0' as u32) as u32) as char
}

/// Every character is a digit.
pub open spec fn all_digits(s: Seq<char>) -> bool {
    forall|i: int| 0 <= i < s.len() ==> is_digit(#[trigger] s[i])
}

/// The number that a run of digits stands for in base ten.
pub open spec fn decimal_value(s: Seq<char>) -> nat
    decreases s.len(),
{
    if s.len() == 0 {
        0
    } else {
        decimal_value(s.drop_last()) * 10 + digit_value(s.last())
    }
}

/// The number that `s` spells: `s` is one or more digits and nothing else.
pub open spec fn numeral(s: Seq<char>) -> Option<nat> {
    if s.len() > 0 && all_digits(s) {
        Some(decimal_value(s))
    } else {
        None
    }
}

/// The integer that `s` spells: a numeral, with one `+` or `-` allowed in
/// front of it.
pub open spec fn signed_numeral(s: Seq<char>) -> Option<int> {
    if s.len() > 0 && s[0] == '+' {
        match numeral(s.skip(1)) {
            Some(n) => Some(n as int),
            None => None,
        }
    } else if s.len() > 0 && s[0] == '-' {
        match numeral(s.skip(1)) {
            Some(n) => Some(-(n as int)),
            None => None,
        }
    } else {
        match numeral(s) {
            Some(n) => Some(n as int),
            None => None,
        }
    }
}

/// What `s` parses to as an unsigned integer of at most `max`: it spells an
/// integer without a `-` (not even before zero), and the integer fits.
pub open spec fn parsed_unsigned(s: Seq<char>, max: nat) -> Option<nat> {
    if s.len() > 0 && s[0] == '-' {
        None
    } else {
        match signed_numeral(s) {
            Some(v) => if v <= max {
                Some(v as nat)
            } else {
                None
            },
            None => None,
        }
    }
}

/// What `s` parses to as a signed integer from `min` to `max`.
pub open spec fn parsed_signed(s: Seq<char>, min: int, max: int) -> Option<int> {
    match signed_numeral(s) {
        Some(v) => if min <= v <= max {
            Some(v)
        } else {
            None
        },
        None => None,
    }
}

/// A numeral stands for at least what any of its prefixes stands for.
pub proof fn lemma_decimal_prefix(s: Seq<char>, k: int)
    requires
        0 <= k <= s.len(),
    ensures
        decimal_value(s.take(k)) <= decimal_value(s),
    decreases s.len() - k,
{
    if k < s.len() {
        lemma_decimal_prefix(s.drop_last(), k);
        assert(s.drop_last().take(k) == s.take(k));
    } else {
        assert(s.take(k) == s);
    }
}

/// The value of the numeral `v[from..]`, where it is one and at most `limit`.
pub fn parse_magnitude(v: &Vec<char>, from: usize, limit: u64) -> (r: Option<u64>)
    requires
        from <= v.len(),
    ensures
        r == match numeral(v@.skip(from as int)) {
            Some(n) => if n <= limit {
                Some(n as u64)
            } else {
                None
            },
            None => None::<u64>,
        },
{
    let ghost s = v@.skip(from as int);
    if from == v.len() {
        return None;
    }
    let mut acc: u64 = 0;
    let mut i: usize = from;
    while i < v.len()
        invariant
            from <= i <= v.len(),
            s == v@.skip(from as int),
            all_digits(s.take(i - from)),
            acc == decimal_value(s.take(i - from)),
            acc <= limit,
        decreases v.len() - i,
    {
        let c = v[i];
        assert(s[i - from] == c);
        assert(s.take(i - from + 1).drop_last() == s.take(i - from));
        if c < '0' || c > '9' {
            return None;
        }
        let d: u64 = (c as u32 - '0' as u32) as u64;
        if d > limit || acc > (limit - d) / 10 {
            proof {
                lemma_decimal_prefix(s, i - from + 1);
            }
            return None;
        }
        acc = acc * 10 + d;
        i += 1;
    }
    assert(s.take(i - from) == s);
    Some(acc)
}

/// The integers that can be read from a decimal text.
pub trait Decimal: Sized {
    /// What a text parses to: an optional sign, then digits, and a value
    /// that the type can hold. An unsigned type takes no `-`.
    spec fn parsed(s: Seq<char>) -> Option<Self>;

    /// Reads `s` as a decimal integer of this type.
    fn parse(s: &str) -> (r: Option<Self>)
        ensures
            r == Self::parsed(s@),
    ;
}

/// Reads an unsigned integer of at most `max`.
pub fn parse_unsigned(s: &str, max: u64) -> (r: Option<u64>)
    ensures
        r == match parsed_unsigned(s@, max as nat) {
            Some(n) => Some(n as u64),
            None => None::<u64>,
        },
{
    let v = chars_of(s);
    if v.len() > 0 && v[0] == '+' {
        parse_magnitude(&v, 1, max)
    } else if v.len() > 0 && v[0] == '-' {
        None
    } else {
        assert(v@.skip(0) == v@);
        parse_magnitude(&v, 0, max)
    }
}

/// Reads a signed integer from `-below` to `max`.
pub fn parse_signed(s: &str, below: u64, max: u64) -> (r: Option<(bool, u64)>)
    requires
        below <= 0x8000_0000_0000_0000,
        max <= 0x7fff_ffff_ffff_ffff,
    ensures
        match parsed_signed(s@, -(below as int), max as int) {
            Some(n) => r == Some((n < 0, (if n < 0 {
                -n
            } else {
                n
            }) as u64)),
            None => r is None,
        },
{
    let v = chars_of(s);
    if v.len() > 0 && v[0] == '+' {
        match parse_magnitude(&v, 1, max) {
            Some(n) => Some((false, n)),
            None => None,
        }
    } else if v.len() > 0 && v[0] == '-' {
        match parse_magnitude(&v, 1, below) {
            Some(n) => Some((n > 0, n)),
            None => None,
        }
    } else {
        assert(v@.skip(0) == v@);
        match parse_magnitude(&v, 0, max) {
            Some(n) => Some((false, n)),
            None => None,
        }
    }
}

impl Decimal for u64 {
    open spec fn parsed(s: Seq<char>) -> Option<u64> {
        match parsed_unsigned(s, u64::MAX as nat) {
            Some(n) => Some(n as u64),
            None => None,
        }
    }

    fn parse(s: &str) -> (r: Option<u64>) {
        parse_unsigned(s, u64::MAX)
    }
}

impl Decimal for u32 {
    open spec fn parsed(s: Seq<char>) -> Option<u32> {
        match parsed_unsigned(s, u32::MAX as nat) {
            Some(n) => Some(n as u32),
            None => None,
        }
    }

    fn parse(s: &str) -> (r: Option<u32>) {
        match parse_unsigned(s, u32::MAX as u64) {
            Some(n) => Some(n as u32),
            None => None,
        }
    }
}

impl Decimal for usize {
    open spec fn parsed(s: Seq<char>) -> Option<usize> {
        match parsed_unsigned(s, usize::MAX as nat) {
            Some(n) => Some(n as usize),
            None => None,
        }
    }

    fn parse(s: &str) -> (r: Option<usize>) {
        match parse_unsigned(s, usize::MAX as u64) {
            Some(n) => Some(n as usize),
            None => None,
        }
    }
}

impl Decimal for i32 {
    open spec fn parsed(s: Seq<char>) -> Option<i32> {
        match parsed_signed(s, i32::MIN as int, i32::MAX as int) {
            Some(n) => Some(n as i32),
            None => None,
        }
    }

    fn parse(s: &str) -> (r: Option<i32>) {
        match parse_signed(s, 0x8000_0000, 0x7fff_ffff) {
            Some((negative, n)) => if negative {
                Some((-(n as i64)) as i32)
            } else {
                Some(n as i32)
            },
            None => None,
        }
    }
}

impl Decimal for i64 {
    open spec fn parsed(s: Seq<char>) -> Option<i64> {
        match parsed_signed(s, i64::MIN as int, i64::MAX as int) {
            Some(n) => Some(n as i64),
            None => None,
        }
    }

    fn parse(s: &str) -> (r: Option<i64>) {
        match parse_signed(s, 0x8000_0000_0000_0000, 0x7fff_ffff_ffff_ffff) {
            Some((negative, n)) => if negative {
                if n == 0x8000_0000_0000_0000 {
                    Some(i64::MIN)
                } else {
                    Some(-(n as i64))
                }
            } else {
                Some(n as i64)
            },
            None => None,
        }
    }
}

/// The decimal text of a number: its digits, most significant first, with
/// no leading zero but for zero itself.
pub open spec fn decimal_text(n: nat) -> Seq<char>
    decreases n,
{
    if n < 10 {
        seq![digit_char(n)]
    } else {
        decimal_text(n / 10).push(digit_char(n % 10))
    }
}

/// Appends the decimal text of `n` to `out`.
pub fn push_decimal(out: &mut String, n: u128)
    ensures
        final(out)@ == old(out)@ + decimal_text(n as nat),
    decreases n,
{
    if n >= 10 {
        push_decimal(out, n / 10);
    }
    let d: u8 = (n % 10) as u8;
    let c: char = (d + 48u8) as char;
    out.push(c);
}

} // verus!
