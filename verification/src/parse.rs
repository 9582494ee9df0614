//! Reading the whole numbers of the command line. A number is written as an
//! optional sign followed by one or more decimal digits and nothing else: no
//! blanks, no underscores, no digits other than `0` to `9`. Types without
//! negative values take `+` as the only sign.

use vstd::prelude::*;
use vstd::string::*;

verus! {

/// `c` is one of the ten decimal digits.
pub open spec fn is_digit(c: char) -> bool {
    '0' <= c && c <= '9'
}

/// The value of the decimal digit `c`.
pub open spec fn digit_value(c: char) -> int {
    c as int - 48
}

/// Every character of `s` is a decimal digit.
pub open spec fn all_digits(s: Seq<char>) -> bool {
    forall|i: int| 0 <= i < s.len() ==> is_digit(#[trigger] s[i])
}

/// The number that the digits of `s` write in base ten. Leading zeros
/// count for nothing, and no digits at all write zero.
pub open spec fn decimal(s: Seq<char>) -> int
    decreases s.len(),
{
    if s.len() == 0 {
        0
    } else {
        10 * decimal(s.drop_last()) + digit_value(s.last())
    }
}

/// `s` begins with a sign that a type with (`signed`) or without negative
/// values accepts.
pub open spec fn has_sign(s: Seq<char>, signed: bool) -> bool {
    s.len() > 0 && (s[0] == '+' || (signed && s[0] == '-'))
}

/// What is left of `s` when an accepted sign is taken off its front.
pub open spec fn unsigned_part(s: Seq<char>, signed: bool) -> Seq<char> {
    if has_sign(s, signed) {
        s.subrange(1, s.len() as int)
    } else {
        s
    }
}

/// The whole number that `s` writes, if it writes one: an optional sign,
/// then at least one digit, then the end of the text.
pub open spec fn integer_of(s: Seq<char>, signed: bool) -> Option<int> {
    let digits = unsigned_part(s, signed);
    if digits.len() > 0 && all_digits(digits) {
        if signed && s[0] == '-' {
            Some(-decimal(digits))
        } else {
            Some(decimal(digits))
        }
    } else {
        None
    }
}

/// The whole number that `s` writes, if it writes one that lies between
/// `min` and `max`.
pub open spec fn number_in(s: Seq<char>, signed: bool, min: int, max: int) -> Option<int> {
    match integer_of(s, signed) {
        Some(v) => if min <= v <= max {
            Some(v)
        } else {
            None
        },
        None => None,
    }
}

/// Digits never write a negative number.
pub proof fn lemma_decimal_nonnegative(s: Seq<char>)
    requires
        all_digits(s),
    ensures
        0 <= decimal(s),
    decreases s.len(),
{
    if s.len() > 0 {
        assert(is_digit(s[s.len() - 1]));
        assert(all_digits(s.drop_last())) by {
            assert forall|i: int| 0 <= i < s.drop_last().len() implies is_digit(
                #[trigger] s.drop_last()[i],
            ) by {
                assert(s.drop_last()[i] == s[i]);
            }
        }
        lemma_decimal_nonnegative(s.drop_last());
    }
}

/// Writing more digits behind a number never makes it smaller.
pub proof fn lemma_decimal_grows(s: Seq<char>, i: int)
    requires
        all_digits(s),
        0 <= i <= s.len(),
    ensures
        decimal(s.subrange(0, i)) <= decimal(s),
    decreases s.len() - i,
{
    if i == s.len() {
        assert(s.subrange(0, i) =~= s);
    } else {
        lemma_decimal_grows(s, i + 1);
        let longer = s.subrange(0, i + 1);
        assert(longer.drop_last() =~= s.subrange(0, i));
        assert(is_digit(s[i]));
        assert(longer.last() == s[i]);
        assert(all_digits(s.subrange(0, i))) by {
            assert forall|k: int| 0 <= k < i implies is_digit(#[trigger] s.subrange(0, i)[k]) by {
                assert(s.subrange(0, i)[k] == s[k]);
            }
        }
        lemma_decimal_nonnegative(s.subrange(0, i));
    }
}

/// Reads the digits of `s` from position `from` to its end as a number of
/// at most `limit`.
fn parse_digits(s: &str, from: usize, limit: u64) -> (out: Option<u64>)
    requires
        s.is_ascii(),
        from <= s@.len(),
        limit <= 0xffff_ffff,
    ensures
        ({
            let digits = s@.subrange(from as int, s@.len() as int);
            out == if digits.len() > 0 && all_digits(digits) && decimal(digits) <= limit {
                Some(decimal(digits) as u64)
            } else {
                None::<u64>
            }
        }),
{
    broadcast use is_ascii_spec_bytes;

    let bytes = s.as_bytes();
    let n: usize = bytes.len();
    let ghost digits = s@.subrange(from as int, s@.len() as int);
    assert(bytes@ =~= Seq::new(s@.len(), |i: int| s@[i] as u8));
    if from >= n {
        return None;
    }
    let mut acc: u64 = 0;
    let mut i: usize = from;
    assert(digits.subrange(0, 0) =~= Seq::<char>::empty());
    while i < n
        invariant
            from <= i <= n,
            n == s@.len(),
            s.is_ascii(),
            bytes@ == Seq::new(s@.len(), |i: int| s@[i] as u8),
            digits == s@.subrange(from as int, s@.len() as int),
            limit <= 0xffff_ffff,
            acc <= limit,
            acc == decimal(digits.subrange(0, i - from)),
            forall|k: int| 0 <= k < i - from ==> is_digit(#[trigger] digits[k]),
        decreases n - i,
    {
        let b: u8 = bytes[i];
        let ghost c: char = s@[i as int];
        assert(digits[i - from] == c);
        assert(c as u8 == b);
        assert('\0' <= c <= '\u{7f}');
        if b < 48 || b > 57 {
            assert(!is_digit(digits[i - from]));
            return None;
        }
        assert(is_digit(c));
        let ghost longer = digits.subrange(0, i - from + 1);
        assert(longer.drop_last() =~= digits.subrange(0, i - from));
        assert(longer.last() == c);
        acc = acc * 10 + (b - 48) as u64;
        assert(acc == decimal(longer));
        if acc > limit {
            proof {
                if all_digits(digits) {
                    lemma_decimal_grows(digits, i - from + 1);
                }
            }
            return None;
        }
        i += 1;
    }
    assert(digits.subrange(0, i - from) =~= digits);
    Some(acc)
}

/// A text with a character outside ASCII writes no number.
proof fn lemma_not_ascii_not_number(s: Seq<char>, signed: bool)
    requires
        !vstd::utf8::is_ascii_chars(s),
    ensures
        integer_of(s, signed) is None,
{
    let i = choose|i: int| 0 <= i < s.len() && !('\0' <= #[trigger] s[i] <= '\u{7f}');
    let digits = unsigned_part(s, signed);
    if has_sign(s, signed) {
        assert(i >= 1);
        assert(digits[i - 1] == s[i]);
        assert(!is_digit(digits[i - 1]));
    } else {
        assert(!is_digit(digits[i]));
    }
}

/// Reads a number between 0 and `max` with an optional `+` in front.
fn parse_unsigned(s: &str, max: u64) -> (out: Option<u64>)
    requires
        max <= 0xffff_ffff,
    ensures
        out is Some <==> number_in(s@, false, 0, max as int) is Some,
        out matches Some(v) ==> number_in(s@, false, 0, max as int) == Some(v as int),
{
    if !s.is_ascii() {
        proof {
            lemma_not_ascii_not_number(s@, false);
        }
        return None;
    }
    broadcast use is_ascii_spec_bytes;

    let bytes = s.as_bytes();
    assert(bytes@ =~= Seq::new(s@.len(), |i: int| s@[i] as u8));
    let from: usize = if bytes.len() > 0 && bytes[0] == 43 {
        1
    } else {
        0
    };
    proof {
        if s@.len() > 0 {
            assert('\0' <= s@[0] <= '\u{7f}');
            assert(s@[0] as u8 == bytes@[0]);
        }
        assert(unsigned_part(s@, false) =~= s@.subrange(from as int, s@.len() as int));
        if all_digits(unsigned_part(s@, false)) {
            lemma_decimal_nonnegative(unsigned_part(s@, false));
        }
    }
    parse_digits(s, from, max)
}

/// Reads a `u8`: an optional `+`, then digits that write a number of at
/// most 255.
pub fn parse_u8(s: &str) -> (out: Option<u8>)
    ensures
        out is Some <==> number_in(s@, false, 0, 255) is Some,
        out matches Some(v) ==> number_in(s@, false, 0, 255) == Some(v as int),
{
    match parse_unsigned(s, 255) {
        Some(v) => Some(v as u8),
        None => None,
    }
}

/// Reads a `u32`: an optional `+`, then digits that write a number of at
/// most 4294967295.
pub fn parse_u32(s: &str) -> (out: Option<u32>)
    ensures
        out is Some <==> number_in(s@, false, 0, 0xffff_ffff) is Some,
        out matches Some(v) ==> number_in(s@, false, 0, 0xffff_ffff) == Some(v as int),
{
    match parse_unsigned(s, 0xffff_ffff) {
        Some(v) => Some(v as u32),
        None => None,
    }
}

/// Reads an `i32`: an optional `+` or `-`, then digits that write a number
/// between -2147483648 and 2147483647.
pub fn parse_i32(s: &str) -> (out: Option<i32>)
    ensures
        out is Some <==> number_in(s@, true, -0x8000_0000, 0x7fff_ffff) is Some,
        out matches Some(v) ==> number_in(s@, true, -0x8000_0000, 0x7fff_ffff) == Some(v as int),
{
    if !s.is_ascii() {
        proof {
            lemma_not_ascii_not_number(s@, true);
        }
        return None;
    }
    broadcast use is_ascii_spec_bytes;

    let bytes = s.as_bytes();
    assert(bytes@ =~= Seq::new(s@.len(), |i: int| s@[i] as u8));
    let negative: bool = bytes.len() > 0 && bytes[0] == 45;
    let from: usize = if bytes.len() > 0 && (bytes[0] == 43 || bytes[0] == 45) {
        1
    } else {
        0
    };
    proof {
        if s@.len() > 0 {
            assert('\0' <= s@[0] <= '\u{7f}');
            assert(s@[0] as u8 == bytes@[0]);
        }
        assert(unsigned_part(s@, true) =~= s@.subrange(from as int, s@.len() as int));
        if all_digits(unsigned_part(s@, true)) {
            lemma_decimal_nonnegative(unsigned_part(s@, true));
        }
    }
    if negative {
        match parse_digits(s, from, 0x8000_0000) {
            Some(v) => Some((0 - v as i64) as i32),
            None => None,
        }
    } else {
        match parse_digits(s, from, 0x7fff_ffff) {
            Some(v) => Some(v as i32),
            None => None,
        }
    }
}

} // verus!
