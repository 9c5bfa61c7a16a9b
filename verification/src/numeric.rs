//! Digit classification and radix parsing for numeric character references.

use vstd::prelude::*;

verus! {

/// True of the decimal digit characters `0` through `9`.
pub open spec fn is_dec_digit(c: char) -> bool {
    '0' as int <= c as int <= '9' as int
}

/// True of the hexadecimal digit characters, in either case.
pub open spec fn is_hex_digit_char(c: char) -> bool {
    ||| is_dec_digit(c)
    ||| 'a' as int <= c as int <= 'f' as int
    ||| 'A' as int <= c as int <= 'F' as int
}

/// True when `c` may continue the digit run of a numeric reference:
/// hexadecimal digits after `&#x`, decimal digits after `&#`.
pub open spec fn digit_ok(c: char, hex: bool) -> bool {
    if hex {
        is_hex_digit_char(c)
    } else {
        is_dec_digit(c)
    }
}

/// Numeric value of one digit character.
pub open spec fn digit_val(c: char, hex: bool) -> nat
    recommends
        digit_ok(c, hex),
{
    if is_dec_digit(c) {
        (c as int - '0' as int) as nat
    } else if 'a' as int <= c as int <= 'f' as int {
        (c as int - 'a' as int + 10) as nat
    } else {
        (c as int - 'A' as int + 10) as nat
    }
}

/// The radix a numeric reference declares: 16 after `&#x`, 10 after `&#`.
pub open spec fn radix_of(hex: bool) -> nat {
    if hex {
        16
    } else {
        10
    }
}

/// Unbounded value of a digit string read in the declared radix,
/// most significant digit first.
pub open spec fn parse_digits(s: Seq<char>, hex: bool) -> nat
    decreases s.len(),
{
    if s.len() == 0 {
        0
    } else {
        parse_digits(s.drop_last(), hex) * radix_of(hex) + digit_val(s.last(), hex)
    }
}

/// True of the code points that are Unicode scalar values: everything up to
/// `0x10FFFF` except the surrogate range.
pub open spec fn valid_scalar(n: u32) -> bool {
    n < 0xD800 || (0xE000 <= n && n <= 0x10FFFF)
}

/// What a digit string between `&#`/`&#x` and `;` resolves to.
pub enum NumOutcome {
    /// No digits at all, or a value past `u32::MAX`: the escape is malformed.
    Malformed,
    /// A `u32` value that is no Unicode scalar value.
    Invalid,
    /// The character whose scalar value the digits spell.
    Resolved(char),
}

/// The resolution of the digit run of a numeric character reference.
pub open spec fn numeric_outcome(digits: Seq<char>, hex: bool) -> NumOutcome {
    if digits.len() == 0 || parse_digits(digits, hex) > u32::MAX {
        NumOutcome::Malformed
    } else if !valid_scalar(parse_digits(digits, hex) as u32) {
        NumOutcome::Invalid
    } else {
        NumOutcome::Resolved((parse_digits(digits, hex) as u32) as char)
    }
}

/// Relies on char::from_u32 of std: it returns `Some` exactly on Unicode
/// scalar values (all code points up to 0x10FFFF except the surrogates),
/// and the returned char has the given value.
pub assume_specification[ char::from_u32 ](n: u32) -> (r: Option<char>)
    ensures
        r is Some <==> valid_scalar(n),
        r matches Some(c) ==> c as u32 == n,
;

/// Appending one digit multiplies the parsed prefix by the radix; the value
/// of a digit string never shrinks as digits are appended.
proof fn lemma_parse_digits_step(s: Seq<char>, i: int, hex: bool)
    requires
        0 <= i < s.len(),
    ensures
        parse_digits(s.take(i + 1), hex) == parse_digits(s.take(i), hex) * radix_of(hex)
            + digit_val(s[i], hex),
        parse_digits(s.take(i + 1), hex) >= parse_digits(s.take(i), hex),
{
    assert(s.take(i + 1).drop_last() =~= s.take(i));
    assert(s.take(i + 1).last() == s[i]);
    let p = parse_digits(s.take(i), hex);
    let r = radix_of(hex);
    assert(p * r >= p) by (nonlinear_arith)
        requires
            p >= 0,
            r >= 10,
    ;
}

/// Value of one digit character, as executable code.
fn digit_value(c: char, hex: bool) -> (r: u32)
    requires
        digit_ok(c, hex),
    ensures
        r == digit_val(c, hex),
        r < radix_of(hex),
{
    let n = c as u32;
    if n >= '0' as u32 && n <= '9' as u32 {
        n - '0' as u32
    } else if n >= 'a' as u32 && n <= 'f' as u32 {
        n - 'a' as u32 + 10
    } else {
        n - 'A' as u32 + 10
    }
}

/// Resolves the digit run of a numeric reference, exactly as
/// [`numeric_outcome`] describes: the digits of `buf` after the leading `&`
/// are read in the declared radix; no digits or overflow is
/// `MalformedNumEscape`, a value outside the Unicode scalar range is
/// `InvalidCharacter`, and otherwise the resolved character is returned.
pub fn decode_numeric(buf: &Vec<char>, hex: bool) -> (r: Result<char, crate::decode::DecodeErrKind>)
    requires
        buf@.len() >= 1,
        forall|i: int| 1 <= i < buf@.len() ==> digit_ok(#[trigger] buf@[i], hex),
    ensures
        match numeric_outcome(buf@.skip(1), hex) {
            NumOutcome::Malformed => r == Err::<char, crate::decode::DecodeErrKind>(
                crate::decode::DecodeErrKind::MalformedNumEscape,
            ),
            NumOutcome::Invalid => r == Err::<char, crate::decode::DecodeErrKind>(
                crate::decode::DecodeErrKind::InvalidCharacter,
            ),
            NumOutcome::Resolved(c) => r == Ok::<char, crate::decode::DecodeErrKind>(c),
        },
{
    let ghost digits = buf@.skip(1);
    let len = buf.len();
    if len == 1 {
        assert(digits.len() == 0);
        return Err(crate::decode::DecodeErrKind::MalformedNumEscape);
    }
    let radix: u32 = if hex { 16 } else { 10 };
    let mut acc: u64 = 0;
    let mut overflow: bool = false;
    let mut i: usize = 1;
    while i < len
        invariant
            1 <= i <= len,
            len == buf@.len(),
            digits == buf@.skip(1),
            radix == radix_of(hex),
            forall|j: int| 1 <= j < buf@.len() ==> digit_ok(#[trigger] buf@[j], hex),
            !overflow ==> acc == parse_digits(digits.take(i - 1), hex) && acc <= u32::MAX,
            overflow ==> parse_digits(digits.take(i - 1), hex) > u32::MAX,
        decreases len - i,
    {
        let d = digit_value(buf[i], hex);
        assert(digits[i - 1] == buf@[i as int]);
        proof {
            lemma_parse_digits_step(digits, i - 1, hex);
        }
        if !overflow {
            acc = acc * (radix as u64) + (d as u64);
            if acc > u32::MAX as u64 {
                overflow = true;
            }
        }
        i += 1;
    }
    assert(digits.take(len - 1) =~= digits);
    if overflow {
        return Err(crate::decode::DecodeErrKind::MalformedNumEscape);
    }
    let n = acc as u32;
    match char::from_u32(n) {
        Some(c) => {
            proof {
                vstd::utf8::char_u32_cast(c, n);
            }
            Ok(c)
        },
        None => Err(crate::decode::DecodeErrKind::InvalidCharacter),
    }
}

} // verus!
