//! The encoders: a minimal escape of the five characters that break out of
//! HTML markup, and a conservative attribute escape that additionally
//! hex-escapes every non-alphanumeric Latin-1 character.

use vstd::prelude::*;
use vstd::string::StrSliceExecFns;
use vstd::string::StringExecFns;

use crate::text::chars_to_string;

verus! {

/// The minimal escape table: the replacement for the five characters that
/// can break out of HTML text or attribute contexts, `None` for every
/// other character.
pub open spec fn min_entity(c: char) -> Option<Seq<char>> {
    if c == '"' {
        Some(seq!['&', 'q', 'u', 'o', 't', ';'])
    } else if c == '&' {
        Some(seq!['&', 'a', 'm', 'p', ';'])
    } else if c == '\'' {
        Some(seq!['&', '#', 'x', '2', '7', ';'])
    } else if c == '<' {
        Some(seq!['&', 'l', 't', ';'])
    } else if c == '>' {
        Some(seq!['&', 'g', 't', ';'])
    } else {
        None
    }
}

/// What the minimal encoder emits for one character: the table's
/// replacement on a hit, the character itself on a miss.
pub open spec fn min_escape(c: char) -> Seq<char> {
    match min_entity(c) {
        Some(e) => e,
        None => seq![c],
    }
}

/// What the minimal encoder emits for a whole text.
pub open spec fn encode_minimal_spec(s: Seq<char>) -> Seq<char>
    decreases s.len(),
{
    if s.len() == 0 {
        Seq::empty()
    } else {
        encode_minimal_spec(s.drop_last()) + min_escape(s.last())
    }
}

/// True of the ASCII alphanumeric characters.
pub open spec fn is_ascii_alnum(c: char) -> bool {
    ||| 'a' as int <= c as int <= 'z' as int
    ||| 'A' as int <= c as int <= 'Z' as int
    ||| '0' as int <= c as int <= '9' as int
}

/// The uppercase hexadecimal digit character for a value below 16.
pub open spec fn hex_digit_char(n: u32) -> char
    recommends
        n < 16,
{
    if n < 10 {
        (('0' as u32 + n) as u32) as char
    } else {
        (('A' as u32 + n - 10) as u32) as char
    }
}

/// True of the characters the attribute encoder escapes beyond the minimal
/// table: Latin-1 characters that are not ASCII alphanumerics.
pub open spec fn attr_hex_escaped(c: char) -> bool {
    (c as int) < 256 && (c as int > 127 || !is_ascii_alnum(c))
}

/// What the attribute encoder emits for one character: the minimal table's
/// replacement on a hit, a fixed-width `&#xHH;` reference for every other
/// non-alphanumeric Latin-1 character, the character itself otherwise.
pub open spec fn attr_escape(c: char) -> Seq<char> {
    match min_entity(c) {
        Some(e) => e,
        None => if attr_hex_escaped(c) {
            seq!['&', '#', 'x', hex_digit_char(c as u32 / 16), hex_digit_char(c as u32 % 16), ';']
        } else {
            seq![c]
        },
    }
}

/// What the attribute encoder emits for a whole text.
pub open spec fn encode_attribute_spec(s: Seq<char>) -> Seq<char>
    decreases s.len(),
{
    if s.len() == 0 {
        Seq::empty()
    } else {
        encode_attribute_spec(s.drop_last()) + attr_escape(s.last())
    }
}

/// Taking one more character encodes it after the prefix.
proof fn lemma_encode_take_step(s: Seq<char>, i: int)
    requires
        0 <= i < s.len(),
    ensures
        encode_minimal_spec(s.take(i + 1)) == encode_minimal_spec(s.take(i)) + min_escape(s[i]),
        encode_attribute_spec(s.take(i + 1)) == encode_attribute_spec(s.take(i)) + attr_escape(
            s[i],
        ),
{
    assert(s.take(i + 1).drop_last() =~= s.take(i));
    assert(s.take(i + 1).last() == s[i]);
}

/// Appends the minimal escape of `c` to `out`.
fn push_min_escape(out: &mut Vec<char>, c: char)
    ensures
        final(out)@ == old(out)@ + min_escape(c),
{
    if c == '"' {
        out.push('&');
        out.push('q');
        out.push('u');
        out.push('o');
        out.push('t');
        out.push(';');
    } else if c == '&' {
        out.push('&');
        out.push('a');
        out.push('m');
        out.push('p');
        out.push(';');
    } else if c == '\'' {
        out.push('&');
        out.push('#');
        out.push('x');
        out.push('2');
        out.push('7');
        out.push(';');
    } else if c == '<' {
        out.push('&');
        out.push('l');
        out.push('t');
        out.push(';');
    } else if c == '>' {
        out.push('&');
        out.push('g');
        out.push('t');
        out.push(';');
    } else {
        out.push(c);
    }
    proof {
        assert(out@ =~= old(out)@ + min_escape(c));
    }
}

/// The uppercase hexadecimal digit character, as executable code.
fn hex_digit(n: u32) -> (r: char)
    requires
        n < 16,
    ensures
        r == hex_digit_char(n),
{
    let v = if n < 10 {
        '0' as u32 + n
    } else {
        'A' as u32 + n - 10
    };
    proof {
        assert('0' as u32 == 48 && 'A' as u32 == 65);
        assert(valid_u32_char(v));
    }
    u32_to_char(v)
}

/// True when a `u32` is in the range where casting it to `char` is exact.
pub open spec fn valid_u32_char(v: u32) -> bool {
    crate::numeric::valid_scalar(v)
}

/// Turns a scalar value below the surrogate range into its character.
fn u32_to_char(v: u32) -> (r: char)
    requires
        valid_u32_char(v),
    ensures
        r as u32 == v,
        r == v as char,
{
    let r = char::from_u32(v);
    match r {
        Some(c) => {
            proof {
                vstd::utf8::char_u32_cast(c, v);
            }
            c
        },
        None => unreached(),
    }
}

/// Appends the attribute escape of `c` to `out`.
fn push_attr_escape(out: &mut Vec<char>, c: char)
    ensures
        final(out)@ == old(out)@ + attr_escape(c),
{
    let b = c as u32;
    let escaped = c == '"' || c == '&' || c == '\'' || c == '<' || c == '>';
    if escaped {
        push_min_escape(out, c);
    } else if b < 256 && (b > 127 || !(
    (b >= 'a' as u32 && b <= 'z' as u32) || (b >= 'A' as u32 && b <= 'Z' as u32) || (b >= '0'
        as u32 && b <= '9' as u32))) {
        out.push('&');
        out.push('#');
        out.push('x');
        out.push(hex_digit(b / 16));
        out.push(hex_digit(b % 16));
        out.push(';');
        proof {
            assert(out@ =~= old(out)@ + attr_escape(c));
        }
    } else {
        out.push(c);
        proof {
            assert(out@ =~= old(out)@ + attr_escape(c));
        }
    }
}

/// HTML entity-encodes a string with the minimal escape table.
///
/// Replaces each of `"`, `&`, `'`, `<` and `>` with its entity reference
/// and leaves every other character unchanged, exactly as
/// [`encode_minimal_spec`] describes.
///
/// Encoding an untrusted string that is placed unquoted in an HTML
/// attribute value is not safe with this escape set alone; use
/// [`encode_attribute`] there.
pub fn encode_minimal(s: &str) -> (r: String)
    ensures
        r@ == encode_minimal_spec(s@),
{
    let n = s.unicode_len();
    let mut out: Vec<char> = Vec::new();
    let mut i: usize = 0;
    while i < n
        invariant
            i <= n,
            n == s@.len(),
            out@ == encode_minimal_spec(s@.take(i as int)),
        decreases n - i,
    {
        let c = s.get_char(i);
        push_min_escape(&mut out, c);
        proof {
            lemma_encode_take_step(s@, i as int);
        }
        i += 1;
    }
    proof {
        assert(s@.take(n as int) =~= s@);
    }
    chars_to_string(&out)
}

/// HTML entity-encodes a string with the minimal escape table, appending
/// the encoded text to `writer`.
pub fn encode_minimal_w(s: &str, writer: &mut String)
    ensures
        final(writer)@ == old(writer)@ + encode_minimal_spec(s@),
{
    let encoded = encode_minimal(s);
    writer.append(encoded.as_str());
}

/// HTML entity-encodes a string for use in attribute values.
///
/// Applies the minimal escape table first; every other character of the
/// Latin-1 range that is not an ASCII alphanumeric is emitted as a
/// fixed-width hex reference `&#xHH;` with two uppercase digits, exactly
/// as [`encode_attribute_spec`] describes.
pub fn encode_attribute(s: &str) -> (r: String)
    ensures
        r@ == encode_attribute_spec(s@),
{
    let n = s.unicode_len();
    let mut out: Vec<char> = Vec::new();
    let mut i: usize = 0;
    while i < n
        invariant
            i <= n,
            n == s@.len(),
            out@ == encode_attribute_spec(s@.take(i as int)),
        decreases n - i,
    {
        let c = s.get_char(i);
        push_attr_escape(&mut out, c);
        proof {
            lemma_encode_take_step(s@, i as int);
        }
        i += 1;
    }
    proof {
        assert(s@.take(n as int) =~= s@);
    }
    chars_to_string(&out)
}

/// HTML entity-encodes a string for use in attribute values, appending the
/// encoded text to `writer`.
pub fn encode_attribute_w(s: &str, writer: &mut String)
    ensures
        final(writer)@ == old(writer)@ + encode_attribute_spec(s@),
{
    let encoded = encode_attribute(s);
    writer.append(encoded.as_str());
}

} // verus!
