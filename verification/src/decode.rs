//! The decoding state machine: a single forward pass over the input
//! characters that recognizes `&name;`, `&#NNN;` and `&#xHHH;` references
//! and replaces each with the text it stands for.
//!
//! The machine runs in one of two modes. Strict mode stops at the first
//! malformed reference and reports its kind together with the position of
//! the last cleanly resolved content. Sloppy mode recovers: an unknown
//! named reference is emitted verbatim, a malformed numeric reference and
//! an unterminated trailing fragment are dropped. A syntactically valid
//! numeric reference whose value is no Unicode scalar value is an error in
//! both modes.

use vstd::prelude::*;
use vstd::string::StrSliceExecFns;

use crate::entity_table::entity_lookup;
use crate::entity_table::lookup_entity;
use crate::numeric::NumOutcome;
use crate::numeric::decode_numeric;
use crate::numeric::digit_ok;
use crate::numeric::is_dec_digit;
use crate::numeric::is_hex_digit_char;
use crate::numeric::numeric_outcome;
use crate::text::append_str_chars;
use crate::text::append_vec_chars;
use crate::text::chars_to_string;

verus! {

/// What went wrong while decoding.
#[derive(Clone, Copy, Debug, PartialEq, Eq, Structural)]
pub enum DecodeErrKind {
    /// A named entity that the table does not know was referenced,
    /// for example `&thisentitydoesnotexist;`.
    UnknownEntity,
    /// A numeric escape sequence (`&#` or `&#x`) held an invalid character
    /// or a value too large to parse, for example `&#32a;` or `&#xfoo;`.
    MalformedNumEscape,
    /// A numeric escape sequence resolved to a value that is no Unicode
    /// scalar value, for example `&#xffffff;`.
    InvalidCharacter,
    /// The input ended inside an unterminated entity reference.
    PrematureEnd,
    /// An underlying source or sink failed; never produced when decoding
    /// an in-memory string.
    IoError,
    /// The underlying source produced bytes that are not valid UTF-8;
    /// never produced when decoding an in-memory string.
    EncodingError,
}

/// Error from decoding an entity-encoded string: the kind of failure and
/// the number of characters that were cleanly resolved before it.
#[derive(Clone, Copy, Debug, PartialEq, Eq, Structural)]
pub struct DecodeErr {
    /// Number of input characters up to the end of the last cleanly
    /// resolved content before the error.
    pub position: usize,
    /// Kind of error.
    pub kind: DecodeErrKind,
}

/// The state of the decoder between two input characters.
#[derive(Clone, Copy, Debug, PartialEq, Eq, Structural)]
pub enum DecodeState {
    /// Outside any entity reference.
    Normal,
    /// Just after `&`.
    Entity,
    /// Inside the name of `&name;`.
    Named,
    /// Just after `&#`.
    Numeric,
    /// Inside the digits of `&#xHHH;`.
    Hex,
    /// Inside the digits of `&#NNN;`.
    Dec,
}

/// The whole configuration of the decoder between two input characters:
/// its state, the unresolved prefix of a candidate reference (`&`, `&am`,
/// `&#x2`, with `#` and `x` left implicit in the state), the output
/// written so far, and the position one past the last cleanly resolved
/// content.
#[verifier::ext_equal]
pub ghost struct Machine {
    pub state: DecodeState,
    pub buf: Seq<char>,
    pub out: Seq<char>,
    pub good: int,
}

/// A decode error at the specification level, with an unbounded position.
#[verifier::ext_equal]
pub ghost struct SpecErr {
    pub position: int,
    pub kind: DecodeErrKind,
}

/// The configuration the decoder starts in.
pub open spec fn machine_init() -> Machine {
    Machine { state: DecodeState::Normal, buf: Seq::empty(), out: Seq::empty(), good: 0 }
}

/// A strict-mode failure, reported at the last good position.
pub open spec fn fail(m: Machine, kind: DecodeErrKind) -> Result<Machine, SpecErr> {
    Err(SpecErr { position: m.good, kind })
}

/// Sloppy-mode recovery: the pending fragment is dropped and literal
/// parsing resumes.
pub open spec fn recover(m: Machine) -> Machine {
    Machine { state: DecodeState::Normal, buf: Seq::empty(), ..m }
}

/// One transition on the digit run of a numeric reference (`hex` tells the
/// radix): digits accumulate, `;` resolves the run, and anything else is
/// malformed.
pub open spec fn step_digits(m: Machine, c: char, hex: bool, sloppy: bool) -> Result<
    Machine,
    SpecErr,
> {
    if c == ';' {
        match numeric_outcome(m.buf.skip(1), hex) {
            NumOutcome::Malformed => if sloppy {
                Ok(recover(m))
            } else {
                fail(m, DecodeErrKind::MalformedNumEscape)
            },
            NumOutcome::Invalid => fail(m, DecodeErrKind::InvalidCharacter),
            NumOutcome::Resolved(ch) => Ok(
                Machine { state: DecodeState::Normal, buf: Seq::empty(), out: m.out.push(ch), ..m },
            ),
        }
    } else if digit_ok(c, hex) {
        Ok(Machine { buf: m.buf.push(c), ..m })
    } else if sloppy {
        Ok(recover(m))
    } else {
        fail(m, DecodeErrKind::MalformedNumEscape)
    }
}

/// One transition of the decoder on input character `c`, before the
/// good-position update.
pub open spec fn step_inner(m: Machine, c: char, sloppy: bool) -> Result<Machine, SpecErr> {
    match m.state {
        DecodeState::Normal => if c == '&' {
            Ok(Machine { state: DecodeState::Entity, buf: seq!['&'], ..m })
        } else {
            Ok(Machine { out: m.out.push(c), ..m })
        },
        DecodeState::Entity => if c == '#' {
            Ok(Machine { state: DecodeState::Numeric, ..m })
        } else if c == ';' {
            if sloppy {
                Ok(recover(m))
            } else {
                fail(m, DecodeErrKind::UnknownEntity)
            }
        } else {
            Ok(Machine { state: DecodeState::Named, buf: m.buf.push(c), ..m })
        },
        DecodeState::Named => if c == ';' {
            let key = m.buf.push(';');
            match entity_lookup(key) {
                Some(rep) => Ok(
                    Machine {
                        state: DecodeState::Normal,
                        buf: Seq::empty(),
                        out: m.out + rep,
                        ..m
                    },
                ),
                None => if sloppy {
                    Ok(
                        Machine {
                            state: DecodeState::Normal,
                            buf: Seq::empty(),
                            out: m.out + key,
                            ..m
                        },
                    )
                } else {
                    fail(m, DecodeErrKind::UnknownEntity)
                },
            }
        } else {
            Ok(Machine { buf: m.buf.push(c), ..m })
        },
        DecodeState::Numeric => if is_dec_digit(c) {
            Ok(Machine { state: DecodeState::Dec, buf: m.buf.push(c), ..m })
        } else if c == 'x' {
            Ok(Machine { state: DecodeState::Hex, ..m })
        } else if sloppy {
            Ok(recover(m))
        } else {
            fail(m, DecodeErrKind::MalformedNumEscape)
        },
        DecodeState::Dec => step_digits(m, c, false, sloppy),
        DecodeState::Hex => step_digits(m, c, true, sloppy),
    }
}

/// One full transition of the decoder on the character at position `pos`:
/// the transition itself, then the good position advances one past `pos`
/// exactly when the machine stands in `Normal` afterwards.
pub open spec fn step(m: Machine, c: char, pos: int, sloppy: bool) -> Result<Machine, SpecErr> {
    match step_inner(m, c, sloppy) {
        Err(e) => Err(e),
        Ok(m2) => Ok(
            Machine {
                good: if m2.state is Normal {
                    pos + 1
                } else {
                    m.good
                },
                ..m2
            },
        ),
    }
}

/// The decoder's configuration after consuming the first `n` characters of
/// `s`, or the first error on the way there.
pub open spec fn run(s: Seq<char>, n: int, sloppy: bool) -> Result<Machine, SpecErr>
    decreases n,
{
    if n <= 0 {
        Ok(machine_init())
    } else {
        match run(s, n - 1, sloppy) {
            Err(e) => Err(e),
            Ok(m) => step(m, s[n - 1], n - 1, sloppy),
        }
    }
}

/// What decoding `s` returns: the output of a full run, with an
/// unterminated trailing fragment an error in strict mode and silently
/// dropped in sloppy mode.
pub open spec fn decode_spec(s: Seq<char>, sloppy: bool) -> Result<Seq<char>, SpecErr> {
    match run(s, s.len() as int, sloppy) {
        Err(e) => Err(e),
        Ok(m) => if m.state is Normal || sloppy {
            Ok(m.out)
        } else {
            Err(SpecErr { position: m.good, kind: DecodeErrKind::PrematureEnd })
        },
    }
}

/// Well-formedness of a machine configuration: the pending buffer is empty
/// outside a reference, starts with `&` inside one, and inside a digit run
/// it holds `&` followed by digits of the declared radix.
pub open spec fn machine_inv(m: Machine) -> bool {
    &&& 0 <= m.good
    &&& (m.state is Normal ==> m.buf.len() == 0)
    &&& (!(m.state is Normal) ==> m.buf.len() >= 1 && m.buf[0] == '&')
    &&& (m.state is Entity ==> m.buf.len() == 1)
    &&& (m.state is Numeric ==> m.buf.len() == 1)
    &&& (m.state is Dec ==> m.buf.len() >= 2 && (forall|i: int|
        1 <= i < m.buf.len() ==> is_dec_digit(#[trigger] m.buf[i])))
    &&& (m.state is Hex ==> forall|i: int|
        1 <= i < m.buf.len() ==> is_hex_digit_char(#[trigger] m.buf[i]))
}

/// Every transition preserves well-formedness, and the good position never
/// runs ahead of the input.
pub proof fn lemma_step_inv(m: Machine, c: char, pos: int, sloppy: bool)
    requires
        machine_inv(m),
        m.good <= pos,
        0 <= pos,
        step(m, c, pos, sloppy) is Ok,
    ensures
        machine_inv(step(m, c, pos, sloppy)->Ok_0),
        step(m, c, pos, sloppy)->Ok_0.good <= pos + 1,
{
}

/// Once a run has failed, consuming more input changes nothing.
pub proof fn lemma_run_err_persists(s: Seq<char>, n1: int, n2: int, sloppy: bool)
    requires
        0 <= n1 <= n2,
        run(s, n1, sloppy) is Err,
    ensures
        run(s, n2, sloppy) == run(s, n1, sloppy),
    decreases n2,
{
    if n2 > n1 {
        lemma_run_err_persists(s, n1, n2 - 1, sloppy);
    }
}

/// Decodes entity references in `s`, as [`decode_spec`] describes, writing
/// the result as a vector of characters.
fn decode_core(s: &str, sloppy: bool) -> (r: Result<Vec<char>, DecodeErr>)
    ensures
        match r {
            Ok(out) => decode_spec(s@, sloppy) == Ok::<Seq<char>, SpecErr>(out@),
            Err(e) => decode_spec(s@, sloppy) == Err::<Seq<char>, SpecErr>(
                (SpecErr { position: e.position as int, kind: e.kind }),
            ),
        },
{
    let n = s.unicode_len();
    let mut state = DecodeState::Normal;
    let mut buf: Vec<char> = Vec::new();
    let mut out: Vec<char> = Vec::new();
    let mut good: usize = 0;
    let mut i: usize = 0;
    while i < n
        invariant
            i <= n,
            n == s@.len(),
            good <= i,
            run(s@, i as int, sloppy) == Ok::<Machine, SpecErr>(
                (Machine { state, buf: buf@, out: out@, good: good as int }),
            ),
            machine_inv(Machine { state, buf: buf@, out: out@, good: good as int }),
        decreases n - i,
    {
        let ghost m0 = Machine { state, buf: buf@, out: out@, good: good as int };
        let c = s.get_char(i);
        match state {
            DecodeState::Normal => {
                if c == '&' {
                    buf.push('&');
                    state = DecodeState::Entity;
                    proof {
                        assert(buf@ =~= seq!['&']);
                    }
                } else {
                    out.push(c);
                }
            },
            DecodeState::Entity => {
                if c == '#' {
                    state = DecodeState::Numeric;
                } else if c == ';' {
                    if sloppy {
                        buf.clear();
                        state = DecodeState::Normal;
                    } else {
                        proof {
                            lemma_run_err_persists(s@, i + 1, n as int, sloppy);
                        }
                        return Err(DecodeErr { position: good, kind: DecodeErrKind::UnknownEntity });
                    }
                } else {
                    buf.push(c);
                    state = DecodeState::Named;
                }
            },
            DecodeState::Named => {
                if c == ';' {
                    buf.push(';');
                    match lookup_entity(&buf) {
                        Some(rep) => {
                            append_str_chars(&mut out, rep);
                            buf.clear();
                            state = DecodeState::Normal;
                        },
                        None => {
                            if sloppy {
                                append_vec_chars(&mut out, &buf);
                                buf.clear();
                                state = DecodeState::Normal;
                            } else {
                                proof {
                                    lemma_run_err_persists(s@, i + 1, n as int, sloppy);
                                }
                                return Err(
                                    DecodeErr { position: good, kind: DecodeErrKind::UnknownEntity },
                                );
                            }
                        },
                    }
                } else {
                    buf.push(c);
                }
            },
            DecodeState::Numeric => {
                let cv = c as u32;
                if cv >= '0' as u32 && cv <= '9' as u32 {
                    buf.push(c);
                    state = DecodeState::Dec;
                } else if c == 'x' {
                    state = DecodeState::Hex;
                } else if sloppy {
                    buf.clear();
                    state = DecodeState::Normal;
                } else {
                    proof {
                        lemma_run_err_persists(s@, i + 1, n as int, sloppy);
                    }
                    return Err(
                        DecodeErr { position: good, kind: DecodeErrKind::MalformedNumEscape },
                    );
                }
            },
            DecodeState::Dec | DecodeState::Hex => {
                let hex = match state {
                    DecodeState::Hex => true,
                    _ => false,
                };
                if c == ';' {
                    match decode_numeric(&buf, hex) {
                        Ok(ch) => {
                            out.push(ch);
                            buf.clear();
                            state = DecodeState::Normal;
                        },
                        Err(kind) => {
                            if sloppy && matches!(kind, DecodeErrKind::MalformedNumEscape) {
                                buf.clear();
                                state = DecodeState::Normal;
                            } else {
                                proof {
                                    lemma_run_err_persists(s@, i + 1, n as int, sloppy);
                                }
                                return Err(DecodeErr { position: good, kind });
                            }
                        },
                    }
                } else {
                    let cv = c as u32;
                    let is_digit_c = if hex {
                        (cv >= '0' as u32 && cv <= '9' as u32) || (cv >= 'a' as u32 && cv <= 'f'
                            as u32) || (cv >= 'A' as u32 && cv <= 'F' as u32)
                    } else {
                        cv >= '0' as u32 && cv <= '9' as u32
                    };
                    if is_digit_c {
                        buf.push(c);
                    } else if sloppy {
                        buf.clear();
                        state = DecodeState::Normal;
                    } else {
                        proof {
                            lemma_run_err_persists(s@, i + 1, n as int, sloppy);
                        }
                        return Err(
                            DecodeErr { position: good, kind: DecodeErrKind::MalformedNumEscape },
                        );
                    }
                }
            },
        }
        match state {
            DecodeState::Normal => {
                good = i + 1;
            },
            _ => {},
        }
        proof {
            let m1 = Machine { state, buf: buf@, out: out@, good: good as int };
            assert(step(m0, s@[i as int], i as int, sloppy) == Ok::<Machine, SpecErr>(m1));
            lemma_step_inv(m0, s@[i as int], i as int, sloppy);
        }
        i += 1;
    }
    match state {
        DecodeState::Normal => Ok(out),
        _ => {
            if sloppy {
                Ok(out)
            } else {
                Err(DecodeErr { position: good, kind: DecodeErrKind::PrematureEnd })
            }
        },
    }
}

/// Decodes an entity-encoded string strictly.
///
/// Replaces every HTML entity reference (`&amp;`, `&#38;`, `&#x26;`, ...)
/// with the text it stands for. Case matters for named entities, so
/// `&Amp;` is unknown; case does not matter for hex references, so
/// `&#x2E;` and `&#x2e;` are the same.
///
/// Fails, exactly as [`decode_spec`] in strict mode describes, on unknown
/// named entities, malformed or oversized numeric references, numeric
/// references outside the Unicode scalar range, and input that ends inside
/// a reference; the reported position is the number of cleanly resolved
/// input characters before the offending reference. It never returns
/// `IoError` or `EncodingError`.
pub fn decode_html(s: &str) -> (r: Result<String, DecodeErr>)
    ensures
        match r {
            Ok(out) => decode_spec(s@, false) == Ok::<Seq<char>, SpecErr>(out@),
            Err(e) => decode_spec(s@, false) == Err::<Seq<char>, SpecErr>(
                (SpecErr { position: e.position as int, kind: e.kind }),
            ),
        },
{
    match decode_core(s, false) {
        Ok(out) => Ok(chars_to_string(&out)),
        Err(e) => Err(e),
    }
}

/// Decodes an entity-encoded string sloppily.
///
/// Like [`decode_html`], but recovers from most malformed references, as
/// [`decode_spec`] in sloppy mode describes: an unknown named reference is
/// emitted verbatim, a malformed numeric reference and an unterminated
/// trailing fragment are dropped. A numeric reference whose value is no
/// Unicode scalar value still fails with `InvalidCharacter`.
pub fn decode_html_sloppy(s: &str) -> (r: Result<String, DecodeErr>)
    ensures
        match r {
            Ok(out) => decode_spec(s@, true) == Ok::<Seq<char>, SpecErr>(out@),
            Err(e) => decode_spec(s@, true) == Err::<Seq<char>, SpecErr>(
                (SpecErr { position: e.position as int, kind: e.kind }),
            ),
        },
{
    match decode_core(s, true) {
        Ok(out) => Ok(chars_to_string(&out)),
        Err(e) => Err(e),
    }
}

} // verus!
