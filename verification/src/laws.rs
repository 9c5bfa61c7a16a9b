//! The laws that relate the encoders and the decoder: round trips,
//! decoding of plain text, the errors sloppy mode can still report, and
//! encoding of repeated characters.

use vstd::prelude::*;

use crate::decode::DecodeErrKind;
use crate::decode::DecodeState;
use crate::decode::Machine;
use crate::decode::SpecErr;
use crate::decode::decode_spec;
use crate::decode::machine_init;
use crate::decode::run;
use crate::decode::step;
use crate::encode::attr_hex_escaped;
use crate::encode::encode_attribute_spec;
use crate::encode::encode_minimal_spec;
use crate::encode::min_entity;

verus! {

/// On text without `&` the decoder stays in `Normal` and copies its input.
proof fn lemma_run_plain(s: Seq<char>, n: int, sloppy: bool)
    requires
        0 <= n <= s.len(),
        forall|i: int| 0 <= i < s.len() ==> #[trigger] s[i] != '&',
    ensures
        run(s, n, sloppy) == Ok::<Machine, SpecErr>(
            (Machine { state: DecodeState::Normal, buf: Seq::empty(), out: s.take(n), good: n }),
        ),
    decreases n,
{
    if n <= 0 {
        assert(s.take(0) =~= Seq::<char>::empty());
        assert(machine_init() =~= Machine {
            state: DecodeState::Normal,
            buf: Seq::empty(),
            out: s.take(0),
            good: 0,
        });
    } else {
        lemma_run_plain(s, n - 1, sloppy);
        let m_prev = Machine {
            state: DecodeState::Normal,
            buf: Seq::empty(),
            out: s.take(n - 1),
            good: n - 1,
        };
        assert(step(m_prev, s[n - 1], n - 1, sloppy) == Ok::<Machine, SpecErr>(
            (Machine {
                state: DecodeState::Normal,
                buf: Seq::empty(),
                out: s.take(n - 1).push(s[n - 1]),
                good: n,
            }),
        ));
        assert(s.take(n - 1).push(s[n - 1]) =~= s.take(n));
        assert(Machine {
            state: DecodeState::Normal,
            buf: Seq::empty(),
            out: s.take(n - 1).push(s[n - 1]),
            good: n,
        } =~= Machine { state: DecodeState::Normal, buf: Seq::empty(), out: s.take(n), good: n });
    }
}

/// Decoding is the identity on text that holds no `&`, in both modes.
pub proof fn lemma_decode_plain_text(text: Seq<char>, sloppy: bool)
    requires
        forall|i: int| 0 <= i < text.len() ==> #[trigger] text[i] != '&',
    ensures
        decode_spec(text, sloppy) == Ok::<Seq<char>, SpecErr>(text),
{
    lemma_run_plain(text, text.len() as int, sloppy);
    assert(text.take(text.len() as int) =~= text);
}

/// In sloppy mode a failed run can only have stopped on a numeric
/// reference outside the Unicode scalar range.
proof fn lemma_run_sloppy_err(s: Seq<char>, n: int)
    ensures
        run(s, n, true) matches Err(e) ==> e.kind == DecodeErrKind::InvalidCharacter,
    decreases n,
{
    if n > 0 {
        lemma_run_sloppy_err(s, n - 1);
    }
}

/// Sloppy decoding never reports `UnknownEntity`, `MalformedNumEscape` or
/// `PrematureEnd`: the only error it can return is `InvalidCharacter`.
pub proof fn lemma_sloppy_errors(text: Seq<char>)
    ensures
        decode_spec(text, true) matches Err(e) ==> e.kind == DecodeErrKind::InvalidCharacter,
{
    lemma_run_sloppy_err(text, text.len() as int);
}

/// The minimal encoder is the identity on text whose characters are all
/// outside the minimal escape table.
proof fn lemma_encode_minimal_identity(text: Seq<char>)
    requires
        forall|i: int| 0 <= i < text.len() ==> #[trigger] min_entity(text[i]) is None,
    ensures
        encode_minimal_spec(text) == text,
    decreases text.len(),
{
    if text.len() > 0 {
        let prefix = text.drop_last();
        assert(forall|i: int| 0 <= i < prefix.len() ==> #[trigger] min_entity(prefix[i]) is None);
        lemma_encode_minimal_identity(prefix);
        assert(min_entity(text.last()) is None);
        assert(prefix + seq![text.last()] =~= text);
    } else {
        assert(encode_minimal_spec(text) =~= text);
    }
}

/// The attribute encoder is the identity on text whose characters are all
/// outside both escape sets.
proof fn lemma_encode_attribute_identity(text: Seq<char>)
    requires
        forall|i: int|
            0 <= i < text.len() ==> #[trigger] min_entity(text[i]) is None && !attr_hex_escaped(
                text[i],
            ),
    ensures
        encode_attribute_spec(text) == text,
    decreases text.len(),
{
    if text.len() > 0 {
        let prefix = text.drop_last();
        assert(forall|i: int|
            0 <= i < prefix.len() ==> #[trigger] min_entity(prefix[i]) is None && !attr_hex_escaped(
                prefix[i],
            ));
        lemma_encode_attribute_identity(prefix);
        assert(min_entity(text.last()) is None && !attr_hex_escaped(text.last()));
        assert(prefix + seq![text.last()] =~= text);
    } else {
        assert(encode_attribute_spec(text) =~= text);
    }
}

/// Round trip through the minimal encoder: on text containing only
/// characters outside the minimal escape table, decoding the encoded text
/// gives the text back, in both modes.
pub proof fn lemma_round_trip_minimal(text: Seq<char>, sloppy: bool)
    requires
        forall|i: int| 0 <= i < text.len() ==> #[trigger] min_entity(text[i]) is None,
    ensures
        decode_spec(encode_minimal_spec(text), sloppy) == Ok::<Seq<char>, SpecErr>(text),
{
    lemma_encode_minimal_identity(text);
    assert forall|i: int| 0 <= i < text.len() implies #[trigger] text[i] != '&' by {
        assert(min_entity(text[i]) is None);
    }
    lemma_decode_plain_text(text, sloppy);
}

/// Round trip through the attribute encoder: on text containing only
/// characters outside both of its escape sets, decoding the encoded text
/// gives the text back, in both modes.
pub proof fn lemma_round_trip_attribute(text: Seq<char>, sloppy: bool)
    requires
        forall|i: int|
            0 <= i < text.len() ==> #[trigger] min_entity(text[i]) is None && !attr_hex_escaped(
                text[i],
            ),
    ensures
        decode_spec(encode_attribute_spec(text), sloppy) == Ok::<Seq<char>, SpecErr>(text),
{
    lemma_encode_attribute_identity(text);
    assert forall|i: int| 0 <= i < text.len() implies #[trigger] text[i] != '&' by {
        assert(min_entity(text[i]) is None);
    }
    lemma_decode_plain_text(text, sloppy);
}

/// `s` repeated `n` times.
pub open spec fn repeat_seq(s: Seq<char>, n: nat) -> Seq<char>
    decreases n,
{
    if n == 0 {
        Seq::empty()
    } else {
        repeat_seq(s, (n - 1) as nat) + s
    }
}

/// Encoding a character of the minimal escape table repeated `n` times
/// gives its replacement repeated `n` times.
pub proof fn lemma_encode_minimal_repeat(c: char, n: nat)
    requires
        min_entity(c) is Some,
    ensures
        encode_minimal_spec(Seq::new(n, |i: int| c)) == repeat_seq(min_entity(c)->Some_0, n),
    decreases n,
{
    if n == 0 {
        assert(Seq::new(0, |i: int| c) =~= Seq::<char>::empty());
    } else {
        lemma_encode_minimal_repeat(c, (n - 1) as nat);
        let whole = Seq::new(n, |i: int| c);
        assert(whole.drop_last() =~= Seq::new((n - 1) as nat, |i: int| c));
        assert(whole.last() == c);
    }
}

} // verus!
