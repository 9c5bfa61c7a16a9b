use escaper::DecodeErr;
use escaper::DecodeErrKind;
use escaper::decode_html;
use escaper::decode_html_sloppy;
use escaper::encode_attribute;
use escaper::encode_attribute_w;
use escaper::encode_minimal;
use escaper::encode_minimal_w;

#[test]
fn encode_minimal_example() {
    assert_eq!(&encode_minimal("<em>Hej!</em>"), "&lt;em&gt;Hej!&lt;/em&gt;");
}

#[test]
fn encode_minimal_all_escapes() {
    assert_eq!(&encode_minimal("\"&'<>"), "&quot;&amp;&#x27;&lt;&gt;");
}

#[test]
fn encode_minimal_empty() {
    assert_eq!(&encode_minimal(""), "");
}

#[test]
fn encode_minimal_leaves_plain_text() {
    assert_eq!(&encode_minimal("Hej hopp, 123"), "Hej hopp, 123");
}

#[test]
fn encode_minimal_repeated_char() {
    assert_eq!(&encode_minimal("<<<"), "&lt;&lt;&lt;");
    assert_eq!(&encode_minimal("&&"), "&amp;&amp;");
}

#[test]
fn encode_attribute_example() {
    assert_eq!(
        &encode_attribute("\"No\", he said."),
        "&quot;No&quot;&#x2C;&#x20;he&#x20;said&#x2E;"
    );
}

#[test]
fn encode_attribute_leaves_alphanumerics() {
    assert_eq!(&encode_attribute("AbC123"), "AbC123");
}

#[test]
fn encode_attribute_escapes_latin1() {
    // 0xE5 is Latin-1, 0x100 is past the hex-escaped range
    assert_eq!(&encode_attribute("\u{E5}\u{100}"), "&#xE5;\u{100}");
}

#[test]
fn encode_minimal_w_appends() {
    let mut out = String::from("x");
    encode_minimal_w("<", &mut out);
    assert_eq!(&out, "x&lt;");
}

#[test]
fn encode_attribute_w_appends() {
    let mut out = String::from("x");
    encode_attribute_w(" ", &mut out);
    assert_eq!(&out, "x&#x20;");
}

#[test]
fn decode_named_entity() {
    assert_eq!(decode_html("&amp;"), Ok("&".to_string()));
    assert_eq!(decode_html("&gt;"), Ok(">".to_string()));
}

#[test]
fn decode_unknown_entity() {
    assert_eq!(
        decode_html("&nosuchentity;"),
        Err(DecodeErr {
            position: 0,
            kind: DecodeErrKind::UnknownEntity
        })
    );
}

#[test]
fn decode_named_entity_is_case_sensitive() {
    assert_eq!(
        decode_html("&Amp;"),
        Err(DecodeErr {
            position: 0,
            kind: DecodeErrKind::UnknownEntity
        })
    );
}

#[test]
fn decode_decimal() {
    assert_eq!(decode_html("&#65;"), Ok("A".to_string()));
}

#[test]
fn decode_hex_either_case() {
    assert_eq!(decode_html("&#x41;"), Ok("A".to_string()));
    assert_eq!(decode_html("&#x2E;"), Ok(".".to_string()));
    assert_eq!(decode_html("&#x2e;"), Ok(".".to_string()));
}

#[test]
fn decode_numeric_out_of_range() {
    // 0xFFFFFFFF parses as a u32 but is no Unicode scalar value
    assert_eq!(
        decode_html("&#xffffffff;"),
        Err(DecodeErr {
            position: 0,
            kind: DecodeErrKind::InvalidCharacter
        })
    );
    assert_eq!(
        decode_html("&#x110000;"),
        Err(DecodeErr {
            position: 0,
            kind: DecodeErrKind::InvalidCharacter
        })
    );
}

#[test]
fn decode_numeric_surrogate_fails_in_both_modes() {
    let err = Err(DecodeErr {
        position: 0,
        kind: DecodeErrKind::InvalidCharacter,
    });
    assert_eq!(decode_html("&#xD800;"), err.clone());
    assert_eq!(decode_html_sloppy("&#xD800;"), err);
}

#[test]
fn decode_numeric_overflow() {
    assert_eq!(
        decode_html("&#99999999999999;"),
        Err(DecodeErr {
            position: 0,
            kind: DecodeErrKind::MalformedNumEscape
        })
    );
}

#[test]
fn decode_malformed_numeric() {
    assert_eq!(
        decode_html("ab&#xZZ;"),
        Err(DecodeErr {
            position: 2,
            kind: DecodeErrKind::MalformedNumEscape
        })
    );
    assert_eq!(
        decode_html("&#;"),
        Err(DecodeErr {
            position: 0,
            kind: DecodeErrKind::MalformedNumEscape
        })
    );
    assert_eq!(
        decode_html("&#x;"),
        Err(DecodeErr {
            position: 0,
            kind: DecodeErrKind::MalformedNumEscape
        })
    );
}

#[test]
fn decode_empty_entity() {
    assert_eq!(
        decode_html("&;"),
        Err(DecodeErr {
            position: 0,
            kind: DecodeErrKind::UnknownEntity
        })
    );
    assert_eq!(decode_html_sloppy("&;x"), Ok("x".to_string()));
}

#[test]
fn decode_premature_end() {
    assert_eq!(
        decode_html("&amp"),
        Err(DecodeErr {
            position: 0,
            kind: DecodeErrKind::PrematureEnd
        })
    );
    // sloppy mode drops the unterminated trailing fragment
    assert_eq!(decode_html_sloppy("&amp"), Ok("".to_string()));
    assert_eq!(
        decode_html("&"),
        Err(DecodeErr {
            position: 0,
            kind: DecodeErrKind::PrematureEnd
        })
    );
    assert_eq!(decode_html_sloppy("&"), Ok("".to_string()));
    assert_eq!(
        decode_html("ab&amp"),
        Err(DecodeErr {
            position: 2,
            kind: DecodeErrKind::PrematureEnd
        })
    );
}

#[test]
fn decode_sloppy_recovers() {
    // unknown named references come through verbatim
    assert_eq!(
        decode_html_sloppy("&nosuchentity;"),
        Ok("&nosuchentity;".to_string())
    );
    // malformed numeric references are dropped, parsing resumes after them
    assert_eq!(decode_html_sloppy("a&#zb"), Ok("ab".to_string()));
    assert_eq!(decode_html_sloppy("&#99999999999999;x"), Ok("x".to_string()));
}

#[test]
fn decode_plain_text_unchanged() {
    assert_eq!(decode_html("hello world"), Ok("hello world".to_string()));
    assert_eq!(
        decode_html_sloppy("hello world"),
        Ok("hello world".to_string())
    );
    assert_eq!(decode_html(""), Ok("".to_string()));
}

#[test]
fn decode_position_counts_characters() {
    // the reported position counts characters, not bytes
    assert_eq!(
        decode_html("\u{E5}\u{E4}\u{F6}&nope;"),
        Err(DecodeErr {
            position: 3,
            kind: DecodeErrKind::UnknownEntity
        })
    );
}

#[test]
fn decode_mixed_content() {
    assert_eq!(
        decode_html("a&lt;b&#32;c&#x21;"),
        Ok("a<b c!".to_string())
    );
}

#[test]
fn round_trip_minimal() {
    let text = "ab cd 123 \u{E5}\u{1F600}";
    assert_eq!(decode_html(&encode_minimal(text)), Ok(text.to_string()));
    let escaped = "<b>\"fish\" & 'chips'</b>";
    assert_eq!(decode_html(&encode_minimal(escaped)), Ok(escaped.to_string()));
}

#[test]
fn round_trip_attribute() {
    let text = "AbC123\u{100}\u{1F600}";
    assert_eq!(decode_html(&encode_attribute(text)), Ok(text.to_string()));
    let escaped = "\"No\", he said.";
    assert_eq!(
        decode_html(&encode_attribute(escaped)),
        Ok(escaped.to_string())
    );
}
