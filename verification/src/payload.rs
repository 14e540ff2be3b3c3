//! Payload normalisation: every payload that is forwarded is JSON text.
//!
//! A payload that already parses as JSON is forwarded untouched. Anything else
//! is re-encoded as a JSON string literal, so that every consumer can parse
//! what it receives.

use vstd::prelude::*;
use vstd::utf8::encode_utf8;

verus! {

/// The most zeros that `0.` may be followed by, where that `0` is a whole
/// integer part, in text that the JSON parser is asked to read.
///
/// The parser keeps a number's decimal exponent in sixteen bits and steps it
/// down, unchecked, once for every digit of a fraction that its mantissa
/// still takes. A mantissa that is not zero is full after twenty digits; it
/// stays zero only while the integer part is the digit `0` and the fraction
/// has brought nothing but zeros. So many zeros and twenty digits more reach
/// the end of the range and do not pass it.
pub const MAX_FRACTION_ZEROS: usize = 32748;

/// The length of the run of zeros (the ASCII digit) that ends just before
/// `end`.
pub open spec fn zero_run(bytes: Seq<u8>, end: int) -> nat
    decreases end,
{
    if 0 < end <= bytes.len() && bytes[end - 1] == 0x30 {
        1 + zero_run(bytes, end - 1)
    } else {
        0
    }
}

/// Whether `byte` is an ASCII digit.
pub open spec fn is_digit(byte: u8) -> bool {
    0x30 <= byte <= 0x39
}

/// Whether the run of zeros that ends just before `end` stands right behind
/// `0.`, with no digit before that `0`: behind an integer part that is zero.
pub open spec fn follows_zero_point(bytes: Seq<u8>, end: int) -> bool {
    let start = end - zero_run(bytes, end);
    &&& 2 <= start <= bytes.len()
    &&& bytes[start - 1] == 0x2E
    &&& bytes[start - 2] == 0x30
    &&& (start == 2 || !is_digit(bytes[start - 3]))
}

/// Whether no integer part `0` with its point is followed by more than
/// [`MAX_FRACTION_ZEROS`] zeros in `bytes`.
pub open spec fn within_parser_limits(bytes: Seq<u8>) -> bool {
    forall|end: int|
        0 <= end <= bytes.len() && follows_zero_point(bytes, end) ==> #[trigger] zero_run(
            bytes,
            end,
        ) <= MAX_FRACTION_ZEROS
}

/// What `json::parse` makes of `text`, as far as the library looks: nothing
/// where it rejects the text, and otherwise the string that the text writes,
/// if it writes a string.
///
/// The grammar is the parser's own; the library only ever asks for this.
pub uninterp spec fn json_parsed(text: Seq<char>) -> Option<Option<Seq<char>>>;

/// Whether `json::parse` accepts `text`.
pub open spec fn json_parse_ok(text: Seq<char>) -> bool {
    json_parsed(text) is Some
}

/// The texts of what a parse gave.
pub open spec fn parsed_view(parsed: Option<Option<String>>) -> Option<Option<Seq<char>>> {
    match parsed {
        Some(Some(string)) => Some(Some(string@)),
        Some(None) => Some(None),
        None => None,
    }
}

/// The lower-case hexadecimal digit for `nibble`.
pub open spec fn lower_hex(nibble: int) -> char {
    if nibble < 10 {
        (0x30 + nibble) as u8 as char
    } else {
        (0x57 + nibble) as u8 as char
    }
}

/// Whether `ch` cannot stand for itself in a JSON string literal: the double
/// quote, the backslash, and the control characters below the space.
pub open spec fn needs_escape(ch: char) -> bool {
    ch == '"' || ch == '\\' || (ch as u32) < 0x20
}

/// What one character becomes in a JSON string literal: itself, or its
/// escape. Backspace, tab, line feed, form feed and carriage return have
/// escapes of their own; the other control characters are written as `\u00`
/// and two lower-case hexadecimal digits.
pub open spec fn escaped_char(ch: char) -> Seq<char> {
    if ch == '"' {
        seq!['\\', '"']
    } else if ch == '\\' {
        seq!['\\', '\\']
    } else if ch == '\u{8}' {
        seq!['\\', 'b']
    } else if ch == '\t' {
        seq!['\\', 't']
    } else if ch == '\n' {
        seq!['\\', 'n']
    } else if ch == '\u{c}' {
        seq!['\\', 'f']
    } else if ch == '\r' {
        seq!['\\', 'r']
    } else if (ch as u32) < 0x20 {
        seq!['\\', 'u', '0', '0', lower_hex(ch as int / 16), lower_hex(ch as int % 16)]
    } else {
        seq![ch]
    }
}

/// The characters of `text`, each as it stands in a JSON string literal.
pub open spec fn escaped(text: Seq<char>) -> Seq<char>
    decreases text.len(),
{
    if text.len() == 0 {
        Seq::empty()
    } else {
        escaped(text.drop_last()) + escaped_char(text.last())
    }
}

/// The JSON string literal for `text`: its characters, escaped where they
/// have to be, between double quotes.
pub open spec fn json_string_literal(text: Seq<char>) -> Seq<char> {
    seq!['"'] + escaped(text) + seq!['"']
}

/// The payload that is forwarded for `text`.
pub open spec fn normalized(text: Seq<char>) -> Seq<char> {
    if json_parse_ok(text) {
        text
    } else {
        json_string_literal(text)
    }
}

/// Text that holds no double quote, no backslash and no control character is
/// quoted as it is: its literal is the text between two double quotes.
pub proof fn lemma_plain_text_is_quoted_as_it_is(text: Seq<char>)
    requires
        forall|i: int| 0 <= i < text.len() ==> !needs_escape(#[trigger] text[i]),
    ensures
        escaped(text) == text,
        json_string_literal(text) == seq!['"'] + text + seq!['"'],
    decreases text.len(),
{
    if text.len() > 0 {
        let front = text.drop_last();
        assert forall|i: int| 0 <= i < front.len() implies !needs_escape(#[trigger] front[i]) by {
            assert(front[i] == text[i]);
        }
        lemma_plain_text_is_quoted_as_it_is(front);
        assert(!needs_escape(text[text.len() - 1]));
        assert(escaped(text) =~= text);
    } else {
        assert(escaped(text) =~= text);
    }
}

/// Calls `json::parse` and keeps of its value what the library looks at:
/// whether there is one, and the string if it is one.
///
/// Trusted: the call returns, and what it gives is a function of the text
/// alone. The parser reads the text once, front to back, and fails with an
/// error value on anything outside its grammar; the one arithmetic step it
/// does not guard is the exponent of a fraction, which `requires` keeps in
/// range.
#[verifier::external_body]
fn json_parse(text: &str) -> (parsed: Option<Option<String>>)
    requires
        within_parser_limits(encode_utf8(text@)),
    ensures
        parsed_view(parsed) == json_parsed(text@),
{
    match json::parse(text) {
        Ok(value) => match value.as_str() {
            Some(string) => Some(Some(String::from(string))),
            None => Some(None),
        },
        Err(_) => None,
    }
}

/// Calls `json::stringify` on a string slice.
///
/// Trusted: the result is the string literal for `text`, written with
/// exactly the escapes of [`escaped_char`], and the crate's own parser reads
/// every such literal back as the string `text`.
#[verifier::external_body]
fn json_quote(text: &str) -> (quoted: String)
    ensures
        quoted@ == json_string_literal(text@),
        json_parsed(quoted@) == Some(Some(text@)),
{
    json::stringify(text)
}

/// Tells whether `text` stays within what the JSON parser can be asked to
/// read: no integer part `0` with its point followed by more than
/// [`MAX_FRACTION_ZEROS`] zeros.
pub fn check_parser_limits(text: &str) -> (ok: bool)
    ensures
        ok == within_parser_limits(encode_utf8(text@)),
{
    let bytes = text.as_bytes();
    let mut run: usize = 0;
    let mut fraction: bool = false;
    let mut at: usize = 0;
    while at < bytes.len()
        invariant
            at <= bytes.len(),
            bytes@ == encode_utf8(text@),
            run == zero_run(bytes@, at as int),
            run <= at,
            fraction == follows_zero_point(bytes@, at as int),
            forall|end: int|
                0 <= end <= at && follows_zero_point(bytes@, end) ==> #[trigger] zero_run(
                    bytes@,
                    end,
                ) <= MAX_FRACTION_ZEROS,
        decreases bytes.len() - at,
    {
        let byte: u8 = bytes[at];
        if byte == 0x30 {
            if fraction && run == MAX_FRACTION_ZEROS {
                assert(zero_run(bytes@, at + 1) == MAX_FRACTION_ZEROS + 1);
                assert(follows_zero_point(bytes@, at + 1));
                return false;
            }
            run = run + 1;
        } else {
            run = 0;
            fraction = byte == 0x2E && at > 0 && bytes[at - 1] == 0x30 && (at == 1 || !(0x30
                <= bytes[at - 2] && bytes[at - 2] <= 0x39));
        }
        at = at + 1;
    }
    true
}

/// Picks the forwarded payload once the parser's verdict on `data` is known:
/// `data` itself where it parsed, its string literal where it did not.
pub fn normalize_given(data: String, is_json: bool) -> (out: String)
    ensures
        is_json ==> out@ == data@,
        !is_json ==> out@ == json_string_literal(data@),
        !is_json ==> json_parsed(out@) == Some(Some(data@)),
{
    if is_json {
        data
    } else {
        json_quote(data.as_str())
    }
}

/// Normalises a payload: valid JSON passes through unchanged, anything else
/// becomes a JSON string literal. The result always parses as JSON, and a
/// literal parses back to the very text it was made of.
pub fn normalize(data: String) -> (out: String)
    requires
        within_parser_limits(encode_utf8(data@)),
    ensures
        out@ == normalized(data@),
        json_parse_ok(data@) ==> out@ == data@,
        !json_parse_ok(data@) ==> json_parsed(out@) == Some(Some(data@)),
        json_parse_ok(out@),
{
    let is_json = json_parse(data.as_str()).is_some();
    normalize_given(data, is_json)
}

/// Normalises a payload where the parser can be asked about it, and says so
/// where it cannot.
pub fn try_normalize(data: String) -> (out: Option<String>)
    ensures
        out is Some <==> within_parser_limits(encode_utf8(data@)),
        out matches Some(text) ==> text@ == normalized(data@) && json_parse_ok(text@),
        out matches Some(text) ==> (!json_parse_ok(data@) ==> json_parsed(text@) == Some(
            Some(data@),
        )),
{
    if check_parser_limits(data.as_str()) {
        Some(normalize(data))
    } else {
        None
    }
}

} // verus!
