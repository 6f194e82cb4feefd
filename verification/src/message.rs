//! Payload encoding for the message commands.
//!
//! Callers hand payloads over either as plain text or as a hex string
//! ("DE AD BE EF"); answers travel back the same way.  The conversions
//! between those forms and raw bytes live here, specified character by
//! character; the transport itself treats all payload bytes as opaque.

use vstd::prelude::*;

use vstd::string::{StrSliceExecFns, StringExecFns, StringSliceAdditionalSpecFns};

verus! {

broadcast use vstd::string::group_string_axioms;

/// A request to write a payload to a named connection (and usually to wait
/// for the answer).
pub struct SendMessageRequest {
    /// Which registered connection to use.
    pub connection_id: String,
    /// The payload, in the encoding named by `mode`.
    pub data: String,
    /// How `data` is encoded: `"text"` or `"hex"`.
    pub mode: String,
}

/// The outcome of a message command, ready for display.
pub struct SendMessageResponse {
    pub success: bool,
    /// The answer, encoded the way the request's payload was.
    pub response_data: String,
    /// Wall-clock duration of the exchange, in milliseconds.
    pub response_time_ms: u64,
    pub error: Option<String>,
}

/// How many answer bytes one exchange reads at most.
pub const RESPONSE_BUFFER_SIZE: usize = 4096;

/// The characters a hex payload may use as separators: blank, newline,
/// carriage return.
pub open spec fn is_separator(c: char) -> bool {
    c == ' ' || c == '\n' || c == '\r'
}

/// `s` with every separator removed.
pub open spec fn strip_separators(s: Seq<char>) -> Seq<char>
    decreases s.len(),
{
    if s.len() == 0 {
        Seq::empty()
    } else {
        let rest = strip_separators(s.drop_last());
        if is_separator(s.last()) {
            rest
        } else {
            rest.push(s.last())
        }
    }
}

/// The value of one hex digit, upper or lower case; `None` for any other
/// character.
pub open spec fn hex_digit_value(c: char) -> Option<u8> {
    let n = c as u32;
    if ('0' as u32) <= n <= ('9' as u32) {
        Some((n - ('0' as u32)) as u8)
    } else if ('a' as u32) <= n <= ('f' as u32) {
        Some((n - ('a' as u32) + 10) as u8)
    } else if ('A' as u32) <= n <= ('F' as u32) {
        Some((n - ('A' as u32) + 10) as u8)
    } else {
        None
    }
}

/// The bytes a separator-free hex string denotes, two digits per byte;
/// `None` as soon as any character is no hex digit.  (An odd-length string
/// is rejected before this function is asked.)
pub open spec fn parse_hex_pairs(s: Seq<char>) -> Option<Seq<u8>>
    decreases s.len(),
{
    if s.len() == 0 {
        Some(Seq::empty())
    } else if s.len() == 1 {
        None
    } else {
        match (hex_digit_value(s[0]), hex_digit_value(s[1])) {
            (Some(hi), Some(lo)) => match parse_hex_pairs(s.skip(2)) {
                Some(rest) => Some(seq![(hi * 16 + lo) as u8] + rest),
                None => None,
            },
            _ => None,
        }
    }
}

/// What [`hex_string_to_bytes`] answers, as a function of the characters:
/// strip separators, insist on an even count, then read digit pairs.
pub open spec fn hex_parse_result(s: Seq<char>) -> Result<Seq<u8>, Seq<char>> {
    let t = strip_separators(s);
    if t.len() % 2 != 0 {
        Err("Hex string must have even length"@)
    } else {
        match parse_hex_pairs(t) {
            Some(bytes) => Ok(bytes),
            None => Err("Invalid hex digit"@),
        }
    }
}

/// A byte-or-message result up to the views of its two sides.
pub open spec fn string_result_view(r: Result<Vec<u8>, String>) -> Result<Seq<u8>, Seq<char>> {
    match r {
        Ok(v) => Ok(v@),
        Err(e) => Err(e@),
    }
}

/// The upper-case digit for a value below sixteen.
pub open spec fn hex_digit_char(n: u8) -> char {
    if n < 10 {
        (n + 48) as char
    } else {
        (n + 55) as char
    }
}

/// The blank-separated, upper-case hex rendering of `bytes`
/// (`[0xde, 0xad]` becomes `"DE AD"`).
pub open spec fn hex_string_of(bytes: Seq<u8>) -> Seq<char>
    decreases bytes.len(),
{
    if bytes.len() == 0 {
        Seq::empty()
    } else {
        let digits = seq![
            hex_digit_char((bytes.last() / 16) as u8),
            hex_digit_char((bytes.last() % 16) as u8),
        ];
        if bytes.len() == 1 {
            digits
        } else {
            hex_string_of(bytes.drop_last()) + seq![' '] + digits
        }
    }
}

/// What a byte sequence looks like as characters when every byte is ASCII.
pub open spec fn ascii_chars_of(bytes: Seq<u8>) -> Seq<char> {
    bytes.map_values(|b: u8| b as char)
}

/// The characters `String::from_utf8_lossy` yields for a byte sequence: a
/// fixed function of the bytes alone.
pub uninterp spec fn lossy_decoded(bytes: Seq<u8>) -> Seq<char>;

/// Relies on String::push: appends exactly one character.
#[verifier::external_body]
fn push_char(s: &mut String, c: char)
    ensures
        final(s)@ == old(s)@.push(c),
{
    s.push(c);
}

/// Relies on String::from_utf8_lossy: its answer depends on the bytes
/// alone, valid UTF-8 decodes to exactly its characters, and ASCII bytes
/// decode to the same codes.
#[verifier::external_body]
fn utf8_lossy(bytes: &[u8]) -> (r: String)
    ensures
        r@ == lossy_decoded(bytes@),
        vstd::utf8::valid_utf8(bytes@) ==> r@ == vstd::utf8::decode_utf8(bytes@),
        (forall|i: int| 0 <= i < bytes@.len() ==> bytes@[i] < 128) ==> r@ == ascii_chars_of(bytes@),
{
    String::from_utf8_lossy(bytes).into_owned()
}

/// The value of one hex digit character, if it is one.
fn hex_digit(c: char) -> (r: Option<u8>)
    ensures
        r == hex_digit_value(c),
        r matches Some(v) ==> v < 16,
{
    let n = c as u32;
    if n >= 48 && n <= 57 {
        Some((n - 48) as u8)
    } else if n >= 97 && n <= 102 {
        Some((n - 97 + 10) as u8)
    } else if n >= 65 && n <= 70 {
        Some((n - 65 + 10) as u8)
    } else {
        None
    }
}

/// The upper-case digit for a value below sixteen.
fn hex_char(n: u8) -> (r: char)
    requires
        n < 16,
    ensures
        r == hex_digit_char(n),
{
    if n < 10 {
        (n + 48) as char
    } else {
        (n + 55) as char
    }
}

/// Read a hex payload: separators (blanks and line breaks) are ignored, the
/// remaining digits must come in pairs, each pair one byte.  The exact
/// answer, error messages included, is [`hex_parse_result`].
pub fn hex_string_to_bytes(hex: &str) -> (r: Result<Vec<u8>, String>)
    ensures
        string_result_view(r) == hex_parse_result(hex@),
{
    let n = hex.unicode_len();
    let mut filtered: Vec<char> = Vec::new();
    let mut i: usize = 0;
    while i < n
        invariant
            n == hex@.len(),
            i <= n,
            filtered@ == strip_separators(hex@.take(i as int)),
        decreases n - i,
    {
        let c = hex.get_char(i);
        proof {
            assert(hex@.take(i + 1).drop_last() =~= hex@.take(i as int));
            assert(hex@.take(i + 1).last() == hex@[i as int]);
        }
        if !(c == ' ' || c == '\n' || c == '\r') {
            filtered.push(c);
        }
        i += 1;
    }
    proof {
        assert(hex@.take(n as int) =~= hex@);
    }
    if filtered.len() % 2 != 0 {
        return Err(String::from_str("Hex string must have even length"));
    }
    let mut out: Vec<u8> = Vec::new();
    let mut j: usize = 0;
    proof {
        assert(filtered@.skip(0) =~= filtered@);
        if let Some(rest) = parse_hex_pairs(filtered@) {
            assert(Seq::<u8>::empty() + rest =~= rest);
        }
    }
    while j < filtered.len()
        invariant
            j <= filtered@.len(),
            j % 2 == 0,
            filtered@.len() % 2 == 0,
            filtered@ == strip_separators(hex@),
            match parse_hex_pairs(filtered@.skip(j as int)) {
                Some(rest) => parse_hex_pairs(filtered@) == Some(out@ + rest),
                None => parse_hex_pairs(filtered@) is None,
            },
        decreases filtered@.len() - j,
    {
        let ghost t = filtered@.skip(j as int);
        proof {
            assert(t[0] == filtered@[j as int]);
            assert(t[1] == filtered@[j + 1]);
            assert(t.skip(2) =~= filtered@.skip(j + 2));
        }
        let hi = hex_digit(filtered[j]);
        let lo = hex_digit(filtered[j + 1]);
        match (hi, lo) {
            (Some(h), Some(l)) => {
                let ghost out0 = out@;
                out.push(h * 16 + l);
                proof {
                    if let Some(rest) = parse_hex_pairs(filtered@.skip(j + 2)) {
                        assert(parse_hex_pairs(t) == Some(seq![(h * 16 + l) as u8] + rest));
                        assert(out0 + (seq![(h * 16 + l) as u8] + rest) =~= out@ + rest);
                    }
                }
                j += 2;
            },
            _ => {
                assert(parse_hex_pairs(t) is None);
                return Err(String::from_str("Invalid hex digit"));
            },
        }
    }
    proof {
        assert(filtered@.skip(filtered@.len() as int) =~= Seq::<char>::empty());
        assert(out@ + Seq::<u8>::empty() =~= out@);
    }
    Ok(out)
}

/// Render bytes as upper-case hex, one blank between bytes.
pub fn bytes_to_hex_string(bytes: &[u8]) -> (r: String)
    ensures
        r@ == hex_string_of(bytes@),
{
    let mut out = String::new();
    let mut i: usize = 0;
    while i < bytes.len()
        invariant
            i <= bytes@.len(),
            out@ == hex_string_of(bytes@.take(i as int)),
        decreases bytes@.len() - i,
    {
        if i > 0 {
            push_char(&mut out, ' ');
        }
        let b = bytes[i];
        push_char(&mut out, hex_char(b / 16));
        push_char(&mut out, hex_char(b % 16));
        proof {
            assert(bytes@.take(i + 1).drop_last() =~= bytes@.take(i as int));
            assert(bytes@.take(i + 1).last() == bytes@[i as int]);
            assert(hex_string_of(bytes@.take(i + 1)) =~= out@);
        }
        i += 1;
    }
    proof {
        assert(bytes@.take(bytes@.len() as int) =~= bytes@);
    }
    out
}

/// Turn a request's payload into wire bytes: `"text"` sends the UTF-8 of
/// the characters, `"hex"` reads digit pairs, anything else is refused.
pub fn encode_payload(data: &str, mode: &str) -> (r: Result<Vec<u8>, String>)
    ensures
        mode@ == "text"@ ==> (r matches Ok(v) && v@ == data.spec_bytes()),
        mode@ == "hex"@ ==> string_result_view(r) == hex_parse_result(data@),
        mode@ != "text"@ && mode@ != "hex"@ ==> (r matches Err(e) && e@ == "Invalid mode: "@
            + mode@),
{
    proof {
        reveal_strlit("text");
        reveal_strlit("hex");
        assert("text"@.len() == 4);
        assert("hex"@.len() == 3);
        assert("text"@ != "hex"@);
    }
    if String::from_str(mode) == String::from_str("text") {
        Ok(data.as_bytes_vec())
    } else if String::from_str(mode) == String::from_str("hex") {
        hex_string_to_bytes(data)
    } else {
        Err(String::from_str("Invalid mode: ").concat(mode))
    }
}

/// Render answer bytes the way the request's payload was encoded: `"text"`
/// decodes UTF-8 (leniently), `"hex"` renders digit pairs, anything else
/// yields the empty string.
pub fn decode_payload(bytes: &[u8], mode: &str) -> (r: String)
    ensures
        mode@ == "text"@ ==> r@ == lossy_decoded(bytes@),
        mode@ == "text"@ && vstd::utf8::valid_utf8(bytes@) ==> r@ == vstd::utf8::decode_utf8(
            bytes@,
        ),
        mode@ == "text"@ && (forall|i: int| 0 <= i < bytes@.len() ==> bytes@[i] < 128) ==> r@
            == ascii_chars_of(bytes@),
        mode@ == "hex"@ ==> r@ == hex_string_of(bytes@),
        mode@ != "text"@ && mode@ != "hex"@ ==> r@ == Seq::<char>::empty(),
{
    proof {
        reveal_strlit("text");
        reveal_strlit("hex");
        assert("text"@.len() == 4);
        assert("hex"@.len() == 3);
        assert("text"@ != "hex"@);
    }
    if String::from_str(mode) == String::from_str("text") {
        utf8_lossy(bytes)
    } else if String::from_str(mode) == String::from_str("hex") {
        bytes_to_hex_string(bytes)
    } else {
        String::new()
    }
}

} // verus!
