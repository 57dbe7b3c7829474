use crate::error::VoxelError;
use rustc_serialize::json::Json;
use rustc_serialize::json::ParserError;
use vstd::prelude::*;
use vstd::utf8::encode_utf8;

verus! {

/// A value of a JSON document, as `rustc_serialize` holds it.
#[verifier::external_type_specification]
#[verifier::external_body]
pub struct ExJson(Json);

/// The reason for which `rustc_serialize` could not read a text as JSON.
#[verifier::external_type_specification]
#[verifier::external_body]
pub struct ExParserError(ParserError);

/// The deepest nesting of arrays and objects that a text may have to be read.
pub const MAX_DEPTH: usize = 16;

/// The most bytes that a string of a text may take to be read, escapes counted as
/// they are written.
pub const MAX_STRING: usize = 4095;

/// The most digits that the exponent of a number may have to be read.
pub const MAX_EXPONENT_DIGITS: usize = 9;

/// The bytes that a pass over a text looks for.
pub const QUOTE: u8 = 0x22;

pub const BACKSLASH: u8 = 0x5c;

pub const SPACE: u8 = 0x20;

pub const LINE_FEED: u8 = 0x0a;

pub const TAB: u8 = 0x09;

pub const CARRIAGE_RETURN: u8 = 0x0d;

pub const COMMA: u8 = 0x2c;

pub const BRACKET_OPEN: u8 = 0x5b;

pub const BRACKET_CLOSE: u8 = 0x5d;

pub const BRACE_OPEN: u8 = 0x7b;

pub const BRACE_CLOSE: u8 = 0x7d;

pub const LOWER_E: u8 = 0x65;

pub const UPPER_E: u8 = 0x45;

pub const PLUS: u8 = 0x2b;

pub const MINUS: u8 = 0x2d;

pub const DIGIT_0: u8 = 0x30;

pub const DIGIT_9: u8 = 0x39;

/// What a pass over a text has found in the bytes that it has seen.
pub struct Scan {
    /// No limit was passed.
    pub ok: bool,
    /// The last byte lies inside a string.
    pub in_string: bool,
    /// The last byte is a backslash that escapes the next one.
    pub escaped: bool,
    /// How many arrays and objects are open.
    pub depth: usize,
    /// How many bytes the open string has.
    pub run: usize,
    /// How many digits the exponent has that the last byte belongs to.
    pub exponent: Option<usize>,
    /// The last byte that is no white space is a comma outside a string.
    pub after_comma: bool,
}

/// What a pass knows before the first byte.
pub open spec fn scan_start() -> Scan {
    Scan {
        ok: true,
        in_string: false,
        escaped: false,
        depth: 0,
        run: 0,
        exponent: None,
        after_comma: false,
    }
}

/// `s` with one more byte in the open string.
pub open spec fn scan_in_string(s: Scan, escaped: bool) -> Scan {
    if s.run >= MAX_STRING {
        Scan { ok: false, ..s }
    } else {
        Scan { escaped, run: (s.run + 1) as usize, ..s }
    }
}

/// Whether `byte` is white space between the values of a document.
pub open spec fn is_space(byte: u8) -> bool {
    byte == SPACE || byte == LINE_FEED || byte == TAB || byte == CARRIAGE_RETURN
}

/// What a pass knows one byte after it knew `s`.
///
/// Inside a string a backslash escapes the byte that follows, and a quote that is
/// not escaped ends the string. Outside a string a quote opens one, `[` and `{` open
/// an array or an object and `]` and `}` close one, and `e` or `E` opens an exponent,
/// which is a sign, if any, and the digits that follow. A `}` that follows a comma,
/// with nothing but white space between them, passes a limit as well.
pub open spec fn scan_step(s: Scan, byte: u8) -> Scan {
    if !s.ok {
        s
    } else if s.in_string {
        if s.escaped {
            scan_in_string(s, false)
        } else if byte == QUOTE {
            Scan { in_string: false, run: 0, ..s }
        } else {
            scan_in_string(s, byte == BACKSLASH)
        }
    } else if is_space(byte) {
        Scan { exponent: None, ..s }
    } else if byte == COMMA {
        Scan { exponent: None, after_comma: true, ..s }
    } else if byte == BRACE_CLOSE && s.after_comma {
        Scan { ok: false, ..s }
    } else if byte == QUOTE {
        Scan { in_string: true, exponent: None, after_comma: false, ..s }
    } else if byte == BRACKET_OPEN || byte == BRACE_OPEN {
        if s.depth >= MAX_DEPTH {
            Scan { ok: false, ..s }
        } else {
            Scan { depth: (s.depth + 1) as usize, exponent: None, after_comma: false, ..s }
        }
    } else if byte == BRACKET_CLOSE || byte == BRACE_CLOSE {
        Scan {
            depth: if s.depth > 0 {
                (s.depth - 1) as usize
            } else {
                0
            },
            exponent: None,
            after_comma: false,
            ..s
        }
    } else if byte == LOWER_E || byte == UPPER_E {
        Scan { exponent: Some(0), after_comma: false, ..s }
    } else if (byte == PLUS || byte == MINUS) && s.exponent == Some(0usize) {
        Scan { after_comma: false, ..s }
    } else if DIGIT_0 <= byte <= DIGIT_9 && s.exponent is Some {
        if s.exponent->0 >= MAX_EXPONENT_DIGITS {
            Scan { ok: false, ..s }
        } else {
            Scan { exponent: Some((s.exponent->0 + 1) as usize), after_comma: false, ..s }
        }
    } else {
        Scan { exponent: None, after_comma: false, ..s }
    }
}

/// What a pass knows after the first `n` bytes of `bytes`.
pub open spec fn scan(bytes: Seq<u8>, n: nat) -> Scan
    decreases n,
{
    if n == 0 {
        scan_start()
    } else {
        scan_step(scan(bytes, (n - 1) as nat), bytes[n - 1])
    }
}

/// Whether a text is read at all: it has at most `u32::MAX` bytes, its arrays and
/// objects nest at most `MAX_DEPTH` deep, none of its strings is longer than
/// `MAX_STRING` bytes, no exponent has more than `MAX_EXPONENT_DIGITS` digits, and
/// no object ends on a comma.
pub open spec fn readable(text: Seq<char>) -> bool {
    let bytes = encode_utf8(text);
    bytes.len() <= u32::MAX && scan(bytes, bytes.len()).ok
}

/// The document that `Json::from_str` reads from `text`, or `None` where it reports
/// an error.
pub uninterp spec fn json_document(text: Seq<char>) -> Option<Json>;

/// What `Json::find` returns: the value that the object `json` has under `key`;
/// `None` where `json` is no object or has no such key.
pub uninterp spec fn json_member(json: Json, key: Seq<char>) -> Option<Json>;

/// What `Json::as_u64` returns: the number that `json` holds, where it holds an
/// integer that is not negative.
pub uninterp spec fn json_u64(json: Json) -> Option<u64>;

/// What `Json::as_array` returns: the items of `json`, where it is an array.
pub uninterp spec fn json_items(json: Json) -> Option<Seq<Json>>;

/// What `Json::as_string` returns: the text of `json`, where it is a string.
pub uninterp spec fn json_string(json: Json) -> Option<Seq<char>>;

/// `Json::from_str` reads a text as one JSON value. What it returns depends on the
/// text alone, and has the name `json_document`: `Some` of the value where it
/// returns `Ok`, and `None` where it returns an error.
///
/// The parser is not made for every text. It calls itself once for each array or
/// object inside another, without a limit of its own; it keeps the keys of the
/// objects that are open in one buffer and their places in 16 bits; it counts the
/// items of an array in 32 bits; it sums the digits of an exponent without a check;
/// and after a comma before the end of an object it no longer knows where in the
/// document it is. A text that is `readable` stays clear of all of these: at most
/// `MAX_DEPTH` keys are open at a time, each of at most `MAX_STRING` bytes, which
/// makes less than 65536 bytes together.
pub assume_specification[ Json::from_str ](s: &str) -> (r: Result<Json, ParserError>)
    requires
        readable(s@),
    ensures
        r is Ok <==> json_document(s@) is Some,
        r matches Ok(json) ==> json_document(s@) == Some(json),
;

/// `Json::find` looks a key up in an object. Its result has the name `json_member`.
pub assume_specification<'a>[ Json::find ](json: &'a Json, key: &str) -> (r: Option<&'a Json>)
    ensures
        r is Some <==> json_member(*json, key@) is Some,
        r matches Some(member) ==> json_member(*json, key@) == Some(*member),
;

/// `Json::as_u64` gives the number of an integer value that is not negative. Its
/// result has the name `json_u64`.
pub assume_specification[ Json::as_u64 ](json: &Json) -> (r: Option<u64>)
    ensures
        r == json_u64(*json),
;

/// `Json::as_array` gives the items of an array value. Its result has the name
/// `json_items`.
pub assume_specification<'a>[ Json::as_array ](json: &'a Json) -> (r: Option<&'a Vec<Json>>)
    ensures
        r is Some <==> json_items(*json) is Some,
        r matches Some(items) ==> json_items(*json) == Some(items@),
;

/// `Json::as_string` gives the text of a string value. Its result has the name
/// `json_string`.
pub assume_specification<'a>[ Json::as_string ](json: &'a Json) -> (r: Option<&'a str>)
    ensures
        r is Some <==> json_string(*json) is Some,
        r matches Some(text) ==> json_string(*json) == Some(text@),
;

/// The document that `text` holds: what the parser reads from it, where it is
/// `readable` and the parser reports no error.
pub open spec fn document(text: Seq<char>) -> Option<Json> {
    if readable(text) {
        json_document(text)
    } else {
        None
    }
}

fn count_in_string(s: Scan, escaped: bool) -> (r: Scan)
    requires
        s.run <= MAX_STRING,
    ensures
        r == scan_in_string(s, escaped),
        r.run <= MAX_STRING,
        r.depth == s.depth,
        r.exponent == s.exponent,
        r.after_comma == s.after_comma,
{
    if s.run >= MAX_STRING {
        Scan { ok: false, ..s }
    } else {
        Scan { escaped, run: s.run + 1, ..s }
    }
}

fn step(s: Scan, byte: u8) -> (r: Scan)
    requires
        s.run <= MAX_STRING,
        s.depth <= MAX_DEPTH,
        s.exponent matches Some(digits) ==> digits <= MAX_EXPONENT_DIGITS,
    ensures
        r == scan_step(s, byte),
        r.run <= MAX_STRING,
        r.depth <= MAX_DEPTH,
        r.exponent matches Some(digits) ==> digits <= MAX_EXPONENT_DIGITS,
{
    if !s.ok {
        s
    } else if s.in_string {
        if s.escaped {
            count_in_string(s, false)
        } else if byte == QUOTE {
            Scan { in_string: false, run: 0, ..s }
        } else {
            count_in_string(s, byte == BACKSLASH)
        }
    } else if byte == SPACE || byte == LINE_FEED || byte == TAB || byte == CARRIAGE_RETURN {
        Scan { exponent: None, ..s }
    } else if byte == COMMA {
        Scan { exponent: None, after_comma: true, ..s }
    } else if byte == BRACE_CLOSE && s.after_comma {
        Scan { ok: false, ..s }
    } else if byte == QUOTE {
        Scan { in_string: true, exponent: None, after_comma: false, ..s }
    } else if byte == BRACKET_OPEN || byte == BRACE_OPEN {
        if s.depth >= MAX_DEPTH {
            Scan { ok: false, ..s }
        } else {
            Scan { depth: s.depth + 1, exponent: None, after_comma: false, ..s }
        }
    } else if byte == BRACKET_CLOSE || byte == BRACE_CLOSE {
        let depth = if s.depth > 0 {
            s.depth - 1
        } else {
            0
        };
        Scan { depth, exponent: None, after_comma: false, ..s }
    } else if byte == LOWER_E || byte == UPPER_E {
        Scan { exponent: Some(0), after_comma: false, ..s }
    } else {
        match s.exponent {
            Some(digits) => {
                if (byte == PLUS || byte == MINUS) && digits == 0 {
                    Scan { after_comma: false, ..s }
                } else if DIGIT_0 <= byte && byte <= DIGIT_9 {
                    if digits >= MAX_EXPONENT_DIGITS {
                        Scan { ok: false, ..s }
                    } else {
                        Scan { exponent: Some(digits + 1), after_comma: false, ..s }
                    }
                } else {
                    Scan { exponent: None, after_comma: false, ..s }
                }
            },
            None => Scan { exponent: None, after_comma: false, ..s },
        }
    }
}

/// Whether `text` is read at all.
pub fn is_readable(text: &str) -> (r: bool)
    ensures
        r == readable(text@),
{
    let bytes = text.as_bytes();
    if bytes.len() > u32::MAX as usize {
        return false;
    }
    let mut s = Scan {
        ok: true,
        in_string: false,
        escaped: false,
        depth: 0,
        run: 0,
        exponent: None,
        after_comma: false,
    };
    let mut i: usize = 0;
    while i < bytes.len()
        invariant
            i <= bytes.len(),
            s == scan(bytes@, i as nat),
            s.run <= MAX_STRING,
            s.depth <= MAX_DEPTH,
            s.exponent matches Some(digits) ==> digits <= MAX_EXPONENT_DIGITS,
        decreases bytes.len() - i,
    {
        s = step(s, bytes[i]);
        i += 1;
    }
    s.ok
}

/// Reads `text` as a JSON document.
pub fn parse(text: &str) -> (r: Result<Json, VoxelError>)
    ensures
        match r {
            Ok(json) => document(text@) == Some(json),
            Err(e) => document(text@) is None && e == VoxelError::Parse,
        },
{
    if !is_readable(text) {
        return Err(VoxelError::Parse);
    }
    match Json::from_str(text) {
        Ok(json) => Ok(json),
        Err(_) => Err(VoxelError::Parse),
    }
}

} // verus!
