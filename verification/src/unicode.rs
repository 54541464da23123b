//! Byte-level text encoding handling for path strings: detection of the
//! encoding of raw bytes, conversion to and from UTF-8, re-encoding of a
//! path between encodings, and character-level cleanup of decoded path
//! text.
use vstd::prelude::*;

use crate::error::PathError;
use crate::text::{chars_to_string, str_to_chars};
use crate::PathResult;
use vstd::string::StrSliceExecFns;
use vstd::utf8::{decode_utf8, encode_utf8, valid_utf8};

verus! {

broadcast use vstd::string::group_string_axioms;

/// The text encodings this engine distinguishes.
#[derive(Debug, Clone, Copy, PartialEq, Eq, Structural)]
pub enum EncodingKind {
    /// UTF-8.
    Utf8,
    /// UTF-16 little-endian.
    Utf16Le,
    /// The Windows-1252 single-byte code page.
    Windows1252,
}

/// The detected encoding of raw bytes: valid UTF-8 bytes are UTF-8, else a
/// leading little-endian byte-order mark means UTF-16LE, else the legacy
/// Windows code page.
pub open spec fn spec_detect_encoding(bytes: Seq<u8>) -> EncodingKind {
    if valid_utf8(bytes) {
        EncodingKind::Utf8
    } else if bytes.len() >= 2 && bytes[0] == 0xFF && bytes[1] == 0xFE {
        EncodingKind::Utf16Le
    } else {
        EncodingKind::Windows1252
    }
}

/// A leading UTF-8 byte-order mark removed, when present.
pub open spec fn strip_utf8_bom(bytes: Seq<u8>) -> Seq<u8> {
    if bytes.len() >= 3 && bytes[0] == 0xEF && bytes[1] == 0xBB && bytes[2] == 0xBF {
        bytes.skip(3)
    } else {
        bytes
    }
}

/// Dropping a leading byte-order mark keeps the bytes valid UTF-8: the
/// mark is itself one complete three-byte scalar.
proof fn lemma_utf8_bom_tail(bytes: Seq<u8>)
    requires
        valid_utf8(bytes),
        bytes.len() >= 3,
        bytes[0] == 0xEF,
        bytes[1] == 0xBB,
        bytes[2] == 0xBF,
    ensures
        valid_utf8(bytes.skip(3)),
{
    assert(vstd::utf8::is_leading_byte_width_3(bytes[0]));
    assert(vstd::utf8::length_of_first_scalar(bytes) == 3);
    assert(vstd::utf8::pop_first_scalar(bytes) =~= bytes.skip(3));
    assert(valid_utf8(vstd::utf8::pop_first_scalar(bytes)));
}

/// Relies on `std::str::from_utf8`: it succeeds exactly on valid UTF-8
/// bytes, and then returns the string those bytes encode.
#[verifier::external_body]
fn utf8_to_text(bytes: &[u8]) -> (r: Option<String>)
    ensures
        r is Some <==> valid_utf8(bytes@),
        r matches Some(s) ==> s@ == decode_utf8(bytes@),
{
    match std::str::from_utf8(bytes) {
        Ok(s) => Some(s.to_owned()),
        Err(_) => None,
    }
}

/// What `encoding_rs::UTF_16LE.decode` returns for the given bytes: the
/// decoded text and the malformed-sequences flag.
pub uninterp spec fn utf16le_decoding(bytes: Seq<u8>) -> (Seq<char>, bool);

/// Relies on `encoding_rs::UTF_16LE::decode`: the result depends on the
/// bytes alone. The length bound keeps the decoder's buffer-size
/// calculation from overflowing, the one input on which it panics.
#[verifier::external_body]
fn utf16le_decode(bytes: &[u8]) -> (r: (String, bool))
    requires
        bytes@.len() < 0x0800_0000_0000_0000,
    ensures
        (r.0@, r.1) == utf16le_decoding(bytes@),
{
    let (text, _, had_errors) = encoding_rs::UTF_16LE.decode(bytes);
    (text.into_owned(), had_errors)
}

/// What `encoding_rs::WINDOWS_1252.decode` returns for the given bytes:
/// the decoded text and the malformed-sequences flag.
pub uninterp spec fn windows1252_decoding(bytes: Seq<u8>) -> (Seq<char>, bool);

/// Relies on `encoding_rs::WINDOWS_1252::decode`: the result depends on
/// the bytes alone. The length bound keeps the decoder's buffer-size
/// calculation from overflowing, the one input on which it panics.
#[verifier::external_body]
fn windows1252_decode(bytes: &[u8]) -> (r: (String, bool))
    requires
        bytes@.len() < 0x0800_0000_0000_0000,
    ensures
        (r.0@, r.1) == windows1252_decoding(bytes@),
{
    let (text, _, had_errors) = encoding_rs::WINDOWS_1252.decode(bytes);
    (text.into_owned(), had_errors)
}

/// What `encoding_rs::UTF_16LE.encode` returns for the given text: the
/// encoded bytes and the unmappable-characters flag.
pub uninterp spec fn utf16le_encoding(text: Seq<char>) -> (Seq<u8>, bool);

/// Relies on `encoding_rs::UTF_16LE::encode`: the result depends on the
/// text alone. The length bound keeps the encoder's buffer-size
/// calculation from overflowing, the one input on which it panics.
#[verifier::external_body]
fn utf16le_encode(text: &str) -> (r: (Vec<u8>, bool))
    requires
        text@.len() < 0x0800_0000_0000_0000,
    ensures
        (r.0@, r.1) == utf16le_encoding(text@),
{
    let (bytes, _, had_errors) = encoding_rs::UTF_16LE.encode(text);
    (bytes.into_owned(), had_errors)
}

/// What `encoding_rs::WINDOWS_1252.encode` returns for the given text: the
/// encoded bytes and the unmappable-characters flag.
pub uninterp spec fn windows1252_encoding(text: Seq<char>) -> (Seq<u8>, bool);

/// Relies on `encoding_rs::WINDOWS_1252::encode`: the result depends on
/// the text alone. The length bound keeps the encoder's buffer-size
/// calculation from overflowing, the one input on which it panics.
#[verifier::external_body]
fn windows1252_encode(text: &str) -> (r: (Vec<u8>, bool))
    requires
        text@.len() < 0x0800_0000_0000_0000,
    ensures
        (r.0@, r.1) == windows1252_encoding(text@),
{
    let (bytes, _, had_errors) = encoding_rs::WINDOWS_1252.encode(text);
    (bytes.into_owned(), had_errors)
}

/// The bytes and unmappable flag of encoding text under a kind; UTF-8
/// encoding never fails.
pub open spec fn spec_encode_under(text: Seq<char>, kind: EncodingKind) -> (Seq<u8>, bool) {
    match kind {
        EncodingKind::Utf8 => (encode_utf8(text), false),
        EncodingKind::Utf16Le => utf16le_encoding(text),
        EncodingKind::Windows1252 => windows1252_encoding(text),
    }
}

/// The text and malformed flag of decoding bytes under a kind; UTF-8
/// decoding fails exactly on invalid UTF-8.
pub open spec fn spec_decode_under(bytes: Seq<u8>, kind: EncodingKind) -> (Seq<char>, bool) {
    match kind {
        EncodingKind::Utf8 => (decode_utf8(bytes), !valid_utf8(bytes)),
        EncodingKind::Utf16Le => utf16le_decoding(bytes),
        EncodingKind::Windows1252 => windows1252_decoding(bytes),
    }
}

/// Whether a character is a Unicode control character.
pub open spec fn spec_is_control(c: char) -> bool {
    (c as u32) < 0x20 || (0x7F <= c as u32 && c as u32 <= 0x9F)
}

/// A character Windows forbids in path names.
pub open spec fn spec_win_invalid(c: char) -> bool {
    c == '<' || c == '>' || c == ':' || c == '"' || c == '|' || c == '?' || c == '*'
}

/// `s` with every control character removed.
pub open spec fn drop_controls(s: Seq<char>) -> Seq<char>
    decreases s.len(),
{
    if s.len() == 0 {
        s
    } else {
        let r = drop_controls(s.drop_last());
        if spec_is_control(s.last()) {
            r
        } else {
            r.push(s.last())
        }
    }
}

/// The Windows text cleanup: forbidden characters become `_`, control
/// characters are removed.
pub open spec fn spec_norm_windows_text(s: Seq<char>) -> Seq<char> {
    drop_controls(s.map_values(|c: char| if spec_win_invalid(c) { '_' } else { c }))
}

/// The Unix text cleanup: control characters (the NUL byte among them) are
/// removed.
pub open spec fn spec_norm_unix_text(s: Seq<char>) -> Seq<char> {
    drop_controls(s)
}

/// Whether a character is a Unicode control character.
fn is_control_char(c: char) -> (r: bool)
    ensures
        r == spec_is_control(c),
{
    let code: u32 = c as u32;
    code < 0x20 || (0x7F <= code && code <= 0x9F)
}

/// Remove every control character.
fn drop_controls_chars(s: &Vec<char>) -> (r: Vec<char>)
    ensures
        r@ == drop_controls(s@),
{
    let mut r: Vec<char> = Vec::new();
    let mut i: usize = 0;
    while i < s.len()
        invariant
            i <= s@.len(),
            r@ == drop_controls(s@.subrange(0, i as int)),
        decreases s@.len() - i,
    {
        let c = s[i];
        if !is_control_char(c) {
            r.push(c);
        }
        i = i + 1;
        proof {
            assert(s@.subrange(0, i as int).drop_last() =~= s@.subrange(0, i - 1));
            assert(r@ =~= drop_controls(s@.subrange(0, i as int)));
        }
    }
    proof {
        assert(s@.subrange(0, s@.len() as int) =~= s@);
    }
    r
}

/// Unicode encoding handler for path strings.
#[derive(Debug, Clone, Copy)]
pub struct UnicodeHandler;

impl UnicodeHandler {
    /// Detect the encoding of raw bytes.
    pub fn detect_encoding(bytes: &[u8]) -> (r: EncodingKind)
        ensures
            r == spec_detect_encoding(bytes@),
    {
        if utf8_to_text(bytes).is_some() {
            return EncodingKind::Utf8;
        }
        if bytes.len() >= 2 && *slice_index_get(bytes, 0) == 0xFF && *slice_index_get(bytes, 1)
            == 0xFE {
            return EncodingKind::Utf16Le;
        }
        EncodingKind::Windows1252
    }

    /// Decode raw bytes to text under their detected encoding, removing a
    /// leading UTF-8 byte-order mark; fails when the decoder reports
    /// malformed sequences. The length bound is a machine limit on the
    /// decoder's working buffer.
    pub fn convert_to_utf8(bytes: &[u8]) -> (r: PathResult<String>)
        requires
            bytes@.len() < 0x0800_0000_0000_0000,
        ensures
            spec_detect_encoding(bytes@) == EncodingKind::Utf8 ==> (r matches Ok(s) && s@
                == decode_utf8(strip_utf8_bom(bytes@))),
            spec_detect_encoding(bytes@) == EncodingKind::Utf16Le ==> decode_outcome(
                r,
                utf16le_decoding(bytes@),
            ),
            spec_detect_encoding(bytes@) == EncodingKind::Windows1252 ==> decode_outcome(
                r,
                windows1252_decoding(bytes@),
            ),
    {
        match Self::detect_encoding(bytes) {
            EncodingKind::Utf8 => {
                let has_bom = bytes.len() >= 3 && *slice_index_get(bytes, 0) == 0xEF
                    && *slice_index_get(bytes, 1) == 0xBB && *slice_index_get(bytes, 2) == 0xBF;
                if has_bom {
                    let mut rest: Vec<u8> = Vec::new();
                    let mut i: usize = 3;
                    while i < bytes.len()
                        invariant
                            3 <= i <= bytes@.len(),
                            rest@ == bytes@.subrange(3, i as int),
                        decreases bytes@.len() - i,
                    {
                        rest.push(*slice_index_get(bytes, i));
                        i = i + 1;
                        proof {
                            assert(rest@ =~= bytes@.subrange(3, i as int));
                        }
                    }
                    proof {
                        assert(rest@ =~= bytes@.skip(3));
                        lemma_utf8_bom_tail(bytes@);
                    }
                    match utf8_to_text(rest.as_slice()) {
                        Some(s) => Ok(s),
                        None => {
                            proof {
                                assert(false);
                            }
                            Err(
                                PathError::encoding_error(
                                    "Encoding conversion encountered errors",
                                ),
                            )
                        },
                    }
                } else {
                    match utf8_to_text(bytes) {
                        Some(s) => Ok(s),
                        None => {
                            proof {
                                assert(false);
                            }
                            Err(
                                PathError::encoding_error(
                                    "Encoding conversion encountered errors",
                                ),
                            )
                        },
                    }
                }
            },
            EncodingKind::Utf16Le => {
                let (text, had_errors) = utf16le_decode(bytes);
                if had_errors {
                    Err(PathError::encoding_error("Encoding conversion encountered errors"))
                } else {
                    Ok(text)
                }
            },
            EncodingKind::Windows1252 => {
                let (text, had_errors) = windows1252_decode(bytes);
                if had_errors {
                    Err(PathError::encoding_error("Encoding conversion encountered errors"))
                } else {
                    Ok(text)
                }
            },
        }
    }

    /// Encode text into bytes of the target encoding; fails when the
    /// encoder reports unmappable characters. UTF-8 always succeeds. The
    /// length bound is a machine limit on the encoder's working buffer.
    pub fn convert_from_utf8(text: &str, target_encoding: EncodingKind) -> (r: PathResult<
        Vec<u8>,
    >)
        requires
            text@.len() < 0x0800_0000_0000_0000,
        ensures
            target_encoding == EncodingKind::Utf8 ==> (r matches Ok(b) && b@ == encode_utf8(
                text@,
            )),
            target_encoding == EncodingKind::Utf16Le ==> encode_outcome(
                r,
                utf16le_encoding(text@),
            ),
            target_encoding == EncodingKind::Windows1252 ==> encode_outcome(
                r,
                windows1252_encoding(text@),
            ),
    {
        match target_encoding {
            EncodingKind::Utf8 => Ok(text.as_bytes_vec()),
            EncodingKind::Utf16Le => {
                let (bytes, had_errors) = utf16le_encode(text);
                if had_errors {
                    Err(PathError::encoding_error("Encoding conversion encountered errors"))
                } else {
                    Ok(bytes)
                }
            },
            EncodingKind::Windows1252 => {
                let (bytes, had_errors) = windows1252_encode(text);
                if had_errors {
                    Err(PathError::encoding_error("Encoding conversion encountered errors"))
                } else {
                    Ok(bytes)
                }
            },
        }
    }

    /// Re-encode a path string: identity when the encodings are equal, and
    /// otherwise encode under `from` (ignoring unmappable characters, as
    /// the encoder replaces them) and decode under `to`, failing when the
    /// decoder reports malformed sequences.
    pub fn convert_path_encoding(path: &str, from: EncodingKind, to: EncodingKind) -> (r:
        PathResult<String>)
        requires
            path@.len() < 0x0800_0000_0000_0000,
        ensures
            from == to ==> (r matches Ok(s) && s@ == path@),
            from != to ==> ({
                let encoded = spec_encode_under(path@, from).0;
                let decoded = spec_decode_under(encoded, to);
                &&& encoded.len() >= 0x0800_0000_0000_0000 ==> (r matches Err(
                    PathError::EncodingError(m),
                ) && m@ == "Path encoding conversion failed"@)
                &&& encoded.len() < 0x0800_0000_0000_0000 && decoded.1 == false ==> (r matches Ok(
                    s,
                ) && s@ == decoded.0)
                &&& encoded.len() < 0x0800_0000_0000_0000 && decoded.1 == true ==> (r matches Err(
                    PathError::EncodingError(m),
                ) && m@ == "Path encoding conversion failed"@)
            }),
    {
        if from == to {
            return Ok(path.to_owned());
        }
        let bytes: Vec<u8> = match from {
            EncodingKind::Utf8 => path.as_bytes_vec(),
            EncodingKind::Utf16Le => utf16le_encode(path).0,
            EncodingKind::Windows1252 => windows1252_encode(path).0,
        };
        if bytes.len() as u64 >= 0x0800_0000_0000_0000u64 {
            return Err(PathError::encoding_error("Path encoding conversion failed"));
        }
        match to {
            EncodingKind::Utf8 => {
                match utf8_to_text(bytes.as_slice()) {
                    Some(s) => Ok(s),
                    None => Err(PathError::encoding_error("Path encoding conversion failed")),
                }
            },
            EncodingKind::Utf16Le => {
                let (text, had_errors) = utf16le_decode(bytes.as_slice());
                if had_errors {
                    Err(PathError::encoding_error("Path encoding conversion failed"))
                } else {
                    Ok(text)
                }
            },
            EncodingKind::Windows1252 => {
                let (text, had_errors) = windows1252_decode(bytes.as_slice());
                if had_errors {
                    Err(PathError::encoding_error("Path encoding conversion failed"))
                } else {
                    Ok(text)
                }
            },
        }
    }

    /// Clean up Windows path text: forbidden characters become `_` and
    /// control characters are removed.
    pub fn normalize_windows_path(path: &str) -> (r: String)
        ensures
            r@ == spec_norm_windows_text(path@),
    {
        let chars = str_to_chars(path);
        let mut mapped: Vec<char> = Vec::new();
        let mut i: usize = 0;
        while i < chars.len()
            invariant
                i <= chars@.len(),
                mapped@ == chars@.subrange(0, i as int).map_values(
                    |c: char| if spec_win_invalid(c) { '_' } else { c },
                ),
            decreases chars@.len() - i,
        {
            let c = chars[i];
            if c == '<' || c == '>' || c == ':' || c == '"' || c == '|' || c == '?' || c == '*' {
                mapped.push('_');
            } else {
                mapped.push(c);
            }
            i = i + 1;
            proof {
                assert(mapped@ =~= chars@.subrange(0, i as int).map_values(
                    |c: char| if spec_win_invalid(c) { '_' } else { c },
                ));
            }
        }
        proof {
            assert(chars@.subrange(0, chars@.len() as int) =~= chars@);
        }
        let cleaned = drop_controls_chars(&mapped);
        chars_to_string(&cleaned)
    }

    /// Clean up Unix path text: control characters, the NUL byte among
    /// them, are removed.
    pub fn normalize_unix_path(path: &str) -> (r: String)
        ensures
            r@ == spec_norm_unix_text(path@),
    {
        let chars = str_to_chars(path);
        let cleaned = drop_controls_chars(&chars);
        chars_to_string(&cleaned)
    }
}

/// Whether a decode outcome `r` reflects the decoder pair `d`: the decoded
/// text on success, the fixed error on a malformed flag.
pub open spec fn decode_outcome(r: PathResult<String>, d: (Seq<char>, bool)) -> bool {
    (d.1 == false ==> (r matches Ok(s) && s@ == d.0)) && (d.1 == true ==> (r matches Err(
        PathError::EncodingError(m),
    ) && m@ == "Encoding conversion encountered errors"@))
}

/// Whether an encode outcome `r` reflects the encoder pair `e`: the
/// encoded bytes on success, the fixed error on an unmappable flag.
pub open spec fn encode_outcome(r: PathResult<Vec<u8>>, e: (Seq<u8>, bool)) -> bool {
    (e.1 == false ==> (r matches Ok(b) && b@ == e.0)) && (e.1 == true ==> (r matches Err(
        PathError::EncodingError(m),
    ) && m@ == "Encoding conversion encountered errors"@))
}

/// Read one byte of a slice.
fn slice_index_get(s: &[u8], i: usize) -> (r: &u8)
    requires
        i < s@.len(),
    ensures
        *r == s@[i as int],
{
    &s[i]
}

} // verus!
