//! Decoding of header values that carry an encoded word.

use crate::base64;
use crate::encoded_word::{
    charset_at, find_word, first_word, has_word, lemma_first_word_unique, letter_at, text_at,
};
use crate::text::{chars_of, text_from_utf8, to_uppercase, uppercase, utf8_text};
use vstd::prelude::*;
use vstd::string::*;
use vstd::utf8::{encode_scalar, encode_utf8, encode_utf8_decode_utf8, encode_utf8_valid_utf8};

verus! {

/// Why a header value could not be decoded.
#[derive(Clone, Copy, Debug, PartialEq, Eq, Structural)]
pub enum DecodeError {
    /// The value holds no encoded word.
    NotEncodedWord,
    /// The encoding letter is neither `Q` nor `B`.
    UnsupportedEncoding,
    /// The charset is neither UTF-8 nor ISO-8859-1.
    UnsupportedCharset,
    /// The text is not what its encoding allows.
    MalformedPayload,
    /// The decoded bytes are not text in the stated charset.
    InvalidText,
}

/// How the text of an encoded word is written.
#[derive(Clone, Copy, Debug, PartialEq, Eq, Structural)]
pub enum Encoding {
    /// Quoted-printable, with `_` for a space.
    Quoted,
    /// Base64.
    Base64,
}

/// The charset of the bytes that an encoded word carries.
#[derive(Clone, Copy, Debug, PartialEq, Eq, Structural)]
pub enum Charset {
    Utf8,
    Latin1,
}

/// What `quoted_printable::decode` in its robust mode makes of `input`:
/// the decoded bytes, or `None` where it reports an error.
pub uninterp spec fn quoted_printable(input: Seq<u8>) -> Option<Seq<u8>>;

/// The encoding that a letter stands for.
pub open spec fn encoding_of(letter: char) -> Option<Encoding> {
    if letter == 'q' || letter == 'Q' {
        Some(Encoding::Quoted)
    } else if letter == 'b' || letter == 'B' {
        Some(Encoding::Base64)
    } else {
        None
    }
}

/// The charset that an upper-cased name stands for.
pub open spec fn charset_of(upper: Seq<char>) -> Option<Charset> {
    if upper == "UTF-8"@ || upper == "UTF8"@ {
        Some(Charset::Utf8)
    } else if upper == "ISO-8859-1"@ {
        Some(Charset::Latin1)
    } else {
        None
    }
}

/// `bytes` with every `_` replaced by a space.
pub open spec fn underscores_to_spaces(bytes: Seq<u8>) -> Seq<u8> {
    Seq::new(bytes.len(), |i: int| if bytes[i] == 95 { 32u8 } else { bytes[i] })
}

/// The bytes that the text of a word stands for under `encoding`.
pub open spec fn payload_of(encoding: Encoding, text: Seq<char>) -> Option<Seq<u8>> {
    match encoding {
        Encoding::Quoted => quoted_printable(underscores_to_spaces(encode_utf8(text))),
        Encoding::Base64 => base64::decoded(encode_utf8(text)),
    }
}

/// ISO-8859-1 read as text: each byte is the character with its number.
pub open spec fn latin1_text(bytes: Seq<u8>) -> Seq<char> {
    Seq::new(bytes.len(), |i: int| bytes[i] as char)
}

/// `bytes` read as text in `charset`, if they are text in it.
pub open spec fn text_in(charset: Charset, bytes: Seq<u8>) -> Option<Seq<char>> {
    match charset {
        Charset::Utf8 => utf8_text(bytes),
        Charset::Latin1 => Some(latin1_text(bytes)),
    }
}

/// What decoding makes of a header value.
///
/// The first encoded word of `input` decides: its encoding letter, then its
/// text under that encoding, then its charset, then the bytes read in that
/// charset. The first of these that fails gives the error.
pub open spec fn decoded_word(input: Seq<char>) -> Result<Seq<char>, DecodeError> {
    if !has_word(input) {
        Err(DecodeError::NotEncodedWord)
    } else {
        let w = first_word(input);
        match encoding_of(letter_at(input, w)) {
            None => Err(DecodeError::UnsupportedEncoding),
            Some(encoding) => match payload_of(encoding, text_at(input, w)) {
                None => Err(DecodeError::MalformedPayload),
                Some(bytes) => match charset_of(uppercase(charset_at(input, w))) {
                    None => Err(DecodeError::UnsupportedCharset),
                    Some(charset) => match text_in(charset, bytes) {
                        None => Err(DecodeError::InvalidText),
                        Some(text) => Ok(text),
                    },
                },
            },
        }
    }
}

/// Calls `quoted_printable::decode` with `ParseMode::Robust`. The result is
/// named, not described: the contract says only that it is
/// `quoted_printable` of the argument, and that there is one, since every
/// error of that function is raised in its strict mode alone.
#[verifier::external_body]
fn decode_quoted_printable(input: &[u8]) -> (r: Option<Vec<u8>>)
    ensures
        r is Some,
        r matches Some(v) ==> quoted_printable(input@) == Some(v@),
{
    ::quoted_printable::decode(input, ::quoted_printable::ParseMode::Robust).ok()
}

/// The UTF-8 of two texts one after the other is the UTF-8 of the first
/// and then that of the second.
proof fn lemma_encode_utf8_concat(a: Seq<char>, b: Seq<char>)
    ensures
        encode_utf8(a + b) == encode_utf8(a) + encode_utf8(b),
    decreases a.len(),
{
    if a.len() == 0 {
        assert(a + b =~= b);
        assert(encode_utf8(a) + encode_utf8(b) =~= encode_utf8(b));
    } else {
        lemma_encode_utf8_concat(a.drop_first(), b);
        assert((a + b).drop_first() =~= a.drop_first() + b);
        assert((a + b)[0] == a[0]);
        assert(encode_utf8(a + b) =~= encode_utf8(a) + encode_utf8(b));
    }
}

/// The UTF-8 of the character with the number of a byte: the byte itself
/// below 128, and else two bytes that carry its upper two and its lower six
/// bits.
proof fn lemma_encode_latin1(b: u8)
    ensures
        b < 128 ==> encode_utf8(seq![b as char]) == seq![b],
        b >= 128 ==> encode_utf8(seq![b as char]) == seq![192u8 | (b >> 6), 128u8 | (b & 63)],
{
    let c = b as char;
    let v = c as u32;
    assert(v == b as u32);
    assert(seq![c].drop_first() =~= Seq::<char>::empty());
    assert(encode_utf8(Seq::<char>::empty()) =~= Seq::<u8>::empty());
    assert(seq![c][0] == c);
    assert(encode_utf8(seq![c]) == encode_scalar(v) + encode_utf8(seq![c].drop_first()));
    assert(encode_utf8(seq![c]) =~= encode_scalar(v));
    if b < 128 {
        assert((v & 0x7F) as u8 == b) by (bit_vector)
            requires
                v == b as u32,
                b < 128,
        ;
        assert(encode_scalar(v) =~= seq![b]);
    } else {
        assert(0xC0u8 | ((v >> 6) & 0x1F) as u8 == 192u8 | (b >> 6)) by (bit_vector)
            requires
                v == b as u32,
        ;
        assert(0x80u8 | (v & 0x3F) as u8 == 128u8 | (b & 63)) by (bit_vector)
            requires
                v == b as u32,
        ;
        assert(encode_scalar(v) =~= seq![192u8 | (b >> 6), 128u8 | (b & 63)]);
    }
}

/// Reads bytes as ISO-8859-1: the text in which each byte is the character
/// with its number. Every byte stands for a character, so this never fails.
pub fn decode_latin1(bytes: &[u8]) -> (r: String)
    ensures
        r@ == latin1_text(bytes@),
{
    let mut out: Vec<u8> = Vec::new();
    let mut i: usize = 0;
    while i < bytes.len()
        invariant
            i <= bytes.len(),
            out@ == encode_utf8(latin1_text(bytes@.take(i as int))),
        decreases bytes.len() - i,
    {
        let b = bytes[i];
        proof {
            let before = latin1_text(bytes@.take(i as int));
            let after = latin1_text(bytes@.take(i + 1));
            assert(after =~= before + seq![b as char]);
            lemma_encode_utf8_concat(before, seq![b as char]);
            lemma_encode_latin1(b);
        }
        if b < 128 {
            out.push(b);
        } else {
            out.push(192u8 | (b >> 6));
            out.push(128u8 | (b & 63));
        }
        assert(out@ =~= encode_utf8(latin1_text(bytes@.take(i + 1))));
        i = i + 1;
    }
    proof {
        assert(bytes@.take(i as int) =~= bytes@);
        encode_utf8_valid_utf8(latin1_text(bytes@));
        encode_utf8_decode_utf8(latin1_text(bytes@));
    }
    match text_from_utf8(out.as_slice()) {
        Some(text) => text,
        None => String::new(),
    }
}

/// The encoding that `letter` stands for: `Q` or `B` in either case.
pub fn encoding_for(letter: char) -> (r: Option<Encoding>)
    ensures
        r == encoding_of(letter),
{
    if letter == 'q' || letter == 'Q' {
        Some(Encoding::Quoted)
    } else if letter == 'b' || letter == 'B' {
        Some(Encoding::Base64)
    } else {
        None
    }
}

/// The charset that the upper-cased name `upper` stands for: `UTF-8` or
/// `UTF8`, or `ISO-8859-1`.
pub fn charset_for(upper: &str) -> (r: Option<Charset>)
    ensures
        r == charset_of(upper@),
{
    let name = upper.to_owned();
    if name == "UTF-8".to_owned() || name == "UTF8".to_owned() {
        Some(Charset::Utf8)
    } else if name == "ISO-8859-1".to_owned() {
        Some(Charset::Latin1)
    } else {
        None
    }
}

/// Replaces every `_` of `bytes` by a space.
pub fn spaces_for_underscores(bytes: &[u8]) -> (r: Vec<u8>)
    ensures
        r@ == underscores_to_spaces(bytes@),
{
    let mut out: Vec<u8> = Vec::new();
    let mut i: usize = 0;
    while i < bytes.len()
        invariant
            i <= bytes.len(),
            out.len() == i,
            forall|j: int| 0 <= j < i ==> out[j] == underscores_to_spaces(bytes@)[j],
        decreases bytes.len() - i,
    {
        let b = bytes[i];
        out.push(if b == 95 { 32 } else { b });
        i = i + 1;
    }
    assert(out@ =~= underscores_to_spaces(bytes@));
    out
}

/// Decodes the text of a word under `encoding`.
///
/// Returns `None` exactly where the text is not what the encoding allows.
pub fn decode_payload(encoding: Encoding, text: &str) -> (r: Option<Vec<u8>>)
    ensures
        r matches Some(v) ==> payload_of(encoding, text@) == Some(v@),
        r is None ==> payload_of(encoding, text@) is None,
{
    let raw = text.as_bytes();
    match encoding {
        Encoding::Quoted => {
            let spaced = spaces_for_underscores(raw);
            decode_quoted_printable(spaced.as_slice())
        },
        Encoding::Base64 => base64::decode(raw),
    }
}

/// Reads decoded bytes as text in `charset`.
///
/// Fails with `InvalidText` exactly where the bytes are not text in the
/// charset, which only UTF-8 can refuse.
pub fn decode_text(charset: Charset, bytes: &[u8]) -> (r: Result<String, DecodeError>)
    ensures
        r matches Ok(s) ==> text_in(charset, bytes@) == Some(s@),
        r matches Err(e) ==> e == DecodeError::InvalidText && text_in(charset, bytes@) is None,
{
    match charset {
        Charset::Utf8 => match text_from_utf8(bytes) {
            Some(s) => Ok(s),
            None => Err(DecodeError::InvalidText),
        },
        Charset::Latin1 => Ok(decode_latin1(bytes)),
    }
}

/// Decodes the first encoded word of `input`.
///
/// Returns the decoded text, or the error that `decoded_word` gives for
/// `input`: `NotEncodedWord` where `input` holds no word, and for the first
/// word `UnsupportedEncoding`, `MalformedPayload`, `UnsupportedCharset` or
/// `InvalidText`, whichever comes first.
pub fn decode_rfc2047(input: &str) -> (r: Result<String, DecodeError>)
    ensures
        r matches Ok(s) ==> decoded_word(input@) == Ok::<Seq<char>, DecodeError>(s@),
        r matches Err(e) ==> decoded_word(input@) == Err::<Seq<char>, DecodeError>(e),
{
    let chars = chars_of(input);
    let span = match find_word(&chars) {
        Some(span) => span,
        None => {
            return Err(DecodeError::NotEncodedWord);
        },
    };
    proof {
        lemma_first_word_unique(
            input@,
            span.start as int,
            span.charset_end as int,
            span.text_end as int,
        );
    }
    let encoding = match encoding_for(chars[span.charset_end + 1]) {
        Some(encoding) => encoding,
        None => {
            return Err(DecodeError::UnsupportedEncoding);
        },
    };
    let text = input.substring_char(span.charset_end + 3, span.text_end);
    let bytes = match decode_payload(encoding, text) {
        Some(bytes) => bytes,
        None => {
            return Err(DecodeError::MalformedPayload);
        },
    };
    let name = input.substring_char(span.start + 2, span.charset_end);
    let upper = to_uppercase(name);
    let charset = match charset_for(upper.as_str()) {
        Some(charset) => charset,
        None => {
            return Err(DecodeError::UnsupportedCharset);
        },
    };
    decode_text(charset, bytes.as_slice())
}

} // verus!
