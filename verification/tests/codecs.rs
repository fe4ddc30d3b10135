use pregonero::base64;
use pregonero::codecs::{
    charset_for, decode_latin1, decode_payload, decode_rfc2047, decode_text, encoding_for,
    spaces_for_underscores, Charset, DecodeError, Encoding,
};
use pregonero::encoded_word::{find_word, WordSpan};
use pregonero::text::chars_of;

#[test]
fn test_decode_rfc2047_valid_q_encoded_utf8() {
    let input = "=?UTF-8?Q?This_is_a_test?=";
    let result = decode_rfc2047(input);
    assert!(result.is_ok());
    assert_eq!(result.unwrap(), "This is a test");
}

#[test]
fn test_decode_rfc2047_valid_q_encoded_iso_8859_1() {
    let input = "=?ISO-8859-1?Q?This_is_a_test?=";
    let result = decode_rfc2047(input);
    assert!(result.is_ok());
    assert_eq!(result.unwrap(), "This is a test");
}

#[test]
fn test_decode_rfc2047_invalid_encoding() {
    let input = "=?UTF-8?Z?Invalid_encoding?=";
    let result = decode_rfc2047(input);
    assert!(result.is_err());
}

#[test]
fn test_decode_rfc2047_unsupported_charset() {
    let input = "=?UNSUPPORTED?Q?Unsupported_charset?=";
    let result = decode_rfc2047(input);
    assert!(result.is_err());
}

#[test]
fn test_decode_rfc2047_not_rfc2047() {
    let input = "Not a RFC2047 encoded-word";
    let result = decode_rfc2047(input);
    assert!(result.is_err());
}

#[test]
fn decode_hello_world() {
    assert_eq!(decode_rfc2047("=?UTF-8?Q?Hello_World?="), Ok("Hello World".to_string()));
}

#[test]
fn decode_gives_each_error() {
    assert_eq!(decode_rfc2047("plain"), Err(DecodeError::NotEncodedWord));
    assert_eq!(decode_rfc2047(""), Err(DecodeError::NotEncodedWord));
    assert_eq!(decode_rfc2047("=?UTF-8?Z?x?="), Err(DecodeError::UnsupportedEncoding));
    assert_eq!(decode_rfc2047("=?UNSUPPORTED?Q?x?="), Err(DecodeError::UnsupportedCharset));
    assert_eq!(decode_rfc2047("=?UTF-8?B?abc?="), Err(DecodeError::MalformedPayload));
    assert_eq!(decode_rfc2047("=?UTF-8?Q?=FF?="), Err(DecodeError::InvalidText));
}

#[test]
fn decode_checks_the_payload_before_the_charset() {
    assert_eq!(decode_rfc2047("=?NOPE?B?abc?="), Err(DecodeError::MalformedPayload));
    assert_eq!(decode_rfc2047("=?NOPE?B?YWJj?="), Err(DecodeError::UnsupportedCharset));
}

#[test]
fn decode_is_case_insensitive() {
    assert_eq!(decode_rfc2047("=?utf-8?q?a_b?="), Ok("a b".to_string()));
    assert_eq!(decode_rfc2047("=?Utf8?Q?a=20b?="), Ok("a b".to_string()));
    assert_eq!(decode_rfc2047("=?iso-8859-1?q?caf=E9?="), Ok("caf\u{e9}".to_string()));
}

#[test]
fn decode_quoted_printable_escapes() {
    assert_eq!(decode_rfc2047("=?UTF-8?Q?caf=C3=A9?="), Ok("caf\u{e9}".to_string()));
    assert_eq!(decode_rfc2047("=?UTF-8?Q?a=ZZb?="), Ok("a=ZZb".to_string()));
}

#[test]
fn decode_base64_words() {
    assert_eq!(decode_rfc2047("=?UTF-8?B?SGVsbG8gV29ybGQ=?="), Ok("Hello World".to_string()));
    assert_eq!(decode_rfc2047("=?utf-8?b?SGk=?="), Ok("Hi".to_string()));
    assert_eq!(decode_rfc2047("=?ISO-8859-1?B?6Q==?="), Ok("\u{e9}".to_string()));
    assert_eq!(decode_rfc2047("=?UTF-8?B??="), Ok(String::new()));
}

#[test]
fn decode_takes_the_first_word_only() {
    assert_eq!(decode_rfc2047("Re: =?UTF-8?Q?one?= =?UTF-8?Q?two?="), Ok("one".to_string()));
    assert_eq!(decode_rfc2047("=?x?Z?y?=\n=?UTF-8?Q?hi?="), Err(DecodeError::UnsupportedEncoding));
}

#[test]
fn find_word_spans() {
    let s = chars_of("=?UTF-8?Q?abc?=");
    assert_eq!(find_word(&s), Some(WordSpan { start: 0, charset_end: 7, text_end: 13 }));
    let s = chars_of("xx=?a?b??=");
    assert_eq!(find_word(&s), Some(WordSpan { start: 2, charset_end: 5, text_end: 8 }));
    let s = chars_of("=??q??=");
    assert_eq!(find_word(&s), Some(WordSpan { start: 0, charset_end: 2, text_end: 5 }));
    let s = chars_of("=?a?q?b");
    assert_eq!(find_word(&s), None);
    let s = chars_of("=?a\n?q?b?=");
    assert_eq!(find_word(&s), None);
    let s = chars_of("=?a?q?b\n?=");
    assert_eq!(find_word(&s), None);
    let s = chars_of("=?a?1?b?=");
    assert_eq!(find_word(&s), None);
}

#[test]
fn find_word_prefers_short_charset_then_short_text() {
    // The charset may hold question marks when no shorter reading exists.
    let s = chars_of("=?a?1?2?q?t?=");
    assert_eq!(find_word(&s), Some(WordSpan { start: 0, charset_end: 7, text_end: 11 }));
    let s = chars_of("=?a?1?u?q?t?=");
    assert_eq!(find_word(&s), Some(WordSpan { start: 0, charset_end: 5, text_end: 11 }));
    let s = chars_of("=?a?q?t?=u?=");
    assert_eq!(find_word(&s), Some(WordSpan { start: 0, charset_end: 3, text_end: 7 }));
}

#[test]
fn encoding_letters() {
    assert_eq!(encoding_for('q'), Some(Encoding::Quoted));
    assert_eq!(encoding_for('Q'), Some(Encoding::Quoted));
    assert_eq!(encoding_for('b'), Some(Encoding::Base64));
    assert_eq!(encoding_for('B'), Some(Encoding::Base64));
    assert_eq!(encoding_for('z'), None);
}

#[test]
fn charset_names() {
    assert_eq!(charset_for("UTF-8"), Some(Charset::Utf8));
    assert_eq!(charset_for("UTF8"), Some(Charset::Utf8));
    assert_eq!(charset_for("ISO-8859-1"), Some(Charset::Latin1));
    assert_eq!(charset_for("utf-8"), None);
    assert_eq!(charset_for("ISO-8859-15"), None);
    assert_eq!(charset_for(""), None);
}

#[test]
fn underscores_become_spaces() {
    assert_eq!(spaces_for_underscores(b"a_b__c"), b"a b  c".to_vec());
    assert_eq!(spaces_for_underscores(b""), Vec::<u8>::new());
}

#[test]
fn payloads() {
    assert_eq!(decode_payload(Encoding::Quoted, "a_b=21"), Some(b"a b!".to_vec()));
    assert_eq!(decode_payload(Encoding::Base64, "YQ=="), Some(b"a".to_vec()));
    assert_eq!(decode_payload(Encoding::Base64, "YQ="), None);
}

#[test]
fn texts_in_charsets() {
    assert_eq!(decode_text(Charset::Utf8, &[0xc3, 0xa9]), Ok("\u{e9}".to_string()));
    assert_eq!(decode_text(Charset::Utf8, &[0xc3]), Err(DecodeError::InvalidText));
    assert_eq!(decode_text(Charset::Latin1, &[0x41, 0xe9, 0xff, 0x80]), Ok("A\u{e9}\u{ff}\u{80}".to_string()));
    assert_eq!(decode_text(Charset::Latin1, &[]), Ok(String::new()));
}

#[test]
fn latin1_is_each_byte_its_character() {
    assert_eq!(decode_latin1(&[]), "");
    assert_eq!(decode_latin1(b"plain ASCII ~"), "plain ASCII ~");
    assert_eq!(decode_latin1(&[0x00, 0x7f, 0x80, 0xbf, 0xc0, 0xe9, 0xff]), "\u{0}\u{7f}\u{80}\u{bf}\u{c0}\u{e9}\u{ff}");
    let all: Vec<u8> = (0..=255).collect();
    let text = decode_latin1(&all);
    let numbers: Vec<u32> = text.chars().map(|c| c as u32).collect();
    assert_eq!(numbers, (0..=255).collect::<Vec<u32>>());
}

#[test]
fn base64_values() {
    assert_eq!(base64::decode(b""), Some(vec![]));
    assert_eq!(base64::decode(b"TWFu"), Some(b"Man".to_vec()));
    assert_eq!(base64::decode(b"TWE="), Some(b"Ma".to_vec()));
    assert_eq!(base64::decode(b"TQ=="), Some(b"M".to_vec()));
    assert_eq!(base64::decode(b"+/+/"), Some(vec![0xfb, 0xff, 0xbf]));
    assert_eq!(base64::decode(b"AAAAAAAA"), Some(vec![0; 6]));
    assert_eq!(base64::decode(b"////"), Some(vec![0xff; 3]));
}

#[test]
fn base64_refusals() {
    assert_eq!(base64::decode(b"TWF"), None);
    assert_eq!(base64::decode(b"T"), None);
    assert_eq!(base64::decode(b"TW=u"), None);
    assert_eq!(base64::decode(b"===="), None);
    assert_eq!(base64::decode(b"TQ==TWFu"), None);
    assert_eq!(base64::decode(b"TW-u"), None);
    assert_eq!(base64::decode(b"TW u"), None);
}
