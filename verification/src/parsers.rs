//! From a fetched message to a normalized one: senders, subject and body.

use crate::codecs::{decode_rfc2047, decoded_word};
use crate::markup::{is_safe_to_render, renders_safely};
use crate::text::{
    chars_of, contains, ends_with, has_prefix, has_suffix, occurs_in, starts_with,
    text_from_utf8, utf8_text,
};
use vstd::prelude::*;
use vstd::string::*;
use vstd::utf8::encode_utf8;

verus! {

/// One address of an envelope, as the server sent it.
#[derive(Clone, Debug, PartialEq, Eq)]
pub struct RawAddress {
    pub name: Option<Vec<u8>>,
    pub mailbox: Option<Vec<u8>>,
    pub host: Option<Vec<u8>>,
}

/// The envelope of a fetched message, as far as it is read here.
#[derive(Clone, Debug, PartialEq, Eq)]
pub struct RawEnvelope {
    pub subject: Option<Vec<u8>>,
    pub sender: Option<Vec<RawAddress>>,
}

/// One fetched message, as the server sent it.
#[derive(Clone, Debug, PartialEq, Eq)]
pub struct RawFetch {
    pub uid: Option<u32>,
    pub text: Option<Vec<u8>>,
    pub envelope: Option<RawEnvelope>,
}

/// A sender: an optional display name and an email of the form
/// `mailbox@host`.
#[derive(Debug, PartialEq, Eq)]
pub struct Address {
    pub name: Option<String>,
    pub email: String,
}

/// What an `Address` holds.
pub ghost struct AddressView {
    pub name: Option<Seq<char>>,
    pub email: Seq<char>,
}

/// A normalized message.
#[derive(Debug, PartialEq, Eq)]
pub struct EmailMessage {
    pub account: String,
    pub senders: Vec<Address>,
    pub subject: String,
    pub body: String,
    pub seq_id: u32,
}

/// What an `EmailMessage` holds.
pub ghost struct EmailMessageView {
    pub account: Seq<char>,
    pub senders: Seq<AddressView>,
    pub subject: Seq<char>,
    pub body: Seq<char>,
    pub seq_id: u32,
}

/// What an optional string holds.
pub open spec fn optional_text(s: Option<String>) -> Option<Seq<char>> {
    match s {
        Some(s) => Some(s@),
        None => None,
    }
}

/// What each address of a list holds.
pub open spec fn address_views(v: Seq<Address>) -> Seq<AddressView> {
    v.map_values(|a: Address| a@)
}

impl View for Address {
    type V = AddressView;

    open spec fn view(&self) -> AddressView {
        AddressView { name: optional_text(self.name), email: self.email@ }
    }
}

impl View for EmailMessage {
    type V = EmailMessageView;

    open spec fn view(&self) -> EmailMessageView {
        EmailMessageView {
            account: self.account@,
            senders: address_views(self.senders@),
            subject: self.subject@,
            body: self.body@,
            seq_id: self.seq_id,
        }
    }
}

impl EmailMessageView {
    /// The sequence number of a message is a UID, and so never zero.
    pub open spec fn wf(self) -> bool {
        self.seq_id > 0
    }
}

impl Clone for Address {
    fn clone(&self) -> (r: Self)
        ensures
            r@ == self@,
    {
        Address {
            name: match &self.name {
                Some(n) => Some(n.clone()),
                None => None,
            },
            email: self.email.clone(),
        }
    }
}

/// A copy of a list of addresses.
pub fn clone_addresses(v: &Vec<Address>) -> (r: Vec<Address>)
    ensures
        address_views(r@) == address_views(v@),
{
    let mut out: Vec<Address> = Vec::new();
    let mut i: usize = 0;
    while i < v.len()
        invariant
            i <= v.len(),
            out.len() == i,
            forall|j: int| 0 <= j < i ==> out[j]@ == v[j]@,
        decreases v.len() - i,
    {
        out.push(v[i].clone());
        i = i + 1;
    }
    assert(address_views(out@) =~= address_views(v@));
    out
}

impl Clone for EmailMessage {
    fn clone(&self) -> (r: Self)
        ensures
            r@ == self@,
    {
        EmailMessage {
            account: self.account.clone(),
            senders: clone_addresses(&self.senders),
            subject: self.subject.clone(),
            body: self.body.clone(),
            seq_id: self.seq_id,
        }
    }
}

/// What `mailparse::parse_mail` followed by `ParsedMail::get_body` makes of
/// a raw body: the decoded top-level body, or `None` where either fails.
pub uninterp spec fn mime_body(raw: Seq<u8>) -> Option<Seq<char>>;

/// What html2text renders from `html` in its plain style at `width`
/// columns, or `None` where it reports an error.
pub uninterp spec fn html_rendering(html: Seq<u8>, width: usize) -> Option<Seq<char>>;

/// The address that an envelope entry gives: none unless both mailbox and
/// host are there and are UTF-8. A name that is not UTF-8 counts as absent.
pub open spec fn address_of(raw: RawAddress) -> Option<AddressView> {
    match (raw.mailbox, raw.host) {
        (Some(mailbox), Some(host)) => match (utf8_text(mailbox@), utf8_text(host@)) {
            (Some(m), Some(h)) => Some(
                AddressView {
                    name: match raw.name {
                        Some(name) => utf8_text(name@),
                        None => None,
                    },
                    email: m + "@"@ + h,
                },
            ),
            _ => None,
        },
        _ => None,
    }
}

/// The addresses that a list of envelope entries gives, in order, entries
/// without an address left out.
pub open spec fn addresses_of(raws: Seq<RawAddress>) -> Seq<AddressView>
    decreases raws.len(),
{
    if raws.len() == 0 {
        Seq::empty()
    } else {
        let before = addresses_of(raws.drop_last());
        match address_of(raws.last()) {
            Some(a) => before.push(a),
            None => before,
        }
    }
}

/// The senders of an envelope: none where it has no sender list.
pub open spec fn senders_of(sender: Option<Vec<RawAddress>>) -> Seq<AddressView> {
    match sender {
        Some(raws) => addresses_of(raws@),
        None => Seq::empty(),
    }
}

/// A subject looks like an encoded word: it starts with `=?` and ends with
/// `?=`.
pub open spec fn looks_encoded(subject: Seq<char>) -> bool {
    starts_with(subject, "=?"@) && ends_with(subject, "?="@)
}

/// The subject of a message. A subject that looks encoded is decoded, and
/// kept as it is where decoding fails. Where the envelope has no subject,
/// or one that is not UTF-8, the subject is `Not yet`.
pub open spec fn subject_text(subject: Option<Vec<u8>>) -> Seq<char> {
    match subject {
        None => "Not yet"@,
        Some(bytes) => match utf8_text(bytes@) {
            None => "Not yet"@,
            Some(s) => if looks_encoded(s) {
                match decoded_word(s) {
                    Ok(d) => d,
                    Err(_) => s,
                }
            } else {
                s
            },
        },
    }
}

/// A text is HTML where it holds `<!DOCTYPE html>` or `<html>`.
pub open spec fn is_html(text: Seq<char>) -> bool {
    occurs_in(text, "<!DOCTYPE html>"@) || occurs_in(text, "<html>"@)
}

/// A text as plain text: HTML is rendered without wrapping, and is empty
/// where it cannot be rendered safely or where rendering fails; anything
/// else stays as it is.
pub open spec fn plain_text(text: Seq<char>) -> Seq<char> {
    if is_html(text) {
        if renders_safely(text) {
            match html_rendering(encode_utf8(text), usize::MAX) {
                Some(t) => t,
                None => Seq::empty(),
            }
        } else {
            Seq::empty()
        }
    } else {
        text
    }
}

/// The body of a message: the decoded MIME body as plain text; where the
/// raw body does not parse as MIME, the raw body read as UTF-8, as plain
/// text; where it is not UTF-8 either, nothing.
pub open spec fn body_text(raw: Seq<u8>) -> Seq<char> {
    match mime_body(raw) {
        Some(t) => plain_text(t),
        None => match utf8_text(raw) {
            Some(t) => plain_text(t),
            None => Seq::empty(),
        },
    }
}

/// The message that a fetch gives for the account `email`, or `None` where
/// the fetch lacks a UID (zero is none), a body text or an envelope.
pub open spec fn parsed(email: Seq<char>, raw: RawFetch) -> Option<EmailMessageView> {
    match (raw.uid, raw.text, raw.envelope) {
        (Some(uid), Some(text), Some(envelope)) => if uid > 0 {
            Some(
                EmailMessageView {
                    account: email,
                    senders: senders_of(envelope.sender),
                    subject: subject_text(envelope.subject),
                    body: body_text(text@),
                    seq_id: uid,
                },
            )
        } else {
            None
        },
        _ => None,
    }
}

/// Calls `mailparse::parse_mail` and, on the message it returns,
/// `ParsedMail::get_body`. The result is named, not described: the
/// contract says only that it is `mime_body` of the argument, with an error
/// of either call as `None`.
#[verifier::external_body]
fn decode_mime_body(raw: &[u8]) -> (r: Option<String>)
    ensures
        r matches Some(s) ==> mime_body(raw@) == Some(s@),
        r is None ==> mime_body(raw@) is None,
{
    match ::mailparse::parse_mail(raw) {
        Ok(mail) => mail.get_body().ok(),
        Err(_) => None,
    }
}

/// Calls `Config::string_from_read` of html2text on `config::plain()`,
/// which is what `html2text::from_read` does before it panics on an error.
///
/// The renderer adds up the `colspan` of the cells of a row, and the
/// `start` of a list and the number of its items, without a check. The
/// contract leaves out the texts in which one of the two attributes can
/// hold a number large enough for such a sum to overflow: it asks that the
/// text renders safely. It also asks for the one width that the library
/// renders at, the largest there is. For what is left the result is named,
/// not described: the contract says only that it is `html_rendering` of the
/// bytes of the text and of the width, with an error as `None`.
#[verifier::external_body]
fn render_html(html: &str, width: usize) -> (r: Option<String>)
    requires
        renders_safely(html@),
        width == usize::MAX,
    ensures
        r matches Some(s) ==> html_rendering(encode_utf8(html@), width) == Some(s@),
        r is None ==> html_rendering(encode_utf8(html@), width) is None,
{
    ::html2text::config::plain().string_from_read(html.as_bytes(), width).ok()
}

/// The address of one envelope entry, if it has one.
pub fn parse_address(raw: &RawAddress) -> (r: Option<Address>)
    ensures
        r matches Some(a) ==> address_of(*raw) == Some(a@),
        r is None ==> address_of(*raw) is None,
{
    let mailbox = match &raw.mailbox {
        Some(bytes) => match text_from_utf8(bytes.as_slice()) {
            Some(s) => s,
            None => {
                return None;
            },
        },
        None => {
            return None;
        },
    };
    let host = match &raw.host {
        Some(bytes) => match text_from_utf8(bytes.as_slice()) {
            Some(s) => s,
            None => {
                return None;
            },
        },
        None => {
            return None;
        },
    };
    let name = match &raw.name {
        Some(bytes) => text_from_utf8(bytes.as_slice()),
        None => None,
    };
    let mut email = mailbox;
    email.append("@");
    email.append(host.as_str());
    Some(Address { name, email })
}

/// The senders of an envelope, in the order of its sender list.
///
/// An entry without mailbox or host is left out; an envelope without a
/// sender list has no senders.
pub fn parse_sender(envelope: &RawEnvelope) -> (r: Vec<Address>)
    ensures
        address_views(r@) == senders_of(envelope.sender),
{
    let mut senders: Vec<Address> = Vec::new();
    match &envelope.sender {
        Some(raws) => {
            let mut i: usize = 0;
            while i < raws.len()
                invariant
                    i <= raws.len(),
                    address_views(senders@) == addresses_of(raws@.take(i as int)),
                decreases raws.len() - i,
            {
                let ghost before = senders@;
                assert(raws@.take(i + 1).drop_last() =~= raws@.take(i as int));
                match parse_address(&raws[i]) {
                    Some(a) => {
                        senders.push(a);
                        assert(address_views(senders@) =~= address_views(before).push(a@));
                    },
                    None => {},
                }
                i = i + 1;
            }
            assert(raws@.take(i as int) =~= raws@);
        },
        None => {
            assert(address_views(senders@) =~= Seq::empty());
        },
    }
    senders
}

/// The subject of an envelope.
///
/// A subject that starts with `=?` and ends with `?=` is decoded; where
/// decoding fails it is kept as it stands. An envelope without a subject,
/// or with one that is not UTF-8, gives `Not yet`.
pub fn parse_subject(envelope: &RawEnvelope) -> (r: String)
    ensures
        r@ == subject_text(envelope.subject),
{
    let subject = match &envelope.subject {
        Some(bytes) => match text_from_utf8(bytes.as_slice()) {
            Some(s) => s,
            None => {
                return "Not yet".to_owned();
            },
        },
        None => {
            return "Not yet".to_owned();
        },
    };
    let chars = chars_of(subject.as_str());
    if has_prefix(&chars, &chars_of("=?")) && has_suffix(&chars, &chars_of("?=")) {
        match decode_rfc2047(subject.as_str()) {
            Ok(decoded) => decoded,
            Err(_) => subject,
        }
    } else {
        subject
    }
}

/// A text as plain text: HTML rendered without wrapping, anything else
/// unchanged.
///
/// HTML in which a `colspan` or a `start` attribute is written with too
/// many digits, or `colspan` too often, is not handed to the renderer: it
/// gives the empty text, as HTML does that the renderer refuses.
pub fn to_plain_text(text: String) -> (r: String)
    ensures
        r@ == plain_text(text@),
{
    let chars = chars_of(text.as_str());
    if contains(&chars, &chars_of("<!DOCTYPE html>")) || contains(&chars, &chars_of("<html>")) {
        if is_safe_to_render(&chars) {
            match render_html(text.as_str(), usize::MAX) {
                Some(rendered) => rendered,
                None => String::new(),
            }
        } else {
            String::new()
        }
    } else {
        text
    }
}

/// The body of a message as plain text.
///
/// The raw body is decoded as MIME; where that fails it is read as UTF-8;
/// where that fails too the body is empty. HTML is rendered to plain text.
pub fn parse_text(text: &[u8]) -> (r: String)
    ensures
        r@ == body_text(text@),
{
    match decode_mime_body(text) {
        Some(body) => to_plain_text(body),
        None => match text_from_utf8(text) {
            Some(body) => to_plain_text(body),
            None => String::new(),
        },
    }
}

/// Turns a fetched message into a normalized one for the account `email`.
///
/// Returns `None` exactly where the fetch has no UID (zero is none), no
/// body text or no envelope; missing senders or subject do not fail.
pub fn parse_message(email: &str, raw_message: &RawFetch) -> (r: Option<EmailMessage>)
    ensures
        r matches Some(m) ==> parsed(email@, *raw_message) == Some(m@) && m@.wf(),
        r is None ==> parsed(email@, *raw_message) is None,
{
    let uid = match raw_message.uid {
        Some(uid) => uid,
        None => {
            return None;
        },
    };
    if uid == 0 {
        return None;
    }
    let body = match &raw_message.text {
        Some(text) => parse_text(text.as_slice()),
        None => {
            return None;
        },
    };
    match &raw_message.envelope {
        Some(envelope) => Some(
            EmailMessage {
                account: email.to_owned(),
                senders: parse_sender(envelope),
                subject: parse_subject(envelope),
                body,
                seq_id: uid,
            },
        ),
        None => None,
    }
}

/// How an address is shown in a log line: `name <email>`, or the email
/// alone where there is no name.
pub open spec fn address_line(a: AddressView) -> Seq<char> {
    match a.name {
        Some(name) => name + " <"@ + a.email + ">"@,
        None => a.email,
    }
}

/// The addresses of a list as one line, with `, ` between them.
pub open spec fn addresses_line(list: Seq<AddressView>) -> Seq<char>
    decreases list.len(),
{
    if list.len() == 0 {
        Seq::empty()
    } else if list.len() == 1 {
        address_line(list[0])
    } else {
        addresses_line(list.drop_last()) + ", "@ + address_line(list.last())
    }
}

/// How a message is shown in a log line.
pub open spec fn message_line(m: EmailMessageView) -> Seq<char> {
    "(account: "@ + m.account + ", senders: "@ + addresses_line(m.senders) + ", subject: "@
        + m.subject + ", body: "@ + m.body + ")"@
}

impl Address {
    /// The address as a log line.
    pub fn describe(&self) -> (r: String)
        ensures
            r@ == address_line(self@),
    {
        match &self.name {
            Some(name) => {
                let mut r = name.clone();
                r.append(" <");
                r.append(self.email.as_str());
                r.append(">");
                r
            },
            None => self.email.clone(),
        }
    }
}

/// The addresses of a list as one line, with `, ` between them.
pub fn describe_addresses(list: &Vec<Address>) -> (r: String)
    ensures
        r@ == addresses_line(address_views(list@)),
{
    let mut r = String::new();
    let mut i: usize = 0;
    while i < list.len()
        invariant
            i <= list.len(),
            r@ == addresses_line(address_views(list@).take(i as int)),
        decreases list.len() - i,
    {
        let ghost views = address_views(list@);
        assert(views.take(i + 1).drop_last() =~= views.take(i as int));
        assert(views.take(i + 1).last() == list@[i as int]@);
        if i > 0 {
            r.append(", ");
        } else {
            assert(views.take(1)[0] == list@[0]@);
            assert(r@ + address_line(list@[0]@) =~= address_line(list@[0]@));
        }
        r.append(list[i].describe().as_str());
        i = i + 1;
    }
    assert(address_views(list@).take(i as int) =~= address_views(list@));
    r
}

impl EmailMessage {
    /// The message as a log line.
    pub fn describe(&self) -> (r: String)
        ensures
            r@ == message_line(self@),
    {
        let mut r = "(account: ".to_owned();
        r.append(self.account.as_str());
        r.append(", senders: ");
        r.append(describe_addresses(&self.senders).as_str());
        r.append(", subject: ");
        r.append(self.subject.as_str());
        r.append(", body: ");
        r.append(self.body.as_str());
        r.append(")");
        r
    }
}

/// No message is dropped for its subject: where the subject of a fetch
/// that parses is UTF-8 and cannot be decoded, the message carries the
/// subject as it came.
pub proof fn lemma_undecodable_subject_is_kept(email: Seq<char>, raw: RawFetch, bytes: Vec<u8>)
    requires
        raw.uid matches Some(uid) && uid > 0,
        raw.text is Some,
        raw.envelope matches Some(envelope) && envelope.subject == Some(bytes),
        utf8_text(bytes@) matches Some(s) && decoded_word(s) is Err,
    ensures
        parsed(email, raw) matches Some(m) && Some(m.subject) == utf8_text(bytes@),
{
}

/// HTML never passes as it came: a text that holds one of the two markers
/// is replaced by what the renderer makes of it, or by nothing where it
/// cannot be rendered safely or the renderer fails; a text that holds
/// neither stays as it is.
pub proof fn lemma_html_is_rendered(text: Seq<char>)
    ensures
        is_html(text) && renders_safely(text) ==> plain_text(text) == match html_rendering(
            encode_utf8(text),
            usize::MAX,
        ) {
            Some(rendered) => rendered,
            None => Seq::<char>::empty(),
        },
        is_html(text) && !renders_safely(text) ==> plain_text(text) == Seq::<char>::empty(),
        !is_html(text) ==> plain_text(text) == text,
{
}

/// A fetch that lacks its UID, its body text or its envelope gives no
/// message, and every other fetch gives one, with the UID of the fetch.
pub proof fn lemma_parsed_needs_all_three(email: Seq<char>, raw: RawFetch)
    ensures
        raw.uid is None || raw.text is None || raw.envelope is None ==> parsed(email, raw)
            is None,
        parsed(email, raw) matches Some(m) ==> m.wf() && Some(m.seq_id) == raw.uid && m.account
            == email,
{
}

} // verus!
