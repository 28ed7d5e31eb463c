//! Reading raw message bytes with the `mail_parser` crate into the plain
//! model of `mime`.
use vstd::prelude::*;
use crate::mime::{MimeAddr, MimeBody, MimeContentType, MimeHeader, MimePart, MimeValue, ParsedMessage};

verus! {

#[verifier::external_type_specification]
#[verifier::external_body]
pub struct ExMailMessage<'x>(mail_parser::Message<'x>);

#[verifier::external_type_specification]
#[verifier::external_body]
pub struct ExMailMessagePart<'x>(mail_parser::MessagePart<'x>);

#[verifier::external_type_specification]
#[verifier::external_body]
pub struct ExMailHeader<'x>(mail_parser::Header<'x>);

#[verifier::external_type_specification]
#[verifier::external_body]
pub struct ExMailHeaderValue<'x>(mail_parser::HeaderValue<'x>);

#[verifier::external_type_specification]
#[verifier::external_body]
pub struct ExMailAddr<'x>(mail_parser::Addr<'x>);

#[verifier::external_type_specification]
#[verifier::external_body]
pub struct ExMailContentType<'x>(mail_parser::ContentType<'x>);

#[verifier::external_type_specification]
#[verifier::external_body]
pub struct ExMailPartType<'x>(mail_parser::PartType<'x>);

/// The structure `mail_parser::Message::parse` reads from raw message bytes,
/// in the plain model; `None` when the bytes are not a message. It is a
/// function of the bytes alone.
pub uninterp spec fn mime_structure(raw: Seq<u8>) -> Option<ParsedMessage>;

/// `mail_parser::Message::parse`, with the result converted to the plain
/// model. The contract claims only that the result is determined by the
/// bytes.
#[verifier::external_body]
pub(crate) fn parse_mime(raw: &[u8]) -> (r: Option<ParsedMessage>)
    ensures
        r == mime_structure(raw@),
{
    match mail_parser::Message::parse(raw) {
        Some(m) => Some(message_model(&m)),
        None => None,
    }
}

/// Converts a parsed message: subject, date as a Unix timestamp, the `From`
/// value, the top-level headers, the first text and HTML bodies, the parts.
#[verifier::external_body]
fn message_model(m: &mail_parser::Message) -> ParsedMessage {
    ParsedMessage {
        subject: m.subject().map(|s| s.to_string()),
        date: m.date().map(|d| d.to_timestamp()),
        from: value_model(m.from()),
        headers: m.headers().iter().map(header_model).collect(),
        body_text: m.body_text(0).map(|t| t.to_string()),
        body_html: m.body_html(0).map(|t| t.to_string()),
        parts: m.parts.iter().map(part_model).collect(),
    }
}

/// Converts a header: its name, the debug rendering of its name, its value.
#[verifier::external_body]
fn header_model(h: &mail_parser::Header) -> MimeHeader {
    MimeHeader {
        name: h.name().to_string(),
        debug_name: format!("{:?}", h.name),
        value: value_model(&h.value),
    }
}

/// Converts a header value, variant by variant.
#[verifier::external_body]
fn value_model(v: &mail_parser::HeaderValue) -> MimeValue {
    match v {
        mail_parser::HeaderValue::Address(a) => MimeValue::Address(addr_model(a)),
        mail_parser::HeaderValue::AddressList(l) => MimeValue::AddressList(l.iter().map(addr_model).collect()),
        mail_parser::HeaderValue::Group(_) => MimeValue::Other,
        mail_parser::HeaderValue::GroupList(_) => MimeValue::Other,
        mail_parser::HeaderValue::Text(t) => MimeValue::Text(t.to_string()),
        mail_parser::HeaderValue::TextList(l) => MimeValue::TextList(l.iter().map(|t| t.to_string()).collect()),
        mail_parser::HeaderValue::DateTime(d) => MimeValue::DateTime(d.to_string()),
        mail_parser::HeaderValue::ContentType(c) => MimeValue::ContentType(content_type_model(c)),
        mail_parser::HeaderValue::Empty => MimeValue::Other,
    }
}

/// Converts an address.
#[verifier::external_body]
fn addr_model(a: &mail_parser::Addr) -> MimeAddr {
    MimeAddr {
        name: a.name.as_ref().map(|s| s.to_string()),
        address: a.address.as_ref().map(|s| s.to_string()),
    }
}

/// Converts a content type or disposition; absent attributes become none.
#[verifier::external_body]
fn content_type_model(c: &mail_parser::ContentType) -> MimeContentType {
    MimeContentType {
        c_type: c.c_type.to_string(),
        c_subtype: c.c_subtype.as_ref().map(|s| s.to_string()),
        attributes: c.attributes.iter().flatten().map(|(k, v)| (k.to_string(), v.to_string())).collect(),
    }
}

/// Converts a MIME part.
#[verifier::external_body]
fn part_model(p: &mail_parser::MessagePart) -> MimePart {
    MimePart { headers: p.headers.iter().map(header_model).collect(), body: body_model(&p.body) }
}

/// Converts a part body, variant by variant.
#[verifier::external_body]
fn body_model(b: &mail_parser::PartType) -> MimeBody {
    match b {
        mail_parser::PartType::Text(t) => MimeBody::Text(t.to_string()),
        mail_parser::PartType::Html(t) => MimeBody::Html(t.to_string()),
        mail_parser::PartType::Binary(d) => MimeBody::Binary(d.to_vec()),
        mail_parser::PartType::InlineBinary(d) => MimeBody::InlineBinary(d.to_vec()),
        mail_parser::PartType::Message(_) => MimeBody::Message,
        mail_parser::PartType::Multipart(_) => MimeBody::Multipart,
    }
}

} // verus!
