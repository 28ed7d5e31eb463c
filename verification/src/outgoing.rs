//! The message handed to the mail transport when an e-mail is sent: its
//! sender, recipients, subject, text, the layout of its parts, and its
//! attachments with content types that the mail builder accepts.
use vstd::prelude::*;
use crate::text::owned;
use crate::email::{
    Email, EmailAddress, EmailAttachment, AddressView, address_views, attachment_views, mailbox_parts_of, opt_view,
};
use crate::compose::copy_addresses;
use crate::mime::{or_empty, AttachmentView};

verus! {

/// Whether `lettre::message::header::ContentType::parse` accepts the text.
/// It is a function of the text alone.
pub uninterp spec fn lettre_content_type_ok(ct: Seq<char>) -> bool;

/// `lettre::message::header::ContentType::parse`: whether it accepts `ct`.
#[verifier::external_body]
fn content_type_parses(ct: &str) -> (r: bool)
    ensures
        r == lettre_content_type_ok(ct@),
{
    lettre::message::header::ContentType::parse(ct).is_ok()
}

/// Whether `lettre::Address::new` accepts the user and domain. It is a
/// function of the two texts alone.
pub uninterp spec fn lettre_address_ok(user: Seq<char>, domain: Seq<char>) -> bool;

/// `lettre::Address::new`: whether it accepts `user` and `domain`.
#[verifier::external_body]
fn address_parses(user: &str, domain: &str) -> (r: bool)
    ensures
        r == lettre_address_ok(user@, domain@),
{
    lettre::Address::new(user, domain).is_ok()
}

/// The mailbox an address is sent as: its name, and the user and domain of
/// its parts when the mail builder accepts them, otherwise
/// `unknown@example.com`.
pub open spec fn sending_mailbox(a: AddressView) -> (Option<Seq<char>>, Seq<char>, Seq<char>) {
    let p = mailbox_parts_of(a);
    if lettre_address_ok(p.1, p.2) {
        p
    } else {
        (a.0, "unknown"@, "example.com"@)
    }
}

/// The name, user and domain an address is sent as, computed.
pub fn mailbox_for_sending(a: &EmailAddress) -> (r: (Option<String>, String, String))
    ensures
        (opt_view(r.0), r.1@, r.2@) == sending_mailbox(a@),
{
    let (name, user, domain) = a.mailbox_parts();
    if address_parses(user.as_str(), domain.as_str()) {
        (name, user, domain)
    } else {
        (name, owned("unknown"), owned("example.com"))
    }
}

/// The content type an attachment is sent with: its own when the mail
/// builder accepts it, `application/octet-stream` otherwise.
pub open spec fn sending_type(ct: Seq<char>) -> Seq<char> {
    if lettre_content_type_ok(ct) {
        ct
    } else {
        "application/octet-stream"@
    }
}

/// The attachments as they are sent: same names and data, content types
/// the mail builder accepts.
pub open spec fn sent_attachments(l: Seq<AttachmentView>) -> Seq<AttachmentView> {
    l.map_values(|a: AttachmentView| (a.0, sending_type(a.1), a.2))
}

/// A message ready for the mail transport.
#[derive(Debug, Clone)]
pub struct OutgoingMessage {
    pub from: EmailAddress,
    pub to: Vec<EmailAddress>,
    pub cc: Vec<EmailAddress>,
    pub bcc: Vec<EmailAddress>,
    pub subject: String,
    /// The plain text of the message.
    pub body: String,
    /// Whether the text and the attachments go in a `multipart/mixed`
    /// message; otherwise the text alone is sent as `multipart/alternative`.
    pub mixed: bool,
    pub attachments: Vec<EmailAttachment>,
}

/// The message that sending `email` from the account hands to the mail
/// transport: the e-mail's first sender, or the account when it has none;
/// its recipients, subject and text (empty when it has none); a mixed
/// message exactly when it has attachments, each sent with its own content
/// type when the mail builder accepts it and `application/octet-stream`
/// otherwise.
pub fn outgoing_message(email: &Email, account_name: &str, account_email: &str) -> (r: OutgoingMessage)
    ensures
        email.from@.len() > 0 ==> r.from@ == email.from@[0]@,
        email.from@.len() == 0 ==> r.from@ == (Some(account_name@), account_email@),
        address_views(r.to@) == address_views(email.to@),
        address_views(r.cc@) == address_views(email.cc@),
        address_views(r.bcc@) == address_views(email.bcc@),
        r.subject@ == email.subject@,
        r.body@ == or_empty(email.body_text),
        r.mixed == (email.attachments@.len() > 0),
        attachment_views(r.attachments@) == sent_attachments(attachment_views(email.attachments@)),
{
    let from = email.sender(account_name, account_email);
    let body = match &email.body_text {
        Some(b) => b.clone(),
        None => String::new(),
    };
    let mut attachments: Vec<EmailAttachment> = Vec::new();
    let mut i: usize = 0;
    let ghost src = attachment_views(email.attachments@);
    while i < email.attachments.len()
        invariant
            0 <= i <= email.attachments@.len(),
            src == attachment_views(email.attachments@),
            attachment_views(attachments@) == sent_attachments(src.take(i as int)),
        decreases email.attachments@.len() - i,
    {
        let a = &email.attachments[i];
        let content_type = if content_type_parses(a.content_type.as_str()) {
            a.content_type.clone()
        } else {
            owned("application/octet-stream")
        };
        let copy = EmailAttachment {
            filename: a.filename.clone(),
            content_type,
            data: a.data.clone(),
        };
        proof {
            assert(src[i as int] == a@);
            assert(copy.data@ == a.data@);
            assert(copy@ == (a@.0, sending_type(a@.1), a@.2));
        }
        let ghost before = attachments@;
        attachments.push(copy);
        proof {
            assert(attachment_views(attachments@) =~= attachment_views(before).push(copy@));
            assert(src.take(i + 1) =~= src.take(i as int).push(src[i as int]));
            assert(sent_attachments(src.take(i + 1)) =~= sent_attachments(src.take(i as int)).push(copy@));
        }
        i = i + 1;
    }
    proof {
        assert(src.take(i as int) =~= src);
    }
    OutgoingMessage {
        from,
        to: copy_addresses(email.to.as_slice()),
        cc: copy_addresses(email.cc.as_slice()),
        bcc: copy_addresses(email.bcc.as_slice()),
        subject: email.subject.clone(),
        body,
        mixed: email.attachments.len() > 0,
        attachments,
    }
}

} // verus!
