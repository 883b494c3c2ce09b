//! Composition of the notification mails.

use vstd::prelude::*;
use crate::config::SmtpConfig;
use crate::correspondent::{address_parses, mailbox_is, mailbox_parses, named_mailbox, parse_mailbox, Correspondent};
use crate::text::{random_alphanumeric, is_alphanumeric};

verus! {

/// The language of a mail to a submitter.
#[derive(Clone, Copy, Debug, PartialEq, Eq, Structural)]
pub enum EmailLanguage {
    Nl,
    En,
}

/// The subject of the confirmation to a submitter.
pub open spec fn submitter_subject_text(locale: EmailLanguage) -> Seq<char> {
    match locale {
        EmailLanguage::Nl => "Je DigiDecs is ontvangen!"@,
        EmailLanguage::En => "Your DigiDecs has been received!"@,
    }
}

/// The subject of the confirmation to a submitter, in its language.
pub fn submitter_subject(locale: &EmailLanguage) -> (r: String)
    ensures
        r@ == submitter_subject_text(*locale),
{
    match locale {
        EmailLanguage::Nl => String::from_str("Je DigiDecs is ontvangen!"),
        EmailLanguage::En => String::from_str("Your DigiDecs has been received!"),
    }
}

/// `lettre::message::header::ContentType`, a parsed MIME type.
#[verifier::external_type_specification]
#[verifier::external_body]
pub struct ExContentType(lettre::message::header::ContentType);

/// `lettre::message::header::ContentTypeErr`, why a MIME type did not parse.
#[verifier::external_type_specification]
#[verifier::external_body]
pub struct ExContentTypeErr(lettre::message::header::ContentTypeErr);

/// Whether `lettre::message::header::ContentType::parse` accepts the text.
pub uninterp spec fn content_type_parses(text: Seq<char>) -> bool;

/// Relies on `lettre::message::header::ContentType::parse`.
#[verifier::external_body]
fn parse_content_type(text: &str) -> (r: Result<lettre::message::header::ContentType, lettre::message::header::ContentTypeErr>)
    ensures
        r is Ok <==> content_type_parses(text@),
{
    lettre::message::header::ContentType::parse(text)
}

/// Why a mail could not be composed or delivered.
pub enum SendError {
    /// The sender's address has no domain to greet the relay with.
    EmailParse,
    /// An address did not parse; the text says why.
    AddressError(String),
    /// The message could not be built; the text says why.
    General(String),
    /// The relay or the connection to it failed; the text says why.
    Smtp(String),
    /// The session opened, but the relay did not confirm that it is ready.
    Connect,
    /// A MIME type did not parse.
    ContentType(lettre::message::header::ContentTypeErr),
}

/// A file to attach to a mail.
pub struct Attachment {
    pub content: Vec<u8>,
    pub name: String,
    pub mime: String,
}

/// What the treasurer's mail is made of.
pub struct TreasurerEmailData<'a> {
    pub to: &'a str,
    pub body: &'a str,
    pub reply_to_name: &'a str,
    pub reply_to_email: &'a str,
    pub commission: &'a str,
    pub attachments: Vec<Attachment>,
}

/// An attachment ready to go; `mime` is the text its content type was parsed from.
pub struct OutgoingAttachment {
    pub name: String,
    pub mime: String,
    pub content_type: lettre::message::header::ContentType,
    pub content: Vec<u8>,
}

/// A composed mail: the relay session only has to send it.
pub struct OutgoingMail {
    pub to: Correspondent,
    pub from: Correspondent,
    pub reply_to: Option<Correspondent>,
    pub subject: String,
    pub html_body: String,
    pub attachments: Vec<OutgoingAttachment>,
}

/// The length of the random tag in a treasurer's subject.
pub const SUBJECT_TAG_LEN: usize = 6;

/// The subject of the treasurer's mail: the commission, then a random tag
/// of letters and digits between parentheses, so that mail clients do not
/// thread separate submissions together.
pub open spec fn is_treasurer_subject(subject: Seq<char>, commission: Seq<char>) -> bool {
    let prefix = "[DigiDecs] Nieuwe declaratie: "@ + commission + " ("@;
    &&& subject.len() == prefix.len() + SUBJECT_TAG_LEN + 1
    &&& subject.subrange(0, prefix.len() as int) == prefix
    &&& subject.last() == ')'
    &&& forall|i: int| prefix.len() <= i < subject.len() - 1 ==> is_alphanumeric(#[trigger] subject[i])
}

/// Every attachment's MIME type parses.
pub open spec fn all_types_parse(atts: Seq<Attachment>) -> bool {
    forall|i: int| 0 <= i < atts.len() ==> content_type_parses(#[trigger] atts[i].mime@)
}

/// Each outgoing attachment carries the name, MIME type and bytes of the
/// one at its place.
pub open spec fn attachments_match(out: Seq<OutgoingAttachment>, atts: Seq<Attachment>) -> bool {
    &&& out.len() == atts.len()
    &&& forall|i: int| 0 <= i < atts.len() ==> (#[trigger] out[i]).name@ == atts[i].name@
        && out[i].mime@ == atts[i].mime@ && out[i].content@ == atts[i].content@
}

fn compose_attachments(atts: Vec<Attachment>) -> (r: Result<Vec<OutgoingAttachment>, SendError>)
    ensures
        r is Ok <==> all_types_parse(atts@),
        r matches Err(e) ==> e is ContentType,
        r matches Ok(out) ==> attachments_match(out@, atts@),
{
    let mut out: Vec<OutgoingAttachment> = Vec::new();
    let ghost all = atts@;
    let mut rest = atts;
    // the attachments are taken from the back, so reverse them first
    let mut pending: Vec<Attachment> = Vec::new();
    while rest.len() > 0
        invariant
            all.len() == rest@.len() + pending@.len(),
            forall|k: int| 0 <= k < rest@.len() ==> rest@[k] == all[k],
            forall|k: int| 0 <= k < pending@.len() ==> pending@[k] == all[all.len() - 1 - k],
        decreases rest.len(),
    {
        let a = rest.pop().unwrap();
        pending.push(a);
    }
    while pending.len() > 0
        invariant
            all == atts@,
            all.len() == out@.len() + pending@.len(),
            forall|k: int| 0 <= k < pending@.len() ==> pending@[k] == all[all.len() - 1 - k],
            attachments_match(out@, all.subrange(0, out@.len() as int)),
            all_types_parse(all.subrange(0, out@.len() as int)),
        decreases pending.len(),
    {
        let a = pending.pop().unwrap();
        let ghost k = out@.len() as int;
        assert(a == all[k]);
        match parse_content_type(a.mime.as_str()) {
            Ok(ct) => {
                out.push(OutgoingAttachment { name: a.name, mime: a.mime, content_type: ct, content: a.content });
                assert(all.subrange(0, out@.len() as int) =~= all.subrange(0, k).push(a));
            },
            Err(e) => {
                assert(!content_type_parses(all[k].mime@));
                assert(!all_types_parse(atts@));
                return Err(SendError::ContentType(e));
            },
        }
    }
    assert(all.subrange(0, out@.len() as int) =~= all);
    Ok(out)
}

/// Builds the treasurer's mail: to the configured treasurer, from the
/// configured sender, with replies going to the submitter.
pub fn compose_treasurer_email(smtp_config: &SmtpConfig, data: TreasurerEmailData) -> (r: Result<OutgoingMail, SendError>)
    ensures
        !mailbox_parses(data.to@) ==> r matches Err(SendError::AddressError(_)),
        mailbox_parses(data.to@) && !address_parses(smtp_config.from_email@) ==> r matches Err(SendError::AddressError(_)),
        mailbox_parses(data.to@) && address_parses(smtp_config.from_email@) && !address_parses(data.reply_to_email@)
            ==> r matches Err(SendError::AddressError(_)),
        mailbox_parses(data.to@) && address_parses(smtp_config.from_email@) && address_parses(data.reply_to_email@)
            ==> (r is Ok <==> all_types_parse(data.attachments@)),
        mailbox_parses(data.to@) && address_parses(smtp_config.from_email@) && address_parses(data.reply_to_email@)
            && !all_types_parse(data.attachments@) ==> r matches Err(SendError::ContentType(_)),
        r matches Err(e) ==> (e is AddressError || e is ContentType),
        r matches Ok(m) ==> {
            &&& mailbox_is(m.to, None, data.to@)
            &&& mailbox_is(m.from, Some(smtp_config.from_name@), smtp_config.from_email@)
            &&& m.reply_to matches Some(t) && mailbox_is(t, Some(data.reply_to_name@), data.reply_to_email@)
            &&& is_treasurer_subject(m.subject@, data.commission@)
            &&& m.html_body@ == data.body@
            &&& attachments_match(m.attachments@, data.attachments@)
        },
{
    let to = match parse_mailbox(data.to) {
        Ok(m) => m,
        Err(e) => return Err(SendError::AddressError(e)),
    };
    let from = match named_mailbox(smtp_config.from_name.as_str(), smtp_config.from_email.as_str()) {
        Ok(m) => m,
        Err(e) => return Err(SendError::AddressError(e)),
    };
    let reply_to = match named_mailbox(data.reply_to_name, data.reply_to_email) {
        Ok(m) => m,
        Err(e) => return Err(SendError::AddressError(e)),
    };

    let mut subject = String::from_str("[DigiDecs] Nieuwe declaratie: ");
    subject.append(data.commission);
    subject.append(" (");
    let tag = random_alphanumeric(SUBJECT_TAG_LEN);
    subject.append(tag.as_str());
    subject.append(")");
    proof {
        reveal_strlit(")");
        let prefix = "[DigiDecs] Nieuwe declaratie: "@ + data.commission@ + " ("@;
        assert(subject@.subrange(0, prefix.len() as int) =~= prefix);
        assert forall|i: int| prefix.len() <= i < subject@.len() - 1 implies is_alphanumeric(#[trigger] subject@[i]) by {
            assert(subject@[i] == tag@[i - prefix.len()]);
        }
    }
    let attachments = match compose_attachments(data.attachments) {
        Ok(a) => a,
        Err(e) => return Err(e),
    };
    Ok(OutgoingMail {
        to,
        from,
        reply_to: Some(reply_to),
        subject,
        html_body: String::from_str(data.body),
        attachments,
    })
}

/// Builds the confirmation to the submitter, in the submitter's language.
pub fn compose_submitter_email(
    smtp_config: &SmtpConfig,
    to_email: &str,
    body: String,
    name: &str,
    locale: &EmailLanguage,
) -> (r: Result<OutgoingMail, SendError>)
    ensures
        r is Ok <==> address_parses(to_email@) && address_parses(smtp_config.from_email@),
        r matches Err(e) ==> e is AddressError,
        r matches Ok(m) ==> {
            &&& mailbox_is(m.to, Some(name@), to_email@)
            &&& mailbox_is(m.from, Some(smtp_config.from_name@), smtp_config.from_email@)
            &&& m.reply_to is None
            &&& m.subject@ == submitter_subject_text(*locale)
            &&& m.html_body@ == body@
            &&& m.attachments@.len() == 0
        },
{
    let to = match named_mailbox(name, to_email) {
        Ok(m) => m,
        Err(e) => return Err(SendError::AddressError(e)),
    };
    let from = match named_mailbox(smtp_config.from_name.as_str(), smtp_config.from_email.as_str()) {
        Ok(m) => m,
        Err(e) => return Err(SendError::AddressError(e)),
    };
    Ok(OutgoingMail {
        to,
        from,
        reply_to: None,
        subject: submitter_subject(locale),
        html_body: body,
        attachments: Vec::new(),
    })
}

} // verus!
