//! Parsed mailboxes that keep the texts they were parsed from, so that a
//! contract can say who a mail goes to.

use vstd::prelude::*;
use crate::template::opt_view;

verus! {

/// `lettre::message::Mailbox`, an address with an optional display name.
#[verifier::external_type_specification]
#[verifier::external_body]
pub struct ExMailbox(lettre::message::Mailbox);

/// Whether `<lettre::message::Mailbox as FromStr>::from_str` accepts the text.
pub uninterp spec fn mailbox_parses(text: Seq<char>) -> bool;

/// Whether `<lettre::Address as FromStr>::from_str` accepts the text.
pub uninterp spec fn address_parses(text: Seq<char>) -> bool;

/// A mailbox, with the display name and the text it was built from. Only
/// the parsers below make one.
pub struct Correspondent {
    mailbox: lettre::message::Mailbox,
    name: Option<String>,
    text: String,
}

impl Correspondent {
    /// The display name it was built with, if any.
    pub closed spec fn display_name(&self) -> Option<Seq<char>> {
        opt_view(self.name)
    }

    /// The text that was parsed: an address, or a whole mailbox.
    pub closed spec fn source(&self) -> Seq<char> {
        self.text@
    }

    /// The parsed mailbox.
    pub fn mailbox(&self) -> &lettre::message::Mailbox {
        &self.mailbox
    }

    /// The display name it was built with, if any.
    pub fn name_text(&self) -> (r: &Option<String>)
        ensures
            opt_view(*r) == self.display_name(),
    {
        &self.name
    }

    /// The text that was parsed.
    pub fn source_text(&self) -> (r: &String)
        ensures
            r@ == self.source(),
    {
        &self.text
    }
}

/// `m` was built from display name `name` and text `text`.
pub open spec fn mailbox_is(m: Correspondent, name: Option<Seq<char>>, text: Seq<char>) -> bool {
    m.display_name() == name && m.source() == text
}

/// Relies on `<lettre::message::Mailbox as FromStr>::from_str`, which parses
/// a whole mailbox (with any display name in it); its error is handed on as
/// text.
#[verifier::external_body]
pub(crate) fn parse_mailbox(text: &str) -> (r: Result<Correspondent, String>)
    ensures
        r is Ok <==> mailbox_parses(text@),
        r matches Ok(c) ==> mailbox_is(c, None, text@),
{
    <lettre::message::Mailbox as std::str::FromStr>::from_str(text)
        .map(|mailbox| Correspondent { mailbox, name: None, text: text.to_string() })
        .map_err(|e| e.to_string())
}

/// Relies on `<lettre::Address as FromStr>::from_str` and on
/// `lettre::message::Mailbox::new`, which pairs the name with the parsed
/// address; the parse error is handed on as text.
#[verifier::external_body]
pub(crate) fn named_mailbox(name: &str, address: &str) -> (r: Result<Correspondent, String>)
    ensures
        r is Ok <==> address_parses(address@),
        r matches Ok(c) ==> mailbox_is(c, Some(name@), address@),
{
    let parsed = <lettre::Address as std::str::FromStr>::from_str(address).map_err(|e| e.to_string())?;
    let mailbox = lettre::message::Mailbox::new(Some(name.to_string()), parsed);
    Ok(Correspondent { mailbox, name: Some(name.to_string()), text: address.to_string() })
}

} // verus!
