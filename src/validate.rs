//! Syntax checks on the submitter's email address and bank account number.

use vstd::prelude::*;

verus! {

/// What a submitted email address must contain somewhere: a local part, an
/// `@`, and a domain with a dot in it, none of them holding `@` or white space.
pub const EMAIL_PATTERN: &'static str = "[^@ \t\r\n]+@[^@ \t\r\n]+\\.[^@ \t\r\n]+";

/// What `regex::Regex` makes of a pattern and a text: `None` where the
/// pattern does not compile, else whether the text holds a match.
pub uninterp spec fn regex_outcome(pattern: Seq<char>, text: Seq<char>) -> Option<bool>;

/// Whether `iban::Iban` parses the text as a valid IBAN.
pub uninterp spec fn iban_parses(text: Seq<char>) -> bool;

/// Relies on `regex::Regex::new` and `regex::Regex::is_match`: the pattern
/// compiles or not, and a compiled pattern matches the text anywhere or not.
#[verifier::external_body]
fn regex_search(pattern: &str, text: &str) -> (r: Option<bool>)
    ensures
        r == regex_outcome(pattern@, text@),
{
    match regex::Regex::new(pattern) {
        Ok(re) => Some(re.is_match(text)),
        Err(_) => None,
    }
}

/// Relies on `<iban::Iban as FromStr>::from_str`: whether it returns `Ok`.
#[verifier::external_body]
fn iban_from_str_ok(text: &str) -> (r: bool)
    ensures
        r == iban_parses(text@),
{
    <iban::Iban as std::str::FromStr>::from_str(text).is_ok()
}

/// An address is accepted where the email pattern finds a match in it.
pub open spec fn email_accepted(email: Seq<char>) -> bool {
    regex_outcome(EMAIL_PATTERN@, email) == Some(true)
}

/// Whether `email` looks like an email address.
pub fn validate_email(email: &str) -> (r: bool)
    ensures
        r == email_accepted(email@),
{
    match regex_search(EMAIL_PATTERN, email) {
        Some(found) => found,
        None => false,
    }
}

/// Whether `iban` is a valid international bank account number.
pub fn validate_iban(iban: &str) -> (r: bool)
    ensures
        r == iban_parses(iban@),
{
    iban_from_str_ok(iban)
}

} // verus!
