//! The bodies of the notification mails, rendered with handlebars from the
//! templates below.

use vstd::prelude::*;
use crate::email::EmailLanguage;

verus! {

/// `handlebars::RenderError`, the failure of a rendering.
#[verifier::external_type_specification]
#[verifier::external_body]
pub struct ExRenderError(handlebars::RenderError);

/// The name under which the header partial is registered.
pub const HEADER_PARTIAL_NAME: &'static str = "header";

/// The header shared by every mail.
pub const HEADER_PARTIAL: &'static str = "<h2>DigiDecs</h2>\n";

/// The notification to the treasurer.
pub const TREASURER_TEMPLATE: &'static str = "{{> header}}\n<p>Er is een nieuwe declaratie ingediend.</p>\n<table>\n<tr><td>Naam</td><td>{{name}}</td></tr>\n<tr><td>IBAN</td><td>{{iban}}</td></tr>\n<tr><td>E-mail</td><td>{{email}}</td></tr>\n<tr><td>Bedrag</td><td>&euro; {{value}}</td></tr>\n<tr><td>Wat</td><td>{{what}}</td></tr>\n<tr><td>Commissie</td><td>{{commission}}</td></tr>\n{{#if notes}}<tr><td>Opmerkingen</td><td>{{notes}}</td></tr>{{/if}}\n</table>\n";

/// The confirmation to a Dutch-speaking submitter.
pub const SUBMITTER_NL_TEMPLATE: &'static str = "{{> header}}\n<p>Hoi {{first_name}},</p>\n<p>Je declaratie is ontvangen en wordt zo snel mogelijk door de penningmeester verwerkt.</p>\n";

/// The confirmation to an English-speaking submitter.
pub const SUBMITTER_EN_TEMPLATE: &'static str = "{{> header}}\n<p>Hi {{first_name}},</p>\n<p>Your expense claim has been received and will be processed by the treasurer as soon as possible.</p>\n";

/// The fields handed to a template, by name.
pub type Fields = Vec<(String, Option<String>)>;

pub open spec fn opt_view(o: Option<String>) -> Option<Seq<char>> {
    match o {
        Some(s) => Some(s@),
        None => None,
    }
}

pub open spec fn fields_view(f: Seq<(String, Option<String>)>) -> Seq<(Seq<char>, Option<Seq<char>>)> {
    f.map_values(|p: (String, Option<String>)| (p.0@, opt_view(p.1)))
}

/// What handlebars renders from a template, with one partial registered
/// under a name, on the given fields (in strict mode): `None` where it fails.
pub uninterp spec fn rendered(
    template: Seq<char>,
    partial_name: Seq<char>,
    partial: Seq<char>,
    fields: Seq<(Seq<char>, Option<Seq<char>>)>,
) -> Option<Seq<char>>;

/// One of this crate's own templates. None defines an inline partial, and
/// the one partial they call (the header) calls none, so rendering them
/// cannot recurse.
pub open spec fn known_template(t: Seq<char>) -> bool {
    t == TREASURER_TEMPLATE@ || t == SUBMITTER_NL_TEMPLATE@ || t == SUBMITTER_EN_TEMPLATE@
}

/// Relies on `handlebars::Handlebars`: a new registry in strict mode, with
/// `register_partial` and then `render_template`; the outcome depends on the
/// texts and the fields alone. Only this crate's templates and header are
/// handed to it: a template whose partials include each other would recurse
/// without end.
#[verifier::external_body]
fn handlebars_render(template: &str, partial_name: &str, partial: &str, fields: &Fields) -> (r: Result<String, handlebars::RenderError>)
    requires
        known_template(template@),
        partial_name@ == HEADER_PARTIAL_NAME@,
        partial@ == HEADER_PARTIAL@,
    ensures
        r is Ok <==> rendered(template@, partial_name@, partial@, fields_view(fields@)) is Some,
        r matches Ok(s) ==> rendered(template@, partial_name@, partial@, fields_view(fields@)) == Some(s@),
{
    let mut engine = handlebars::Handlebars::new();
    engine.set_strict_mode(true);
    engine.register_partial(partial_name, partial)?;
    let data: std::collections::BTreeMap<&str, &Option<String>> =
        fields.iter().map(|(k, v)| (k.as_str(), v)).collect();
    engine.render_template(template, &data)
}

/// What the treasurer's mail shows of a submission.
pub struct TreasurerData {
    pub name: String,
    pub iban: String,
    pub email: String,
    pub value: String,
    pub what: String,
    pub commission: String,
    pub notes: Option<String>,
}

/// What the submitter's confirmation shows.
pub struct SubmitterData {
    pub first_name: String,
}

pub open spec fn treasurer_fields(d: TreasurerData) -> Seq<(Seq<char>, Option<Seq<char>>)> {
    seq![
        ("name"@, Some(d.name@)),
        ("iban"@, Some(d.iban@)),
        ("email"@, Some(d.email@)),
        ("value"@, Some(d.value@)),
        ("what"@, Some(d.what@)),
        ("commission"@, Some(d.commission@)),
        ("notes"@, opt_view(d.notes)),
    ]
}

pub open spec fn submitter_fields(d: SubmitterData) -> Seq<(Seq<char>, Option<Seq<char>>)> {
    seq![("first_name"@, Some(d.first_name@))]
}

pub open spec fn submitter_template(locale: EmailLanguage) -> Seq<char> {
    match locale {
        EmailLanguage::Nl => SUBMITTER_NL_TEMPLATE@,
        EmailLanguage::En => SUBMITTER_EN_TEMPLATE@,
    }
}

/// What `render_template` gives for a template and fields.
pub open spec fn render_outcome(template: Seq<char>, fields: Seq<(Seq<char>, Option<Seq<char>>)>) -> Option<Seq<char>> {
    rendered(template, HEADER_PARTIAL_NAME@, HEADER_PARTIAL@, fields)
}

fn field(name: &str, value: &String) -> (r: (String, Option<String>))
    ensures
        r.0@ == name@,
        opt_view(r.1) == Some(value@),
{
    (String::from_str(name), Some(value.clone()))
}

fn opt_clone(o: &Option<String>) -> (r: Option<String>)
    ensures
        opt_view(r) == opt_view(*o),
{
    match o {
        Some(s) => Some(s.clone()),
        None => None,
    }
}

/// Renders the treasurer's mail body.
pub fn render_treasurer(data: &TreasurerData) -> (r: Result<String, handlebars::RenderError>)
    ensures
        r is Ok <==> render_outcome(TREASURER_TEMPLATE@, treasurer_fields(*data)) is Some,
        r matches Ok(s) ==> render_outcome(TREASURER_TEMPLATE@, treasurer_fields(*data)) == Some(s@),
{
    let mut fields: Fields = Vec::new();
    fields.push(field("name", &data.name));
    fields.push(field("iban", &data.iban));
    fields.push(field("email", &data.email));
    fields.push(field("value", &data.value));
    fields.push(field("what", &data.what));
    fields.push(field("commission", &data.commission));
    fields.push((String::from_str("notes"), opt_clone(&data.notes)));
    assert(fields_view(fields@) =~= treasurer_fields(*data));
    render_template(TREASURER_TEMPLATE, &fields)
}

/// Renders the submitter's confirmation in the submitter's language.
pub fn render_submitter(data: &SubmitterData, locale: &EmailLanguage) -> (r: Result<String, handlebars::RenderError>)
    ensures
        r is Ok <==> render_outcome(submitter_template(*locale), submitter_fields(*data)) is Some,
        r matches Ok(s) ==> render_outcome(submitter_template(*locale), submitter_fields(*data)) == Some(s@),
{
    let t = match locale {
        EmailLanguage::Nl => SUBMITTER_NL_TEMPLATE,
        EmailLanguage::En => SUBMITTER_EN_TEMPLATE,
    };
    let mut fields: Fields = Vec::new();
    fields.push(field("first_name", &data.first_name));
    assert(fields_view(fields@) =~= submitter_fields(*data));
    render_template(t, &fields)
}

/// Renders one of the crate's templates on `fields`, with the header
/// partial available.
fn render_template(template: &str, fields: &Fields) -> (r: Result<String, handlebars::RenderError>)
    requires
        known_template(template@),
    ensures
        r is Ok <==> render_outcome(template@, fields_view(fields@)) is Some,
        r matches Ok(s) ==> render_outcome(template@, fields_view(fields@)) == Some(s@),
{
    handlebars_render(template, HEADER_PARTIAL_NAME, HEADER_PARTIAL, fields)
}

} // verus!
