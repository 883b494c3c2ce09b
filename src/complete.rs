//! The last phase of a submission: take it out of the store, check it, and
//! compose the two notification mails.

use vstd::prelude::*;
use crate::config::AppConfig;
use crate::data::{
    all_uploaded, expired, has_submission, now_unix_seconds, Locale, PendingDigidecs,
    PendingDigidecsAttachment, PendingDigidecsData, PendingStore, SlotView, SubmissionView,
    with_content, SUBMISSION_TTL_SECONDS,
};
use crate::correspondent::{address_parses, mailbox_is, mailbox_parses};
use crate::email::{
    compose_submitter_email, compose_treasurer_email, content_type_parses,
    is_treasurer_subject, submitter_subject_text, Attachment, EmailLanguage,
    OutgoingAttachment, OutgoingMail, TreasurerEmailData,
};
use crate::error::Error;
use crate::attachment::uploaded;
use crate::start::{response_ids, start_outcome, StartDigidecsRequest, StartDigidecsResponse};
use crate::template::{
    opt_view, render_outcome, render_submitter, render_treasurer, submitter_template,
    SubmitterData, TreasurerData, TREASURER_TEMPLATE,
};
use crate::text::{cents_text, first_word, first_word_of, format_cents};

verus! {

/// The two mails that announce a completed submission: one to the
/// treasurer, with the attachments, and a confirmation to the submitter.
/// They are sent one after the other, each in its own session; when the
/// second fails the first has already gone out.
pub struct Notifications {
    pub treasurer: OutgoingMail,
    pub submitter: OutgoingMail,
}

/// Which submission to complete.
pub struct Query {
    pub tracking_id: String,
}

/// The language of the mails for a submitter's locale.
pub open spec fn email_lang_of(locale: Locale) -> EmailLanguage {
    match locale {
        Locale::En => EmailLanguage::En,
        Locale::Nl => EmailLanguage::Nl,
    }
}

/// The language of the mails for a submitter's locale.
pub fn map_locale_to_email_lang(locale: &Locale) -> (r: EmailLanguage)
    ensures
        r == email_lang_of(*locale),
{
    match locale {
        Locale::En => EmailLanguage::En,
        Locale::Nl => EmailLanguage::Nl,
    }
}

/// The fields of the treasurer's mail for a submission.
pub open spec fn treasurer_fields_of(d: PendingDigidecsData) -> Seq<(Seq<char>, Option<Seq<char>>)> {
    seq![
        ("name"@, Some(d.name@)),
        ("iban"@, Some(d.iban@)),
        ("email"@, Some(d.email@)),
        ("value"@, Some(cents_text(d.value_cents as nat))),
        ("what"@, Some(d.what@)),
        ("commission"@, Some(d.commission@)),
        ("notes"@, opt_view(d.notes)),
    ]
}

/// The fields of the submitter's confirmation: the first name.
pub open spec fn submitter_fields_of(d: PendingDigidecsData) -> Seq<(Seq<char>, Option<Seq<char>>)> {
    seq![("first_name"@, Some(first_word_of(d.name@)))]
}

/// The treasurer's mail body for a submission, where it renders.
pub open spec fn treasurer_body(d: PendingDigidecsData) -> Option<Seq<char>> {
    render_outcome(TREASURER_TEMPLATE@, treasurer_fields_of(d))
}

/// The submitter's confirmation body, where it renders.
pub open spec fn submitter_body(d: PendingDigidecsData) -> Option<Seq<char>> {
    render_outcome(submitter_template(email_lang_of(d.locale)), submitter_fields_of(d))
}

/// Every address and MIME type that the two mails need parses.
pub open spec fn mail_inputs_parse(s: SubmissionView, config: AppConfig) -> bool {
    &&& mailbox_parses(config.treasurer_email@)
    &&& address_parses(config.smtp.from_email@)
    &&& address_parses(s.data.email@)
    &&& forall|k: int| 0 <= k < s.slots.len() ==> content_type_parses(#[trigger] s.slots[k].mime)
}

/// The outgoing attachments carry the names, MIME types and uploaded bytes
/// of the slots, in order.
pub open spec fn files_match(out: Seq<OutgoingAttachment>, slots: Seq<SlotView>) -> bool {
    &&& out.len() == slots.len()
    &&& forall|k: int| 0 <= k < slots.len() ==> (#[trigger] out[k]).name@ == slots[k].name
        && out[k].mime@ == slots[k].mime && slots[k].content == Some(out[k].content@)
}

/// What composing the notifications of a checked submission gives: a
/// rendering failure first, then an address or MIME failure, else both mails.
pub open spec fn composed(s: SubmissionView, config: AppConfig, r: Result<Notifications, Error>) -> bool {
    if treasurer_body(s.data) is None || submitter_body(s.data) is None {
        r matches Err(Error::TemplateRender(_))
    } else if !mail_inputs_parse(s, config) {
        r matches Err(Error::Email(_))
    } else {
        r matches Ok(n) && {
            &&& n.treasurer.html_body@ == treasurer_body(s.data)->Some_0
            &&& is_treasurer_subject(n.treasurer.subject@, s.data.what@)
            &&& mailbox_is(n.treasurer.to, None, config.treasurer_email@)
            &&& mailbox_is(n.treasurer.from, Some(config.smtp.from_name@), config.smtp.from_email@)
            &&& n.treasurer.reply_to matches Some(t) && mailbox_is(t, Some(s.data.name@), s.data.email@)
            &&& files_match(n.treasurer.attachments@, s.slots)
            &&& n.submitter.html_body@ == submitter_body(s.data)->Some_0
            &&& n.submitter.subject@ == submitter_subject_text(email_lang_of(s.data.locale))
            &&& mailbox_is(n.submitter.to, Some(s.data.name@), s.data.email@)
            &&& mailbox_is(n.submitter.from, Some(config.smtp.from_name@), config.smtp.from_email@)
            &&& n.submitter.reply_to is None
            &&& n.submitter.attachments@.len() == 0
        }
    }
}

/// What `complete` owes for the submission it took out of the store.
pub open spec fn completion_outcome(s: SubmissionView, now: int, config: AppConfig, r: Result<Notifications, Error>) -> bool {
    if expired(s, now) {
        r matches Err(Error::DigidecsExpired)
    } else if !all_uploaded(s) {
        r matches Err(Error::MissingAttachment)
    } else {
        composed(s, config, r)
    }
}

/// What `complete` does to the store and returns: an unknown ID is
/// reported; a known one is removed, whatever the checks then find.
pub open spec fn completed(
    before: Seq<SubmissionView>,
    after: Seq<SubmissionView>,
    id: Seq<char>,
    now: int,
    config: AppConfig,
    r: Result<Notifications, Error>,
) -> bool {
    if !has_submission(before, id) {
        r matches Err(Error::UnknownTrackingId) && after == before
    } else {
        exists|i: int| 0 <= i < before.len() && (#[trigger] before[i]).tracking_id == id
            && after == before.remove(i) && completion_outcome(before[i], now, config, r)
    }
}

/// Turns uploaded slots into attachments of a mail, in order.
fn slot_files(slots: Vec<PendingDigidecsAttachment>) -> (r: Vec<Attachment>)
    requires
        forall|k: int| 0 <= k < slots@.len() ==> (#[trigger] slots@[k]).content is Some,
    ensures
        r@.len() == slots@.len(),
        forall|k: int| 0 <= k < slots@.len() ==> {
            &&& (#[trigger] r@[k]).name@ == slots@[k].name@
            &&& r@[k].mime@ == slots@[k].mime@
            &&& slots@[k]@.content == Some(r@[k].content@)
        },
{
    let ghost all = slots@;
    let mut rest = slots;
    let mut reversed: Vec<PendingDigidecsAttachment> = Vec::new();
    while rest.len() > 0
        invariant
            all.len() == rest@.len() + reversed@.len(),
            forall|k: int| 0 <= k < rest@.len() ==> rest@[k] == all[k],
            forall|k: int| 0 <= k < reversed@.len() ==> reversed@[k] == all[all.len() - 1 - k],
        decreases rest.len(),
    {
        let a = rest.pop().unwrap();
        reversed.push(a);
    }
    let mut out: Vec<Attachment> = Vec::new();
    while reversed.len() > 0
        invariant
            forall|k: int| 0 <= k < all.len() ==> (#[trigger] all[k]).content is Some,
            all.len() == out@.len() + reversed@.len(),
            forall|k: int| 0 <= k < reversed@.len() ==> reversed@[k] == all[all.len() - 1 - k],
            forall|k: int| 0 <= k < out@.len() ==> {
                &&& (#[trigger] out@[k]).name@ == all[k].name@
                &&& out@[k].mime@ == all[k].mime@
                &&& all[k]@.content == Some(out@[k].content@)
            },
        decreases reversed.len(),
    {
        let a = reversed.pop().unwrap();
        let ghost k = out@.len() as int;
        assert(a == all[k]);
        let content = match a.content {
            Some(c) => c,
            None => Vec::new(),
        };
        out.push(Attachment { content, name: a.name, mime: a.mime });
    }
    out
}

/// Whether every slot of the submission has its content.
fn all_slots_filled(digidecs: &PendingDigidecs) -> (r: bool)
    ensures
        r == all_uploaded(digidecs@),
{
    let ghost s = digidecs@;
    let mut k: usize = 0;
    while k < digidecs.attachments.len()
        invariant
            s == digidecs@,
            k <= digidecs.attachments@.len(),
            forall|q: int| 0 <= q < k ==> (#[trigger] s.slots[q]).content is Some,
        decreases digidecs.attachments@.len() - k,
    {
        assert(s.slots[k as int] == digidecs.attachments@[k as int]@);
        if digidecs.attachments[k].content.is_none() {
            return false;
        }
        k = k + 1;
    }
    true
}

/// Renders and composes both mails for a submission that passed its checks.
pub fn compose_notifications(digidecs: PendingDigidecs, config: &AppConfig) -> (r: Result<Notifications, Error>)
    requires
        digidecs.data.value_cents > 0,
        all_uploaded(digidecs@),
    ensures
        composed(digidecs@, *config, r),
{
    let ghost s = digidecs@;
    let data = digidecs.data;
    let treasurer_data = TreasurerData {
        name: data.name.clone(),
        iban: data.iban.clone(),
        email: data.email.clone(),
        value: format_cents(data.value_cents as u64),
        what: data.what.clone(),
        commission: data.commission.clone(),
        notes: match &data.notes {
            Some(n) => Some(n.clone()),
            None => None,
        },
    };
    let treasurer = render_treasurer(&treasurer_data);
    proof {
        assert(crate::template::treasurer_fields(treasurer_data) =~= treasurer_fields_of(s.data));
    }
    let treasurer = match treasurer {
        Ok(body) => body,
        Err(e) => return Err(Error::TemplateRender(e)),
    };
    let lang = map_locale_to_email_lang(&data.locale);
    let submitter_data = SubmitterData { first_name: first_word(data.name.as_str()) };
    let submitter = render_submitter(&submitter_data, &lang);
    proof {
        assert(crate::template::submitter_fields(submitter_data) =~= submitter_fields_of(s.data));
    }
    let submitter = match submitter {
        Ok(body) => body,
        Err(e) => return Err(Error::TemplateRender(e)),
    };
    proof {
        assert forall|k: int| 0 <= k < digidecs.attachments@.len() implies (#[trigger] digidecs.attachments@[k]).content is Some by {
            assert(s.slots[k] == digidecs.attachments@[k]@);
        }
    }
    let attachments = slot_files(digidecs.attachments);
    let ghost files = attachments@;
    proof {
        assert forall|k: int| 0 <= k < files.len() implies content_type_parses(#[trigger] files[k].mime@) == content_type_parses(s.slots[k].mime) by {
            assert(s.slots[k] == digidecs.attachments@[k]@);
        }
    }
    let treasurer_mail = compose_treasurer_email(
        &config.smtp,
        TreasurerEmailData {
            to: config.treasurer_email.as_str(),
            body: treasurer.as_str(),
            reply_to_name: data.name.as_str(),
            reply_to_email: data.email.as_str(),
            commission: data.what.as_str(),
            attachments,
        },
    );
    let treasurer_mail = match treasurer_mail {
        Ok(m) => m,
        Err(e) => {
            proof {
                if mail_inputs_parse(s, *config) {
                    assert forall|k: int| 0 <= k < files.len() implies content_type_parses(#[trigger] files[k].mime@) by {
                        assert(content_type_parses(s.slots[k].mime));
                    }
                }
            }
            return Err(Error::Email(e));
        },
    };
    let submitter_mail = compose_submitter_email(
        &config.smtp,
        data.email.as_str(),
        submitter,
        data.name.as_str(),
        &lang,
    );
    let submitter_mail = match submitter_mail {
        Ok(m) => m,
        Err(e) => return Err(Error::Email(e)),
    };
    proof {
        if !mail_inputs_parse(s, *config) {
            let k = choose|k: int| 0 <= k < s.slots.len() && !content_type_parses(#[trigger] s.slots[k].mime);
            assert(content_type_parses(files[k].mime@));
        }
        assert forall|k: int| 0 <= k < s.slots.len() implies (#[trigger] treasurer_mail.attachments@[k]).name@ == s.slots[k].name
            && treasurer_mail.attachments@[k].mime@ == s.slots[k].mime
            && s.slots[k].content == Some(treasurer_mail.attachments@[k].content@) by {
            assert(s.slots[k] == digidecs.attachments@[k]@);
        }
    }
    Ok(Notifications { treasurer: treasurer_mail, submitter: submitter_mail })
}

/// Takes the submission out of the store, whatever follows, so that no
/// second completion can find it; then checks that it has not expired at
/// `now` (Unix seconds) and that every attachment was uploaded, and
/// composes the notifications. A submission that fails a check is gone:
/// the submitter starts over.
pub fn complete(store: &mut PendingStore, query: &Query, now: i64, config: &AppConfig) -> (r: Result<Notifications, Error>)
    requires
        old(store).wf(),
    ensures
        final(store).wf(),
        final(store).issued() == old(store).issued(),
        final(store).ids_left() == old(store).ids_left(),
        completed(old(store)@, final(store)@, query.tracking_id@, now as int, *config, r),
{
    let i = match store.find(&query.tracking_id) {
        Some(i) => i,
        None => return Err(Error::UnknownTrackingId),
    };
    let digidecs = store.remove(i);
    let ghost s = digidecs@;
    assert(old(store)@[i as int].tracking_id == query.tracking_id@);
    if digidecs.expires_at <= now as i128 {
        return Err(Error::DigidecsExpired);
    }
    if !all_slots_filled(&digidecs) {
        return Err(Error::MissingAttachment);
    }
    compose_notifications(digidecs, config)
}

/// `complete` at the current time.
pub fn complete_now(store: &mut PendingStore, query: &Query, config: &AppConfig) -> (r: Result<Notifications, Error>)
    requires
        old(store).wf(),
    ensures
        final(store).wf(),
        final(store).issued() == old(store).issued(),
        final(store).ids_left() == old(store).ids_left(),
        exists|now: int| completed(old(store)@, final(store)@, query.tracking_id@, now, *config, r),
{
    let now = now_unix_seconds();
    complete(store, query, now, config)
}

/// Completing the same tracking ID twice: whatever the first call finds,
/// the second reports an unknown tracking ID and changes nothing.
pub proof fn lemma_complete_twice(
    s0: PendingStore,
    s1: PendingStore,
    s2: PendingStore,
    id: Seq<char>,
    now1: int,
    now2: int,
    config: AppConfig,
    r1: Result<Notifications, Error>,
    r2: Result<Notifications, Error>,
)
    requires
        s0.wf(),
        completed(s0@, s1@, id, now1, config, r1),
        completed(s1@, s2@, id, now2, config, r2),
    ensures
        !has_submission(s1@, id),
        r2 matches Err(Error::UnknownTrackingId),
        s2@ == s1@,
{
    s0.lemma_live_ids();
    if has_submission(s0@, id) {
        let i = choose|i: int| 0 <= i < s0@.len() && (#[trigger] s0@[i]).tracking_id == id
            && s1@ == s0@.remove(i) && completion_outcome(s0@[i], now1, config, r1);
        if has_submission(s1@, id) {
            let k = choose|k: int| 0 <= k < s1@.len() && (#[trigger] s1@[k]).tracking_id == id;
            let k0 = if k < i { k } else { k + 1 };
            assert(s1@[k] == s0@[k0]);
        }
    }
}

/// A submission whose time is up when `complete` comes fails as expired,
/// and a later completion of it finds an unknown tracking ID.
pub proof fn lemma_expired_is_final(
    s0: PendingStore,
    s1: PendingStore,
    s2: PendingStore,
    i: int,
    now1: int,
    now2: int,
    config: AppConfig,
    r1: Result<Notifications, Error>,
    r2: Result<Notifications, Error>,
)
    requires
        s0.wf(),
        0 <= i < s0@.len(),
        expired(s0@[i], now1),
        completed(s0@, s1@, s0@[i].tracking_id, now1, config, r1),
        completed(s1@, s2@, s0@[i].tracking_id, now2, config, r2),
    ensures
        r1 matches Err(Error::DigidecsExpired),
        r2 matches Err(Error::UnknownTrackingId),
{
    s0.lemma_live_ids();
    let id = s0@[i].tracking_id;
    assert(has_submission(s0@, id));
    let k = choose|k: int| 0 <= k < s0@.len() && (#[trigger] s0@[k]).tracking_id == id
        && s1@ == s0@.remove(k) && completion_outcome(s0@[k], now1, config, r1);
    assert(k == i);
    lemma_complete_twice(s0, s1, s2, id, now1, now2, config, r1, r2);
}

/// A submission with a slot that was never uploaded fails at completion
/// with a missing attachment, unless its time is already up.
pub proof fn lemma_missing_attachment(
    s0: PendingStore,
    s1: PendingStore,
    i: int,
    j: int,
    now: int,
    config: AppConfig,
    r: Result<Notifications, Error>,
)
    requires
        s0.wf(),
        0 <= i < s0@.len(),
        0 <= j < s0@[i].slots.len(),
        s0@[i].slots[j].content is None,
        !expired(s0@[i], now),
        completed(s0@, s1@, s0@[i].tracking_id, now, config, r),
    ensures
        r matches Err(Error::MissingAttachment),
{
    s0.lemma_live_ids();
    let id = s0@[i].tracking_id;
    assert(has_submission(s0@, id));
    let k = choose|k: int| 0 <= k < s0@.len() && (#[trigger] s0@[k]).tracking_id == id
        && s1@ == s0@.remove(k) && completion_outcome(s0@[k], now, config, r);
    assert(k == i);
    assert(!all_uploaded(s0@[i]));
}

/// A submission with one attachment, started, uploaded and completed within
/// its hour: the upload succeeds, and the completion neither expires nor
/// misses an attachment, so it gives exactly the two mails composed from
/// the submission (whose amount is the one given, shown as `cents_text`),
/// with the uploaded bytes attached.
pub proof fn lemma_single_attachment_flow(
    s0: PendingStore,
    s1: PendingStore,
    s2: PendingStore,
    s3: Seq<SubmissionView>,
    payload: StartDigidecsRequest,
    now: int,
    resp: StartDigidecsResponse,
    bytes: Seq<u8>,
    r_up: Result<(), Error>,
    now2: int,
    config: AppConfig,
    r: Result<Notifications, Error>,
)
    requires
        s2.wf(),
        payload.attachments@.len() == 1,
        start_outcome(s0, s1, payload, now, Ok(resp)),
        uploaded(s1@, s2@, resp.tracking_id@, resp.attachments@[0].tracking_id@, bytes, r_up),
        now2 < now + SUBMISSION_TTL_SECONDS,
        completed(s2@, s3, resp.tracking_id@, now2, config, r),
    ensures
        r_up is Ok,
        s2@.last().data.value_cents == payload.value_cents,
        s2@.last().slots[0].content == Some(bytes),
        s2@.last().slots[0].name == payload.attachments@[0].name@,
        s2@.last().slots[0].mime == payload.attachments@[0].mime@,
        s3 == s2@.drop_last(),
        composed(s2@.last(), config, r),
{
    crate::attachment::lemma_upload_after_start(s0, s1, s2@, payload, now, resp, 0, bytes, r_up);
    let last = s2@.len() - 1;
    assert(s2@[last] == with_content(s1@.last(), 0, bytes));
    assert(s2@[last].tracking_id == resp.tracking_id@);
    assert(has_submission(s2@, resp.tracking_id@));
    s2.lemma_live_ids();
    let i = choose|i: int| 0 <= i < s2@.len() && (#[trigger] s2@[i]).tracking_id == resp.tracking_id@
        && s3 == s2@.remove(i) && completion_outcome(s2@[i], now2, config, r);
    assert(i == last);
    assert(s2@.remove(last) =~= s2@.drop_last());
    assert(all_uploaded(s2@[last]));
}

/// A tracking ID that was issued but names no submission any more: one
/// that was completed, whatever the outcome.
pub open spec fn gone(s: PendingStore, id: Seq<char>) -> bool {
    s.issued().contains(id) && !has_submission(s@, id)
}

/// Completing a known submission leaves its tracking ID gone.
pub proof fn lemma_completed_is_gone(
    s0: PendingStore,
    s1: PendingStore,
    id: Seq<char>,
    now: int,
    config: AppConfig,
    r: Result<Notifications, Error>,
)
    requires
        s0.wf(),
        has_submission(s0@, id),
        completed(s0@, s1@, id, now, config, r),
        s1.issued() == s0.issued(),
    ensures
        gone(s1, id),
{
    s0.lemma_live_ids();
    let i = choose|i: int| 0 <= i < s0@.len() && (#[trigger] s0@[i]).tracking_id == id
        && s1@ == s0@.remove(i) && completion_outcome(s0@[i], now, config, r);
    assert(s0.issued().contains(s0@[i].tracking_id));
    if has_submission(s1@, id) {
        let k = choose|k: int| 0 <= k < s1@.len() && (#[trigger] s1@[k]).tracking_id == id;
        let k0 = if k < i { k } else { k + 1 };
        assert(s1@[k] == s0@[k0]);
    }
}

/// A gone tracking ID stays gone through any `start`: new IDs are fresh.
pub proof fn lemma_gone_after_start(
    s0: PendingStore,
    s1: PendingStore,
    id: Seq<char>,
    payload: StartDigidecsRequest,
    now: int,
    r: Result<StartDigidecsResponse, Error>,
)
    requires
        gone(s0, id),
        start_outcome(s0, s1, payload, now, r),
    ensures
        gone(s1, id),
{
    if let Ok(resp) = r {
        assert(!s0.issued().contains(response_ids(resp)[0]));
        assert(s1.issued().contains(id));
        if has_submission(s1@, id) {
            let k = choose|k: int| 0 <= k < s1@.len() && (#[trigger] s1@[k]).tracking_id == id;
            if k < s0@.len() {
                assert(s1@[k] == s0@[k]);
            } else {
                assert(s1@[k].tracking_id == response_ids(resp)[0]);
            }
        }
    }
}

/// A gone tracking ID stays gone through any upload.
pub proof fn lemma_gone_after_upload(
    s0: PendingStore,
    s1: PendingStore,
    id: Seq<char>,
    other: Seq<char>,
    aid: Seq<char>,
    bytes: Seq<u8>,
    r: Result<(), Error>,
)
    requires
        gone(s0, id),
        uploaded(s0@, s1@, other, aid, bytes, r),
        s1.issued() == s0.issued(),
    ensures
        gone(s1, id),
{
    if r is Ok {
        let (i, j) = choose|i: int, j: int|
            0 <= i < s0@.len() && 0 <= j < s0@[i].slots.len() && (#[trigger] s0@[i]).tracking_id == other
                && (#[trigger] s0@[i].slots[j]).tracking_id == aid;
        assert(s1@ == s0@.update(i, with_content(s0@[i], j, bytes)));
        if has_submission(s1@, id) {
            let k = choose|k: int| 0 <= k < s1@.len() && (#[trigger] s1@[k]).tracking_id == id;
            assert(s1@[k].tracking_id == s0@[k].tracking_id);
        }
    }
}

/// A gone tracking ID stays gone through any completion, and completing it
/// reports an unknown tracking ID and changes nothing. With the two lemmas
/// above, every later completion of a completed submission fails so.
pub proof fn lemma_gone_after_complete(
    s0: PendingStore,
    s1: PendingStore,
    id: Seq<char>,
    other: Seq<char>,
    now: int,
    config: AppConfig,
    r: Result<Notifications, Error>,
)
    requires
        gone(s0, id),
        completed(s0@, s1@, other, now, config, r),
        s1.issued() == s0.issued(),
    ensures
        gone(s1, id),
        other == id ==> (r matches Err(Error::UnknownTrackingId) && s1@ == s0@),
{
    if has_submission(s0@, other) {
        let i = choose|i: int| 0 <= i < s0@.len() && (#[trigger] s0@[i]).tracking_id == other
            && s1@ == s0@.remove(i) && completion_outcome(s0@[i], now, config, r);
        if has_submission(s1@, id) {
            let k = choose|k: int| 0 <= k < s1@.len() && (#[trigger] s1@[k]).tracking_id == id;
            let k0 = if k < i { k } else { k + 1 };
            assert(s1@[k] == s0@[k0]);
        }
    }
}

} // verus!
