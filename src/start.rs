//! The first phase of a submission: validate the form, issue tracking IDs
//! and keep the submission until its attachments arrive.

use vstd::prelude::*;
use crate::data::{
    distinct_slot_ids, has_submission, id_shaped, Locale, PendingDigidecs, PendingDigidecsAttachment, PendingDigidecsData,
    now_unix_seconds, PendingStore, SubmissionView, SUBMISSION_TTL_SECONDS,
};
use crate::error::Error;
use crate::validate::{email_accepted, iban_parses, validate_email, validate_iban};

verus! {

/// A declared attachment: its file name and MIME type.
pub struct Attachment {
    pub name: String,
    pub mime: String,
}

/// The form that starts a submission. The amount is in cents.
pub struct StartDigidecsRequest {
    pub name: String,
    pub iban: String,
    pub email: String,
    pub value_cents: i64,
    pub what: String,
    pub commission: String,
    pub notes: Option<String>,
    pub attachments: Vec<Attachment>,
    pub locale: Locale,
}

/// The tracking IDs handed back for a new submission.
pub struct StartDigidecsResponse {
    pub tracking_id: String,
    pub attachments: Vec<AttachmentResponse>,
}

/// A declared attachment with the tracking ID to upload it under.
pub struct AttachmentResponse {
    pub name: String,
    pub mime: String,
    pub tracking_id: String,
}

/// Whether the form passes every check that `start` makes.
pub open spec fn request_valid(req: StartDigidecsRequest) -> bool {
    &&& email_accepted(req.email@)
    &&& iban_parses(req.iban@)
    &&& req.attachments@.len() > 0
    &&& req.value_cents > 0
}

/// The slots and the response name the declared attachments in order, the
/// slots empty and under the tracking IDs of the response.
pub open spec fn slots_declared(s: SubmissionView, req: StartDigidecsRequest, resp: StartDigidecsResponse) -> bool {
    &&& s.slots.len() == req.attachments@.len()
    &&& resp.attachments@.len() == req.attachments@.len()
    &&& forall|k: int| 0 <= k < s.slots.len() ==> {
        &&& (#[trigger] s.slots[k]).name == req.attachments@[k].name@
        &&& s.slots[k].mime == req.attachments@[k].mime@
        &&& s.slots[k].content is None
        &&& s.slots[k].tracking_id == resp.attachments@[k].tracking_id@
        &&& resp.attachments@[k].name@ == req.attachments@[k].name@
        &&& resp.attachments@[k].mime@ == req.attachments@[k].mime@
    }
}

/// The tracking IDs of a response: the submission's, then the attachments'.
pub open spec fn response_ids(resp: StartDigidecsResponse) -> Seq<Seq<char>> {
    seq![resp.tracking_id@] + resp.attachments@.map_values(|a: AttachmentResponse| a.tracking_id@)
}

/// The IDs are mutually distinct and none was issued before.
pub open spec fn fresh_ids(ids: Seq<Seq<char>>, issued: Set<Seq<char>>) -> bool {
    &&& forall|a: int, b: int| 0 <= a < ids.len() && 0 <= b < ids.len() && a != b ==> ids[a] != ids[b]
    &&& forall|a: int| 0 <= a < ids.len() ==> !issued.contains(#[trigger] ids[a])
}

/// What `start` owes: the first failing check is reported and changes
/// nothing; a form that passes is stored, at the end, under fresh IDs.
pub open spec fn start_outcome(
    before: PendingStore,
    after: PendingStore,
    payload: StartDigidecsRequest,
    now: int,
    r: Result<StartDigidecsResponse, Error>,
) -> bool {
    &&& (!email_accepted(payload.email@) ==> r matches Err(Error::InvalidEmail))
    &&& (email_accepted(payload.email@) && !iban_parses(payload.iban@) ==> r matches Err(Error::InvalidIban))
    &&& (email_accepted(payload.email@) && iban_parses(payload.iban@) && payload.attachments@.len() == 0
            ==> r matches Err(Error::MissingAttachment))
    &&& (email_accepted(payload.email@) && iban_parses(payload.iban@) && payload.attachments@.len() > 0
            && payload.value_cents <= 0 ==> r matches Err(Error::ValueNegativeOrZero))
    &&& (r is Ok <==> request_valid(payload))
    &&& (r is Err ==> after@ == before@ && after.issued() == before.issued()
            && after.ids_left() == before.ids_left())
    &&& (r matches Ok(resp) ==> {
            let s = after@.last();
            &&& after@ == before@.push(s)
            &&& s.tracking_id == resp.tracking_id@
            &&& s.expires_at == now + SUBMISSION_TTL_SECONDS
            &&& s.data == (PendingDigidecsData {
                name: payload.name,
                iban: payload.iban,
                email: payload.email,
                value_cents: payload.value_cents,
                what: payload.what,
                commission: payload.commission,
                notes: payload.notes,
                locale: payload.locale,
            })
            &&& slots_declared(s, payload, resp)
            &&& fresh_ids(response_ids(resp), before.issued())
            &&& forall|a: int| 0 <= a < response_ids(resp).len() ==> id_shaped(#[trigger] response_ids(resp)[a])
            &&& after.issued() == before.issued() + response_ids(resp).to_set()
            &&& after.ids_left() == before.ids_left() - response_ids(resp).len()
        })
}

/// Checks the form and, where it passes, stores a new submission that
/// expires an hour after `now` (Unix seconds), under fresh tracking IDs.
/// A form that fails changes nothing; the first failing check is reported:
/// email, IBAN, attachments, amount.
pub fn start(store: &mut PendingStore, payload: StartDigidecsRequest, now: i64) -> (r: Result<StartDigidecsResponse, Error>)
    requires
        old(store).wf(),
        old(store).ids_left() > payload.attachments@.len(),
    ensures
        final(store).wf(),
        start_outcome(*old(store), *final(store), payload, now as int, r),
{
    if !validate_email(payload.email.as_str()) {
        return Err(Error::InvalidEmail);
    }
    if !validate_iban(payload.iban.as_str()) {
        return Err(Error::InvalidIban);
    }
    if payload.attachments.len() == 0 {
        return Err(Error::MissingAttachment);
    }
    if payload.value_cents <= 0 {
        return Err(Error::ValueNegativeOrZero);
    }

    let ghost issued0 = store.issued();
    proof {
        store.lemma_live_ids();
    }
    let tracking_id = store.issue_id();
    proof {
        let ids0 = seq![tracking_id@] + Seq::<AttachmentResponse>::empty().map_values(|a: AttachmentResponse| a.tracking_id@);
        assert(ids0 =~= seq![tracking_id@]);
        assert(ids0[0] == tracking_id@);
        assert(ids0.to_set().contains(tracking_id@));
        assert(store.issued() =~= issued0 + ids0.to_set());
    }
    let mut responses: Vec<AttachmentResponse> = Vec::new();
    let mut slots: Vec<PendingDigidecsAttachment> = Vec::new();
    let n = payload.attachments.len();
    let mut k: usize = 0;
    while k < n
        invariant
            store.wf(),
            store@ == old(store)@,
            n == payload.attachments@.len(),
            k <= n,
            store.ids_left() == old(store).ids_left() - 1 - k,
            old(store).ids_left() > n,
            responses@.len() == k,
            slots@.len() == k,
            forall|q: int| 0 <= q < k ==> {
                &&& (#[trigger] slots@[q])@.name == payload.attachments@[q].name@
                &&& slots@[q]@.mime == payload.attachments@[q].mime@
                &&& slots@[q]@.content is None
                &&& slots@[q]@.tracking_id == responses@[q].tracking_id@
                &&& responses@[q].name@ == payload.attachments@[q].name@
                &&& responses@[q].mime@ == payload.attachments@[q].mime@
            },
            fresh_ids(seq![tracking_id@] + responses@.map_values(|a: AttachmentResponse| a.tracking_id@), issued0),
            id_shaped(tracking_id@),
            forall|q: int| 0 <= q < k ==> id_shaped(#[trigger] responses@[q].tracking_id@),
            store.issued() == issued0 + (seq![tracking_id@] + responses@.map_values(|a: AttachmentResponse| a.tracking_id@)).to_set(),
        decreases n - k,
    {
        let ghost ids_before = seq![tracking_id@] + responses@.map_values(|a: AttachmentResponse| a.tracking_id@);
        let ghost store_issued_before = store.issued();
        let id = store.issue_id();
        let att = &payload.attachments[k];
        slots.push(PendingDigidecsAttachment {
            name: att.name.clone(),
            tracking_id: id.clone(),
            mime: att.mime.clone(),
            content: None,
        });
        responses.push(AttachmentResponse { name: att.name.clone(), mime: att.mime.clone(), tracking_id: id });
        k = k + 1;
        proof {
            let ids = seq![tracking_id@] + responses@.map_values(|a: AttachmentResponse| a.tracking_id@);
            assert(ids =~= ids_before.push(responses@[k - 1].tracking_id@));
            assert(ids_before.to_set().contains(ids_before[0]));
            assert forall|a: int| 0 <= a < ids_before.len() implies store_issued_before.contains(#[trigger] ids_before[a]) by {
                assert(ids_before.to_set().contains(ids_before[a]));
            }
            assert(store.issued() =~= issued0 + ids.to_set()) by {
                assert forall|x: Seq<char>| ids.to_set().contains(x) <==> ids_before.to_set().contains(x) || x == ids.last() by {
                    if ids.to_set().contains(x) {
                        let a = choose|a: int| 0 <= a < ids.len() && ids[a] == x;
                        if a < ids_before.len() {
                            assert(ids_before[a] == x);
                            assert(ids_before.to_set().contains(x));
                        }
                    }
                    if ids_before.to_set().contains(x) {
                        let a = choose|a: int| 0 <= a < ids_before.len() && ids_before[a] == x;
                        assert(ids[a] == x);
                    }
                    if x == ids.last() {
                        assert(ids[ids.len() - 1] == x);
                    }
                }
            }
        }
    }

    let sub = PendingDigidecs {
        expires_at: now as i128 + SUBMISSION_TTL_SECONDS,
        data: PendingDigidecsData {
            name: payload.name,
            iban: payload.iban,
            email: payload.email,
            value_cents: payload.value_cents,
            what: payload.what,
            commission: payload.commission,
            notes: payload.notes,
            locale: payload.locale,
        },
        tracking_id,
        attachments: slots,
    };
    let resp_tracking_id = sub.tracking_id.clone();
    proof {
        let ids = seq![sub.tracking_id@] + responses@.map_values(|a: AttachmentResponse| a.tracking_id@);
        assert(ids.to_set().contains(ids[0]));
        assert forall|j: int| 0 <= j < sub@.slots.len() implies store.issued().contains(#[trigger] sub@.slots[j].tracking_id) by {
            assert(sub@.slots[j] == slots@[j]@);
            assert(ids[j + 1] == responses@[j].tracking_id@);
            assert(ids.to_set().contains(ids[j + 1]));
        }
        if has_submission(store@, sub@.tracking_id) {
            let i = choose|i: int| 0 <= i < store@.len() && (#[trigger] store@[i]).tracking_id == sub@.tracking_id;
            assert(store@[i] == old(store)@[i]);
            assert(issued0.contains(old(store)@[i].tracking_id));
            assert(!issued0.contains(ids[0]));
        }
    }
    proof {
        let ids = seq![sub.tracking_id@] + responses@.map_values(|a: AttachmentResponse| a.tracking_id@);
        assert forall|x: int, y: int| 0 <= x < sub@.slots.len() && 0 <= y < sub@.slots.len() && x != y
            implies (#[trigger] sub@.slots[x]).tracking_id != (#[trigger] sub@.slots[y]).tracking_id by {
            assert(sub@.slots[x] == slots@[x]@);
            assert(sub@.slots[y] == slots@[y]@);
            assert(ids[x + 1] == responses@[x].tracking_id@);
            assert(ids[y + 1] == responses@[y].tracking_id@);
        }
    }
    store.insert(sub);
    let resp = StartDigidecsResponse { tracking_id: resp_tracking_id, attachments: responses };
    proof {
        let s = store@.last();
        assert(s.slots =~= slots@.map_values(|a: PendingDigidecsAttachment| a@));
        assert(response_ids(resp) =~= seq![resp.tracking_id@] + responses@.map_values(|a: AttachmentResponse| a.tracking_id@));
        assert forall|a: int| 0 <= a < response_ids(resp).len() implies id_shaped(#[trigger] response_ids(resp)[a]) by {
            if a > 0 {
                assert(response_ids(resp)[a] == responses@[a - 1].tracking_id@);
            }
        }
    }
    Ok(resp)
}

/// Every tracking ID that a successful `start` returns, the submission's
/// and each attachment's, differs from the others and from every ID issued
/// before, starts with random letters and digits, and is recorded as issued.
pub proof fn lemma_start_ids_fresh(
    before: PendingStore,
    after: PendingStore,
    payload: StartDigidecsRequest,
    now: int,
    resp: StartDigidecsResponse,
)
    requires
        start_outcome(before, after, payload, now, Ok(resp)),
    ensures
        forall|a: int, b: int| 0 <= a < response_ids(resp).len() && 0 <= b < response_ids(resp).len() && a != b
            ==> response_ids(resp)[a] != response_ids(resp)[b],
        forall|a: int| 0 <= a < response_ids(resp).len() ==> !before.issued().contains(#[trigger] response_ids(resp)[a]),
        forall|a: int| 0 <= a < response_ids(resp).len() ==> after.issued().contains(#[trigger] response_ids(resp)[a]),
        forall|a: int| 0 <= a < response_ids(resp).len() ==> id_shaped(#[trigger] response_ids(resp)[a]),
{
    assert forall|a: int| 0 <= a < response_ids(resp).len() implies after.issued().contains(#[trigger] response_ids(resp)[a]) by {
        assert(response_ids(resp).to_set().contains(response_ids(resp)[a]));
    }
}

/// `start` at the current time.
pub fn start_now(store: &mut PendingStore, payload: StartDigidecsRequest) -> (r: Result<StartDigidecsResponse, Error>)
    requires
        old(store).wf(),
        old(store).ids_left() > payload.attachments@.len(),
    ensures
        final(store).wf(),
        exists|now: int| start_outcome(*old(store), *final(store), payload, now, r),
{
    let now = now_unix_seconds();
    start(store, payload, now)
}

} // verus!
