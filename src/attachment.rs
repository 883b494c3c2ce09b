//! The second phase of a submission: the upload of one attachment.

use vstd::prelude::*;
use crate::data::{has_slot, has_submission, with_content, PendingStore, SubmissionView};
use crate::error::Error;
use crate::start::{start_outcome, StartDigidecsRequest, StartDigidecsResponse};

verus! {

/// Which slot an upload is for.
pub struct Query {
    pub tracking_id: String,
    pub attachment_tracking_id: String,
}

/// What an upload of `bytes` for slot `aid` of submission `id` owes: an
/// unknown submission or slot is reported and changes nothing; otherwise
/// exactly that slot's content becomes `bytes`.
pub open spec fn uploaded(
    before: Seq<SubmissionView>,
    after: Seq<SubmissionView>,
    id: Seq<char>,
    aid: Seq<char>,
    bytes: Seq<u8>,
    r: Result<(), Error>,
) -> bool {
    &&& (!has_submission(before, id) ==> r matches Err(Error::UnknownTrackingId))
    &&& (has_submission(before, id) && !has_slot(before, id, aid) ==> r matches Err(Error::UnknownAttachmentTrackingId))
    &&& (r is Ok <==> has_slot(before, id, aid))
    &&& (r is Err ==> after == before)
    &&& (r is Ok ==> forall|i: int, j: int|
        0 <= i < before.len() && 0 <= j < before[i].slots.len() && before[i].tracking_id == id
            && (#[trigger] before[i].slots[j]).tracking_id == aid
            ==> after == before.update(i, with_content(before[i], j, bytes)))
}

/// Stores the uploaded bytes in the slot `query.attachment_tracking_id` of
/// the submission `query.tracking_id`; a second upload to the same slot replaces the
/// first. An unknown submission, or a slot that the submission does not
/// have, is reported and changes nothing.
pub fn attachment(
    store: &mut PendingStore,
    query: &Query,
    payload: Vec<u8>,
) -> (r: Result<(), Error>)
    requires
        old(store).wf(),
    ensures
        final(store).wf(),
        final(store).issued() == old(store).issued(),
        final(store).ids_left() == old(store).ids_left(),
        uploaded(old(store)@, final(store)@, query.tracking_id@, query.attachment_tracking_id@, payload@, r),
{
    proof {
        store.lemma_live_ids();
    }
    let i = match store.find(&query.tracking_id) {
        Some(i) => i,
        None => return Err(Error::UnknownTrackingId),
    };
    let j = match store.find_slot(i, &query.attachment_tracking_id) {
        Some(j) => j,
        None => {
            proof {
                if has_slot(store@, query.tracking_id@, query.attachment_tracking_id@) {
                    let (a, b) = choose|a: int, b: int|
                        0 <= a < store@.len() && 0 <= b < store@[a].slots.len() && (#[trigger] store@[a]).tracking_id == query.tracking_id@
                            && (#[trigger] store@[a].slots[b]).tracking_id == query.attachment_tracking_id@;
                    assert(a == i as int);
                }
            }
            return Err(Error::UnknownAttachmentTrackingId);
        },
    };
    let ghost before = store@;
    let ghost bytes = payload@;
    store.set_content(i, j, payload);
    proof {
        assert forall|a: int, b: int|
            0 <= a < before.len() && 0 <= b < before[a].slots.len() && before[a].tracking_id == query.tracking_id@
                && (#[trigger] before[a].slots[b]).tracking_id == query.attachment_tracking_id@
            implies store@ == before.update(a, with_content(before[a], b, bytes)) by {
            assert(a == i as int);
            assert(b == j as int);
        }
    }
    Ok(())
}

/// Uploading twice to the same slot leaves the store as the second upload
/// alone would have left it: the later bytes replace the earlier ones.
pub proof fn lemma_upload_overwrites(
    s0: Seq<SubmissionView>,
    s1: Seq<SubmissionView>,
    s2: Seq<SubmissionView>,
    id: Seq<char>,
    aid: Seq<char>,
    b1: Seq<u8>,
    b2: Seq<u8>,
    r1: Result<(), Error>,
    r2: Result<(), Error>,
)
    requires
        r1 is Ok,
        uploaded(s0, s1, id, aid, b1, r1),
        uploaded(s1, s2, id, aid, b2, r2),
    ensures
        r2 is Ok,
        forall|i: int, j: int|
            0 <= i < s0.len() && 0 <= j < s0[i].slots.len() && s0[i].tracking_id == id
                && (#[trigger] s0[i].slots[j]).tracking_id == aid
                ==> s2 == s0.update(i, with_content(s0[i], j, b2)),
{
    let (i, j) = choose|i: int, j: int|
        0 <= i < s0.len() && 0 <= j < s0[i].slots.len() && (#[trigger] s0[i]).tracking_id == id
            && (#[trigger] s0[i].slots[j]).tracking_id == aid;
    assert(s1 == s0.update(i, with_content(s0[i], j, b1)));
    assert(s1[i].slots[j].tracking_id == aid);
    assert(has_slot(s1, id, aid));
    assert forall|a: int, b: int|
        0 <= a < s0.len() && 0 <= b < s0[a].slots.len() && s0[a].tracking_id == id
            && (#[trigger] s0[a].slots[b]).tracking_id == aid
        implies s2 == s0.update(a, with_content(s0[a], b, b2)) by {
        assert(s1 == s0.update(a, with_content(s0[a], b, b1)));
        assert(s1[a].slots[b].tracking_id == aid);
        assert(s2 == s1.update(a, with_content(s1[a], b, b2)));
        assert(with_content(s1[a], b, b2) =~= with_content(s0[a], b, b2)) by {
            assert(with_content(s1[a], b, b2).slots =~= with_content(s0[a], b, b2).slots);
        }
        assert(s2 =~= s0.update(a, with_content(s0[a], b, b2)));
    }
}

/// An upload for a slot that `start` just declared succeeds and fills
/// exactly that slot.
pub proof fn lemma_upload_after_start(
    s0: PendingStore,
    s1: PendingStore,
    s2: Seq<SubmissionView>,
    payload: StartDigidecsRequest,
    now: int,
    resp: StartDigidecsResponse,
    k: int,
    bytes: Seq<u8>,
    r: Result<(), Error>,
)
    requires
        start_outcome(s0, s1, payload, now, Ok(resp)),
        0 <= k < resp.attachments@.len(),
        uploaded(s1@, s2, resp.tracking_id@, resp.attachments@[k].tracking_id@, bytes, r),
    ensures
        r is Ok,
        s2 == s1@.update(s1@.len() - 1, with_content(s1@.last(), k, bytes)),
        s2.last().slots[k].content == Some(bytes),
{
    let last = s1@.len() - 1;
    assert(s1@[last].slots[k].tracking_id == resp.attachments@[k].tracking_id@);
    assert(has_slot(s1@, resp.tracking_id@, resp.attachments@[k].tracking_id@));
}

} // verus!
