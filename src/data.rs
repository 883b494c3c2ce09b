//! The in-memory store of submissions whose attachments are still being
//! uploaded, and the tracking IDs it issues.

use vstd::prelude::*;
use crate::text::{
    decimal, is_alphanumeric, lemma_decimal_injective, lemma_decimal_shape, push_decimal,
    random_alphanumeric,
};

verus! {

/// How long a submission may take from start to completion, in seconds.
pub const SUBMISSION_TTL_SECONDS: i128 = 3600;

/// The number of random characters that start every tracking ID; a serial
/// number follows them, which makes each ID unique.
pub const RANDOM_ID_LEN: usize = 16;

/// Relies on `time::OffsetDateTime::now_utc` and `unix_timestamp`: the
/// current time in whole seconds since the Unix epoch, whatever the clock says.
#[verifier::external_body]
pub(crate) fn now_unix_seconds() -> (r: i64)
{
    time::OffsetDateTime::now_utc().unix_timestamp()
}

/// The language that the submitter reads.
#[derive(Clone, Copy, Debug, PartialEq, Eq, Structural)]
pub enum Locale {
    En,
    Nl,
}

/// An attachment slot: declared when the submission starts, filled by an upload.
pub struct PendingDigidecsAttachment {
    pub name: String,
    pub tracking_id: String,
    pub mime: String,
    pub content: Option<Vec<u8>>,
}

/// The model of an attachment slot.
pub struct SlotView {
    pub name: Seq<char>,
    pub tracking_id: Seq<char>,
    pub mime: Seq<char>,
    pub content: Option<Seq<u8>>,
}

impl View for PendingDigidecsAttachment {
    type V = SlotView;

    open spec fn view(&self) -> SlotView {
        SlotView {
            name: self.name@,
            tracking_id: self.tracking_id@,
            mime: self.mime@,
            content: match self.content {
                Some(c) => Some(c@),
                None => None,
            },
        }
    }
}

/// What the submitter filled in. The amount is in cents.
pub struct PendingDigidecsData {
    pub name: String,
    pub iban: String,
    pub email: String,
    pub value_cents: i64,
    pub what: String,
    pub commission: String,
    pub notes: Option<String>,
    pub locale: Locale,
}

/// A submission waiting for its attachments and its completion.
pub struct PendingDigidecs {
    /// Unix time in seconds from which on the submission can no longer complete.
    pub expires_at: i128,
    pub data: PendingDigidecsData,
    pub tracking_id: String,
    pub attachments: Vec<PendingDigidecsAttachment>,
}

/// The model of a submission.
pub struct SubmissionView {
    pub expires_at: int,
    pub data: PendingDigidecsData,
    pub tracking_id: Seq<char>,
    pub slots: Seq<SlotView>,
}

impl View for PendingDigidecs {
    type V = SubmissionView;

    open spec fn view(&self) -> SubmissionView {
        SubmissionView {
            expires_at: self.expires_at as int,
            data: self.data,
            tracking_id: self.tracking_id@,
            slots: self.attachments@.map_values(|a: PendingDigidecsAttachment| a@),
        }
    }
}

/// Whether some submission in `v` has tracking ID `id`.
pub open spec fn has_submission(v: Seq<SubmissionView>, id: Seq<char>) -> bool {
    exists|i: int| 0 <= i < v.len() && (#[trigger] v[i]).tracking_id == id
}

/// Whether some submission in `v` with tracking ID `id` has a slot with
/// tracking ID `aid`.
pub open spec fn has_slot(v: Seq<SubmissionView>, id: Seq<char>, aid: Seq<char>) -> bool {
    exists|i: int, j: int|
        0 <= i < v.len() && 0 <= j < v[i].slots.len() && (#[trigger] v[i]).tracking_id == id
            && (#[trigger] v[i].slots[j]).tracking_id == aid
}

/// `s` with the content of its slot `j` set to `bytes`.
pub open spec fn with_content(s: SubmissionView, j: int, bytes: Seq<u8>) -> SubmissionView {
    SubmissionView {
        slots: s.slots.update(j, SlotView { content: Some(bytes), ..s.slots[j] }),
        ..s
    }
}

/// Every slot of the submission has been uploaded.
pub open spec fn all_uploaded(s: SubmissionView) -> bool {
    forall|j: int| 0 <= j < s.slots.len() ==> (#[trigger] s.slots[j]).content is Some
}

/// The submission can no longer complete at time `now`.
pub open spec fn expired(s: SubmissionView, now: int) -> bool {
    s.expires_at <= now
}

/// A tracking ID that ends in the decimal notation of serial number `s`.
pub open spec fn id_has_serial(id: Seq<char>, s: nat) -> bool {
    id.len() >= RANDOM_ID_LEN && id.subrange(RANDOM_ID_LEN as int, id.len() as int) == decimal(s)
}

/// A tracking ID starts with `RANDOM_ID_LEN` random letters and digits, and
/// something follows them.
pub open spec fn id_shaped(id: Seq<char>) -> bool {
    &&& id.len() > RANDOM_ID_LEN
    &&& forall|i: int| 0 <= i < RANDOM_ID_LEN ==> is_alphanumeric(#[trigger] id[i])
}

/// The slots of a submission have distinct tracking IDs.
pub open spec fn distinct_slot_ids(s: SubmissionView) -> bool {
    forall|j: int, k: int| 0 <= j < s.slots.len() && 0 <= k < s.slots.len() && j != k
        ==> (#[trigger] s.slots[j]).tracking_id != (#[trigger] s.slots[k]).tracking_id
}

/// The submissions in progress, and every tracking ID ever issued.
pub struct PendingStore {
    pending: Vec<PendingDigidecs>,
    next_serial: u64,
    issued: Ghost<Set<Seq<char>>>,
}

impl View for PendingStore {
    type V = Seq<SubmissionView>;

    closed spec fn view(&self) -> Seq<SubmissionView> {
        self.pending@.map_values(|p: PendingDigidecs| p@)
    }
}

impl PendingStore {
    /// Every tracking ID that this store has handed out.
    pub closed spec fn issued(&self) -> Set<Seq<char>> {
        self.issued@
    }

    /// How many more tracking IDs this store can issue.
    pub closed spec fn ids_left(&self) -> nat {
        (u64::MAX - self.next_serial) as nat
    }

    /// The store's invariant: every issued ID carries a serial number below
    /// the next one; every live ID was issued; live submissions have
    /// distinct tracking IDs, slots with distinct tracking IDs, and a
    /// positive amount.
    pub closed spec fn wf(&self) -> bool {
        &&& forall|id: Seq<char>| #[trigger] self.issued@.contains(id)
            ==> exists|s: nat| s < self.next_serial && #[trigger] id_has_serial(id, s)
        &&& forall|i: int| 0 <= i < self.pending@.len()
            ==> self.issued@.contains(#[trigger] self.pending@[i].tracking_id@)
        &&& forall|i: int, j: int| 0 <= i < self.pending@.len() && 0 <= j < self.pending@[i].attachments@.len()
            ==> self.issued@.contains(#[trigger] self.pending@[i].attachments@[j].tracking_id@)
        &&& forall|i: int, k: int| 0 <= i < self.pending@.len() && 0 <= k < self.pending@.len() && i != k
            ==> (#[trigger] self.pending@[i]).tracking_id@ != (#[trigger] self.pending@[k]).tracking_id@
        &&& forall|i: int| 0 <= i < self.pending@.len() ==> (#[trigger] self.pending@[i]).data.value_cents > 0
        &&& forall|i: int| 0 <= i < self.pending@.len() ==> distinct_slot_ids(#[trigger] self.pending@[i]@)
    }

    /// The live submissions are all issued, distinct, with distinct slot IDs,
    /// and of positive amount.
    pub proof fn lemma_live_ids(&self)
        requires
            self.wf(),
        ensures
            forall|i: int| 0 <= i < self@.len() ==> self.issued().contains(#[trigger] self@[i].tracking_id),
            forall|i: int, j: int| 0 <= i < self@.len() && 0 <= j < self@[i].slots.len()
                ==> self.issued().contains(#[trigger] self@[i].slots[j].tracking_id),
            forall|i: int, k: int| 0 <= i < self@.len() && 0 <= k < self@.len() && i != k
                ==> (#[trigger] self@[i]).tracking_id != (#[trigger] self@[k]).tracking_id,
            forall|i: int| 0 <= i < self@.len() ==> (#[trigger] self@[i]).data.value_cents > 0,
            forall|i: int| 0 <= i < self@.len() ==> distinct_slot_ids(#[trigger] self@[i]),
    {
        assert forall|i: int| 0 <= i < self@.len() implies distinct_slot_ids(#[trigger] self@[i]) by {
            assert(self@[i] == self.pending@[i]@);
        }
        assert forall|i: int, j: int| 0 <= i < self@.len() && 0 <= j < self@[i].slots.len()
            implies self.issued().contains(#[trigger] self@[i].slots[j].tracking_id) by {
            assert(self@[i].slots[j] == self.pending@[i].attachments@[j]@);
        }
        assert forall|i: int, k: int| 0 <= i < self@.len() && 0 <= k < self@.len() && i != k
            implies (#[trigger] self@[i]).tracking_id != (#[trigger] self@[k]).tracking_id by {
            assert(self@[i] == self.pending@[i]@);
            assert(self@[k] == self.pending@[k]@);
        }
        assert forall|i: int| 0 <= i < self@.len() implies self.issued().contains(#[trigger] self@[i].tracking_id) by {
            assert(self@[i] == self.pending@[i]@);
        }
        assert forall|i: int| 0 <= i < self@.len() implies (#[trigger] self@[i]).data.value_cents > 0 by {
            assert(self@[i] == self.pending@[i]@);
        }
    }

    /// An empty store that has issued nothing.
    pub fn new() -> (r: PendingStore)
        ensures
            r.wf(),
            r@.len() == 0,
            r.issued() == Set::<Seq<char>>::empty(),
            r.ids_left() == u64::MAX,
    {
        let r = PendingStore { pending: Vec::new(), next_serial: 0, issued: Ghost(Set::empty()) };
        assert(r@ =~= Seq::<SubmissionView>::empty());
        r
    }

    /// The number of submissions in progress.
    pub fn len(&self) -> (r: usize)
        ensures
            r == self@.len(),
    {
        self.pending.len()
    }

    /// Whether `count` more tracking IDs can be issued.
    pub fn can_issue(&self, count: usize) -> (r: bool)
        ensures
            r == (self.ids_left() >= count),
    {
        count as u64 <= u64::MAX - self.next_serial
    }

    /// Issues a tracking ID that was never issued before: random characters
    /// followed by the next serial number.
    pub(crate) fn issue_id(&mut self) -> (r: String)
        requires
            old(self).wf(),
            old(self).ids_left() >= 1,
        ensures
            final(self).wf(),
            final(self)@ == old(self)@,
            !old(self).issued().contains(r@),
            id_shaped(r@),
            final(self).issued() == old(self).issued().insert(r@),
            final(self).ids_left() == old(self).ids_left() - 1,
    {
        let serial = self.next_serial;
        let mut id = random_alphanumeric(RANDOM_ID_LEN);
        let ghost random_part = id@;
        push_decimal(&mut id, serial);
        proof {
            assert(id@.subrange(RANDOM_ID_LEN as int, id@.len() as int) =~= decimal(serial as nat));
            assert(id_has_serial(id@, serial as nat));
            lemma_decimal_shape(serial as nat);
            assert forall|i: int| 0 <= i < RANDOM_ID_LEN implies is_alphanumeric(#[trigger] id@[i]) by {
                assert(id@[i] == random_part[i]);
            }
            if self.issued@.contains(id@) {
                let s = choose|s: nat| s < self.next_serial && id_has_serial(id@, s);
                lemma_decimal_injective(s, serial as nat);
            }
        }
        self.next_serial = serial + 1;
        self.issued = Ghost(self.issued@.insert(id@));
        proof {
            assert forall|x: Seq<char>| #[trigger] self.issued@.contains(x)
                implies exists|s: nat| s < self.next_serial && #[trigger] id_has_serial(x, s) by {
                if x == id@ {
                    assert(id_has_serial(x, serial as nat));
                } else {
                    assert(old(self).issued@.contains(x));
                    let s = choose|s: nat| s < old(self).next_serial && id_has_serial(x, s);
                    assert(id_has_serial(x, s));
                }
            }
        }
        id
    }

    /// The position of the submission with tracking ID `id`, if any.
    pub(crate) fn find(&self, id: &String) -> (r: Option<usize>)
        ensures
            r is None <==> !has_submission(self@, id@),
            r matches Some(i) ==> i < self@.len() && self@[i as int].tracking_id == id@,
    {
        let mut i: usize = 0;
        while i < self.pending.len()
            invariant
                i <= self.pending@.len(),
                forall|k: int| 0 <= k < i ==> (#[trigger] self@[k]).tracking_id != id@,
            decreases self.pending@.len() - i,
        {
            assert(self@[i as int] == self.pending@[i as int]@);
            if self.pending[i].tracking_id.eq(id) {
                return Some(i);
            }
            i = i + 1;
        }
        None
    }

    /// The position of the slot with tracking ID `aid` in submission `i`, if any.
    pub(crate) fn find_slot(&self, i: usize, aid: &String) -> (r: Option<usize>)
        requires
            i < self@.len(),
        ensures
            r is None <==> forall|j: int| 0 <= j < self@[i as int].slots.len() ==> (#[trigger] self@[i as int].slots[j]).tracking_id != aid@,
            r matches Some(j) ==> j < self@[i as int].slots.len() && self@[i as int].slots[j as int].tracking_id == aid@,
    {
        let atts = &self.pending[i].attachments;
        assert(self@[i as int] == self.pending@[i as int]@);
        let mut j: usize = 0;
        while j < atts.len()
            invariant
                atts == &self.pending@[i as int].attachments,
                self@[i as int] == self.pending@[i as int]@,
                j <= atts@.len(),
                forall|k: int| 0 <= k < j ==> (#[trigger] self@[i as int].slots[k]).tracking_id != aid@,
            decreases atts@.len() - j,
        {
            assert(self@[i as int].slots[j as int] == atts@[j as int]@);
            if atts[j].tracking_id.eq(aid) {
                return Some(j);
            }
            j = j + 1;
        }
        None
    }

    /// Stores `content` into slot `j` of submission `i`.
    pub(crate) fn set_content(&mut self, i: usize, j: usize, content: Vec<u8>)
        requires
            old(self).wf(),
            i < old(self)@.len(),
            j < old(self)@[i as int].slots.len(),
        ensures
            final(self).wf(),
            final(self)@ == old(self)@.update(i as int, with_content(old(self)@[i as int], j as int, content@)),
            final(self).issued() == old(self).issued(),
            final(self).ids_left() == old(self).ids_left(),
    {
        let ghost before = self.pending@;
        let mut sub = self.pending.remove(i);
        assert(sub == before[i as int]);
        let ghost atts_before = sub.attachments@;
        let mut slot = sub.attachments.remove(j);
        slot.content = Some(content);
        sub.attachments.insert(j, slot);
        assert(sub.attachments@ =~= atts_before.update(j as int, slot));
        self.pending.insert(i, sub);
        assert(self.pending@ =~= before.update(i as int, sub));
        assert(sub@ =~= with_content(before[i as int]@, j as int, content@)) by {
            assert(sub@.slots =~= before[i as int]@.slots.update(j as int, slot@));
        }
        assert(self@ =~= old(self)@.update(i as int, with_content(old(self)@[i as int], j as int, content@)));
        assert forall|a: int, b: int| 0 <= a < self.pending@.len() && 0 <= b < self.pending@[a].attachments@.len()
            implies self.issued@.contains(#[trigger] self.pending@[a].attachments@[b].tracking_id@) by {
            if a == i as int && b == j as int {
                assert(self.pending@[a].attachments@[b].tracking_id@ == before[a].attachments@[b].tracking_id@);
            } else if a == i as int {
                assert(self.pending@[a].attachments@[b] == before[a].attachments@[b]);
            }
        }
        assert forall|a: int| 0 <= a < self.pending@.len() implies distinct_slot_ids(#[trigger] self.pending@[a]@) by {
            if a == i as int {
                assert(distinct_slot_ids(before[a]@));
                assert forall|x: int, y: int| 0 <= x < self.pending@[a]@.slots.len() && 0 <= y < self.pending@[a]@.slots.len() && x != y
                    implies (#[trigger] self.pending@[a]@.slots[x]).tracking_id != (#[trigger] self.pending@[a]@.slots[y]).tracking_id by {
                    assert(self.pending@[a]@.slots[x].tracking_id == before[a]@.slots[x].tracking_id);
                    assert(self.pending@[a]@.slots[y].tracking_id == before[a]@.slots[y].tracking_id);
                }
            } else {
                assert(self.pending@[a] == before[a]);
            }
        }
    }

    /// Adds a new submission whose tracking IDs were all issued.
    pub(crate) fn insert(&mut self, p: PendingDigidecs)
        requires
            old(self).wf(),
            old(self).issued().contains(p@.tracking_id),
            forall|j: int| 0 <= j < p@.slots.len() ==> old(self).issued().contains(#[trigger] p@.slots[j].tracking_id),
            !has_submission(old(self)@, p@.tracking_id),
            distinct_slot_ids(p@),
            p.data.value_cents > 0,
        ensures
            final(self).wf(),
            final(self)@ == old(self)@.push(p@),
            final(self).issued() == old(self).issued(),
            final(self).ids_left() == old(self).ids_left(),
    {
        let ghost before = self.pending@;
        proof {
            assert forall|j: int| 0 <= j < p.attachments@.len() implies self.issued@.contains(#[trigger] p.attachments@[j].tracking_id@) by {
                assert(p@.slots[j] == p.attachments@[j]@);
                assert(old(self).issued().contains(p@.slots[j].tracking_id));
            }
            assert forall|k: int| 0 <= k < before.len() implies (#[trigger] before[k]).tracking_id@ != p.tracking_id@ by {
                assert(self@[k] == before[k]@);
            }
        }
        self.pending.push(p);
        assert(self@ =~= old(self)@.push(p@));
    }

    /// Takes submission `i` out of the store.
    pub(crate) fn remove(&mut self, i: usize) -> (r: PendingDigidecs)
        requires
            old(self).wf(),
            i < old(self)@.len(),
        ensures
            final(self).wf(),
            r@ == old(self)@[i as int],
            r.data.value_cents > 0,
            final(self)@ == old(self)@.remove(i as int),
            final(self).issued() == old(self).issued(),
            final(self).ids_left() == old(self).ids_left(),
    {
        let ghost before = self.pending@;
        let r = self.pending.remove(i);
        assert(self@ =~= old(self)@.remove(i as int));
        assert forall|a: int, k: int| 0 <= a < self.pending@.len() && 0 <= k < self.pending@.len() && a != k
            implies (#[trigger] self.pending@[a]).tracking_id@ != (#[trigger] self.pending@[k]).tracking_id@ by {
            let a0 = if a < i { a } else { a + 1 };
            let k0 = if k < i { k } else { k + 1 };
            assert(self.pending@[a] == before[a0]);
            assert(self.pending@[k] == before[k0]);
        }
        assert forall|a: int| 0 <= a < self.pending@.len() implies distinct_slot_ids(#[trigger] self.pending@[a]@) by {
            let a0 = if a < i { a } else { a + 1 };
            assert(self.pending@[a] == before[a0]);
        }
        r
    }

    /// A tracking ID that was never issued names no submission and, with
    /// any submission ID, no attachment slot: an upload under it is unknown.
    pub proof fn lemma_unissued_unknown(&self, id: Seq<char>, aid: Seq<char>)
        requires
            self.wf(),
        ensures
            !self.issued().contains(id) ==> !has_submission(self@, id),
            !self.issued().contains(id) || !self.issued().contains(aid) ==> !has_slot(self@, id, aid),
    {
        self.lemma_live_ids();
        if has_slot(self@, id, aid) {
            let (i, j) = choose|i: int, j: int|
                0 <= i < self@.len() && 0 <= j < self@[i].slots.len() && (#[trigger] self@[i]).tracking_id == id
                    && (#[trigger] self@[i].slots[j]).tracking_id == aid;
            assert(self.issued().contains(self@[i].slots[j].tracking_id));
        }
    }
}

} // verus!
