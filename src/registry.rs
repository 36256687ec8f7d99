//! The inbox registry: at most one record per recipient, created by the
//! first accepted message and advanced by each later one.

use vstd::prelude::*;
use crate::inbox::{CustomError, Inbox};
use crate::address::{bytes32_eq, message_address_spec};
use crate::send::{claims_accepted, forwards, send, InvokeData, Invocation, SendCtx};

verus! {

/// The records of all recipients seen so far.
pub struct InboxRegistry {
    records: Vec<Inbox>,
}

pub open spec fn has_key(s: Seq<Inbox>, k: Seq<u8>) -> bool {
    exists|i: int| 0 <= i < s.len() && (#[trigger] s[i]).address@ == k
}

pub open spec fn keys_unique(s: Seq<Inbox>) -> bool {
    forall|i: int, j: int|
        0 <= i < s.len() && 0 <= j < s.len() && (#[trigger] s[i]).address@ == (#[trigger] s[j]).address@ ==> i == j
}

/// The records of `s` keyed by recipient.
pub open spec fn records_map(s: Seq<Inbox>) -> Map<Seq<u8>, Inbox> {
    Map::new(
        |k: Seq<u8>| has_key(s, k),
        |k: Seq<u8>| s[choose|i: int| 0 <= i < s.len() && (#[trigger] s[i]).address@ == k],
    )
}

proof fn lemma_lookup(s: Seq<Inbox>, i: int)
    requires
        keys_unique(s),
        0 <= i < s.len(),
    ensures
        records_map(s).contains_key(s[i].address@),
        records_map(s)[s[i].address@] == s[i],
{
    let k = s[i].address@;
    assert(has_key(s, k));
    let j = choose|j: int| 0 <= j < s.len() && (#[trigger] s[j]).address@ == k;
    assert(s[j].address@ == s[i].address@);
}

proof fn lemma_update(s: Seq<Inbox>, i: int, v: Inbox)
    requires
        keys_unique(s),
        0 <= i < s.len(),
        v.address@ == s[i].address@,
    ensures
        keys_unique(s.update(i, v)),
        records_map(s.update(i, v)) == records_map(s).insert(v.address@, v),
{
    let t = s.update(i, v);
    assert forall|a: int, b: int|
        0 <= a < t.len() && 0 <= b < t.len() && (#[trigger] t[a]).address@ == (#[trigger] t[b]).address@ implies a == b by {
        assert(t[a].address@ == s[a].address@);
        assert(t[b].address@ == s[b].address@);
    }
    assert forall|k: Seq<u8>| has_key(t, k) == (has_key(s, k) || k == v.address@) by {
        if has_key(s, k) {
            let j = choose|j: int| 0 <= j < s.len() && (#[trigger] s[j]).address@ == k;
            assert(t[j].address@ == k);
        }
        if has_key(t, k) {
            let j = choose|j: int| 0 <= j < t.len() && (#[trigger] t[j]).address@ == k;
            assert(s[j].address@ == k);
        }
        if k == v.address@ {
            assert(t[i].address@ == k);
        }
    }
    assert forall|k: Seq<u8>| #[trigger] records_map(t).contains_key(k) implies records_map(t)[k]
        == records_map(s).insert(v.address@, v)[k] by {
        let j = choose|j: int| 0 <= j < t.len() && (#[trigger] t[j]).address@ == k;
        lemma_lookup(t, j);
        if k != v.address@ {
            assert(j != i);
            lemma_lookup(s, j);
        }
    }
    assert(records_map(t) =~= records_map(s).insert(v.address@, v));
}

proof fn lemma_push(s: Seq<Inbox>, v: Inbox)
    requires
        keys_unique(s),
        !has_key(s, v.address@),
    ensures
        keys_unique(s.push(v)),
        records_map(s.push(v)) == records_map(s).insert(v.address@, v),
{
    let t = s.push(v);
    assert forall|a: int, b: int|
        0 <= a < t.len() && 0 <= b < t.len() && (#[trigger] t[a]).address@ == (#[trigger] t[b]).address@ implies a == b by {
        if a < s.len() && b < s.len() {
            assert(s[a].address@ == s[b].address@);
        } else if a < s.len() {
            assert(s[a].address@ == v.address@);
        } else if b < s.len() {
            assert(s[b].address@ == v.address@);
        }
    }
    assert forall|k: Seq<u8>| has_key(t, k) == (has_key(s, k) || k == v.address@) by {
        if has_key(s, k) {
            let j = choose|j: int| 0 <= j < s.len() && (#[trigger] s[j]).address@ == k;
            assert(t[j].address@ == k);
        }
        if has_key(t, k) {
            let j = choose|j: int| 0 <= j < t.len() && (#[trigger] t[j]).address@ == k;
            if j < s.len() {
                assert(s[j].address@ == k);
            }
        }
        if k == v.address@ {
            assert(t[s.len() as int].address@ == k);
        }
    }
    assert forall|k: Seq<u8>| #[trigger] records_map(t).contains_key(k) implies records_map(t)[k]
        == records_map(s).insert(v.address@, v)[k] by {
        let j = choose|j: int| 0 <= j < t.len() && (#[trigger] t[j]).address@ == k;
        lemma_lookup(t, j);
        if k != v.address@ {
            assert(j < s.len());
            assert(t[j] == s[j]);
            lemma_lookup(s, j);
        }
    }
    assert(records_map(t) =~= records_map(s).insert(v.address@, v));
}

impl View for InboxRegistry {
    type V = Map<Seq<u8>, Inbox>;

    closed spec fn view(&self) -> Map<Seq<u8>, Inbox> {
        records_map(self.records@)
    }
}

/// The index that the next message for `recipient` is checked against.
pub open spec fn index_in(m: Map<Seq<u8>, Inbox>, recipient: Seq<u8>) -> nat {
    if m.contains_key(recipient) {
        m[recipient].validation_index()
    } else {
        0
    }
}

/// The record of `recipient` after an accepted message.
pub open spec fn next_record(m: Map<Seq<u8>, Inbox>, recipient: [u8; 32], bump: u8) -> Inbox {
    if m.contains_key(recipient@) {
        m[recipient@].after_send(recipient, bump)
    } else {
        Inbox::created(recipient, bump)
    }
}

/// The registry after a send for `recipient` with the claims `seeds`, or
/// `None` where the send is refused.
pub open spec fn send_step(
    m: Map<Seq<u8>, Inbox>,
    recipient: [u8; 32],
    bump: u8,
    seeds: Seq<[u8; 32]>,
    program_id: Seq<u8>,
) -> Option<Map<Seq<u8>, Inbox>> {
    if claims_accepted(seeds, recipient@, index_in(m, recipient@), program_id) {
        Some(m.insert(recipient@, next_record(m, recipient, bump)))
    } else {
        None
    }
}

/// The registry after a send for `recipient` with the claims `seeds`,
/// accepted or refused.
pub open spec fn registry_after(
    m: Map<Seq<u8>, Inbox>,
    recipient: [u8; 32],
    bump: u8,
    seeds: Seq<[u8; 32]>,
    program_id: Seq<u8>,
) -> Map<Seq<u8>, Inbox> {
    match send_step(m, recipient, bump, seeds, program_id) {
        Some(m2) => m2,
        None => m,
    }
}

/// The registry after the sends for `recipient` whose claims are `batches`,
/// one after another, or `None` where one of them is refused.
pub open spec fn send_run(
    m: Map<Seq<u8>, Inbox>,
    recipient: [u8; 32],
    bump: u8,
    batches: Seq<Seq<[u8; 32]>>,
    program_id: Seq<u8>,
) -> Option<Map<Seq<u8>, Inbox>>
    decreases batches.len(),
{
    if batches.len() == 0 {
        Some(m)
    } else {
        match send_run(m, recipient, bump, batches.drop_last(), program_id) {
            Some(m1) => send_step(m1, recipient, bump, batches.last(), program_id),
            None => None,
        }
    }
}

/// The registry and the record that `load_or_create` gives for `recipient`.
pub open spec fn loaded(m: Map<Seq<u8>, Inbox>, recipient: [u8; 32], bump: u8) -> (Map<Seq<u8>, Inbox>, Inbox) {
    if m.contains_key(recipient@) {
        (m, m[recipient@])
    } else {
        (m.insert(recipient@, Inbox::created(recipient, bump)), Inbox::created(recipient, bump))
    }
}

impl InboxRegistry {
    /// Every record is created, and is stored under its own recipient.
    pub closed spec fn wf(&self) -> bool {
        &&& keys_unique(self.records@)
        &&& forall|i: int| 0 <= i < self.records@.len() ==> (#[trigger] self.records@[i]).is_initialized
    }

    /// Every record of a well-formed registry is created and keyed by its recipient.
    pub proof fn lemma_wf_records(&self)
        requires
            self.wf(),
        ensures
            forall|k: Seq<u8>| #[trigger] self@.contains_key(k) ==> self@[k].is_initialized && self@[k].address@ == k,
    {
        assert forall|k: Seq<u8>| #[trigger] self@.contains_key(k) implies self@[k].is_initialized
            && self@[k].address@ == k by {
            let j = choose|j: int| 0 <= j < self.records@.len() && (#[trigger] self.records@[j]).address@ == k;
            lemma_lookup(self.records@, j);
        }
    }

    /// An empty registry.
    pub fn new() -> (r: InboxRegistry)
        ensures
            r.wf(),
            r@ == Map::<Seq<u8>, Inbox>::empty(),
    {
        let r = InboxRegistry { records: Vec::new() };
        assert(r@ =~= Map::<Seq<u8>, Inbox>::empty());
        r
    }

    fn position(&self, recipient: &[u8; 32]) -> (r: Option<usize>)
        requires
            self.wf(),
        ensures
            match r {
                Some(i) => i < self.records@.len() && self.records@[i as int].address@ == recipient@,
                None => !has_key(self.records@, recipient@),
            },
    {
        let mut i: usize = 0;
        while i < self.records.len()
            invariant
                i <= self.records@.len(),
                forall|j: int| 0 <= j < i ==> (#[trigger] self.records@[j]).address@ != recipient@,
            decreases self.records@.len() - i,
        {
            if bytes32_eq(&self.records[i].address, recipient) {
                return Some(i);
            }
            i = i + 1;
        }
        None
    }

    /// The record of `recipient`, if it has one.
    pub fn get(&self, recipient: &[u8; 32]) -> (r: Option<Inbox>)
        requires
            self.wf(),
        ensures
            match r {
                Some(rec) => self@.contains_key(recipient@) && self@[recipient@] == rec,
                None => !self@.contains_key(recipient@),
            },
    {
        match self.position(recipient) {
            Some(i) => {
                proof {
                    lemma_lookup(self.records@, i as int);
                }
                Some(self.records[i])
            },
            None => None,
        }
    }

    /// Stores `record` as the record of its recipient, replacing the one
    /// held before.
    pub fn commit(&mut self, record: Inbox)
        requires
            old(self).wf(),
            record.is_initialized,
        ensures
            final(self).wf(),
            final(self)@ == old(self)@.insert(record.address@, record),
    {
        match self.position(&record.address) {
            Some(i) => {
                proof {
                    lemma_update(self.records@, i as int, record);
                }
                self.records.set(i, record);
            },
            None => {
                proof {
                    lemma_push(self.records@, record);
                }
                self.records.push(record);
            },
        }
    }

    /// The record of `recipient`, created with counter zero and bump seed
    /// `bump` where it has none yet; an existing record is handed out as it
    /// is, and loading it changes nothing.
    pub fn load_or_create(&mut self, recipient: [u8; 32], bump: u8) -> (r: Inbox)
        requires
            old(self).wf(),
        ensures
            final(self).wf(),
            (final(self)@, r) == loaded(old(self)@, recipient, bump),
    {
        match self.get(&recipient) {
            Some(rec) => rec,
            None => {
                let rec = Inbox { is_initialized: true, address: recipient, bump, number_of_messages: 0 };
                self.commit(rec);
                rec
            },
        }
    }

    /// Runs a send for `recipient` against the stored record: the record is
    /// loaded into `ctx`, the send is checked there, and only an accepted send
    /// is stored. A refused send leaves the registry and `ctx` as they were.
    pub fn send(
        &mut self,
        ctx: &mut SendCtx,
        recipient: [u8; 32],
        data: InvokeData,
    ) -> (r: Result<Invocation, CustomError>)
        requires
            old(self).wf(),
        ensures
            final(self).wf(),
            final(self)@ == registry_after(
                old(self)@,
                recipient,
                old(ctx).inbox_bump,
                data.new_address_seeds@,
                old(ctx).program_id@,
            ),
            r is Ok <==> claims_accepted(
                data.new_address_seeds@,
                recipient@,
                index_in(old(self)@, recipient@),
                old(ctx).program_id@,
            ),
            r is Ok ==> final(self)@ == old(self)@.insert(
                recipient@,
                next_record(old(self)@, recipient, old(ctx).inbox_bump),
            ),
            r is Ok ==> *final(ctx) == old(ctx).with_inbox(next_record(old(self)@, recipient, old(ctx).inbox_bump)),
            r matches Ok(inv) ==> forwards(inv, *old(ctx), data.serialized@),
            r is Err ==> r == Err::<Invocation, CustomError>(CustomError::RecipientMismatch),
            r is Err ==> final(self)@ == old(self)@ && *final(ctx) == *old(ctx),
    {
        let held = ctx.inbox;
        let ghost before = *ctx;
        proof {
            self.lemma_wf_records();
        }
        ctx.inbox = match self.get(&recipient) {
            Some(rec) => rec,
            None => Inbox::empty(),
        };
        let r = send(ctx, recipient, data);
        match r {
            Ok(inv) => {
                self.commit(ctx.inbox);
                assert(*ctx =~= before.with_inbox(next_record(old(self)@, recipient, before.inbox_bump)));
                Ok(inv)
            },
            Err(e) => {
                ctx.inbox = held;
                assert(*ctx =~= before);
                Err(e)
            },
        }
    }
}

/// After an accepted send, the recipient's record is created and its counter
/// is zero where the recipient had no record, and one more than before
/// otherwise.
pub proof fn lemma_counter_advances_by_one(
    m: Map<Seq<u8>, Inbox>,
    recipient: [u8; 32],
    bump: u8,
    seeds: Seq<[u8; 32]>,
    program_id: Seq<u8>,
)
    requires
        forall|k: Seq<u8>| #[trigger] m.contains_key(k) ==> m[k].is_initialized,
        send_step(m, recipient, bump, seeds, program_id) is Some,
    ensures
        ({
            let m2 = send_step(m, recipient, bump, seeds, program_id)->0;
            &&& m2.contains_key(recipient@)
            &&& m2[recipient@].is_initialized
            &&& m2[recipient@].number_of_messages as int == if m.contains_key(recipient@) {
                m[recipient@].number_of_messages + 1
            } else {
                0
            }
        }),
{
}

/// Starting from a registry without a record for `recipient`, after `n`
/// accepted sends for it in a row its counter is `n - 1`: the counters seen
/// after each send are 0, 1, 2, and so on.
pub proof fn lemma_counter_counts_sends(
    m: Map<Seq<u8>, Inbox>,
    recipient: [u8; 32],
    bump: u8,
    batches: Seq<Seq<[u8; 32]>>,
    program_id: Seq<u8>,
)
    requires
        !m.contains_key(recipient@),
        batches.len() > 0,
        send_run(m, recipient, bump, batches, program_id) is Some,
    ensures
        ({
            let m2 = send_run(m, recipient, bump, batches, program_id)->0;
            &&& m2.contains_key(recipient@)
            &&& m2[recipient@].is_initialized
            &&& m2[recipient@].number_of_messages == batches.len() - 1
        }),
    decreases batches.len(),
{
    let prefix = batches.drop_last();
    let m1 = send_run(m, recipient, bump, prefix, program_id)->0;
    if prefix.len() > 0 {
        lemma_counter_counts_sends(m, recipient, bump, prefix, program_id);
    } else {
        assert(m1 == m);
    }
}

/// An accepted send held exactly one claim, and that claim is the address of
/// the recipient's next index; any other number of claims is refused; a
/// refused send leaves the registry, and so the recipient's counter, unchanged.
pub proof fn lemma_claim_binding(
    m: Map<Seq<u8>, Inbox>,
    recipient: [u8; 32],
    bump: u8,
    seeds: Seq<[u8; 32]>,
    program_id: Seq<u8>,
)
    ensures
        send_step(m, recipient, bump, seeds, program_id) is Some ==> {
            &&& seeds.len() == 1
            &&& message_address_spec(recipient@, index_in(m, recipient@), program_id)
                == Some(seeds[0]@)
        },
        seeds.len() != 1 ==> send_step(m, recipient, bump, seeds, program_id) is None,
        send_step(m, recipient, bump, seeds, program_id) is None ==> registry_after(
            m,
            recipient,
            bump,
            seeds,
            program_id,
        ) == m,
{
}

/// Loading the same recipient twice gives the same record both times, and
/// the second load changes nothing, whatever bump seed it is given.
pub proof fn lemma_load_or_create_idempotent(m: Map<Seq<u8>, Inbox>, recipient: [u8; 32], bump1: u8, bump2: u8)
    ensures
        ({
            let (m1, r1) = loaded(m, recipient, bump1);
            let (m2, r2) = loaded(m1, recipient, bump2);
            m2 == m1 && r2 == r1
        }),
{
}

/// A send for `recipient`, accepted or refused, leaves the record of every
/// other recipient as it was.
pub proof fn lemma_send_isolation(
    m: Map<Seq<u8>, Inbox>,
    recipient: [u8; 32],
    bump: u8,
    seeds: Seq<[u8; 32]>,
    program_id: Seq<u8>,
    other: Seq<u8>,
)
    requires
        other != recipient@,
    ensures
        ({
            let m2 = registry_after(m, recipient, bump, seeds, program_id);
            &&& m2.contains_key(other) == m.contains_key(other)
            &&& m.contains_key(other) ==> m2[other] == m[other]
        }),
{
}

} // verus!
