//! The bounded buffer that puts transport records into nonce order before they
//! are decrypted.
use std::collections::BTreeMap;
use vstd::prelude::*;
use crate::error::protocol_error;
use crate::error::ExecServerError;

verus! {

/// How far ahead of the expected record a buffered one may be.
pub const MAX_REORDER_DISTANCE: u32 = 64;

/// How many records may be buffered.
pub const MAX_PENDING_FRAMES: usize = 64;

/// How many bytes the buffered records may have together.
pub const MAX_PENDING_BYTES: usize = 1_048_576;

/// The number of bytes of the records with a sequence number below `n`.
pub open spec fn bytes_below(m: Map<u32, Seq<u8>>, n: nat) -> nat
    decreases n,
{
    if n == 0 {
        0
    } else {
        let k = (n - 1) as u32;
        bytes_below(m, (n - 1) as nat) + if n <= u32::MAX + 1 && m.contains_key(k) {
            m[k].len()
        } else {
            0
        }
    }
}

/// The number of bytes of all records.
pub open spec fn total_bytes(m: Map<u32, Seq<u8>>) -> nat {
    bytes_below(m, (u32::MAX + 1) as nat)
}

/// The first sequence number, from `k` on, that is not buffered.
pub open spec fn run_end(m: Map<u32, Seq<u8>>, k: nat) -> nat
    decreases u32::MAX + 1 - k,
{
    if k <= u32::MAX && m.contains_key(k as u32) {
        run_end(m, k + 1)
    } else {
        k
    }
}

/// The buffered records with sequence numbers from `from` up to, not including, `to`.
pub open spec fn run(m: Map<u32, Seq<u8>>, from: nat, to: nat) -> Seq<Seq<u8>> {
    Seq::new((to - from) as nat, |i: int| m[(from + i) as u32])
}

/// The records without those with sequence numbers from `from` up to, not including, `to`.
pub open spec fn without_run(m: Map<u32, Seq<u8>>, from: nat, to: nat) -> Map<u32, Seq<u8>> {
    m.remove_keys(Set::new(|k: u32| from <= k < to))
}

/// The buffer as mathematical values.
#[verifier::ext_equal]
pub struct OrderedModel {
    /// The sequence number of the next record to release.
    pub next: nat,
    /// The buffered records.
    pub buffered: Map<u32, Seq<u8>>,
}

/// What became of a record.
pub enum PushOutcome {
    /// These records are released.
    Released(Seq<Seq<u8>>),
    /// The record is refused for this reason.
    Refused(Seq<char>),
}

impl OrderedModel {
    /// The buffered records lie in the window behind the expected record, and
    /// their number and size are bounded.
    pub open spec fn wf(self) -> bool {
        &&& self.next <= u32::MAX
        &&& self.buffered.dom().finite()
        &&& self.buffered.dom().len() <= MAX_PENDING_FRAMES
        &&& total_bytes(self.buffered) <= MAX_PENDING_BYTES
        &&& forall|k: u32| #[trigger]
            self.buffered.contains_key(k) ==> self.next < k <= self.next + MAX_REORDER_DISTANCE
    }

    /// Whether a record is a retry of one that was released or is buffered.
    pub open spec fn is_retry(self, seq: u32) -> bool {
        seq < self.next || self.buffered.contains_key(seq)
    }

    /// Whether there is room for a record of this length ahead of the expected one.
    pub open spec fn has_room(self, len: nat) -> bool {
        self.buffered.dom().len() < MAX_PENDING_FRAMES && total_bytes(self.buffered) + len
            <= MAX_PENDING_BYTES
    }

    /// What becomes of a record.
    pub open spec fn outcome(self, seq: u32, payload: Seq<u8>) -> PushOutcome {
        if self.is_retry(seq) {
            PushOutcome::Released(Seq::empty())
        } else if seq > self.next {
            if seq - self.next > MAX_REORDER_DISTANCE {
                PushOutcome::Refused("Noise relay ciphertext exceeds reorder window"@)
            } else if total_bytes(self.buffered) + payload.len() > usize::MAX {
                PushOutcome::Refused("Noise relay pending ciphertext byte count overflowed"@)
            } else if !self.has_room(payload.len()) {
                PushOutcome::Refused("Noise relay pending ciphertext buffer is full"@)
            } else {
                PushOutcome::Released(Seq::empty())
            }
        } else {
            let end = run_end(self.buffered, self.next + 1);
            if end > u32::MAX {
                PushOutcome::Refused("Noise relay sequence number exhausted"@)
            } else {
                PushOutcome::Released(seq![payload] + run(self.buffered, self.next + 1, end))
            }
        }
    }

    /// The buffer after a record.
    pub open spec fn after(self, seq: u32, payload: Seq<u8>) -> Self {
        if self.is_retry(seq) {
            self
        } else if seq > self.next {
            if seq - self.next <= MAX_REORDER_DISTANCE && self.has_room(payload.len()) {
                OrderedModel { buffered: self.buffered.insert(seq, payload), ..self }
            } else {
                self
            }
        } else {
            let end = run_end(self.buffered, self.next + 1);
            OrderedModel {
                next: if end > u32::MAX {
                    u32::MAX as nat
                } else {
                    end
                },
                buffered: without_run(self.buffered, self.next + 1, end),
            }
        }
    }
}

proof fn lemma_bytes_insert(m: Map<u32, Seq<u8>>, k: u32, v: Seq<u8>, n: nat)
    requires
        !m.contains_key(k),
        n <= u32::MAX + 1,
    ensures
        bytes_below(m.insert(k, v), n) == bytes_below(m, n) + if k < n {
            v.len()
        } else {
            0
        },
    decreases n,
{
    if n > 0 {
        lemma_bytes_insert(m, k, v, (n - 1) as nat);
    }
}

proof fn lemma_bytes_remove(m: Map<u32, Seq<u8>>, k: u32)
    requires
        m.contains_key(k),
    ensures
        total_bytes(m) == total_bytes(m.remove(k)) + m[k].len(),
{
    lemma_bytes_insert(m.remove(k), k, m[k], (u32::MAX + 1) as nat);
    assert(m.remove(k).insert(k, m[k]) == m);
}

proof fn lemma_bytes_empty(n: nat)
    ensures
        bytes_below(Map::empty(), n) == 0,
    decreases n,
{
    if n > 0 {
        lemma_bytes_empty((n - 1) as nat);
    }
}

/// The run reaches from its start over buffered records only.
pub proof fn lemma_run_end(m: Map<u32, Seq<u8>>, k: nat)
    ensures
        k <= run_end(m, k),
        k <= u32::MAX + 1 ==> run_end(m, k) <= u32::MAX + 1,
        forall|j: u32| k <= j < run_end(m, k) ==> m.contains_key(j),
        run_end(m, k) <= u32::MAX ==> !m.contains_key(run_end(m, k) as u32),
    decreases u32::MAX + 1 - k,
{
    if k <= u32::MAX && m.contains_key(k as u32) {
        lemma_run_end(m, k + 1);
        assert forall|j: u32| k <= j < run_end(m, k) implies m.contains_key(j) by {
            if j != k {
                assert(k + 1 <= j);
            }
        }
    }
}

/// The reorder buffer. Relay delivery can repeat and reorder records; this
/// buffer absorbs a small window of that and releases each record once, in order.
pub struct OrderedCiphertextFrames {
    next_seq: u32,
    pending: BTreeMap<u32, Vec<u8>>,
    pending_bytes: usize,
}

/// The bytes of each record.
pub open spec fn contents(m: Map<u32, Vec<u8>>) -> Map<u32, Seq<u8>> {
    m.map_values(|v: Vec<u8>| v@)
}

/// The bytes of each record.
pub open spec fn records(s: Seq<Vec<u8>>) -> Seq<Seq<u8>> {
    s.map_values(|v: Vec<u8>| v@)
}

impl View for OrderedCiphertextFrames {
    type V = OrderedModel;

    closed spec fn view(&self) -> OrderedModel {
        OrderedModel { next: self.next_seq as nat, buffered: contents(self.pending@) }
    }
}

impl OrderedCiphertextFrames {
    /// The byte count is exact and the contents are within their bounds.
    pub closed spec fn wf(self) -> bool {
        self@.wf() && self.pending_bytes == total_bytes(self@.buffered)
    }

    /// A well-formed buffer is within its bounds.
    pub proof fn lemma_wf(self)
        requires
            self.wf(),
        ensures
            self@.wf(),
    {
    }

    /// An empty buffer that expects the first record.
    pub fn new() -> (r: Self)
        ensures
            r.wf(),
            r@ == (OrderedModel { next: 0, buffered: Map::empty() }),
    {
        let r = OrderedCiphertextFrames { next_seq: 0, pending: BTreeMap::new(), pending_bytes: 0 };
        proof {
            lemma_bytes_empty((u32::MAX + 1) as nat);
            assert(r@.buffered =~= Map::empty());
        }
        r
    }

    /// Accepts one record and returns the newly contiguous run.
    pub fn push(&mut self, seq: u32, payload: Vec<u8>) -> (r: Result<Vec<Vec<u8>>, ExecServerError>)
        requires
            old(self).wf(),
        ensures
            final(self).wf(),
            final(self)@ == old(self)@.after(seq, payload@),
            match old(self)@.outcome(seq, payload@) {
                PushOutcome::Released(run) => r matches Ok(v) && records(v@) == run,
                PushOutcome::Refused(message) => r matches Err(e) && e.is_protocol(message),
            },
    {
        let ghost before = self@;
        assert(forall|k: u32|
            self.pending@.contains_key(k) <==> #[trigger] before.buffered.contains_key(k));
        assert(self.pending@.dom() =~= before.buffered.dom());
        if seq < self.next_seq || self.pending.contains_key(&seq) {
            let none: Vec<Vec<u8>> = Vec::new();
            assert(records(none@) =~= Seq::empty());
            return Ok(none);
        }
        if seq > self.next_seq {
            if seq - self.next_seq > MAX_REORDER_DISTANCE {
                return Err(protocol_error("Noise relay ciphertext exceeds reorder window"));
            }
            let pending_bytes: usize = match self.pending_bytes.checked_add(payload.len()) {
                Some(n) => n,
                None => {
                    return Err(
                        protocol_error("Noise relay pending ciphertext byte count overflowed"),
                    );
                },
            };
            if self.pending.len() >= MAX_PENDING_FRAMES || pending_bytes > MAX_PENDING_BYTES {
                return Err(protocol_error("Noise relay pending ciphertext buffer is full"));
            }
            let ghost bytes = payload@;
            self.pending.insert(seq, payload);
            self.pending_bytes = pending_bytes;
            proof {
                assert(self@.buffered =~= before.buffered.insert(seq, bytes));
                lemma_bytes_insert(before.buffered, seq, bytes, (u32::MAX + 1) as nat);
            }
            let none: Vec<Vec<u8>> = Vec::new();
            assert(records(none@) =~= Seq::empty());
            return Ok(none);
        }
        let ghost first = payload@;
        let ghost from = before.next + 1;
        let ghost end = run_end(before.buffered, from);
        let mut ready: Vec<Vec<u8>> = Vec::new();
        ready.push(payload);
        proof {
            lemma_run_end(before.buffered, from);
            assert(without_run(before.buffered, from, from) =~= before.buffered);
            assert(records(ready@) =~= seq![first] + run(before.buffered, from, from));
        }
        if !self.advance() {
            return Err(protocol_error("Noise relay sequence number exhausted"));
        }
        loop
            invariant
                before.wf(),
                before == old(self)@,
                seq == before.next,
                from == before.next + 1,
                end == run_end(before.buffered, from),
                from <= self.next_seq <= end <= u32::MAX + 1,
                forall|j: u32| from <= j < end ==> before.buffered.contains_key(j),
                end <= u32::MAX ==> !before.buffered.contains_key(end as u32),
                self@.buffered == without_run(before.buffered, from, self.next_seq as nat),
                self.pending_bytes == total_bytes(self@.buffered),
                self.pending_bytes <= MAX_PENDING_BYTES,
                self@.buffered.dom().finite(),
                self@.buffered.dom().len() <= MAX_PENDING_FRAMES,
                records(ready@) == seq![first] + run(
                    before.buffered,
                    from,
                    self.next_seq as nat,
                ),
            ensures
                self.next_seq == end,
                end <= u32::MAX,
                self@.buffered == without_run(before.buffered, from, end),
                self.pending_bytes == total_bytes(self@.buffered),
                self.pending_bytes <= MAX_PENDING_BYTES,
                self@.buffered.dom().finite(),
                self@.buffered.dom().len() <= MAX_PENDING_FRAMES,
                records(ready@) == seq![first] + run(before.buffered, from, end),
            decreases end - self.next_seq,
        {
            let ghost here = self@.buffered;
            let ghost at = self.next_seq;
            assert(forall|k: u32| self.pending@.contains_key(k) <==> #[trigger] here.contains_key(k));
            match self.pending.remove(&self.next_seq) {
                None => {
                    assert(!here.contains_key(at));
                    break;
                },
                Some(next) => {
                    assert(here.contains_key(at) && here[at] == next@);
                    proof {
                        lemma_bytes_remove(here, at);
                    }
                    assert(self@.buffered =~= here.remove(at));
                    self.pending_bytes = self.pending_bytes - next.len();
                    let ghost before_ready = ready@;
                    let ghost bytes = next@;
                    ready.push(next);
                    proof {
                        assert(records(ready@) =~= records(before_ready).push(bytes));
                        assert(self@.buffered =~= without_run(
                            before.buffered,
                            from,
                            (at + 1) as nat,
                        ));
                        assert(records(ready@) =~= seq![first] + run(
                            before.buffered,
                            from,
                            (at + 1) as nat,
                        ));
                        assert(at < end);
                    }
                    if !self.advance() {
                        assert(end == u32::MAX + 1);
                        return Err(protocol_error("Noise relay sequence number exhausted"));
                    }
                },
            }
        }
        Ok(ready)
    }

    /// Expects the next record; false where the sequence numbers are used up.
    fn advance(&mut self) -> (r: bool)
        ensures
            r == (old(self).next_seq < u32::MAX),
            final(self).next_seq == old(self).next_seq + if r {
                1int
            } else {
                0
            },
            final(self).pending == old(self).pending,
            final(self).pending_bytes == old(self).pending_bytes,
    {
        match self.next_seq.checked_add(1) {
            Some(next) => {
                self.next_seq = next;
                true
            },
            None => false,
        }
    }
}

/// A retry of a released or a buffered record changes nothing and releases
/// nothing, whatever it carries; so a repeated record cannot replace the one
/// that was buffered first.
pub proof fn law_retry_is_ignored(m: OrderedModel, seq: u32, payload: Seq<u8>)
    requires
        m.wf(),
        m.is_retry(seq),
    ensures
        m.after(seq, payload) == m,
        m.outcome(seq, payload) == PushOutcome::Released(Seq::empty()),
{
}

/// A refused record that is not the expected one changes nothing.
pub proof fn law_refusal_ahead_changes_nothing(m: OrderedModel, seq: u32, payload: Seq<u8>)
    requires
        m.wf(),
        seq != m.next,
        m.outcome(seq, payload) is Refused,
    ensures
        m.after(seq, payload) == m,
{
}

/// The bounds on the buffer hold after every record.
pub proof fn law_bounds_are_kept(m: OrderedModel, seq: u32, payload: Seq<u8>)
    requires
        m.wf(),
    ensures
        m.after(seq, payload).wf(),
{
    if !m.is_retry(seq) && seq > m.next {
        if m.has_room(payload.len()) {
            lemma_bytes_insert(m.buffered, seq, payload, (u32::MAX + 1) as nat);
        }
    } else if !m.is_retry(seq) {
        let from = m.next + 1;
        let end = run_end(m.buffered, from);
        lemma_run_end(m.buffered, from);
        lemma_without_run(m.buffered, from, end);
        let after = m.after(seq, payload);
        assert forall|k: u32| #[trigger] after.buffered.contains_key(k) implies after.next < k
            <= after.next + MAX_REORDER_DISTANCE by {
            assert(m.buffered.contains_key(k));
            if end <= u32::MAX {
                assert(k != end);
            }
        }
    }
}

proof fn lemma_without_run(m: Map<u32, Seq<u8>>, from: nat, to: nat)
    requires
        m.dom().finite(),
        from <= to <= u32::MAX + 1,
        forall|j: u32| from <= j < to ==> m.contains_key(j),
    ensures
        without_run(m, from, to).dom().finite(),
        without_run(m, from, to).dom().len() <= m.dom().len(),
        total_bytes(without_run(m, from, to)) <= total_bytes(m),
    decreases to - from,
{
    if from == to {
        assert(without_run(m, from, to) =~= m);
    } else {
        let k = (to - 1) as u32;
        lemma_without_run(m, from, (to - 1) as nat);
        let shorter = without_run(m, from, (to - 1) as nat);
        assert(without_run(m, from, to) =~= shorter.remove(k));
        lemma_bytes_remove(shorter, k);
    }
}

/// A record that was buffered stays as it was buffered until it is released,
/// and is released at the place of its sequence number.
pub proof fn law_buffered_record_is_kept_until_released(
    m: OrderedModel,
    seq: u32,
    payload: Seq<u8>,
    k: u32,
)
    requires
        m.wf(),
        m.buffered.contains_key(k),
        m.outcome(seq, payload) is Released,
    ensures
        ({
            let released = m.outcome(seq, payload)->Released_0;
            let after = m.after(seq, payload);
            if k < after.next {
                k - m.next < released.len() && released[k - m.next] == m.buffered[k]
            } else {
                after.buffered.contains_key(k) && after.buffered[k] == m.buffered[k]
            }
        }),
{
    lemma_run_end(m.buffered, m.next + 1);
    if !m.is_retry(seq) && seq == m.next {
        let end = run_end(m.buffered, m.next + 1);
        assert(k != end);
    }
}

/// The buffer and all that was released after a list of records, as far as none
/// was refused.
pub open spec fn after_all(m: OrderedModel, pushes: Seq<(u32, Seq<u8>)>) -> Option<
    (OrderedModel, Seq<Seq<u8>>),
>
    decreases pushes.len(),
{
    if pushes.len() == 0 {
        Some((m, Seq::empty()))
    } else {
        match after_all(m, pushes.drop_last()) {
            Some((here, out)) => {
                let (seq, payload) = pushes.last();
                match here.outcome(seq, payload) {
                    PushOutcome::Released(run) => Some((here.after(seq, payload), out + run)),
                    PushOutcome::Refused(_) => None,
                }
            },
            None => None,
        }
    }
}

/// Whether a record with the sequence number was pushed, or was buffered at the start.
pub open spec fn arrived(m: OrderedModel, pushes: Seq<(u32, Seq<u8>)>, k: u32) -> bool {
    m.buffered.contains_key(k) || exists|j: int| 0 <= j < pushes.len() && (#[trigger] pushes[j]).0
        == k
}

/// Whether the push at `j` is the first one under the sequence number.
pub open spec fn first_push(pushes: Seq<(u32, Seq<u8>)>, k: u32, j: int) -> bool {
    &&& 0 <= j < pushes.len()
    &&& pushes[j].0 == k
    &&& forall|i: int| 0 <= i < j ==> (#[trigger] pushes[i]).0 != k
}

/// Whether the record is the one that counts for the sequence number: the one that
/// was buffered at the start, or else that of the first push under it.
pub open spec fn first_in(
    m: OrderedModel,
    pushes: Seq<(u32, Seq<u8>)>,
    k: u32,
    v: Seq<u8>,
) -> bool {
    if m.buffered.contains_key(k) {
        m.buffered[k] == v
    } else {
        exists|j: int| #[trigger] first_push(pushes, k, j) && pushes[j].1 == v
    }
}

/// Over any list of records, one record is released for each sequence number from
/// the first expected one up to the least that did not arrive, in order; and each
/// is the one that was buffered at the start or else came first under its number,
/// whatever came under that number later. The records that arrived ahead of the
/// gap are the ones that are buffered at the end, again the first of each number.
pub proof fn law_released_once_in_order(m: OrderedModel, pushes: Seq<(u32, Seq<u8>)>)
    requires
        m.wf(),
        after_all(m, pushes) is Some,
    ensures
        ({
            let (end, out) = after_all(m, pushes)->0;
            &&& end.wf()
            &&& m.next <= end.next
            &&& out.len() == end.next - m.next
            &&& !arrived(m, pushes, end.next as u32)
            &&& forall|k: u32|
                m.next <= k ==> (#[trigger] arrived(m, pushes, k) <==> k < end.next
                    || end.buffered.contains_key(k))
            &&& forall|i: int|
                0 <= i < out.len() ==> first_in(m, pushes, (m.next + i) as u32, #[trigger] out[i])
            &&& forall|k: u32| #[trigger]
                end.buffered.contains_key(k) ==> first_in(m, pushes, k, end.buffered[k])
        }),
    decreases pushes.len(),
{
    if pushes.len() > 0 {
        let n = pushes.len() - 1;
        let earlier = pushes.drop_last();
        law_released_once_in_order(m, earlier);
        let (here, out) = after_all(m, earlier)->0;
        let (seq, payload) = pushes.last();
        let run_out = here.outcome(seq, payload)->Released_0;
        let (end, all) = after_all(m, pushes)->0;
        law_bounds_are_kept(here, seq, payload);
        lemma_run_end(here.buffered, here.next + 1);
        assert(pushes[n] == (seq, payload));
        assert forall|k: u32| #[trigger] arrived(m, pushes, k) == (arrived(m, earlier, k) || k
            == seq) by {
            if exists|j: int| 0 <= j < pushes.len() && (#[trigger] pushes[j]).0 == k {
                let j = choose|j: int| 0 <= j < pushes.len() && (#[trigger] pushes[j]).0 == k;
                if j < n {
                    assert(earlier[j].0 == k);
                }
            }
            if exists|j: int| 0 <= j < earlier.len() && (#[trigger] earlier[j]).0 == k {
                let j = choose|j: int| 0 <= j < earlier.len() && (#[trigger] earlier[j]).0 == k;
                assert(pushes[j].0 == k);
            }
        }
        assert forall|k: u32, v: Seq<u8>| #[trigger] first_in(m, earlier, k, v) implies first_in(
            m,
            pushes,
            k,
            v,
        ) by {
            if !m.buffered.contains_key(k) {
                let j = choose|j: int| #[trigger] first_push(earlier, k, j) && earlier[j].1 == v;
                assert forall|i: int| 0 <= i < j implies (#[trigger] pushes[i]).0 != k by {
                    assert(earlier[i].0 != k);
                }
                assert(first_push(pushes, k, j));
            }
        }
        if !here.is_retry(seq) {
            assert(m.next <= seq);
            assert(!arrived(m, earlier, seq));
            assert forall|i: int| 0 <= i < n implies (#[trigger] pushes[i]).0 != seq by {
                assert(earlier[i] == pushes[i]);
            }
            assert(first_push(pushes, seq, n));
            assert(first_in(m, pushes, seq, payload));
        }
        assert forall|k: u32| m.next <= k implies (#[trigger] arrived(m, pushes, k) <==> k
            < end.next || end.buffered.contains_key(k)) by {
            assert(arrived(m, earlier, k) <==> k < here.next || here.buffered.contains_key(k));
        }
        assert forall|i: int| 0 <= i < all.len() implies first_in(
            m,
            pushes,
            (m.next + i) as u32,
            #[trigger] all[i],
        ) by {
            if i < out.len() {
                assert(all[i] == out[i]);
                assert(first_in(m, earlier, (m.next + i) as u32, out[i]));
            } else {
                let j = i - out.len();
                assert(all[i] == run_out[j]);
                if j > 0 {
                    let k = (here.next + j) as u32;
                    assert(here.buffered.contains_key(k));
                    assert(first_in(m, earlier, k, here.buffered[k]));
                }
            }
        }
        assert forall|k: u32| #[trigger] end.buffered.contains_key(k) implies first_in(
            m,
            pushes,
            k,
            end.buffered[k],
        ) by {
            if here.buffered.contains_key(k) {
                assert(first_in(m, earlier, k, here.buffered[k]));
            }
        }
    } else {
        assert forall|k: u32| m.next <= k implies (#[trigger] arrived(m, pushes, k) <==> k < m.next
            || m.buffered.contains_key(k)) by {
        }
    }
    let (end, _) = after_all(m, pushes)->0;
    assert(arrived(m, pushes, end.next as u32) <==> end.buffered.contains_key(end.next as u32));
}

/// A new record ahead of the expected one is taken in where it is at most 64 ahead,
/// fewer than 64 wait and all of them together stay within a mebibyte: it then
/// waits with its own bytes, beside those that wait already. One further ahead, or
/// without room, is refused.
pub proof fn law_records_ahead_wait_while_there_is_room(
    m: OrderedModel,
    seq: u32,
    payload: Seq<u8>,
)
    requires
        m.wf(),
        seq > m.next,
        !m.buffered.contains_key(seq),
        total_bytes(m.buffered) + payload.len() <= usize::MAX,
    ensures
        ({
            let near = seq <= m.next + 64;
            let room = m.buffered.dom().len() < 64 && total_bytes(m.buffered) + payload.len()
                <= 1_048_576;
            &&& near && room ==> m.outcome(seq, payload) == PushOutcome::Released(Seq::empty())
                && m.after(seq, payload).buffered == m.buffered.insert(seq, payload) && m.after(
                seq,
                payload,
            ).next == m.next
            &&& !near ==> m.outcome(seq, payload) == PushOutcome::Refused(
                "Noise relay ciphertext exceeds reorder window"@,
            )
            &&& near && !room ==> m.outcome(seq, payload) == PushOutcome::Refused(
                "Noise relay pending ciphertext buffer is full"@,
            )
        }),
{
}

/// The expected record is released at once, before all that waited for it, and a
/// later one is expected then; only the last number of all cannot be.
pub proof fn law_expected_record_is_released_at_once(m: OrderedModel, payload: Seq<u8>)
    requires
        m.wf(),
        m.next + 65 <= u32::MAX,
    ensures
        m.outcome(m.next as u32, payload) matches PushOutcome::Released(run) && run.len() > 0
            && run[0] == payload,
        m.after(m.next as u32, payload).next > m.next,
        m.after(m.next as u32, payload).next == m.next + (m.outcome(
            m.next as u32,
            payload,
        )->Released_0).len(),
{
    let from = m.next + 1;
    let end = run_end(m.buffered, from);
    lemma_run_end(m.buffered, from);
    if end > m.next + 65 {
        let k = (m.next + 65) as u32;
        assert(m.buffered.contains_key(k));
    }
}

/// Each record counts with all its bytes.
pub proof fn law_every_waiting_byte_counts(m: Map<u32, Seq<u8>>, k: u32, v: Seq<u8>)
    requires
        !m.contains_key(k),
    ensures
        total_bytes(Map::empty()) == 0,
        total_bytes(m.insert(k, v)) == total_bytes(m) + v.len(),
{
    lemma_bytes_empty((u32::MAX + 1) as nat);
    lemma_bytes_insert(m, k, v, (u32::MAX + 1) as nat);
}

/// A record ahead of the expected one, within the window, is refused and not kept
/// where the bytes that wait could no longer be counted with it.
pub proof fn law_uncountable_bytes_are_refused(m: OrderedModel, seq: u32, payload: Seq<u8>)
    requires
        m.wf(),
        m.next < seq <= m.next + 64,
        !m.buffered.contains_key(seq),
        total_bytes(m.buffered) + payload.len() > usize::MAX,
    ensures
        m.outcome(seq, payload) == PushOutcome::Refused(
            "Noise relay pending ciphertext byte count overflowed"@,
        ),
        m.after(seq, payload) == m,
{
}

} // verus!
