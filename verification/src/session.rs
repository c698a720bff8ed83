//! Per-session correlation and outcome accounting.
//!
//! Each session owns a concurrent map from server-issued message ids to the
//! submit timestamp, so that a later delivery receipt can be matched to its
//! submission and the end-to-end delay measured.  The session core ties the
//! map to the bind's counters: a receipt is only counted as received when a
//! matching submission was recorded, so the receipts counter can never
//! overtake the success counter.

use vstd::prelude::*;

use dashmap::DashMap;

use crate::bind_tracker::{BindStatusView, BindTracker};
use crate::dlr::{classify_state, parse_dlr_view, parse_textual_dlr, state_failed, DlrState};
use crate::metrics::{sat_add, sat_sub, saturating_sub_u64, BindMetrics, Metrics};

verus! {

broadcast use vstd::set::group_set_axioms;

#[verifier::external_type_specification]
#[verifier::external_body]
#[verifier::reject_recursive_types(K)]
#[verifier::reject_recursive_types(V)]
#[verifier::reject_recursive_types(S)]
pub struct ExDashMap<K, V, S>(DashMap<K, V, S>);

/// The entries a correlation map holds: message id to submit timestamp.
pub uninterp spec fn corr_entries(m: DashMap<String, u64>) -> Map<Seq<char>, u64>;

/// The empty correlation map.
pub open spec fn corr_empty() -> Map<Seq<char>, u64> {
    Map::empty()
}

/// Relies on dashmap::DashMap::with_capacity: a freshly created map holds no
/// entries.
#[verifier::external_body]
fn corr_new() -> (m: DashMap<String, u64>)
    ensures
        corr_entries(m) == corr_empty(),
{
    DashMap::with_capacity(1024)
}

/// Relies on dashmap::DashMap::insert: the key maps to the value afterwards,
/// and the value previously under the key, if any, is returned.
#[verifier::external_body]
fn corr_insert(m: &mut DashMap<String, u64>, key: String, value: u64) -> (prev: Option<u64>)
    ensures
        corr_entries(*final(m)) == corr_entries(*old(m)).insert(key@, value),
        prev is Some <==> corr_entries(*old(m)).contains_key(key@),
        prev matches Some(p) ==> corr_entries(*old(m))[key@] == p,
{
    m.insert(key, value)
}

/// Relies on dashmap::DashMap::remove: the entry under the key, if any, is
/// taken out of the map and returned.
#[verifier::external_body]
fn corr_remove(m: &mut DashMap<String, u64>, key: &str) -> (r: Option<u64>)
    ensures
        corr_entries(*final(m)) == corr_entries(*old(m)).remove(key@),
        r is Some <==> corr_entries(*old(m)).contains_key(key@),
        r matches Some(v) ==> corr_entries(*old(m))[key@] == v,
{
    m.remove(key).map(|e| e.1)
}

/// Relies on dashmap::DashMap::contains_key.
#[verifier::external_body]
fn corr_contains(m: &DashMap<String, u64>, key: &str) -> (r: bool)
    ensures
        r == corr_entries(*m).contains_key(key@),
{
    m.contains_key(key)
}

/// The outcome of one submission, as the submit loop sees it.
pub enum SubmitOutcome {
    /// The server answered with a message id.
    Success { message_id: String, latency_micros: u64 },
    /// The request failed with the given description.
    Failure { error: String, latency_micros: u64 },
}

/// The per-session state: the bind index and the correlation map, plus the
/// count of receipts classified into a state, kept for the accounting
/// argument.
pub struct SessionCore {
    bind_idx: usize,
    corr: DashMap<String, u64>,
    classified: Ghost<nat>,
}

impl SessionCore {
    /// The bind index this session drives.
    pub closed spec fn idx(self) -> usize {
        self.bind_idx
    }

    /// The bind index this session drives.
    pub fn bind_index(&self) -> (r: usize)
        ensures
            r == self.idx(),
    {
        self.bind_idx
    }

    /// The correlation entries this session holds.
    pub closed spec fn corr_map(self) -> Map<Seq<char>, u64> {
        corr_entries(self.corr)
    }

    /// How many receipts this session has classified into a message state.
    pub closed spec fn classified_count(self) -> nat {
        self.classified@
    }

    /// The session's accounting invariant against the shared aggregator:
    /// the bind index is in range; every correlation entry and every counted
    /// receipt stems from a distinct recorded success, so receipts plus
    /// pending entries never exceed successes; and the per-state counters
    /// hold exactly two marks per classified receipt (one fine-grained, one
    /// coarse).
    pub open spec fn inv(self, m: Metrics) -> bool {
        &&& self.idx() < m.per_bind@.len()
        &&& self.corr_map().dom().finite()
        &&& m.bind(self.idx() as int).dlr_received + self.corr_map().dom().len() <= m.bind(
            self.idx() as int,
        ).success
        &&& m.bind(self.idx() as int).dlr_state_sum() == 2 * self.classified_count()
    }

    /// A fresh session core for a bind: an empty correlation map.
    pub fn new(bind_idx: usize) -> (r: SessionCore)
        ensures
            r.idx() == bind_idx,
            r.corr_map() == corr_empty(),
            r.classified_count() == 0,
    {
        SessionCore { bind_idx, corr: corr_new(), classified: Ghost(0) }
    }

    /// Whether the correlation map currently holds an id.
    pub fn contains_id(&self, message_id: &str) -> (r: bool)
        ensures
            r == self.corr_map().contains_key(message_id@),
    {
        corr_contains(&self.corr, message_id)
    }

    /// Apply one submission outcome: on success, count it, publish the
    /// message id as the bind's last id, and remember the submit time under
    /// the id (an empty id is not remembered); on failure, count the error.
    pub fn handle_outcome(
        &mut self,
        metrics: &mut Metrics,
        tracker: &mut BindTracker,
        outcome: SubmitOutcome,
        now_micros: u64,
    )
        requires
            old(self).inv(*old(metrics)),
            old(metrics).wf(),
            old(metrics).total_attempts < u64::MAX,
        ensures
            final(self).inv(*final(metrics)),
            final(metrics).wf(),
            final(self).idx() == old(self).idx(),
            final(self).classified_count() == old(self).classified_count(),
            old(metrics).le(*final(metrics)),
            final(metrics).per_bind@.len() == old(metrics).per_bind@.len(),
            final(tracker)@.len() == old(tracker)@.len(),
            outcome matches SubmitOutcome::Success { message_id, latency_micros } ==> ({
                &&& final(metrics).total_attempts == old(metrics).total_attempts + 1
                &&& final(metrics).total_success == old(metrics).total_success + 1
                &&& final(metrics).total_error == old(metrics).total_error
                &&& final(metrics).total_latency_micros == sat_add(
                    old(metrics).total_latency_micros,
                    latency_micros,
                )
                &&& final(metrics).per_bind@ == old(metrics).per_bind@.update(
                    old(self).idx() as int,
                    old(metrics).bind(old(self).idx() as int).with_success(latency_micros),
                )
                &&& (old(self).idx() < old(tracker)@.len() ==> final(tracker)@
                    == old(tracker)@.update(
                    old(self).idx() as int,
                    (BindStatusView {
                        last_message_id: Option::Some(message_id@),
                        ..old(tracker)@[old(self).idx() as int]
                    }),
                ))
                &&& (old(self).idx() >= old(tracker)@.len() ==> final(tracker)@ == old(
                    tracker,
                )@)
                &&& (message_id@.len() > 0 ==> final(self).corr_map() == old(
                    self,
                ).corr_map().insert(message_id@, now_micros))
                &&& (message_id@.len() == 0 ==> final(self).corr_map() == old(self).corr_map())
            }),
            outcome matches SubmitOutcome::Failure { error, latency_micros } ==> ({
                &&& final(metrics).total_attempts == old(metrics).total_attempts + 1
                &&& final(metrics).total_success == old(metrics).total_success
                &&& final(metrics).total_error == old(metrics).total_error + 1
                &&& final(metrics).total_latency_micros == sat_add(
                    old(metrics).total_latency_micros,
                    latency_micros,
                )
                &&& final(metrics).per_bind@ == old(metrics).per_bind@.update(
                    old(self).idx() as int,
                    old(metrics).bind(old(self).idx() as int).with_error(latency_micros),
                )
                &&& final(tracker)@ == old(tracker)@
                &&& final(self).corr_map() == old(self).corr_map()
            }),
    {
        proof {
            crate::metrics::lemma_sum_attempts_bound(metrics.per_bind@, self.bind_idx as int);
        }
        match outcome {
            SubmitOutcome::Success { message_id, latency_micros } => {
                metrics.record_success(self.bind_idx, latency_micros);
                tracker.set_last_message_id(self.bind_idx, Some(message_id.clone()));
                if !message_id.as_str().is_empty() {
                    let _ = corr_insert(&mut self.corr, message_id, now_micros);
                }
            },
            SubmitOutcome::Failure { error: _, latency_micros } => {
                metrics.record_error(self.bind_idx, latency_micros);
            },
        }
    }
}

/// Receipts never overtake successes: under the session invariant the
/// bind's `dlr_received` counter is at most its `success` counter.
pub proof fn lemma_dlr_received_le_success(core: SessionCore, m: Metrics)
    requires
        core.inv(m),
    ensures
        m.bind(core.idx() as int).dlr_received <= m.bind(core.idx() as int).success,
{
}

/// The per-state receipt counters hold exactly two marks per classified
/// receipt: one fine-grained state mark and one coarse status mark.  In
/// particular their sum never exceeds twice the receipts classified through
/// the TLV or textual path.
pub proof fn lemma_dlr_state_sum_bound(core: SessionCore, m: Metrics)
    requires
        core.inv(m),
    ensures
        m.bind(core.idx() as int).dlr_state_sum() == 2 * core.classified_count(),
{
}

/// A fresh session core against a fresh (or untouched) slot satisfies the
/// session invariant.
pub proof fn lemma_initial_inv(core: SessionCore, m: Metrics)
    requires
        core.corr_map() == corr_empty(),
        core.classified_count() == 0,
        core.idx() < m.per_bind@.len(),
        m.bind(core.idx() as int) == BindMetrics::zero(),
    ensures
        core.inv(m),
{
    assert(corr_empty().dom() =~= Set::<Seq<char>>::empty());
}

/// What the event dispatcher reads out of one incoming `deliver_sm`.
pub struct DeliverView {
    /// The `receipted_message_id` TLV value, when present.
    pub receipted_id: Option<String>,
    /// The `message_state` TLV value, when present.
    pub tlv_state: Option<DlrState>,
    /// The textual short message body, when it decodes as text.
    pub text: Option<String>,
}

/// Mathematical view of a [`DeliverView`].
pub struct DeliverViewModel {
    pub receipted_id: Option<Seq<char>>,
    pub tlv_state: Option<DlrState>,
    pub text: Option<Seq<char>>,
}

impl View for DeliverView {
    type V = DeliverViewModel;

    open spec fn view(&self) -> DeliverViewModel {
        DeliverViewModel {
            receipted_id: match self.receipted_id {
                Option::Some(id) => Option::Some(id@),
                Option::None => Option::None,
            },
            tlv_state: self.tlv_state,
            text: match self.text {
                Option::Some(t) => Option::Some(t@),
                Option::None => Option::None,
            },
        }
    }
}

/// Whether a receipt TLV was found on the PDU: a non-empty receipted id or
/// a message state.  When one was, the textual fallback is skipped, so a
/// receipt carrying both a TLV and a parseable body is counted once.
pub open spec fn tlv_found(v: DeliverViewModel) -> bool {
    ||| match v.receipted_id {
        Option::Some(id) => id.len() > 0,
        Option::None => false,
    }
    ||| v.tlv_state is Some
}

/// Correlation removal for a receipt id: when the id is pending, its entry
/// leaves the map and the receipt is counted with its delay; an unknown id
/// changes nothing.
pub open spec fn id_effect(
    corr: Map<Seq<char>, u64>,
    slot: BindMetrics,
    id: Seq<char>,
    now: u64,
) -> (Map<Seq<char>, u64>, BindMetrics) {
    if corr.contains_key(id) {
        (corr.remove(id), slot.with_dlr(sat_sub(now, corr[id])))
    } else {
        (corr, slot)
    }
}

/// State classification: one fine-grained mark and one coarse mark.
pub open spec fn classify_effect(slot: BindMetrics, st: DlrState) -> BindMetrics {
    slot.with_state(st).with_status(st is Delivered, state_failed(st))
}

/// The full effect of one `deliver_sm` on the correlation map, the bind's
/// slot, and the count of classified receipts: the TLV paths, and the
/// textual fallback only when no receipt TLV was found.
pub open spec fn deliver_effect(
    corr: Map<Seq<char>, u64>,
    slot: BindMetrics,
    classified: nat,
    v: DeliverViewModel,
    now: u64,
) -> (Map<Seq<char>, u64>, BindMetrics, nat) {
    if tlv_found(v) {
        let (corr1, slot1) = match v.receipted_id {
            Option::Some(id) => if id.len() > 0 {
                id_effect(corr, slot, id, now)
            } else {
                (corr, slot)
            },
            Option::None => (corr, slot),
        };
        match v.tlv_state {
            Option::Some(st) => (corr1, classify_effect(slot1, st), classified + 1),
            Option::None => (corr1, slot1, classified),
        }
    } else {
        match v.text {
            Option::Some(t) => match parse_dlr_view(t) {
                Option::Some(pair) => {
                    let (corr1, slot1) = id_effect(corr, slot, pair.0, now);
                    (corr1, classify_effect(slot1, pair.1), classified + 1)
                },
                Option::None => (corr, slot, classified),
            },
            Option::None => (corr, slot, classified),
        }
    }
}

impl SessionCore {
    /// Apply one incoming `deliver_sm` to the session: match a receipted id
    /// against the pending submissions and count the receipt's delay, then
    /// classify the receipt state, preferring the TLVs and falling back to
    /// the textual body only when no receipt TLV was found.
    pub fn process_deliver(&mut self, metrics: &mut Metrics, v: &DeliverView, now_micros: u64)
        requires
            old(self).inv(*old(metrics)),
            old(metrics).wf(),
            old(metrics).total_attempts < u64::MAX,
            old(metrics).bind(old(self).idx() as int).dlr_state_sum() + 2 <= u64::MAX,
        ensures
            final(self).inv(*final(metrics)),
            final(metrics).wf(),
            final(self).idx() == old(self).idx(),
            old(metrics).le(*final(metrics)),
            final(metrics).total_attempts == old(metrics).total_attempts,
            final(metrics).total_success == old(metrics).total_success,
            final(metrics).total_error == old(metrics).total_error,
            final(metrics).total_latency_micros == old(metrics).total_latency_micros,
            ({
                let (c2, s2, k2) = deliver_effect(
                    old(self).corr_map(),
                    old(metrics).bind(old(self).idx() as int),
                    old(self).classified_count(),
                    v@,
                    now_micros,
                );
                &&& final(self).corr_map() == c2
                &&& final(metrics).per_bind@ == old(metrics).per_bind@.update(
                    old(self).idx() as int,
                    s2,
                )
                &&& final(self).classified_count() == k2
            }),
    {
        proof {
            crate::metrics::lemma_sum_attempts_bound(metrics.per_bind@, self.bind_idx as int);
        }
        let idx = self.bind_idx;
        let mut tlv_hit = false;
        if let Some(id) = &v.receipted_id {
            if !id.as_str().is_empty() {
                tlv_hit = true;
                if let Some(start) = corr_remove(&mut self.corr, id.as_str()) {
                    metrics.record_dlr(idx, saturating_sub_u64(now_micros, start));
                }
            }
        }
        if let Some(st) = v.tlv_state {
            tlv_hit = true;
            let flags = classify_state(st);
            metrics.record_dlr_state(idx, st);
            metrics.record_dlr_status(idx, flags.0, flags.1);
            proof {
                self.classified@ = self.classified@ + 1;
            }
        }
        if !tlv_hit {
            if let Some(t) = &v.text {
                if let Some(pair) = parse_textual_dlr(t.as_str()) {
                    if let Some(start) = corr_remove(&mut self.corr, pair.0.as_str()) {
                        metrics.record_dlr(idx, saturating_sub_u64(now_micros, start));
                    }
                    let flags = classify_state(pair.1);
                    metrics.record_dlr_state(idx, pair.1);
                    metrics.record_dlr_status(idx, flags.0, flags.1);
                    proof {
                        self.classified@ = self.classified@ + 1;
                    }
                }
            }
        }
    }
}

} // verus!
