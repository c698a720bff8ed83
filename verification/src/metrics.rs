//! Lock-step metrics aggregator: per-bind counters plus running totals.
//!
//! Every counter is an exact, monotonically non-decreasing 64-bit count.
//! Event counters (attempts, successes, errors, receipts) advance by exactly
//! one per recorded event; latency accumulators advance by a saturating add,
//! so that they stay monotone even at the numeric ceiling.

use vstd::prelude::*;

use crate::dlr::DlrState;

verus! {

/// Saturating addition on `u64`, as a spec-level function.
pub open spec fn sat_add(a: u64, b: u64) -> u64 {
    if a + b > u64::MAX {
        u64::MAX
    } else {
        (a + b) as u64
    }
}

/// Saturating addition on `u64`.
pub fn saturating_add_u64(a: u64, b: u64) -> (r: u64)
    ensures
        r == sat_add(a, b),
{
    if a > u64::MAX - b {
        u64::MAX
    } else {
        a + b
    }
}

/// Saturating subtraction on `u64`, as a spec-level function.
pub open spec fn sat_sub(a: u64, b: u64) -> u64 {
    if a < b {
        0
    } else {
        (a - b) as u64
    }
}

/// Saturating subtraction on `u64`.
pub fn saturating_sub_u64(a: u64, b: u64) -> (r: u64)
    ensures
        r == sat_sub(a, b),
{
    if a < b {
        0
    } else {
        a - b
    }
}

/// Counters kept for one bind.
#[derive(Clone, Copy, Debug, PartialEq, Eq, Structural)]
pub struct BindMetrics {
    pub attempts: u64,
    pub success: u64,
    pub error: u64,
    pub latency_micros: u64,
    pub dlr_received: u64,
    pub dlr_latency_micros: u64,
    pub dlr_delivered: u64,
    pub dlr_failed: u64,
    pub dlr_unknown: u64,
    pub dlr_enroute: u64,
    pub dlr_expired: u64,
    pub dlr_deleted: u64,
    pub dlr_accepted: u64,
}

impl BindMetrics {
    /// A fresh slot: everything at zero.
    pub open spec fn zero() -> BindMetrics {
        BindMetrics {
            attempts: 0,
            success: 0,
            error: 0,
            latency_micros: 0,
            dlr_received: 0,
            dlr_latency_micros: 0,
            dlr_delivered: 0,
            dlr_failed: 0,
            dlr_unknown: 0,
            dlr_enroute: 0,
            dlr_expired: 0,
            dlr_deleted: 0,
            dlr_accepted: 0,
        }
    }

    /// Per-slot accounting invariant: every attempt ended as a success or an
    /// error, and never both.
    pub open spec fn wf(self) -> bool {
        self.attempts == self.success + self.error
    }

    /// Sum of the per-state delivery receipt counters.
    pub open spec fn dlr_state_sum(self) -> int {
        self.dlr_delivered + self.dlr_failed + self.dlr_unknown + self.dlr_enroute
            + self.dlr_expired + self.dlr_deleted + self.dlr_accepted
    }

    /// Pointwise order on every counter of the slot.
    pub open spec fn le(self, other: BindMetrics) -> bool {
        &&& self.attempts <= other.attempts
        &&& self.success <= other.success
        &&& self.error <= other.error
        &&& self.latency_micros <= other.latency_micros
        &&& self.dlr_received <= other.dlr_received
        &&& self.dlr_latency_micros <= other.dlr_latency_micros
        &&& self.dlr_delivered <= other.dlr_delivered
        &&& self.dlr_failed <= other.dlr_failed
        &&& self.dlr_unknown <= other.dlr_unknown
        &&& self.dlr_enroute <= other.dlr_enroute
        &&& self.dlr_expired <= other.dlr_expired
        &&& self.dlr_deleted <= other.dlr_deleted
        &&& self.dlr_accepted <= other.dlr_accepted
    }

    /// The slot after one successful submission with the given latency.
    pub open spec fn with_success(self, latency_micros: u64) -> BindMetrics {
        BindMetrics {
            attempts: (self.attempts + 1) as u64,
            success: (self.success + 1) as u64,
            latency_micros: sat_add(self.latency_micros, latency_micros),
            ..self
        }
    }

    /// The slot after one failed submission with the given latency.
    pub open spec fn with_error(self, latency_micros: u64) -> BindMetrics {
        BindMetrics {
            attempts: (self.attempts + 1) as u64,
            error: (self.error + 1) as u64,
            latency_micros: sat_add(self.latency_micros, latency_micros),
            ..self
        }
    }

    /// The slot after one correlated delivery receipt with the given delay.
    pub open spec fn with_dlr(self, delay_micros: u64) -> BindMetrics {
        BindMetrics {
            dlr_received: (self.dlr_received + 1) as u64,
            dlr_latency_micros: sat_add(self.dlr_latency_micros, delay_micros),
            ..self
        }
    }

    /// Which coarse counter a textual receipt status lands in: `delivered`
    /// first, then `failed`, else `unknown`.
    pub open spec fn status_target(self, delivered: bool, failed: bool) -> u64 {
        if delivered {
            self.dlr_delivered
        } else if failed {
            self.dlr_failed
        } else {
            self.dlr_unknown
        }
    }

    /// The slot after one coarse status classification.
    pub open spec fn with_status(self, delivered: bool, failed: bool) -> BindMetrics {
        if delivered {
            BindMetrics { dlr_delivered: (self.dlr_delivered + 1) as u64, ..self }
        } else if failed {
            BindMetrics { dlr_failed: (self.dlr_failed + 1) as u64, ..self }
        } else {
            BindMetrics { dlr_unknown: (self.dlr_unknown + 1) as u64, ..self }
        }
    }

    /// Which counter a message state lands in: enroute, delivered, expired,
    /// deleted and accepted each have their own; undeliverable and rejected
    /// count as failed; everything else counts as unknown.
    pub open spec fn state_target(self, state: DlrState) -> u64 {
        match state {
            DlrState::Enroute => self.dlr_enroute,
            DlrState::Delivered => self.dlr_delivered,
            DlrState::Expired => self.dlr_expired,
            DlrState::Deleted => self.dlr_deleted,
            DlrState::Undeliverable => self.dlr_failed,
            DlrState::Accepted => self.dlr_accepted,
            DlrState::Rejected => self.dlr_failed,
            _ => self.dlr_unknown,
        }
    }

    /// The slot after one fine-grained state classification.
    pub open spec fn with_state(self, state: DlrState) -> BindMetrics {
        match state {
            DlrState::Enroute => BindMetrics { dlr_enroute: (self.dlr_enroute + 1) as u64, ..self },
            DlrState::Delivered => BindMetrics {
                dlr_delivered: (self.dlr_delivered + 1) as u64,
                ..self
            },
            DlrState::Expired => BindMetrics { dlr_expired: (self.dlr_expired + 1) as u64, ..self },
            DlrState::Deleted => BindMetrics { dlr_deleted: (self.dlr_deleted + 1) as u64, ..self },
            DlrState::Undeliverable => BindMetrics {
                dlr_failed: (self.dlr_failed + 1) as u64,
                ..self
            },
            DlrState::Accepted => BindMetrics {
                dlr_accepted: (self.dlr_accepted + 1) as u64,
                ..self
            },
            DlrState::Rejected => BindMetrics { dlr_failed: (self.dlr_failed + 1) as u64, ..self },
            _ => BindMetrics { dlr_unknown: (self.dlr_unknown + 1) as u64, ..self },
        }
    }
}

/// Sum of the `attempts` counters over a sequence of slots.
pub open spec fn sum_attempts(s: Seq<BindMetrics>) -> int
    decreases s.len(),
{
    if s.len() == 0 {
        0
    } else {
        sum_attempts(s.drop_last()) + s.last().attempts
    }
}

pub proof fn lemma_sum_attempts_nonneg(s: Seq<BindMetrics>)
    ensures
        sum_attempts(s) >= 0,
    decreases s.len(),
{
    if s.len() > 0 {
        lemma_sum_attempts_nonneg(s.drop_last());
    }
}

pub proof fn lemma_sum_attempts_bound(s: Seq<BindMetrics>, i: int)
    requires
        0 <= i < s.len(),
    ensures
        s[i].attempts <= sum_attempts(s),
    decreases s.len(),
{
    if i == s.len() - 1 {
        lemma_sum_attempts_nonneg(s.drop_last());
    } else {
        lemma_sum_attempts_bound(s.drop_last(), i);
    }
}

pub proof fn lemma_sum_attempts_update(s: Seq<BindMetrics>, i: int, v: BindMetrics)
    requires
        0 <= i < s.len(),
    ensures
        sum_attempts(s.update(i, v)) == sum_attempts(s) - s[i].attempts + v.attempts,
    decreases s.len(),
{
    let s2 = s.update(i, v);
    if i == s.len() - 1 {
        assert(s2.drop_last() =~= s.drop_last());
    } else {
        assert(s2.drop_last() =~= s.drop_last().update(i, v));
        lemma_sum_attempts_update(s.drop_last(), i, v);
    }
}

/// The aggregator: totals across binds plus one slot per bind.
#[derive(Debug)]
pub struct Metrics {
    pub total_attempts: u64,
    pub total_success: u64,
    pub total_error: u64,
    pub total_latency_micros: u64,
    pub per_bind: Vec<BindMetrics>,
}

impl Metrics {
    /// Aggregator invariant: the totals conserve attempts, and they dominate
    /// the per-bind attempts (an out-of-range record advances only totals).
    pub open spec fn wf(self) -> bool {
        &&& self.total_attempts == self.total_success + self.total_error
        &&& sum_attempts(self.per_bind@) <= self.total_attempts
        &&& forall|i: int| 0 <= i < self.per_bind@.len() ==> (#[trigger] self.per_bind@[i]).wf()
    }

    /// The slot for a bind index, or an all-zero slot out of range.
    pub open spec fn bind(self, bind_idx: int) -> BindMetrics {
        if 0 <= bind_idx < self.per_bind@.len() {
            self.per_bind@[bind_idx]
        } else {
            BindMetrics::zero()
        }
    }

    /// Pointwise order on every counter of both aggregators.
    pub open spec fn le(self, other: Metrics) -> bool {
        &&& self.total_attempts <= other.total_attempts
        &&& self.total_success <= other.total_success
        &&& self.total_error <= other.total_error
        &&& self.total_latency_micros <= other.total_latency_micros
        &&& self.per_bind@.len() == other.per_bind@.len()
        &&& forall|i: int|
            0 <= i < self.per_bind@.len() ==> (#[trigger] self.per_bind@[i]).le(other.per_bind@[i])
    }

    /// A fresh aggregator with one all-zero slot per bind.
    pub fn new(bind_count: usize) -> (r: Metrics)
        ensures
            r.wf(),
            r.per_bind@.len() == bind_count,
            r.total_attempts == 0,
            r.total_success == 0,
            r.total_error == 0,
            r.total_latency_micros == 0,
            forall|i: int| 0 <= i < bind_count ==> r.per_bind@[i] == BindMetrics::zero(),
    {
        let mut per_bind: Vec<BindMetrics> = Vec::new();
        let mut i: usize = 0;
        while i < bind_count
            invariant
                i <= bind_count,
                per_bind@.len() == i,
                forall|j: int| 0 <= j < i ==> per_bind@[j] == BindMetrics::zero(),
                sum_attempts(per_bind@) == 0,
            decreases bind_count - i,
        {
            let slot = BindMetrics {
                attempts: 0,
                success: 0,
                error: 0,
                latency_micros: 0,
                dlr_received: 0,
                dlr_latency_micros: 0,
                dlr_delivered: 0,
                dlr_failed: 0,
                dlr_unknown: 0,
                dlr_enroute: 0,
                dlr_expired: 0,
                dlr_deleted: 0,
                dlr_accepted: 0,
            };
            let ghost old_pb = per_bind@;
            per_bind.push(slot);
            proof {
                assert(per_bind@.drop_last() =~= old_pb);
            }
            i += 1;
        }
        Metrics {
            total_attempts: 0,
            total_success: 0,
            total_error: 0,
            total_latency_micros: 0,
            per_bind,
        }
    }

    /// Record one successful submission for a bind: totals and, when the
    /// index is in range, the bind's slot advance together.
    pub fn record_success(&mut self, bind_idx: usize, latency_micros: u64)
        requires
            old(self).wf(),
            old(self).total_attempts < u64::MAX,
        ensures
            final(self).wf(),
            old(self).le(*final(self)),
            final(self).total_attempts == old(self).total_attempts + 1,
            final(self).total_success == old(self).total_success + 1,
            final(self).total_error == old(self).total_error,
            final(self).total_latency_micros == sat_add(
                old(self).total_latency_micros,
                latency_micros,
            ),
            final(self).per_bind@.len() == old(self).per_bind@.len(),
            bind_idx < old(self).per_bind@.len() ==> final(self).per_bind@ == old(
                self,
            ).per_bind@.update(bind_idx as int, old(self).per_bind@[bind_idx as int].with_success(latency_micros)),
            bind_idx >= old(self).per_bind@.len() ==> final(self).per_bind@ == old(self).per_bind@,
    {
        proof {
            if bind_idx < self.per_bind@.len() {
                lemma_sum_attempts_bound(self.per_bind@, bind_idx as int);
            }
        }
        self.total_attempts = self.total_attempts + 1;
        self.total_success = self.total_success + 1;
        self.total_latency_micros = saturating_add_u64(self.total_latency_micros, latency_micros);
        if bind_idx < self.per_bind.len() {
            let ghost old_pb = self.per_bind@;
            let slot = &mut self.per_bind[bind_idx];
            slot.attempts = slot.attempts + 1;
            slot.success = slot.success + 1;
            slot.latency_micros = saturating_add_u64(slot.latency_micros, latency_micros);
            proof {
                assert(self.per_bind@ =~= old_pb.update(
                    bind_idx as int,
                    old_pb[bind_idx as int].with_success(latency_micros),
                ));
                lemma_sum_attempts_update(
                    old_pb,
                    bind_idx as int,
                    old_pb[bind_idx as int].with_success(latency_micros),
                );
            }
        }
    }

    /// Record one failed submission for a bind, symmetrically to
    /// [`Metrics::record_success`] with the `error` counter advancing.
    pub fn record_error(&mut self, bind_idx: usize, latency_micros: u64)
        requires
            old(self).wf(),
            old(self).total_attempts < u64::MAX,
        ensures
            final(self).wf(),
            old(self).le(*final(self)),
            final(self).total_attempts == old(self).total_attempts + 1,
            final(self).total_success == old(self).total_success,
            final(self).total_error == old(self).total_error + 1,
            final(self).total_latency_micros == sat_add(
                old(self).total_latency_micros,
                latency_micros,
            ),
            final(self).per_bind@.len() == old(self).per_bind@.len(),
            bind_idx < old(self).per_bind@.len() ==> final(self).per_bind@ == old(
                self,
            ).per_bind@.update(bind_idx as int, old(self).per_bind@[bind_idx as int].with_error(latency_micros)),
            bind_idx >= old(self).per_bind@.len() ==> final(self).per_bind@ == old(self).per_bind@,
    {
        proof {
            if bind_idx < self.per_bind@.len() {
                lemma_sum_attempts_bound(self.per_bind@, bind_idx as int);
            }
        }
        self.total_attempts = self.total_attempts + 1;
        self.total_error = self.total_error + 1;
        self.total_latency_micros = saturating_add_u64(self.total_latency_micros, latency_micros);
        if bind_idx < self.per_bind.len() {
            let ghost old_pb = self.per_bind@;
            let slot = &mut self.per_bind[bind_idx];
            slot.attempts = slot.attempts + 1;
            slot.error = slot.error + 1;
            slot.latency_micros = saturating_add_u64(slot.latency_micros, latency_micros);
            proof {
                assert(self.per_bind@ =~= old_pb.update(
                    bind_idx as int,
                    old_pb[bind_idx as int].with_error(latency_micros),
                ));
                lemma_sum_attempts_update(
                    old_pb,
                    bind_idx as int,
                    old_pb[bind_idx as int].with_error(latency_micros),
                );
            }
        }
    }

    /// Record one correlated delivery receipt and its end-to-end delay.
    /// Totals do not move; an out-of-range index records nothing.
    pub fn record_dlr(&mut self, bind_idx: usize, delay_micros: u64)
        requires
            old(self).wf(),
            bind_idx < old(self).per_bind@.len() ==> old(self).per_bind@[bind_idx as int].dlr_received
                < u64::MAX,
        ensures
            final(self).wf(),
            old(self).le(*final(self)),
            final(self).total_attempts == old(self).total_attempts,
            final(self).total_success == old(self).total_success,
            final(self).total_error == old(self).total_error,
            final(self).total_latency_micros == old(self).total_latency_micros,
            bind_idx < old(self).per_bind@.len() ==> final(self).per_bind@ == old(
                self,
            ).per_bind@.update(bind_idx as int, old(self).per_bind@[bind_idx as int].with_dlr(delay_micros)),
            bind_idx >= old(self).per_bind@.len() ==> final(self).per_bind@ == old(self).per_bind@,
    {
        if bind_idx < self.per_bind.len() {
            let ghost old_pb = self.per_bind@;
            let slot = &mut self.per_bind[bind_idx];
            slot.dlr_received = slot.dlr_received + 1;
            slot.dlr_latency_micros = saturating_add_u64(slot.dlr_latency_micros, delay_micros);
            proof {
                assert(self.per_bind@ =~= old_pb.update(
                    bind_idx as int,
                    old_pb[bind_idx as int].with_dlr(delay_micros),
                ));
                lemma_sum_attempts_update(
                    old_pb,
                    bind_idx as int,
                    old_pb[bind_idx as int].with_dlr(delay_micros),
                );
            }
        }
    }

    /// Record the coarse outcome of a textual receipt: exactly one of the
    /// delivered, failed or unknown counters advances, in that priority.
    pub fn record_dlr_status(&mut self, bind_idx: usize, delivered: bool, failed: bool)
        requires
            old(self).wf(),
            bind_idx < old(self).per_bind@.len() ==> old(self).per_bind@[bind_idx as int].status_target(
                delivered,
                failed,
            ) < u64::MAX,
        ensures
            final(self).wf(),
            old(self).le(*final(self)),
            final(self).total_attempts == old(self).total_attempts,
            final(self).total_success == old(self).total_success,
            final(self).total_error == old(self).total_error,
            final(self).total_latency_micros == old(self).total_latency_micros,
            bind_idx < old(self).per_bind@.len() ==> final(self).per_bind@ == old(
                self,
            ).per_bind@.update(bind_idx as int, old(self).per_bind@[bind_idx as int].with_status(delivered, failed)),
            bind_idx >= old(self).per_bind@.len() ==> final(self).per_bind@ == old(self).per_bind@,
    {
        if bind_idx < self.per_bind.len() {
            let ghost old_pb = self.per_bind@;
            let slot = &mut self.per_bind[bind_idx];
            if delivered {
                slot.dlr_delivered = slot.dlr_delivered + 1;
            } else if failed {
                slot.dlr_failed = slot.dlr_failed + 1;
            } else {
                slot.dlr_unknown = slot.dlr_unknown + 1;
            }
            proof {
                assert(self.per_bind@ =~= old_pb.update(
                    bind_idx as int,
                    old_pb[bind_idx as int].with_status(delivered, failed),
                ));
                lemma_sum_attempts_update(
                    old_pb,
                    bind_idx as int,
                    old_pb[bind_idx as int].with_status(delivered, failed),
                );
            }
        }
    }

    /// Record the fine-grained message state of a receipt: exactly one
    /// per-state counter advances, per the state table.
    pub fn record_dlr_state(&mut self, bind_idx: usize, state: DlrState)
        requires
            old(self).wf(),
            bind_idx < old(self).per_bind@.len() ==> old(self).per_bind@[bind_idx as int].state_target(
                state,
            ) < u64::MAX,
        ensures
            final(self).wf(),
            old(self).le(*final(self)),
            final(self).total_attempts == old(self).total_attempts,
            final(self).total_success == old(self).total_success,
            final(self).total_error == old(self).total_error,
            final(self).total_latency_micros == old(self).total_latency_micros,
            bind_idx < old(self).per_bind@.len() ==> final(self).per_bind@ == old(
                self,
            ).per_bind@.update(bind_idx as int, old(self).per_bind@[bind_idx as int].with_state(state)),
            bind_idx >= old(self).per_bind@.len() ==> final(self).per_bind@ == old(self).per_bind@,
    {
        if bind_idx < self.per_bind.len() {
            let ghost old_pb = self.per_bind@;
            let slot = &mut self.per_bind[bind_idx];
            match state {
                DlrState::Enroute => {
                    slot.dlr_enroute = slot.dlr_enroute + 1;
                },
                DlrState::Delivered => {
                    slot.dlr_delivered = slot.dlr_delivered + 1;
                },
                DlrState::Expired => {
                    slot.dlr_expired = slot.dlr_expired + 1;
                },
                DlrState::Deleted => {
                    slot.dlr_deleted = slot.dlr_deleted + 1;
                },
                DlrState::Undeliverable => {
                    slot.dlr_failed = slot.dlr_failed + 1;
                },
                DlrState::Accepted => {
                    slot.dlr_accepted = slot.dlr_accepted + 1;
                },
                DlrState::Rejected => {
                    slot.dlr_failed = slot.dlr_failed + 1;
                },
                _ => {
                    slot.dlr_unknown = slot.dlr_unknown + 1;
                },
            }
            proof {
                assert(self.per_bind@ =~= old_pb.update(
                    bind_idx as int,
                    old_pb[bind_idx as int].with_state(state),
                ));
                lemma_sum_attempts_update(
                    old_pb,
                    bind_idx as int,
                    old_pb[bind_idx as int].with_state(state),
                );
            }
        }
    }
}

/// A copied-out view of one bind's counters.
#[derive(Clone, Copy, Debug, PartialEq, Eq, Structural)]
pub struct BindSnapshot {
    pub attempts: u64,
    pub ok: u64,
    pub err: u64,
    pub latency_micros: u64,
    pub dlr_received: u64,
    pub dlr_latency_micros: u64,
    pub dlr_delivered: u64,
    pub dlr_failed: u64,
    pub dlr_unknown: u64,
    pub dlr_enroute: u64,
    pub dlr_expired: u64,
    pub dlr_deleted: u64,
    pub dlr_accepted: u64,
}

/// A copied-out view of the whole aggregator.
#[derive(Clone, Debug)]
pub struct MetricsSnapshot {
    pub attempts: u64,
    pub ok: u64,
    pub err: u64,
    pub latency_micros: u64,
    pub per_bind: Vec<BindSnapshot>,
}

/// What a snapshot of one slot holds.
pub open spec fn snapshot_of_bind(b: BindMetrics) -> BindSnapshot {
    BindSnapshot {
        attempts: b.attempts,
        ok: b.success,
        err: b.error,
        latency_micros: b.latency_micros,
        dlr_received: b.dlr_received,
        dlr_latency_micros: b.dlr_latency_micros,
        dlr_delivered: b.dlr_delivered,
        dlr_failed: b.dlr_failed,
        dlr_unknown: b.dlr_unknown,
        dlr_enroute: b.dlr_enroute,
        dlr_expired: b.dlr_expired,
        dlr_deleted: b.dlr_deleted,
        dlr_accepted: b.dlr_accepted,
    }
}

impl Metrics {
    /// Copy every counter out.  Consumers derive averages and rates from
    /// these plain sums; the aggregator never stores a derived quantity.
    pub fn snapshot(&self) -> (r: MetricsSnapshot)
        ensures
            r.attempts == self.total_attempts,
            r.ok == self.total_success,
            r.err == self.total_error,
            r.latency_micros == self.total_latency_micros,
            r.per_bind@.len() == self.per_bind@.len(),
            forall|i: int|
                0 <= i < self.per_bind@.len() ==> r.per_bind@[i] == snapshot_of_bind(
                    #[trigger] self.per_bind@[i],
                ),
    {
        let mut per_bind: Vec<BindSnapshot> = Vec::new();
        let mut i: usize = 0;
        while i < self.per_bind.len()
            invariant
                i <= self.per_bind@.len(),
                per_bind@.len() == i,
                forall|j: int|
                    0 <= j < i ==> per_bind@[j] == snapshot_of_bind(#[trigger] self.per_bind@[j]),
            decreases self.per_bind@.len() - i,
        {
            let b = &self.per_bind[i];
            per_bind.push(
                BindSnapshot {
                    attempts: b.attempts,
                    ok: b.success,
                    err: b.error,
                    latency_micros: b.latency_micros,
                    dlr_received: b.dlr_received,
                    dlr_latency_micros: b.dlr_latency_micros,
                    dlr_delivered: b.dlr_delivered,
                    dlr_failed: b.dlr_failed,
                    dlr_unknown: b.dlr_unknown,
                    dlr_enroute: b.dlr_enroute,
                    dlr_expired: b.dlr_expired,
                    dlr_deleted: b.dlr_deleted,
                    dlr_accepted: b.dlr_accepted,
                },
            );
            i += 1;
        }
        MetricsSnapshot {
            attempts: self.total_attempts,
            ok: self.total_success,
            err: self.total_error,
            latency_micros: self.total_latency_micros,
            per_bind,
        }
    }
}

/// Counters only ever grow: the pointwise order between aggregators is
/// transitive, so a snapshot taken at any earlier point is dominated by any
/// later one, however many recording steps lie between them.
pub proof fn lemma_counters_monotone_trans(a: Metrics, b: Metrics, c: Metrics)
    requires
        a.le(b),
        b.le(c),
    ensures
        a.le(c),
{
    assert forall|i: int| 0 <= i < a.per_bind@.len() implies (#[trigger] a.per_bind@[i]).le(
        c.per_bind@[i],
    ) by {
        assert(a.per_bind@[i].le(b.per_bind@[i]));
        assert(b.per_bind@[i].le(c.per_bind@[i]));
    }
}

/// One recording step of the aggregator: the exact effect of one of the
/// five recording operations on a well-formed aggregator that has room for
/// one more event.
pub open spec fn record_step(a: Metrics, b: Metrics) -> bool {
    &&& a.wf()
    &&& b.per_bind@.len() == a.per_bind@.len()
    &&& ({
        ||| (exists|idx: int, lat: u64|
            {
                &&& a.total_attempts < u64::MAX
                &&& b.total_attempts == a.total_attempts + 1
                &&& b.total_success == a.total_success + 1
                &&& b.total_error == a.total_error
                &&& b.total_latency_micros == sat_add(a.total_latency_micros, lat)
                &&& (0 <= idx < a.per_bind@.len() ==> b.per_bind@ == #[trigger] a.per_bind@.update(
                    idx,
                    a.per_bind@[idx].with_success(lat),
                ))
                &&& (!(0 <= idx < a.per_bind@.len()) ==> b.per_bind@ == a.per_bind@)
            })
        ||| (exists|idx: int, lat: u64|
            {
                &&& a.total_attempts < u64::MAX
                &&& b.total_attempts == a.total_attempts + 1
                &&& b.total_success == a.total_success
                &&& b.total_error == a.total_error + 1
                &&& b.total_latency_micros == sat_add(a.total_latency_micros, lat)
                &&& (0 <= idx < a.per_bind@.len() ==> b.per_bind@ == #[trigger] a.per_bind@.update(
                    idx,
                    a.per_bind@[idx].with_error(lat),
                ))
                &&& (!(0 <= idx < a.per_bind@.len()) ==> b.per_bind@ == a.per_bind@)
            })
        ||| (exists|idx: int, delay: u64|
            {
                &&& b.total_attempts == a.total_attempts
                &&& b.total_success == a.total_success
                &&& b.total_error == a.total_error
                &&& b.total_latency_micros == a.total_latency_micros
                &&& (0 <= idx < a.per_bind@.len() ==> a.per_bind@[idx].dlr_received < u64::MAX
                    && b.per_bind@ == #[trigger] a.per_bind@.update(
                    idx,
                    a.per_bind@[idx].with_dlr(delay),
                ))
                &&& (!(0 <= idx < a.per_bind@.len()) ==> b.per_bind@ == a.per_bind@)
            })
        ||| (exists|idx: int, delivered: bool, failed: bool|
            {
                &&& b.total_attempts == a.total_attempts
                &&& b.total_success == a.total_success
                &&& b.total_error == a.total_error
                &&& b.total_latency_micros == a.total_latency_micros
                &&& (0 <= idx < a.per_bind@.len() ==> a.per_bind@[idx].status_target(
                    delivered,
                    failed,
                ) < u64::MAX && b.per_bind@ == #[trigger] a.per_bind@.update(
                    idx,
                    a.per_bind@[idx].with_status(delivered, failed),
                ))
                &&& (!(0 <= idx < a.per_bind@.len()) ==> b.per_bind@ == a.per_bind@)
            })
        ||| (exists|idx: int, state: DlrState|
            {
                &&& b.total_attempts == a.total_attempts
                &&& b.total_success == a.total_success
                &&& b.total_error == a.total_error
                &&& b.total_latency_micros == a.total_latency_micros
                &&& (0 <= idx < a.per_bind@.len() ==> a.per_bind@[idx].state_target(
                    state,
                ) < u64::MAX && b.per_bind@ == #[trigger] a.per_bind@.update(
                    idx,
                    a.per_bind@[idx].with_state(state),
                ))
                &&& (!(0 <= idx < a.per_bind@.len()) ==> b.per_bind@ == a.per_bind@)
            })
    })
}

/// One recording step only moves counters forward.
pub proof fn lemma_record_step_monotone(a: Metrics, b: Metrics)
    requires
        record_step(a, b),
    ensures
        a.le(b),
{
    assert forall|i: int| 0 <= i < a.per_bind@.len() implies (#[trigger] a.per_bind@[i]).le(
        b.per_bind@[i],
    ) by {
        if a.per_bind@ =~= b.per_bind@ {
        } else {
            lemma_sum_attempts_bound(a.per_bind@, i);
        }
    }
}

/// Every counter only ever grows: along any chain of aggregator states in
/// which each state follows from its predecessor by one recording step,
/// every counter of the first state is dominated by the last, so any
/// earlier snapshot is pointwise at most any later one.
pub proof fn lemma_chain_monotone(chain: Seq<Metrics>)
    requires
        chain.len() > 0,
        forall|i: int| 0 <= i < chain.len() - 1 ==> record_step(#[trigger] chain[i], chain[i + 1]),
    ensures
        chain[0].le(chain[chain.len() - 1]),
    decreases chain.len(),
{
    if chain.len() == 1 {
        assert forall|i: int| 0 <= i < chain[0].per_bind@.len() implies (
        #[trigger] chain[0].per_bind@[i]).le(chain[0].per_bind@[i]) by {}
    } else {
        lemma_record_step_monotone(chain[0], chain[1]);
        let rest = chain.drop_first();
        assert forall|i: int| 0 <= i < rest.len() - 1 implies record_step(
            #[trigger] rest[i],
            rest[i + 1],
        ) by {
            assert(rest[i] == chain[i + 1]);
            assert(rest[i + 1] == chain[i + 2]);
        }
        lemma_chain_monotone(rest);
        lemma_counters_monotone_trans(chain[0], chain[1], chain[chain.len() - 1]);
    }
}

/// Conservation of attempts: in a well-formed aggregator every attempt is
/// accounted as exactly one success or one error, both in the totals and in
/// each bind's slot.
pub proof fn lemma_success_error_conservation(m: Metrics, bind_idx: int)
    requires
        m.wf(),
    ensures
        m.total_attempts == m.total_success + m.total_error,
        m.bind(bind_idx).attempts == m.bind(bind_idx).success + m.bind(bind_idx).error,
{
}

} // verus!
