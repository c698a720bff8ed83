//! Token-bucket pacing and the bounded in-flight window of the submit loop.
//!
//! The loop ticks one hundred times per wall-clock second.  Each tick grants
//! `max_tps / 100` submissions and accumulates the division remainder; every
//! time the accumulated remainder reaches a full tick's worth, one extra
//! grant is released, so that over any one hundred consecutive ticks exactly
//! `max_tps` grants are produced.  Grants are spent launching submissions
//! only while the in-flight window has room; unspent grants are held.

use vstd::prelude::*;
use vstd::arithmetic::div_mod::lemma_fundamental_div_mod;

verus! {

/// Grants released by one tick when the remainder accumulator holds `rem`.
pub open spec fn tick_grant(rem: u32, tps: u32) -> int {
    if rem + tps % 100 >= 100 {
        tps / 100 + 1
    } else {
        (tps / 100) as int
    }
}

/// The remainder accumulator after one tick.
pub open spec fn tick_rem(rem: u32, tps: u32) -> u32 {
    if rem + tps % 100 >= 100 {
        (rem + tps % 100 - 100) as u32
    } else {
        (rem + tps % 100) as u32
    }
}

/// The remainder accumulator after `k` ticks.
pub open spec fn rem_after(tps: u32, rem: u32, k: nat) -> u32
    decreases k,
{
    if k == 0 {
        rem
    } else {
        rem_after(tps, tick_rem(rem, tps), (k - 1) as nat)
    }
}

/// Total grants released over `k` ticks.
pub open spec fn grants_total(tps: u32, rem: u32, k: nat) -> int
    decreases k,
{
    if k == 0 {
        0
    } else {
        tick_grant(rem, tps) + grants_total(tps, tick_rem(rem, tps), (k - 1) as nat)
    }
}

/// Grant conservation: one hundred times the grants released over `k` ticks,
/// plus the remainder left in the accumulator, is exactly `k * max_tps` plus
/// the starting remainder.  The bucket neither loses nor invents rate.
pub proof fn lemma_grants_conservation(tps: u32, rem: u32, k: nat)
    requires
        rem < 100,
    ensures
        rem_after(tps, rem, k) < 100,
        100 * grants_total(tps, rem, k) + rem_after(tps, rem, k) == k * (tps as int) + rem,
    decreases k,
{
    lemma_fundamental_div_mod(tps as int, 100);
    if k > 0 {
        lemma_grants_conservation(tps, tick_rem(rem, tps), (k - 1) as nat);
        assert((k - 1) as nat * (tps as int) == k * (tps as int) - tps) by (nonlinear_arith)
            requires
                k >= 1,
        ;
    }
}

/// Over any one hundred consecutive ticks the bucket grants exactly
/// `max_tps` submissions, whatever remainder it starts from.
pub proof fn lemma_grants_per_second(tps: u32, rem: u32)
    requires
        rem < 100,
    ensures
        grants_total(tps, rem, 100) == tps,
{
    lemma_grants_conservation(tps, rem, 100);
}

/// Over any whole number of seconds the bucket grants exactly that many
/// seconds' worth of the rate.
pub proof fn lemma_grants_per_seconds(tps: u32, rem: u32, seconds: nat)
    requires
        rem < 100,
    ensures
        grants_total(tps, rem, 100 * seconds) == seconds * (tps as int),
{
    lemma_grants_conservation(tps, rem, 100 * seconds);
    assert((100 * seconds) * (tps as int) == 100 * (seconds * (tps as int)))
        by (nonlinear_arith);
}

/// Sum of a sequence of per-tick launch counts.
pub open spec fn sum(s: Seq<int>) -> int
    decreases s.len(),
{
    if s.len() == 0 {
        0
    } else {
        s[0] + sum(s.drop_first())
    }
}

/// A per-tick launch schedule is feasible when every tick launches no more
/// than the allowance it holds after that tick's grant; the allowance
/// carries what is left to the next tick.
pub open spec fn feasible(tps: u32, rem: u32, allowance: int, launches: Seq<int>) -> bool
    decreases launches.len(),
{
    if launches.len() == 0 {
        true
    } else {
        &&& 0 <= launches[0] <= allowance + tick_grant(rem, tps)
        &&& feasible(
            tps,
            tick_rem(rem, tps),
            allowance + tick_grant(rem, tps) - launches[0],
            launches.drop_first(),
        )
    }
}

/// A feasible schedule can spend at most the allowance held at the start of
/// the window plus everything the window's ticks grant.
pub proof fn lemma_window_launch_bound(tps: u32, rem: u32, allowance: int, launches: Seq<int>)
    requires
        allowance >= 0,
        feasible(tps, rem, allowance, launches),
    ensures
        sum(launches) <= allowance + grants_total(tps, rem, launches.len()),
    decreases launches.len(),
{
    if launches.len() > 0 {
        lemma_window_launch_bound(
            tps,
            tick_rem(rem, tps),
            allowance + tick_grant(rem, tps) - launches[0],
            launches.drop_first(),
        );
        assert(launches.drop_first().len() == launches.len() - 1);
        assert(grants_total(tps, rem, launches.len()) == tick_grant(rem, tps) + grants_total(
            tps,
            tick_rem(rem, tps),
            (launches.len() - 1) as nat,
        ));
    }
}

/// Rate limit over a one-second window: a feasible schedule of one hundred
/// ticks launches at most `max_tps` plus the allowance held when the window
/// opened.  In particular, whenever that held allowance is at most the
/// in-flight ceiling, the window launches at most `max_tps + max_inflight`
/// new submissions.
pub proof fn lemma_submissions_per_second(
    tps: u32,
    rem: u32,
    allowance: int,
    max_inflight: int,
    launches: Seq<int>,
)
    requires
        rem < 100,
        launches.len() == 100,
        0 <= allowance <= max_inflight,
        feasible(tps, rem, allowance, launches),
    ensures
        sum(launches) <= allowance + tps,
        sum(launches) <= max_inflight + tps,
{
    lemma_window_launch_bound(tps, rem, allowance, launches);
    lemma_grants_per_second(tps, rem);
}

/// Rate limit over any window of whole seconds: a feasible schedule of
/// `100 * seconds` ticks launches at most that many seconds' worth of the
/// rate plus the allowance held when the window opened.
pub proof fn lemma_submissions_per_window(
    tps: u32,
    rem: u32,
    allowance: int,
    max_inflight: int,
    launches: Seq<int>,
    seconds: nat,
)
    requires
        rem < 100,
        launches.len() == 100 * seconds,
        0 <= allowance <= max_inflight,
        feasible(tps, rem, allowance, launches),
    ensures
        sum(launches) <= seconds * (tps as int) + max_inflight,
{
    lemma_window_launch_bound(tps, rem, allowance, launches);
    lemma_grants_per_seconds(tps, rem, seconds);
}

/// The submit window of one bind: the token bucket and the in-flight count.
#[derive(Clone, Copy, Debug, PartialEq, Eq, Structural)]
pub struct SubmitWindow {
    pub max_tps: u32,
    pub max_inflight: usize,
    pub allowance: u32,
    pub remainder: u32,
    pub inflight: usize,
}

/// The bounded in-flight window: a well-formed window never holds more
/// outstanding submissions than its ceiling, and every operation below
/// keeps it well-formed.
pub proof fn lemma_inflight_bounded(w: SubmitWindow)
    requires
        w.wf(),
    ensures
        w.inflight <= w.max_inflight,
{
}

impl SubmitWindow {
    /// Window invariant: the in-flight count never exceeds the ceiling, and
    /// the remainder accumulator never reaches a full tick's worth.
    pub open spec fn wf(self) -> bool {
        &&& self.max_inflight >= 1
        &&& self.inflight <= self.max_inflight
        &&& self.remainder < 100
    }

    /// A fresh window: nothing in flight, an empty bucket.
    pub fn new(max_tps: u32, max_inflight: usize) -> (r: SubmitWindow)
        requires
            max_inflight >= 1,
        ensures
            r.wf(),
            r.max_tps == max_tps,
            r.max_inflight == max_inflight,
            r.allowance == 0,
            r.remainder == 0,
            r.inflight == 0,
    {
        SubmitWindow { max_tps, max_inflight, allowance: 0, remainder: 0, inflight: 0 }
    }

    /// Unthrottled start: fill the window to its ceiling; the caller
    /// launches the returned number of submissions.
    pub fn initial_fill(&mut self) -> (n: usize)
        requires
            old(self).wf(),
        ensures
            final(self).wf(),
            n == old(self).max_inflight - old(self).inflight,
            final(self).inflight == final(self).max_inflight,
            *final(self) == (SubmitWindow { inflight: final(self).max_inflight, ..*old(self) }),
    {
        let n = self.max_inflight - self.inflight;
        self.inflight = self.max_inflight;
        n
    }

    /// One submission completed: the window frees one slot.
    pub fn on_completion(&mut self)
        requires
            old(self).wf(),
            old(self).inflight >= 1,
        ensures
            final(self).wf(),
            *final(self) == (SubmitWindow {
                inflight: (old(self).inflight - 1) as usize,
                ..*old(self)
            }),
    {
        self.inflight = self.inflight - 1;
    }

    /// Unthrottled steady state: after a completion, launch one replacement
    /// while capacity is free and the run is not cancelled.
    pub fn refill_one(&mut self, cancelled: bool) -> (launch: bool)
        requires
            old(self).wf(),
        ensures
            final(self).wf(),
            launch == (!cancelled && old(self).inflight < old(self).max_inflight),
            launch ==> *final(self) == (SubmitWindow {
                inflight: (old(self).inflight + 1) as usize,
                ..*old(self)
            }),
            !launch ==> *final(self) == *old(self),
            final(self).inflight <= final(self).max_inflight,
    {
        if !cancelled && self.inflight < self.max_inflight {
            self.inflight = self.inflight + 1;
            true
        } else {
            false
        }
    }

    /// Throttled tick: release this tick's grants into the allowance, then
    /// spend allowance on new launches while the window has room.  Returns
    /// how many submissions the caller launches now.  After the tick either
    /// the allowance is spent or the window is full.
    pub fn on_tick(&mut self) -> (n: usize)
        requires
            old(self).wf(),
            old(self).allowance + tick_grant(old(self).remainder, old(self).max_tps)
                <= u32::MAX,
        ensures
            final(self).wf(),
            final(self).max_tps == old(self).max_tps,
            final(self).max_inflight == old(self).max_inflight,
            final(self).remainder == tick_rem(old(self).remainder, old(self).max_tps),
            n == vstd::math::min(
                old(self).allowance + tick_grant(old(self).remainder, old(self).max_tps),
                old(self).max_inflight - old(self).inflight,
            ),
            n <= old(self).allowance + tick_grant(old(self).remainder, old(self).max_tps),
            final(self).allowance == old(self).allowance + tick_grant(
                old(self).remainder,
                old(self).max_tps,
            ) - n,
            final(self).inflight == old(self).inflight + n,
            final(self).allowance == 0 || final(self).inflight == final(self).max_inflight,
    {
        let step = self.max_tps % 100;
        let base = self.max_tps / 100;
        self.remainder = self.remainder + step;
        let grant: u32 = if self.remainder >= 100 {
            self.remainder = self.remainder - 100;
            base + 1
        } else {
            base
        };
        self.allowance = self.allowance + grant;
        let capacity = self.max_inflight - self.inflight;
        let n: usize = if (self.allowance as usize) < capacity {
            self.allowance as usize
        } else {
            capacity
        };
        self.allowance = self.allowance - (n as u32);
        self.inflight = self.inflight + n;
        n
    }
}

} // verus!
