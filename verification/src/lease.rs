//! The lease by which a node shows that it is alive.
//!
//! The lease is renewed each time a quarter of its duration has passed. A node
//! whose renewals fail is degraded: they are tried again after waits that double
//! with each failure, up to the time between two renewals. The lease is lost
//! after too many failures in a row.
use crate::backoff::{backoff, backoff_wait, law_backoff_doubles};
use crate::cert_rotator::whole_seconds;
use crate::error::KubeletError;
use crate::types::Timestamp;
use vstd::prelude::*;

verus! {

/// The state of a lease.
#[derive(Debug, Clone, Copy, PartialEq, Eq, Structural)]
pub enum LeaseState {
    /// The lease holds.
    Active,
    /// The lease is being renewed.
    Renewing,
    /// Renewals failed and are tried again.
    Degraded { consecutive_failures: u32 },
    /// Too many renewals failed.
    Lost,
}

/// A lease that a node holds.
#[derive(Debug)]
pub struct NodeLease {
    pub node_name: String,
    pub duration_seconds: u32,
    pub renew_time: Timestamp,
}

impl NodeLease {
    pub fn new(node_name: &str, duration_seconds: u32, now: Timestamp) -> (r: Self)
        ensures
            r.node_name@ == node_name@,
            r.duration_seconds == duration_seconds,
            r.renew_time == now,
    {
        NodeLease { node_name: node_name.to_owned(), duration_seconds, renew_time: now }
    }

    /// The time at which the lease is renewed next, in nanoseconds.
    pub open spec fn renewal_due(self) -> int {
        self.renew_time.ns() + (self.duration_seconds / 4) * 1_000_000_000
    }

    /// Whether the lease was not renewed for longer than it lasts.
    pub fn is_expired(&self, now: Timestamp) -> (r: bool)
        ensures
            r == (now.ns() > self.renew_time.ns() + self.duration_seconds * 1_000_000_000),
    {
        now.as_nanos() > self.renew_time.as_nanos() + self.duration_seconds as i128
            * 1_000_000_000
    }

    /// The nanoseconds until the lease is renewed next; negative once that is
    /// overdue.
    pub fn time_until_renewal(&self, now: Timestamp) -> (r: i128)
        ensures
            r == self.renewal_due() - now.ns(),
    {
        self.renew_time.as_nanos() + (self.duration_seconds / 4) as i128 * 1_000_000_000
            - now.as_nanos()
    }

    /// Renews the lease.
    pub fn renew(&mut self, now: Timestamp)
        ensures
            final(self).renew_time == now,
            final(self).node_name == old(self).node_name,
            final(self).duration_seconds == old(self).duration_seconds,
    {
        self.renew_time = now;
    }
}

/// The milliseconds after which a renewal is tried again at the earliest.
pub const FIRST_RETRY_MS: u64 = 100;

/// Renews the lease of a node.
#[derive(Debug)]
pub struct LeaseController {
    pub node_name: String,
    pub duration_seconds: u32,
    /// How many failures in a row lose the lease.
    pub max_retries: u32,
    pub lease: NodeLease,
    pub state: LeaseState,
    /// How many renewals have failed since the last one that succeeded.
    pub failures: u32,
}

/// The lease after a renewal. A success makes it hold. A failure degrades it,
/// or loses it where it is the last in a row that was allowed.
pub open spec fn renewed(
    before: LeaseController,
    success: bool,
    now: Timestamp,
    after: LeaseController,
) -> bool {
    &&& after.node_name == before.node_name
    &&& after.duration_seconds == before.duration_seconds
    &&& after.max_retries == before.max_retries
    &&& after.lease.node_name == before.lease.node_name
    &&& after.lease.duration_seconds == before.lease.duration_seconds
    &&& if success {
        after.state == LeaseState::Active && after.failures == 0 && after.lease.renew_time == now
    } else {
        after.lease.renew_time == before.lease.renew_time && if before.failures + 1
            >= before.max_retries {
            after.state == LeaseState::Lost && after.failures == 0
        } else {
            after.failures == before.failures + 1 && after.state == LeaseState::Degraded {
                consecutive_failures: after.failures,
            }
        }
    }
}

/// The milliseconds between two renewals, and a tenth of a second at least.
pub open spec fn interval_ms(duration_seconds: u32) -> nat {
    if duration_seconds / 4 == 0 {
        FIRST_RETRY_MS as nat
    } else {
        ((duration_seconds / 4) * 1000) as nat
    }
}

/// The milliseconds until the next renewal. After `n` failures in a row they
/// are a tenth of a second doubled `n - 1` times, up to the time between two
/// renewals.
pub open spec fn next_wait(c: LeaseController, now: Timestamp) -> int {
    let secs = whole_seconds(c.lease.renewal_due() - now.ns());
    if c.state == LeaseState::Lost {
        interval_ms(c.duration_seconds) as int
    } else if c.failures > 0 {
        backoff(
            FIRST_RETRY_MS as nat,
            (c.failures - 1) as nat,
            interval_ms(c.duration_seconds),
        ) as int
    } else if secs <= 0 {
        FIRST_RETRY_MS as int
    } else {
        secs * 1000
    }
}

impl LeaseController {
    /// The state shows the failures in a row.
    pub open spec fn wf(self) -> bool {
        match self.state {
            LeaseState::Degraded { consecutive_failures } => consecutive_failures == self.failures
                && 0 < self.failures < self.max_retries,
            LeaseState::Renewing => self.failures < self.max_retries || self.failures == 0,
            _ => self.failures == 0,
        }
    }

    pub fn new(node_name: &str, duration_seconds: u32, max_retries: u32, now: Timestamp) -> (r:
        Self)
        ensures
            r.wf(),
            r.node_name@ == node_name@,
            r.duration_seconds == duration_seconds,
            r.max_retries == max_retries,
            r.lease.node_name@ == node_name@,
            r.lease.duration_seconds == duration_seconds,
            r.lease.renew_time == now,
            r.state == LeaseState::Active,
            r.failures == 0,
    {
        LeaseController {
            node_name: node_name.to_owned(),
            duration_seconds,
            max_retries,
            lease: NodeLease::new(node_name, duration_seconds, now),
            state: LeaseState::Active,
            failures: 0,
        }
    }

    /// Begins a renewal.
    pub fn start_renewal(&mut self)
        requires
            old(self).wf(),
        ensures
            final(self).wf(),
            *final(self) == (LeaseController { state: LeaseState::Renewing, ..*old(self) }),
    {
        self.state = LeaseState::Renewing;
    }

    /// Takes the outcome of a renewal. A success makes the lease hold. A
    /// failure degrades it, or loses it where it is the last in a row that was
    /// allowed.
    pub fn acquire_or_renew(&mut self, outcome: &Result<(), KubeletError>, now: Timestamp)
        requires
            old(self).wf(),
        ensures
            final(self).wf(),
            renewed(*old(self), outcome is Ok, now, *final(self)),
    {
        match outcome {
            Ok(_) => {
                self.lease.renew(now);
                self.state = LeaseState::Active;
                self.failures = 0;
            },
            Err(_) => {
                let failures: u32 = self.failures + 1;
                if failures >= self.max_retries {
                    self.state = LeaseState::Lost;
                    self.failures = 0;
                } else {
                    self.failures = failures;
                    self.state = LeaseState::Degraded { consecutive_failures: failures };
                }
            },
        }
    }

    /// How many milliseconds pass until the next renewal: where renewals have
    /// failed, the wait that their number calls for; where the lease was lost,
    /// the time between two renewals; and else whole seconds until the renewal
    /// is due, and a tenth of a second at least.
    pub fn next_wait_ms(&self, now: Timestamp) -> (r: u128)
        ensures
            r == next_wait(*self, now),
    {
        let interval: u64 = if self.duration_seconds / 4 == 0 {
            FIRST_RETRY_MS
        } else {
            (self.duration_seconds / 4) as u64 * 1000
        };
        if self.state == LeaseState::Lost {
            return interval as u128;
        }
        if self.failures > 0 {
            return backoff_wait(FIRST_RETRY_MS, self.failures - 1, interval) as u128;
        }
        let left: i128 = self.lease.time_until_renewal(now);
        if left < 1_000_000_000 {
            assert(whole_seconds(left as int) <= 0) by {
                if left < 0 {
                    assert((-left) / 1_000_000_000 >= 0);
                }
            }
            FIRST_RETRY_MS as u128
        } else {
            (left / 1_000_000_000) as u128 * 1000
        }
    }

    pub fn current_state(&self) -> (r: LeaseState)
        ensures
            r == self.state,
    {
        self.state
    }

    pub fn current_lease(&self) -> (r: &NodeLease)
        ensures
            *r == self.lease,
    {
        &self.lease
    }
}

/// The state after `n` failures in a row of a lease that held before.
pub open spec fn state_after(max_retries: u32, n: nat) -> LeaseState {
    if n >= max_retries {
        LeaseState::Lost
    } else {
        LeaseState::Degraded { consecutive_failures: n as u32 }
    }
}

/// As many failures in a row as were allowed lose the lease, and fewer only
/// degrade it. `run` holds the lease before the first failure and after each.
pub proof fn law_lease_is_lost_after_max_retries(run: Seq<LeaseController>, n: nat)
    requires
        run.len() > n > 0,
        run[0].failures == 0,
        n <= run[0].max_retries || n == 1,
        forall|i: int|
            0 <= i < n ==> renewed(
                #[trigger] run[i],
                false,
                run[i].lease.renew_time,
                run[i + 1],
            ),
    ensures
        run[n as int].state == state_after(run[0].max_retries, n),
        run[n as int].max_retries == run[0].max_retries,
        n < run[0].max_retries ==> run[n as int].failures == n,
    decreases n,
{
    if n > 1 {
        law_lease_is_lost_after_max_retries(run, (n - 1) as nat);
    }
    assert(renewed(
        run[n - 1],
        false,
        run[n - 1].lease.renew_time,
        run[n as int],
    ));
}

/// A renewal that fails again is waited for twice as long as before, and never
/// for longer than the time between two renewals.
pub proof fn law_retries_back_off(
    before: LeaseController,
    now: Timestamp,
    after: LeaseController,
    earlier: Timestamp,
    later: Timestamp,
)
    requires
        before.wf(),
        before.state is Degraded,
        renewed(before, false, now, after),
    ensures
        after.state is Degraded ==> next_wait(after, later) == ({
            let twice = 2 * next_wait(before, earlier);
            let longest = interval_ms(before.duration_seconds) as int;
            if twice < longest {
                twice
            } else {
                longest
            }
        }),
        next_wait(before, earlier) <= next_wait(after, later) <= interval_ms(
            before.duration_seconds,
        ),
{
    law_backoff_doubles(
        FIRST_RETRY_MS as nat,
        (before.failures - 1) as nat,
        interval_ms(before.duration_seconds),
    );
}

/// A lease is to be renewed after a quarter of its time.
pub proof fn law_renewal_is_due_after_a_quarter(l: NodeLease, quarter: u32)
    requires
        l.duration_seconds == 4 * quarter,
    ensures
        l.renewal_due() == l.renew_time.ns() + quarter * 1_000_000_000,
        quarter > 0 ==> interval_ms(l.duration_seconds) == quarter * 1000,
{
}

/// A renewal that succeeds makes the lease hold from then on and forgets the
/// failures; one that fails leaves the lease as it was and counts.
pub proof fn law_renewals_count(
    before: LeaseController,
    success: bool,
    now: Timestamp,
    after: LeaseController,
)
    requires
        renewed(before, success, now, after),
    ensures
        success ==> after.state is Active && after.failures == 0 && after.lease.renew_time == now,
        !success ==> !(after.state is Active) && !(after.state is Renewing)
            && after.lease.renew_time == before.lease.renew_time,
        !success && before.failures + 1 < before.max_retries ==> after.failures == before.failures
            + 1 && after.state is Degraded && after.state->consecutive_failures == before.failures
            + 1,
        !success && before.failures + 1 >= before.max_retries ==> after.state is Lost,
        after.lease.node_name == before.lease.node_name,
        after.max_retries == before.max_retries,
{
}

/// While renewals succeed, the next one is waited for until it is due; a lease
/// that was lost is tried for again at the usual interval.
pub proof fn law_waits_follow_the_state(c: LeaseController, now: Timestamp, seconds: nat)
    requires
        c.lease.renewal_due() == now.ns() + seconds * 1_000_000_000,
        seconds > 0,
    ensures
        c.state is Active && c.failures == 0 ==> next_wait(c, now) == seconds * 1000,
        c.state is Lost ==> next_wait(c, now) == interval_ms(c.duration_seconds),
{
    assert(whole_seconds((seconds as int) * 1_000_000_000) == seconds);
}

/// A lease that is due, or will be within the second, is renewed at once.
pub proof fn law_due_leases_are_renewed_at_once(c: LeaseController, now: Timestamp)
    requires
        c.lease.renewal_due() - now.ns() < 1_000_000_000,
        c.state is Active,
        c.failures == 0,
    ensures
        next_wait(c, now) == 100,
{
}

/// Renewing a lease changes neither whose it is nor how long it lasts; one that
/// is lost starts counting failures anew.
pub proof fn law_renewal_keeps_the_lease(
    before: LeaseController,
    success: bool,
    now: Timestamp,
    after: LeaseController,
)
    requires
        renewed(before, success, now, after),
    ensures
        after.node_name == before.node_name,
        after.duration_seconds == before.duration_seconds,
        after.lease.duration_seconds == before.lease.duration_seconds,
        !success && before.failures + 1 >= before.max_retries ==> after.failures == 0,
{
}

} // verus!
