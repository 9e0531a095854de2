//! The brute-force detector: counts the recent authentication failures of
//! each address and raises an alert when they reach a threshold.

use crate::address::{AddressMap, IpAddress};
use crate::alert::{alert_about, alert_view, Alert, AlertView, Severity};
use crate::event::{EventView, LogEvent};
use crate::rules::auth::{is_auth_failure, mentions_auth_failure};
use crate::text::{append_numeral, numeral};
use crate::time::{clock_now, time_or, Timestamp, NANOS_PER_SEC};
use std::collections::VecDeque;
use vstd::prelude::*;

verus! {

/// After an alert for an address, no further alert is raised for it until
/// this many nanoseconds have passed: five minutes.
pub const COOLDOWN_NANOS: i128 = 300_000_000_000;

/// What the detector remembers of one address.
pub struct BruteForceState {
    recent_failures: VecDeque<Timestamp>,
    last_alert_at: Option<Timestamp>,
}

/// What the detector remembers of one address, as plain values.
pub struct StateView {
    /// The times of the failures still counted, in the order they were seen.
    pub recent_failures: Seq<Timestamp>,
    /// The time of the last alert raised for the address.
    pub last_alert_at: Option<Timestamp>,
}

impl View for BruteForceState {
    type V = StateView;

    closed spec fn view(&self) -> StateView {
        StateView { recent_failures: self.recent_failures@, last_alert_at: self.last_alert_at }
    }
}

/// The detector as plain values.
pub struct DetectorView {
    /// Failures within the window that raise an alert.
    pub threshold: nat,
    /// Length of the window, in seconds.
    pub window_secs: nat,
    /// What is remembered of each address seen so far.
    pub states: Map<IpAddress, StateView>,
}

/// What is remembered of an address that was never seen.
pub open spec fn unseen() -> StateView {
    StateView { recent_failures: Seq::empty(), last_alert_at: None }
}

/// What the detector remembers of `address`.
pub open spec fn state_of(d: DetectorView, address: IpAddress) -> StateView {
    if d.states.contains_key(address) {
        d.states[address]
    } else {
        unseen()
    }
}

/// `queue` without the entries at its front that lie before `cutoff`. Pruning
/// stops at the first entry that does not.
pub open spec fn prune(queue: Seq<Timestamp>, cutoff: int) -> Seq<Timestamp>
    decreases queue.len(),
{
    if queue.len() > 0 && queue[0].instant() < cutoff {
        prune(queue.drop_first(), cutoff)
    } else {
        queue
    }
}

/// The failures counted for an address once one more is seen at `at`: the
/// new one is added at the back, then those older than the window are pruned.
pub open spec fn recent_after(state: StateView, at: Timestamp, window_secs: nat) -> Seq<
    Timestamp,
> {
    prune(state.recent_failures.push(at), at.instant() - window_secs * NANOS_PER_SEC)
}

/// An alert was raised for the address less than five minutes before `at`.
pub open spec fn cooling_down(state: StateView, at: Timestamp) -> bool {
    state.last_alert_at matches Some(last) && at.instant() - last.instant() < COOLDOWN_NANOS
}

/// A failure at `at` raises an alert for the address: the failures then
/// counted reach the threshold, and the address is not cooling down.
pub open spec fn fires(state: StateView, at: Timestamp, threshold: nat, window_secs: nat) -> bool {
    recent_after(state, at, window_secs).len() >= threshold && !cooling_down(state, at)
}

/// What is remembered of an address after one more failure at `at`.
pub open spec fn after_failure(
    state: StateView,
    at: Timestamp,
    threshold: nat,
    window_secs: nat,
) -> StateView {
    StateView {
        recent_failures: recent_after(state, at, window_secs),
        last_alert_at: if fires(state, at, threshold, window_secs) {
            Some(at)
        } else {
            state.last_alert_at
        },
    }
}

/// A failure of `address` at `at` raises an alert.
pub open spec fn alert_due(d: DetectorView, address: IpAddress, at: Timestamp) -> bool {
    fires(state_of(d, address), at, d.threshold, d.window_secs)
}

/// The detector after a failure of `address` at `at`. Nothing changes for
/// any other address.
pub open spec fn record(d: DetectorView, address: IpAddress, at: Timestamp) -> DetectorView {
    DetectorView {
        states: d.states.insert(
            address,
            after_failure(state_of(d, address), at, d.threshold, d.window_secs),
        ),
        ..d
    }
}

/// The message of a brute-force alert.
pub open spec fn brute_message(failures: nat, window_secs: nat) -> Seq<char> {
    "Possible brute-force attack: "@ + numeral(failures, 10) + " failures in "@ + numeral(
        window_secs,
        10,
    ) + " seconds"@
}

/// Whether the detector takes note of the event: the line reports a failed
/// authentication and an address was read from it.
pub open spec fn counts(ev: EventView) -> bool {
    is_auth_failure(ev.raw) && ev.ip is Some
}

/// What the detector does with an event whose time, where the event has
/// none, is `clock`: the detector afterwards, and the alert raised.
pub open spec fn check_result(d: DetectorView, ev: EventView, clock: Timestamp) -> (
    DetectorView,
    Option<AlertView>,
) {
    if counts(ev) {
        let address = ev.ip.unwrap();
        let at = time_or(ev.ts, clock);
        (
            record(d, address, at),
            if alert_due(d, address, at) {
                Some(
                    alert_about(
                        "brute_force"@,
                        Severity::High,
                        ev,
                        at,
                        brute_message(
                            recent_after(state_of(d, address), at, d.window_secs).len(),
                            d.window_secs,
                        ),
                    ),
                )
            } else {
                None
            },
        )
    } else {
        (d, None)
    }
}

/// Threshold and window of a detector. Both are positive.
pub struct Limits {
    threshold: usize,
    window_secs: i64,
}

impl Limits {
    #[verifier::type_invariant]
    spec fn positive(self) -> bool {
        self.threshold >= 1 && self.window_secs >= 1
    }

    /// Failures within the window that raise an alert.
    pub closed spec fn spec_threshold(self) -> nat {
        self.threshold as nat
    }

    /// Length of the window, in seconds.
    pub closed spec fn spec_window_secs(self) -> nat {
        self.window_secs as nat
    }

    /// Limits of `threshold` failures within `window_secs` seconds.
    pub fn new(threshold: usize, window_secs: i64) -> (l: Self)
        requires
            threshold >= 1,
            window_secs >= 1,
        ensures
            l.spec_threshold() == threshold,
            l.spec_window_secs() == window_secs,
    {
        Limits { threshold, window_secs }
    }

    /// Failures within the window that raise an alert; at least one.
    pub fn threshold(&self) -> (n: usize)
        ensures
            n == self.spec_threshold(),
            n >= 1,
    {
        proof {
            use_type_invariant(self);
        }
        self.threshold
    }

    /// Length of the window in seconds; at least one.
    pub fn window_secs(&self) -> (n: i64)
        ensures
            n == self.spec_window_secs(),
            n >= 1,
    {
        proof {
            use_type_invariant(self);
        }
        self.window_secs
    }
}

/// Detects bursts of authentication failures from one address.
pub struct BruteForceDetector {
    limits: Limits,
    states: AddressMap<BruteForceState>,
}

impl View for BruteForceDetector {
    type V = DetectorView;

    closed spec fn view(&self) -> DetectorView {
        DetectorView {
            threshold: self.limits.spec_threshold(),
            window_secs: self.limits.spec_window_secs(),
            states: self.states@.map_values(|s: BruteForceState| s@),
        }
    }
}

impl BruteForceDetector {
    /// A detector that has seen nothing. It alerts on `threshold` failures of
    /// one address within `window_secs` seconds; both are positive.
    pub fn new(threshold: usize, window_secs: i64) -> (d: Self)
        requires
            threshold >= 1,
            window_secs >= 1,
        ensures
            d@ == (DetectorView {
                threshold: threshold as nat,
                window_secs: window_secs as nat,
                states: Map::empty(),
            }),
    {
        let d = BruteForceDetector {
            limits: Limits::new(threshold, window_secs),
            states: AddressMap::new(),
        };
        assert(d@.states =~= Map::empty());
        d
    }

    /// Failures within the window that raise an alert; at least one.
    pub fn threshold(&self) -> (n: usize)
        ensures
            n == self@.threshold,
            n >= 1,
    {
        self.limits.threshold()
    }

    /// Length of the window in seconds; at least one.
    pub fn window_secs(&self) -> (n: i64)
        ensures
            n == self@.window_secs,
            n >= 1,
    {
        self.limits.window_secs()
    }

    /// Counts one failure of `address` at `at`. Returns the number of failures
    /// then counted where that raises an alert.
    fn record_failure(&mut self, address: IpAddress, at: Timestamp) -> (count: Option<usize>)
        ensures
            final(self)@ == record(old(self)@, address, at),
            count is Some == alert_due(old(self)@, address, at),
            count matches Some(n) ==> n == recent_after(
                state_of(old(self)@, address),
                at,
                old(self)@.window_secs,
            ).len(),
    {
        let ghost before = self@;
        let mut state = match self.states.remove(&address) {
            Some(s) => s,
            None => BruteForceState { recent_failures: VecDeque::new(), last_alert_at: None },
        };
        assert(state@ == state_of(before, address));
        let ghost was = state@;
        state.recent_failures.push_back(at);
        let cutoff: i128 = at.nanos_since_epoch() - (self.limits.window_secs() as i128)
            * NANOS_PER_SEC;
        let ghost pushed = state.recent_failures@;
        while state.recent_failures.len() > 0 && state.recent_failures[0].nanos_since_epoch()
            < cutoff
            invariant
                prune(state.recent_failures@, cutoff as int) == prune(pushed, cutoff as int),
                state.last_alert_at == was.last_alert_at,
            decreases state.recent_failures.len(),
        {
            let ghost longer = state.recent_failures@;
            let _ = state.recent_failures.pop_front();
            assert(state.recent_failures@ =~= longer.drop_first());
        }
        let n = state.recent_failures.len();
        assert(state.recent_failures@ == recent_after(was, at, before.window_secs));
        let mut fired = false;
        if n >= self.limits.threshold() {
            let cooling = match state.last_alert_at {
                Some(last) => at.nanos_since(&last) < COOLDOWN_NANOS,
                None => false,
            };
            if !cooling {
                state.last_alert_at = Some(at);
                fired = true;
            }
        }
        let ghost kept = state@;
        self.states.insert(address, state);
        assert(self@.states =~= before.states.insert(address, kept));
        if fired {
            Some(n)
        } else {
            None
        }
    }

    /// The detector's rule, with `now` as the time of evaluation.
    ///
    /// An event that does not report a failed authentication, or has no
    /// address, leaves the detector as it was.
    pub fn check_at(&mut self, ev: &LogEvent, now: Timestamp) -> (r: Option<Alert>)
        ensures
            (final(self)@, alert_view(r)) == check_result(old(self)@, ev@, now),
            !counts(ev@) ==> final(self)@ == old(self)@ && r is None,
    {
        if !mentions_auth_failure(ev.raw.as_str()) {
            return None;
        }
        let address = match ev.ip {
            Some(a) => a,
            None => { return None; },
        };
        let at = match ev.ts {
            Some(t) => t,
            None => now,
        };
        self.raise(ev, address, at)
    }

    /// The detector's rule: a `High` alert when the failures of the event's
    /// address within the window reach the threshold, at most once in five
    /// minutes for one address. An event without a time gets the clock's.
    pub fn check(&mut self, ev: &LogEvent) -> (r: Option<Alert>)
        ensures
            exists|clock: Timestamp|
                (final(self)@, alert_view(r)) == check_result(old(self)@, ev@, clock),
            ev.ts matches Some(t) ==> (final(self)@, alert_view(r)) == check_result(
                old(self)@,
                ev@,
                t,
            ),
            !counts(ev@) ==> final(self)@ == old(self)@ && r is None,
    {
        let ghost zero = Timestamp { secs: 0, nanos: 0 };
        if !mentions_auth_failure(ev.raw.as_str()) {
            assert((self@, alert_view(None)) == check_result(old(self)@, ev@, zero));
            return None;
        }
        let address = match ev.ip {
            Some(a) => a,
            None => {
                assert((self@, alert_view(None)) == check_result(old(self)@, ev@, zero));
                return None;
            },
        };
        let at = match ev.ts {
            Some(t) => t,
            None => clock_now(),
        };
        let r = self.raise(ev, address, at);
        assert((self@, alert_view(r)) == check_result(old(self)@, ev@, at));
        r
    }

    /// Counts the failure that `ev` reports for `address` at `at`, and raises
    /// the alert where one is due.
    fn raise(&mut self, ev: &LogEvent, address: IpAddress, at: Timestamp) -> (r: Option<Alert>)
        requires
            ev.ip == Some(address),
        ensures
            final(self)@ == record(old(self)@, address, at),
            alert_view(r) == if alert_due(old(self)@, address, at) {
                Some(
                    alert_about(
                        "brute_force"@,
                        Severity::High,
                        ev@,
                        at,
                        brute_message(
                            recent_after(
                                state_of(old(self)@, address),
                                at,
                                old(self)@.window_secs,
                            ).len(),
                            old(self)@.window_secs,
                        ),
                    ),
                )
            } else {
                None
            },
    {
        match self.record_failure(address, at) {
            Some(n) => {
                let mut message = "Possible brute-force attack: ".to_owned();
                append_numeral(&mut message, n as u128, 10);
                message.append(" failures in ");
                append_numeral(&mut message, self.limits.window_secs() as u128, 10);
                message.append(" seconds");
                assert(message@ =~= brute_message(n as nat, self@.window_secs));
                Some(Alert::about("brute_force", Severity::High, ev, at, message))
            },
            None => None,
        }
    }
}

} // verus!
