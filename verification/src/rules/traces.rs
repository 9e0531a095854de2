//! What holds of the brute-force detector over a whole sequence of failures.
//!
//! The detector's contracts speak of one failure at a time, through
//! [`record`] and [`alert_due`]. Here a sequence of failures is replayed
//! through the same two functions, and the detector's promises on bursts,
//! cooldown and independence of addresses are proved of the outcome.
//!
//! Some of the promises are stated of the failures of one address, over
//! [`run`] and [`alerts_in`]. By [`lemma_addresses_are_independent`] they
//! hold of that address in any sequence of failures of many addresses.

use crate::address::IpAddress;
use crate::rules::brute::{
    after_failure, alert_due, cooling_down, fires, prune, recent_after, record, state_of, unseen,
    DetectorView, StateView, COOLDOWN_NANOS,
};
use crate::time::{Timestamp, NANOS_PER_SEC};
use vstd::prelude::*;

verus! {

/// One authentication failure: where it came from, and when.
pub struct Failure {
    pub address: IpAddress,
    pub at: Timestamp,
}

/// What is remembered of one address after its failures at `times`, in order.
pub open spec fn run(state: StateView, times: Seq<Timestamp>, threshold: nat, window_secs: nat)
    -> StateView
    decreases times.len(),
{
    if times.len() == 0 {
        state
    } else {
        after_failure(
            run(state, times.drop_last(), threshold, window_secs),
            times.last(),
            threshold,
            window_secs,
        )
    }
}

/// How many of the failures of one address at `times` raise an alert.
pub open spec fn alerts_in(
    state: StateView,
    times: Seq<Timestamp>,
    threshold: nat,
    window_secs: nat,
) -> nat
    decreases times.len(),
{
    if times.len() == 0 {
        0
    } else {
        let earlier = alerts_in(state, times.drop_last(), threshold, window_secs);
        let before = run(state, times.drop_last(), threshold, window_secs);
        if fires(before, times.last(), threshold, window_secs) {
            earlier + 1
        } else {
            earlier
        }
    }
}

/// The detector after the failures of `trace`, in order.
pub open spec fn replay(d: DetectorView, trace: Seq<Failure>) -> DetectorView
    decreases trace.len(),
{
    if trace.len() == 0 {
        d
    } else {
        record(replay(d, trace.drop_last()), trace.last().address, trace.last().at)
    }
}

/// How many alerts the failures of `trace` raise for `address`.
pub open spec fn alerts_for(d: DetectorView, trace: Seq<Failure>, address: IpAddress) -> nat
    decreases trace.len(),
{
    if trace.len() == 0 {
        0
    } else {
        let earlier = alerts_for(d, trace.drop_last(), address);
        let before = replay(d, trace.drop_last());
        if trace.last().address == address && alert_due(before, address, trace.last().at) {
            earlier + 1
        } else {
            earlier
        }
    }
}

/// The times of the failures of `address` in `trace`, in order.
pub open spec fn failures_of(trace: Seq<Failure>, address: IpAddress) -> Seq<Timestamp>
    decreases trace.len(),
{
    if trace.len() == 0 {
        Seq::empty()
    } else if trace.last().address == address {
        failures_of(trace.drop_last(), address).push(trace.last().at)
    } else {
        failures_of(trace.drop_last(), address)
    }
}

/// No two of the times lie further apart than the window.
pub open spec fn within_window(times: Seq<Timestamp>, window_secs: nat) -> bool {
    forall|i: int, j: int|
        0 <= i < times.len() && 0 <= j < times.len() ==> times[i].instant() - times[j].instant()
            <= window_secs * NANOS_PER_SEC
}

/// The times are in order, earliest first; equal times may follow each other.
pub open spec fn ascending(times: Seq<Timestamp>) -> bool {
    forall|i: int, j: int|
        0 <= i <= j < times.len() ==> times[i].instant() <= times[j].instant()
}

/// `tail` is the end of `queue`.
pub open spec fn ends_with(queue: Seq<Timestamp>, tail: Seq<Timestamp>) -> bool {
    queue.len() >= tail.len() && queue.subrange(queue.len() - tail.len(), queue.len() as int)
        == tail
}

/// Pruning leaves an end of the queue, and all of an end that is not older
/// than the cutoff.
proof fn lemma_prune_keeps_end(queue: Seq<Timestamp>, cutoff: int, tail: Seq<Timestamp>)
    requires
        ends_with(queue, tail),
        forall|i: int| 0 <= i < tail.len() ==> tail[i].instant() >= cutoff,
    ensures
        ends_with(queue, prune(queue, cutoff)),
        ends_with(prune(queue, cutoff), tail),
    decreases queue.len(),
{
    if queue.len() > 0 && queue[0].instant() < cutoff {
        let rest = queue.drop_first();
        if tail.len() == queue.len() {
            assert(queue.subrange(0, queue.len() as int) =~= queue);
            assert(tail[0] == queue[0]);
        }
        assert(rest.subrange(rest.len() - tail.len(), rest.len() as int) =~= queue.subrange(
            queue.len() - tail.len(),
            queue.len() as int,
        ));
        lemma_prune_keeps_end(rest, cutoff, tail);
        let kept = prune(rest, cutoff);
        assert(queue.subrange(queue.len() - kept.len(), queue.len() as int) =~= rest.subrange(
            rest.len() - kept.len(),
            rest.len() as int,
        ));
    } else {
        assert(queue.subrange(0, queue.len() as int) =~= queue);
    }
}

/// One more failure adds at most one entry to the queue.
proof fn lemma_recent_after_len(state: StateView, at: Timestamp, window_secs: nat)
    ensures
        recent_after(state, at, window_secs).len() <= state.recent_failures.len() + 1,
{
    let pushed = state.recent_failures.push(at);
    assert(pushed.subrange(pushed.len() as int, pushed.len() as int) =~= Seq::empty());
    lemma_prune_keeps_end(pushed, at.instant() - window_secs * NANOS_PER_SEC, Seq::empty());
}

/// The queue of an address never holds more than it held plus the failures
/// seen since.
pub proof fn lemma_queue_bounded(
    state: StateView,
    times: Seq<Timestamp>,
    threshold: nat,
    window_secs: nat,
)
    ensures
        run(state, times, threshold, window_secs).recent_failures.len()
            <= state.recent_failures.len() + times.len(),
    decreases times.len(),
{
    if times.len() > 0 {
        lemma_queue_bounded(state, times.drop_last(), threshold, window_secs);
        lemma_recent_after_len(
            run(state, times.drop_last(), threshold, window_secs),
            times.last(),
            window_secs,
        );
    }
}

/// While the failures of an address, with those already counted, stay below
/// the threshold, no alert is raised for it.
pub proof fn lemma_silent_below_threshold(
    state: StateView,
    times: Seq<Timestamp>,
    threshold: nat,
    window_secs: nat,
)
    requires
        state.recent_failures.len() + times.len() < threshold,
    ensures
        alerts_in(state, times, threshold, window_secs) == 0,
    decreases times.len(),
{
    if times.len() > 0 {
        let earlier = times.drop_last();
        lemma_silent_below_threshold(state, earlier, threshold, window_secs);
        lemma_queue_bounded(state, earlier, threshold, window_secs);
        lemma_recent_after_len(
            run(state, earlier, threshold, window_secs),
            times.last(),
            window_secs,
        );
    }
}

/// A burst within one window, from an address not seen before: every failure
/// is counted, and the alert is raised exactly when the count reaches the
/// threshold.
pub proof fn lemma_burst_counts_up(
    times: Seq<Timestamp>,
    threshold: nat,
    window_secs: nat,
)
    requires
        threshold >= 1,
        times.len() <= threshold,
        within_window(times, window_secs),
    ensures
        run(unseen(), times, threshold, window_secs).recent_failures == times,
        times.len() < threshold ==> alerts_in(unseen(), times, threshold, window_secs) == 0
            && run(unseen(), times, threshold, window_secs).last_alert_at is None,
        times.len() == threshold ==> alerts_in(unseen(), times, threshold, window_secs) == 1,
    decreases times.len(),
{
    if times.len() > 0 {
        let earlier = times.drop_last();
        lemma_within_window_prefix(times, window_secs);
        lemma_burst_counts_up(earlier, threshold, window_secs);
        let before = run(unseen(), earlier, threshold, window_secs);
        let pushed = before.recent_failures.push(times.last());
        assert(pushed =~= times);
        assert(times.last() == times[times.len() - 1]);
        assert(times.last().instant() - times[0].instant() <= window_secs * NANOS_PER_SEC);
    }
}

/// While an address is cooling down, its failures raise no alert, whatever
/// their number.
pub proof fn lemma_cooldown_holds(
    state: StateView,
    times: Seq<Timestamp>,
    threshold: nat,
    window_secs: nat,
    last: Timestamp,
)
    requires
        state.last_alert_at == Some(last),
        forall|i: int|
            0 <= i < times.len() ==> (#[trigger] times[i]).instant() - last.instant()
                < COOLDOWN_NANOS,
    ensures
        alerts_in(state, times, threshold, window_secs) == 0,
        run(state, times, threshold, window_secs).last_alert_at == Some(last),
    decreases times.len(),
{
    if times.len() > 0 {
        let earlier = times.drop_last();
        assert forall|i: int| 0 <= i < earlier.len() implies (#[trigger] earlier[i]).instant()
            - last.instant() < COOLDOWN_NANOS by {
            assert(earlier[i] == times[i]);
        }
        lemma_cooldown_holds(state, earlier, threshold, window_secs, last);
        assert(times.last() == times[times.len() - 1]);
    }
}

/// Through a burst within one window, either an alert has been raised, or
/// the time of the last alert is as it was and the queue ends with the whole
/// burst so far.
proof fn lemma_burst_accumulates(
    state: StateView,
    times: Seq<Timestamp>,
    threshold: nat,
    window_secs: nat,
)
    requires
        within_window(times, window_secs),
    ensures
        alerts_in(state, times, threshold, window_secs) >= 1 || ({
            &&& run(state, times, threshold, window_secs).last_alert_at == state.last_alert_at
            &&& ends_with(run(state, times, threshold, window_secs).recent_failures, times)
        }),
    decreases times.len(),
{
    if times.len() == 0 {
        let q = state.recent_failures;
        assert(q.subrange(q.len() as int, q.len() as int) =~= times);
    } else {
        let earlier = times.drop_last();
        let at = times.last();
        assert(at == times[times.len() - 1]);
        lemma_within_window_prefix(times, window_secs);
        lemma_burst_accumulates(state, earlier, threshold, window_secs);
        if alerts_in(state, earlier, threshold, window_secs) == 0 {
            let before = run(state, earlier, threshold, window_secs);
            let pushed = before.recent_failures.push(at);
            let cutoff = at.instant() - window_secs * NANOS_PER_SEC;
            assert(ends_with(pushed, times)) by {
                let q = before.recent_failures;
                assert(q.subrange(q.len() - earlier.len(), q.len() as int) == earlier);
                assert(pushed.subrange(pushed.len() - times.len(), pushed.len() as int)
                    =~= q.subrange(q.len() - earlier.len(), q.len() as int).push(at));
                assert(earlier.push(at) =~= times);
            }
            assert forall|i: int| 0 <= i < times.len() implies times[i].instant() >= cutoff by {
                assert(at.instant() - times[i].instant() <= window_secs * NANOS_PER_SEC);
            }
            lemma_prune_keeps_end(pushed, cutoff, times);
        }
    }
}

/// What holds of a burst holds of the burst without its last failure.
proof fn lemma_within_window_prefix(times: Seq<Timestamp>, window_secs: nat)
    requires
        within_window(times, window_secs),
        times.len() > 0,
    ensures
        within_window(times.drop_last(), window_secs),
{
    let earlier = times.drop_last();
    assert forall|i: int, j: int|
        0 <= i < earlier.len() && 0 <= j < earlier.len() implies earlier[i].instant()
        - earlier[j].instant() <= window_secs * NANOS_PER_SEC by {
        assert(earlier[i] == times[i] && earlier[j] == times[j]);
    }
}

/// A burst of `threshold` failures within one window raises an alert, at
/// its last failure if not before, where that last failure is not covered
/// by a cooldown.
pub proof fn lemma_full_burst_alerts(
    state: StateView,
    times: Seq<Timestamp>,
    threshold: nat,
    window_secs: nat,
)
    requires
        threshold >= 1,
        times.len() == threshold,
        within_window(times, window_secs),
        !cooling_down(state, times.last()),
    ensures
        alerts_in(state, times, threshold, window_secs) >= 1,
{
    let earlier = times.drop_last();
    lemma_within_window_prefix(times, window_secs);
    lemma_burst_accumulates(state, earlier, threshold, window_secs);
    if alerts_in(state, earlier, threshold, window_secs) == 0 {
        let before = run(state, earlier, threshold, window_secs);
        let at = times.last();
        let pushed = before.recent_failures.push(at);
        let cutoff = at.instant() - window_secs * NANOS_PER_SEC;
        assert(ends_with(pushed, times)) by {
            let q = before.recent_failures;
            assert(q.subrange(q.len() - earlier.len(), q.len() as int) == earlier);
            assert(pushed.subrange(pushed.len() - times.len(), pushed.len() as int) =~= q.subrange(
                q.len() - earlier.len(),
                q.len() as int,
            ).push(at));
            assert(earlier.push(at) =~= times);
        }
        assert forall|i: int| 0 <= i < times.len() implies times[i].instant() >= cutoff by {
            assert(at == times[times.len() - 1]);
            assert(at.instant() - times[i].instant() <= window_secs * NANOS_PER_SEC);
        }
        lemma_prune_keeps_end(pushed, cutoff, times);
        assert(recent_after(before, at, window_secs).len() >= threshold);
        assert(!cooling_down(before, at));
    }
}

/// What the detector remembers of one address, and the alerts it raises for
/// it, depend on the failures of that address alone: the failures of other
/// addresses, however many and whenever, change neither.
pub proof fn lemma_addresses_are_independent(
    d: DetectorView,
    trace: Seq<Failure>,
    address: IpAddress,
)
    ensures
        replay(d, trace).threshold == d.threshold,
        replay(d, trace).window_secs == d.window_secs,
        state_of(replay(d, trace), address) == run(
            state_of(d, address),
            failures_of(trace, address),
            d.threshold,
            d.window_secs,
        ),
        alerts_for(d, trace, address) == alerts_in(
            state_of(d, address),
            failures_of(trace, address),
            d.threshold,
            d.window_secs,
        ),
    decreases trace.len(),
{
    if trace.len() > 0 {
        let earlier = trace.drop_last();
        lemma_addresses_are_independent(d, earlier, address);
        if trace.last().address == address {
            let times = failures_of(trace, address);
            assert(times.drop_last() =~= failures_of(earlier, address));
            assert(times.last() == trace.last().at);
        }
    }
}

/// A failure of one address changes nothing of what the detector remembers
/// of any other address.
pub proof fn lemma_other_addresses_untouched(
    d: DetectorView,
    address: IpAddress,
    at: Timestamp,
    other: IpAddress,
)
    requires
        other != address,
    ensures
        state_of(record(d, address, at), other) == state_of(d, other),
{
}

/// Exactly `threshold` failures of one address within one window, from an
/// address not seen before, raise exactly one alert for it, whatever other
/// addresses do meanwhile.
pub proof fn lemma_threshold_burst_alerts_once(
    d: DetectorView,
    trace: Seq<Failure>,
    address: IpAddress,
)
    requires
        d.threshold >= 1,
        state_of(d, address) == unseen(),
        failures_of(trace, address).len() == d.threshold,
        within_window(failures_of(trace, address), d.window_secs),
    ensures
        alerts_for(d, trace, address) == 1,
{
    lemma_addresses_are_independent(d, trace, address);
    lemma_burst_counts_up(failures_of(trace, address), d.threshold, d.window_secs);
}

/// Fewer failures of one address than the threshold raise no alert for it,
/// whatever other addresses do meanwhile, and however the failures are
/// spread in time.
pub proof fn lemma_below_threshold_no_alert(
    d: DetectorView,
    trace: Seq<Failure>,
    address: IpAddress,
)
    requires
        state_of(d, address).recent_failures.len() == 0,
        failures_of(trace, address).len() < d.threshold,
    ensures
        alerts_for(d, trace, address) == 0,
{
    lemma_addresses_are_independent(d, trace, address);
    lemma_silent_below_threshold(
        state_of(d, address),
        failures_of(trace, address),
        d.threshold,
        d.window_secs,
    );
}

/// The failures of two addresses never add up: where each of the two stays
/// below the threshold, neither gets an alert, even where together they
/// reach it.
pub proof fn lemma_addresses_do_not_combine(
    d: DetectorView,
    trace: Seq<Failure>,
    first: IpAddress,
    second: IpAddress,
)
    requires
        first != second,
        state_of(d, first).recent_failures.len() == 0,
        state_of(d, second).recent_failures.len() == 0,
        failures_of(trace, first).len() < d.threshold,
        failures_of(trace, second).len() < d.threshold,
    ensures
        alerts_for(d, trace, first) == 0,
        alerts_for(d, trace, second) == 0,
{
    lemma_below_threshold_no_alert(d, trace, first);
    lemma_below_threshold_no_alert(d, trace, second);
}

/// After an alert for an address at `last`, failures of that address less
/// than five minutes later raise no further alert, however many they are.
pub proof fn lemma_no_alert_during_cooldown(
    d: DetectorView,
    trace: Seq<Failure>,
    address: IpAddress,
    last: Timestamp,
)
    requires
        state_of(d, address).last_alert_at == Some(last),
        forall|i: int|
            0 <= i < failures_of(trace, address).len() ==> (#[trigger] failures_of(
                trace,
                address,
            )[i]).instant() - last.instant() < COOLDOWN_NANOS,
    ensures
        alerts_for(d, trace, address) == 0,
        state_of(replay(d, trace), address).last_alert_at == Some(last),
{
    lemma_addresses_are_independent(d, trace, address);
    lemma_cooldown_holds(
        state_of(d, address),
        failures_of(trace, address),
        d.threshold,
        d.window_secs,
        last,
    );
}

/// After an alert for an address at `last`, a burst of `threshold` failures
/// of that address within one window raises an alert again where its last
/// failure comes five minutes or more after `last`; so also where the whole
/// burst does.
pub proof fn lemma_alert_again_after_cooldown(
    d: DetectorView,
    trace: Seq<Failure>,
    address: IpAddress,
    last: Timestamp,
)
    requires
        d.threshold >= 1,
        state_of(d, address).last_alert_at == Some(last),
        failures_of(trace, address).len() == d.threshold,
        within_window(failures_of(trace, address), d.window_secs),
        failures_of(trace, address).last().instant() - last.instant() >= COOLDOWN_NANOS,
    ensures
        alerts_for(d, trace, address) >= 1,
{
    lemma_addresses_are_independent(d, trace, address);
    lemma_full_burst_alerts(
        state_of(d, address),
        failures_of(trace, address),
        d.threshold,
        d.window_secs,
    );
}

/// After an alert for an address at `last`, a second burst of `threshold`
/// failures of that address, within one window and in the order of their
/// times, raises no further alert exactly when it ends less than five
/// minutes after `last`.
pub proof fn lemma_second_burst(
    d: DetectorView,
    trace: Seq<Failure>,
    address: IpAddress,
    last: Timestamp,
)
    requires
        d.threshold >= 1,
        state_of(d, address).last_alert_at == Some(last),
        failures_of(trace, address).len() == d.threshold,
        within_window(failures_of(trace, address), d.window_secs),
        ascending(failures_of(trace, address)),
    ensures
        alerts_for(d, trace, address) == 0 <==> failures_of(trace, address).last().instant()
            - last.instant() < COOLDOWN_NANOS,
{
    let times = failures_of(trace, address);
    if times.last().instant() - last.instant() < COOLDOWN_NANOS {
        assert forall|i: int| 0 <= i < times.len() implies (#[trigger] times[i]).instant()
            - last.instant() < COOLDOWN_NANOS by {
            assert(times[i].instant() <= times[times.len() - 1].instant());
        }
        lemma_no_alert_during_cooldown(d, trace, address, last);
    } else {
        lemma_alert_again_after_cooldown(d, trace, address, last);
    }
}

/// When an alert is raised, the cooldown starts: the alert's time is
/// remembered as the time of the last alert for the address.
pub proof fn lemma_alert_starts_cooldown(d: DetectorView, address: IpAddress, at: Timestamp)
    requires
        alert_due(d, address, at),
    ensures
        state_of(record(d, address, at), address).last_alert_at == Some(at),
{
}

/// Where the failures of an address arrive in the order of their times, its
/// queue stays in that order and, right after a failure at `at`, holds no
/// entry older than the window before `at`.
pub proof fn lemma_queue_is_a_sliding_window(state: StateView, at: Timestamp, window_secs: nat)
    requires
        ascending(state.recent_failures),
        forall|i: int|
            0 <= i < state.recent_failures.len() ==> (
            #[trigger] state.recent_failures[i]).instant() <= at.instant(),
    ensures
        ascending(recent_after(state, at, window_secs)),
        forall|i: int|
            0 <= i < recent_after(state, at, window_secs).len() ==> (#[trigger] recent_after(
                state,
                at,
                window_secs,
            )[i]).instant() >= at.instant() - window_secs * NANOS_PER_SEC,
        recent_after(state, at, window_secs).len() >= 1,
        recent_after(state, at, window_secs).last() == at,
{
    let pushed = state.recent_failures.push(at);
    let cutoff = at.instant() - window_secs * NANOS_PER_SEC;
    let kept = prune(pushed, cutoff);
    assert(ascending(pushed));
    assert(ends_with(pushed, seq![at])) by {
        assert(pushed.subrange(pushed.len() - 1, pushed.len() as int) =~= seq![at]);
    }
    lemma_prune_keeps_end(pushed, cutoff, seq![at]);
    lemma_pruned_front(pushed, cutoff);
    let skipped = pushed.len() - kept.len();
    assert forall|i: int, j: int| 0 <= i <= j < kept.len() implies kept[i].instant() <= kept[j].instant() by {
        assert(kept[i] == pushed.subrange(skipped, pushed.len() as int)[i]);
        assert(kept[j] == pushed.subrange(skipped, pushed.len() as int)[j]);
    }
    assert(kept[0].instant() >= cutoff);
    assert(kept.last() == kept.subrange(kept.len() - 1, kept.len() as int)[0]);
}

/// What pruning leaves is empty or starts with an entry that is not older
/// than the cutoff.
proof fn lemma_pruned_front(queue: Seq<Timestamp>, cutoff: int)
    ensures
        prune(queue, cutoff).len() > 0 ==> prune(queue, cutoff)[0].instant() >= cutoff,
    decreases queue.len(),
{
    if queue.len() > 0 && queue[0].instant() < cutoff {
        lemma_pruned_front(queue.drop_first(), cutoff);
    }
}

/// The times at which the failures of one address at `times` raise an
/// alert, in the order of the alerts.
pub open spec fn alert_times(
    state: StateView,
    times: Seq<Timestamp>,
    threshold: nat,
    window_secs: nat,
) -> Seq<Timestamp>
    decreases times.len(),
{
    if times.len() == 0 {
        Seq::empty()
    } else {
        let earlier = alert_times(state, times.drop_last(), threshold, window_secs);
        let before = run(state, times.drop_last(), threshold, window_secs);
        if fires(before, times.last(), threshold, window_secs) {
            earlier.push(times.last())
        } else {
            earlier
        }
    }
}

/// Each time lies five minutes or more after the one before it, and the
/// first as long after `last`, where there is one.
pub open spec fn spaced(last: Option<Timestamp>, alerts: Seq<Timestamp>) -> bool {
    &&& forall|k: int|
        0 < k < alerts.len() ==> (#[trigger] alerts[k]).instant() - alerts[k - 1].instant()
            >= COOLDOWN_NANOS
    &&& last matches Some(l) ==> alerts.len() > 0 ==> alerts[0].instant() - l.instant()
        >= COOLDOWN_NANOS
}

/// At most one alert is raised for an address in any five minutes: each of
/// its alerts comes five minutes or more after the one before, however many
/// failures reach the threshold in between.
pub proof fn lemma_alerts_are_spaced(
    state: StateView,
    times: Seq<Timestamp>,
    threshold: nat,
    window_secs: nat,
)
    ensures
        spaced(state.last_alert_at, alert_times(state, times, threshold, window_secs)),
        alert_times(state, times, threshold, window_secs).len() == alerts_in(
            state,
            times,
            threshold,
            window_secs,
        ),
        run(state, times, threshold, window_secs).last_alert_at == if alert_times(
            state,
            times,
            threshold,
            window_secs,
        ).len() > 0 {
            Some(alert_times(state, times, threshold, window_secs).last())
        } else {
            state.last_alert_at
        },
    decreases times.len(),
{
    if times.len() > 0 {
        lemma_alerts_are_spaced(state, times.drop_last(), threshold, window_secs);
    }
}

/// Where an address was not seen before and its failures arrive in the
/// order of their times, its queue is a sliding window after each of them:
/// in the order of the times, ending with the failure just seen, and without
/// any entry older than the window before it.
pub proof fn lemma_queue_slides(
    times: Seq<Timestamp>,
    threshold: nat,
    window_secs: nat,
)
    requires
        ascending(times),
        times.len() > 0,
    ensures
        ascending(run(unseen(), times, threshold, window_secs).recent_failures),
        run(unseen(), times, threshold, window_secs).recent_failures.len() >= 1,
        run(unseen(), times, threshold, window_secs).recent_failures.last() == times.last(),
        forall|i: int|
            0 <= i < run(unseen(), times, threshold, window_secs).recent_failures.len() ==> (
            #[trigger] run(unseen(), times, threshold, window_secs).recent_failures[i]).instant()
                >= times.last().instant() - window_secs * NANOS_PER_SEC,
    decreases times.len(),
{
    let earlier = times.drop_last();
    let before = run(unseen(), earlier, threshold, window_secs);
    assert(times.last() == times[times.len() - 1]);
    if earlier.len() > 0 {
        assert(ascending(earlier)) by {
            assert forall|i: int, j: int| 0 <= i <= j < earlier.len() implies earlier[i].instant()
                <= earlier[j].instant() by {
                assert(earlier[i] == times[i] && earlier[j] == times[j]);
            }
        }
        lemma_queue_slides(earlier, threshold, window_secs);
        assert(earlier.last() == times[times.len() - 2]);
        let q = before.recent_failures;
        assert forall|i: int| 0 <= i < q.len() implies (#[trigger] q[i]).instant()
            <= times.last().instant() by {
            assert(q[i].instant() <= q[q.len() - 1].instant());
        }
    }
    lemma_queue_is_a_sliding_window(before, times.last(), window_secs);
}

/// The detector never lets go of an address: one that it knows, and one
/// that a failure came from, it knows ever after.
pub proof fn lemma_addresses_are_kept(d: DetectorView, trace: Seq<Failure>, address: IpAddress)
    requires
        d.states.contains_key(address) || failures_of(trace, address).len() > 0,
    ensures
        replay(d, trace).states.contains_key(address),
    decreases trace.len(),
{
    if trace.len() > 0 {
        let earlier = trace.drop_last();
        if d.states.contains_key(address) || failures_of(earlier, address).len() > 0 {
            lemma_addresses_are_kept(d, earlier, address);
        }
    }
}

} // verus!
