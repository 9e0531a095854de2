//! The detection rules and the engine that runs them on each event.

pub mod auth;
pub mod brute;
pub mod sudo;
pub mod traces;

use crate::alert::{alert_view, alert_views, Alert, AlertView};
use crate::event::{EventView, LogEvent};
use crate::parser::{address_in, parse_line, shown_in_some_year, syslog_time, user_in};
use crate::rules::auth::is_auth_failure;
use crate::rules::auth::{auth_failure_alert, auth_failure_at, ssh_success_alert, ssh_success_at};
use crate::rules::brute::{check_result, counts, BruteForceDetector, DetectorView};
use crate::rules::sudo::{sudo_alert, sudo_usage_at};
use crate::time::{event_time, Timestamp};
use vstd::prelude::*;

verus! {

/// The alert inside as a list of one, or the empty list.
pub open spec fn listed(a: Option<AlertView>) -> Seq<AlertView> {
    match a {
        Some(a) => seq![a],
        None => Seq::empty(),
    }
}

/// What the engine does with an event whose time, where the event has none,
/// is `clock`: the detector afterwards, and the alerts raised, in the order
/// authentication failure, login, sudo, brute force.
pub open spec fn process_result(d: DetectorView, ev: EventView, clock: Timestamp) -> (
    DetectorView,
    Seq<AlertView>,
) {
    let brute = check_result(d, ev, clock);
    (
        brute.0,
        listed(auth_failure_alert(ev, clock)) + listed(ssh_success_alert(ev, clock)) + listed(
            sudo_alert(ev, clock),
        ) + listed(brute.1),
    )
}

/// Runs every rule on each event. The only state is the brute-force
/// detector's, and the engine's view is that detector's view.
pub struct Engine {
    brute_detector: BruteForceDetector,
}

impl View for Engine {
    type V = DetectorView;

    closed spec fn view(&self) -> DetectorView {
        self.brute_detector@
    }
}

impl Engine {
    /// An engine whose brute-force rule alerts on `threshold` failures of one
    /// address within `window_secs` seconds. Both are positive.
    pub fn new(threshold: usize, window_secs: i64) -> (engine: Self)
        requires
            threshold >= 1,
            window_secs >= 1,
        ensures
            engine@ == (DetectorView {
                threshold: threshold as nat,
                window_secs: window_secs as nat,
                states: Map::empty(),
            }),
    {
        Engine { brute_detector: BruteForceDetector::new(threshold, window_secs) }
    }

    /// Runs every rule on `ev`, with `now` as the time of evaluation.
    pub fn process_at(&mut self, ev: &LogEvent, now: Timestamp) -> (alerts: Vec<Alert>)
        ensures
            (final(self)@, alert_views(alerts@)) == process_result(old(self)@, ev@, now),
            alerts.len() <= 4,
            !counts(ev@) ==> final(self)@ == old(self)@,
            final(self)@.threshold == old(self)@.threshold,
            final(self)@.window_secs == old(self)@.window_secs,
    {
        let mut alerts: Vec<Alert> = Vec::new();
        if let Some(a) = auth_failure_at(ev, now) {
            alerts.push(a);
        }
        assert(alert_views(alerts@) =~= listed(auth_failure_alert(ev@, now)));
        let ghost first = alert_views(alerts@);
        if let Some(a) = ssh_success_at(ev, now) {
            alerts.push(a);
        }
        assert(alert_views(alerts@) =~= first + listed(ssh_success_alert(ev@, now)));
        let ghost second = alert_views(alerts@);
        if let Some(a) = sudo_usage_at(ev, now) {
            alerts.push(a);
        }
        assert(alert_views(alerts@) =~= second + listed(sudo_alert(ev@, now)));
        let ghost third = alert_views(alerts@);
        let brute = self.brute_detector.check_at(ev, now);
        assert(alert_view(brute) == check_result(old(self)@, ev@, now).1);
        if let Some(a) = brute {
            alerts.push(a);
        }
        assert(alert_views(alerts@) =~= third + listed(check_result(old(self)@, ev@, now).1));
        alerts
    }

    /// Runs every rule on `ev` and returns the alerts raised, none to four.
    ///
    /// An event without a time gets one reading of the clock, which all the
    /// rules share.
    pub fn process(&mut self, ev: &LogEvent) -> (alerts: Vec<Alert>)
        ensures
            exists|clock: Timestamp|
                (final(self)@, alert_views(alerts@)) == process_result(old(self)@, ev@, clock),
            ev.ts matches Some(t) ==> (final(self)@, alert_views(alerts@)) == process_result(
                old(self)@,
                ev@,
                t,
            ),
            alerts.len() <= 4,
            !counts(ev@) ==> final(self)@ == old(self)@,
            final(self)@.threshold == old(self)@.threshold,
            final(self)@.window_secs == old(self)@.window_secs,
    {
        let now = event_time(ev.ts);
        let alerts = self.process_at(ev, now);
        assert((self@, alert_views(alerts@)) == process_result(old(self)@, ev@, now));
        alerts
    }

    /// Reads the facts of `line` and runs every rule on them.
    ///
    /// Address and user are those that the parser reads from the line. The
    /// time is the one that the line states, where the parser can tell it:
    /// a point in time at which the clocks of a zone show the stated month,
    /// day, hour, minute and second. Else it is one reading of the clock. A line that reports no failed
    /// authentication leaves the engine as it was.
    pub fn process_line(&mut self, line: &str) -> (alerts: Vec<Alert>)
        ensures
            exists|ts: Option<Timestamp>, clock: Timestamp|
                {
                    &&& (final(self)@, alert_views(alerts@)) == #[trigger] process_result(
                        old(self)@,
                        (EventView { ts, ip: address_in(line@), user: user_in(line@), raw: line@ }),
                        clock,
                    )
                    &&& ts matches Some(t) ==> syslog_time(line@) is Some && shown_in_some_year(
                        t,
                        syslog_time(line@).unwrap(),
                    )
                },
            alerts.len() <= 4,
            !is_auth_failure(line@) ==> final(self)@ == old(self)@,
            final(self)@.threshold == old(self)@.threshold,
            final(self)@.window_secs == old(self)@.window_secs,
    {
        match parse_line(line) {
            Some(ev) => {
                let now = event_time(ev.ts);
                let alerts = self.process_at(&ev, now);
                assert((self@, alert_views(alerts@)) == process_result(
                    old(self)@,
                    (EventView { ts: ev.ts, ip: address_in(line@), user: user_in(line@), raw: line@ }),
                    now,
                ));
                alerts
            },
            None => Vec::new(),
        }
    }
}

} // verus!
