//! Stateless rules on authentication lines.

use crate::alert::{alert_about, alert_view, Alert, AlertView, Severity};
use crate::event::{EventView, LogEvent};
use crate::text::{contains, has_substring, lowercased, to_lowercase};
use crate::time::{event_time, time_or, Timestamp};
use vstd::prelude::*;

verus! {

/// A text in lower case reports a failed authentication: it holds
/// `failed password` or `authentication failure`.
pub open spec fn reports_failure(lower: Seq<char>) -> bool {
    has_substring(lower, "failed password"@) || has_substring(lower, "authentication failure"@)
}

/// A text in lower case reports a successful SSH login: it holds
/// `accepted password` or `accepted publickey`.
pub open spec fn reports_login(lower: Seq<char>) -> bool {
    has_substring(lower, "accepted password"@) || has_substring(lower, "accepted publickey"@)
}

/// The line reports a failed authentication, in letters of either case.
pub open spec fn is_auth_failure(raw: Seq<char>) -> bool {
    reports_failure(lowercased(raw))
}

/// The line reports a successful SSH login, in letters of either case.
pub open spec fn is_ssh_success(raw: Seq<char>) -> bool {
    reports_login(lowercased(raw))
}

/// Whether a text in lower case reports a failed authentication.
pub fn lower_reports_failure(lower: &str) -> (b: bool)
    ensures
        b == reports_failure(lower@),
{
    contains(lower, "failed password") || contains(lower, "authentication failure")
}

/// Whether a text in lower case reports a successful SSH login.
pub fn lower_reports_login(lower: &str) -> (b: bool)
    ensures
        b == reports_login(lower@),
{
    contains(lower, "accepted password") || contains(lower, "accepted publickey")
}

/// Whether the line reports a failed authentication.
pub fn mentions_auth_failure(raw: &str) -> (b: bool)
    ensures
        b == is_auth_failure(raw@),
{
    let lower = to_lowercase(raw);
    lower_reports_failure(lower.as_str())
}

/// Whether the line reports a successful SSH login.
pub fn mentions_ssh_success(raw: &str) -> (b: bool)
    ensures
        b == is_ssh_success(raw@),
{
    let lower = to_lowercase(raw);
    lower_reports_login(lower.as_str())
}

/// What the authentication-failure rule finds in an event whose time, where
/// the event has none, is `clock`.
pub open spec fn auth_failure_alert(ev: EventView, clock: Timestamp) -> Option<AlertView> {
    if is_auth_failure(ev.raw) {
        Some(
            alert_about(
                "auth_failure"@,
                Severity::Medium,
                ev,
                time_or(ev.ts, clock),
                "Authentication failure detected"@,
            ),
        )
    } else {
        None
    }
}

/// What the login rule finds in an event whose time, where the event has
/// none, is `clock`.
pub open spec fn ssh_success_alert(ev: EventView, clock: Timestamp) -> Option<AlertView> {
    if is_ssh_success(ev.raw) {
        Some(
            alert_about(
                "ssh_success"@,
                Severity::Info,
                ev,
                time_or(ev.ts, clock),
                "Successful SSH login"@,
            ),
        )
    } else {
        None
    }
}

fn raise_auth_failure(ev: &LogEvent, when: Timestamp) -> (a: Alert)
    ensures
        a@ == alert_about(
            "auth_failure"@,
            Severity::Medium,
            ev@,
            when,
            "Authentication failure detected"@,
        ),
{
    Alert::about(
        "auth_failure",
        Severity::Medium,
        ev,
        when,
        "Authentication failure detected".to_owned(),
    )
}

fn raise_ssh_success(ev: &LogEvent, when: Timestamp) -> (a: Alert)
    ensures
        a@ == alert_about("ssh_success"@, Severity::Info, ev@, when, "Successful SSH login"@),
{
    Alert::about("ssh_success", Severity::Info, ev, when, "Successful SSH login".to_owned())
}

/// The authentication-failure rule, with `now` as the time of evaluation.
pub fn auth_failure_at(ev: &LogEvent, now: Timestamp) -> (r: Option<Alert>)
    ensures
        alert_view(r) == auth_failure_alert(ev@, now),
{
    if mentions_auth_failure(ev.raw.as_str()) {
        let when = match ev.ts {
            Some(t) => t,
            None => now,
        };
        Some(raise_auth_failure(ev, when))
    } else {
        None
    }
}

/// The authentication-failure rule: a `Medium` alert for a line that reports
/// a failed authentication. An event without a time gets the clock's.
pub fn check_auth_failure(ev: &LogEvent) -> (r: Option<Alert>)
    ensures
        exists|clock: Timestamp| alert_view(r) == auth_failure_alert(ev@, clock),
        ev.ts matches Some(t) ==> alert_view(r) == auth_failure_alert(ev@, t),
{
    if mentions_auth_failure(ev.raw.as_str()) {
        let when = event_time(ev.ts);
        let r = Some(raise_auth_failure(ev, when));
        assert(alert_view(r) == auth_failure_alert(ev@, when));
        r
    } else {
        assert(alert_view(None) == auth_failure_alert(ev@, Timestamp { secs: 0, nanos: 0 }));
        None
    }
}

/// The login rule, with `now` as the time of evaluation.
pub fn ssh_success_at(ev: &LogEvent, now: Timestamp) -> (r: Option<Alert>)
    ensures
        alert_view(r) == ssh_success_alert(ev@, now),
{
    if mentions_ssh_success(ev.raw.as_str()) {
        let when = match ev.ts {
            Some(t) => t,
            None => now,
        };
        Some(raise_ssh_success(ev, when))
    } else {
        None
    }
}

/// The login rule: an `Info` alert for a line that reports a successful SSH
/// login. An event without a time gets the clock's.
pub fn check_ssh_success(ev: &LogEvent) -> (r: Option<Alert>)
    ensures
        exists|clock: Timestamp| alert_view(r) == ssh_success_alert(ev@, clock),
        ev.ts matches Some(t) ==> alert_view(r) == ssh_success_alert(ev@, t),
{
    if mentions_ssh_success(ev.raw.as_str()) {
        let when = event_time(ev.ts);
        let r = Some(raise_ssh_success(ev, when));
        assert(alert_view(r) == ssh_success_alert(ev@, when));
        r
    } else {
        assert(alert_view(None) == ssh_success_alert(ev@, Timestamp { secs: 0, nanos: 0 }));
        None
    }
}

} // verus!
