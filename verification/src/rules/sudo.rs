//! The rule on privileged commands.

use crate::alert::{alert_about, alert_view, Alert, AlertView, Severity};
use crate::event::{EventView, LogEvent};
use crate::text::{contains, has_substring, lowercased, to_lowercase};
use crate::time::{event_time, time_or, Timestamp};
use vstd::prelude::*;

verus! {

/// The line comes from sudo: it holds `sudo:`.
pub open spec fn is_sudo_line(raw: Seq<char>) -> bool {
    has_substring(raw, "sudo:"@)
}

/// How serious a sudo line is, from the line and its form in lower case:
/// `High` where the lower-case form holds `authentication failure`; else
/// `Low` where the line itself holds `COMMAND=`; else `Info`.
pub open spec fn sudo_grade(raw: Seq<char>, lower: Seq<char>) -> Severity {
    if has_substring(lower, "authentication failure"@) {
        Severity::High
    } else if has_substring(raw, "COMMAND="@) {
        Severity::Low
    } else {
        Severity::Info
    }
}

/// How serious a sudo line is.
pub open spec fn sudo_severity(raw: Seq<char>) -> Severity {
    sudo_grade(raw, lowercased(raw))
}

/// What the sudo rule finds in an event whose time, where the event has
/// none, is `clock`.
pub open spec fn sudo_alert(ev: EventView, clock: Timestamp) -> Option<AlertView> {
    if is_sudo_line(ev.raw) {
        Some(
            alert_about(
                "sudo_usage"@,
                sudo_severity(ev.raw),
                ev,
                time_or(ev.ts, clock),
                "Sudo command executed or attempted"@,
            ),
        )
    } else {
        None
    }
}

/// How serious a sudo line is, from the line and its form in lower case.
pub fn grade_sudo(raw: &str, lower: &str) -> (s: Severity)
    ensures
        s == sudo_grade(raw@, lower@),
{
    if contains(lower, "authentication failure") {
        Severity::High
    } else if contains(raw, "COMMAND=") {
        Severity::Low
    } else {
        Severity::Info
    }
}

/// How serious a sudo line is.
pub fn grade_sudo_line(raw: &str) -> (s: Severity)
    ensures
        s == sudo_severity(raw@),
{
    let lower = to_lowercase(raw);
    grade_sudo(raw, lower.as_str())
}

fn raise_sudo_usage(ev: &LogEvent, when: Timestamp) -> (a: Alert)
    ensures
        a@ == alert_about(
            "sudo_usage"@,
            sudo_severity(ev@.raw),
            ev@,
            when,
            "Sudo command executed or attempted"@,
        ),
{
    Alert::about(
        "sudo_usage",
        grade_sudo_line(ev.raw.as_str()),
        ev,
        when,
        "Sudo command executed or attempted".to_owned(),
    )
}

/// The sudo rule, with `now` as the time of evaluation.
pub fn sudo_usage_at(ev: &LogEvent, now: Timestamp) -> (r: Option<Alert>)
    ensures
        alert_view(r) == sudo_alert(ev@, now),
{
    if contains(ev.raw.as_str(), "sudo:") {
        let when = match ev.ts {
            Some(t) => t,
            None => now,
        };
        Some(raise_sudo_usage(ev, when))
    } else {
        None
    }
}

/// The sudo rule: an alert for every sudo line, graded by what the line
/// reports. An event without a time gets the clock's.
pub fn check_sudo_usage(ev: &LogEvent) -> (r: Option<Alert>)
    ensures
        exists|clock: Timestamp| alert_view(r) == sudo_alert(ev@, clock),
        ev.ts matches Some(t) ==> alert_view(r) == sudo_alert(ev@, t),
{
    if contains(ev.raw.as_str(), "sudo:") {
        let when = event_time(ev.ts);
        let r = Some(raise_sudo_usage(ev, when));
        assert(alert_view(r) == sudo_alert(ev@, when));
        r
    } else {
        assert(alert_view(None) == sudo_alert(ev@, Timestamp { secs: 0, nanos: 0 }));
        None
    }
}

} // verus!
