//! Alerts raised by the detection rules, and their severity scale.

use crate::address::IpAddress;
use crate::event::{EventView, LogEvent};
use crate::text::{clone_opt, opt_view};
use crate::time::Timestamp;
use vstd::prelude::*;

verus! {

/// How serious a finding is. The scale is ordered: `Info < Low < Medium < High`.
#[derive(Debug, Clone, Copy, PartialEq, Eq, Structural, PartialOrd, Ord, Hash)]
pub enum Severity {
    Info,
    Low,
    Medium,
    High,
}

impl Severity {
    /// Position of the severity on the scale, from 0 (`Info`) to 3 (`High`).
    pub open spec fn spec_rank(self) -> nat {
        match self {
            Severity::Info => 0,
            Severity::Low => 1,
            Severity::Medium => 2,
            Severity::High => 3,
        }
    }

    /// Position of the severity on the scale, from 0 (`Info`) to 3 (`High`).
    pub fn rank(&self) -> (r: u8)
        ensures
            r == self.spec_rank(),
    {
        match self {
            Severity::Info => 0,
            Severity::Low => 1,
            Severity::Medium => 2,
            Severity::High => 3,
        }
    }

    /// The name of the severity, as alerts show it.
    pub open spec fn spec_name(self) -> Seq<char> {
        match self {
            Severity::Info => "Info"@,
            Severity::Low => "Low"@,
            Severity::Medium => "Medium"@,
            Severity::High => "High"@,
        }
    }

    /// The name of the severity, as alerts show it.
    pub fn name(&self) -> (r: &'static str)
        ensures
            r@ == self.spec_name(),
    {
        match self {
            Severity::Info => "Info",
            Severity::Low => "Low",
            Severity::Medium => "Medium",
            Severity::High => "High",
        }
    }
}

/// One finding of one rule about one log line.
#[derive(Debug, Clone)]
pub struct Alert {
    /// Stable name of the rule that raised the alert.
    pub rule_id: &'static str,
    pub severity: Severity,
    /// The time of the event, or the time of evaluation where the event had none.
    pub ts: Option<Timestamp>,
    pub ip: Option<IpAddress>,
    pub user: Option<String>,
    /// What was found, for a human reader.
    pub message: String,
    /// The line that triggered the alert.
    pub raw: String,
}

/// An [`Alert`] with its texts as sequences of characters.
pub struct AlertView {
    pub rule_id: Seq<char>,
    pub severity: Severity,
    pub ts: Option<Timestamp>,
    pub ip: Option<IpAddress>,
    pub user: Option<Seq<char>>,
    pub message: Seq<char>,
    pub raw: Seq<char>,
}

impl View for Alert {
    type V = AlertView;

    open spec fn view(&self) -> AlertView {
        AlertView {
            rule_id: self.rule_id@,
            severity: self.severity,
            ts: self.ts,
            ip: self.ip,
            user: opt_view(self.user),
            message: self.message@,
            raw: self.raw@,
        }
    }
}

/// The view of the alert inside, where there is one.
pub open spec fn alert_view(a: Option<Alert>) -> Option<AlertView> {
    match a {
        Some(a) => Some(a@),
        None => None,
    }
}

/// The views of the alerts of a list, in order.
pub open spec fn alert_views(alerts: Seq<Alert>) -> Seq<AlertView> {
    Seq::new(alerts.len(), |i: int| alerts[i]@)
}

/// The alert that a rule raises about an event: address, user and line are
/// those of the event, and the time is `when`.
pub open spec fn alert_about(
    rule_id: Seq<char>,
    severity: Severity,
    ev: EventView,
    when: Timestamp,
    message: Seq<char>,
) -> AlertView {
    AlertView { rule_id, severity, ts: Some(when), ip: ev.ip, user: ev.user, message, raw: ev.raw }
}

impl Alert {
    /// Raises an alert about `ev`, copying its address, user and line.
    pub fn about(
        rule_id: &'static str,
        severity: Severity,
        ev: &LogEvent,
        when: Timestamp,
        message: String,
    ) -> (a: Alert)
        ensures
            a@ == alert_about(rule_id@, severity, ev@, when, message@),
    {
        Alert {
            rule_id,
            severity,
            ts: Some(when),
            ip: ev.ip,
            user: clone_opt(&ev.user),
            message,
            raw: ev.raw.clone(),
        }
    }
}

} // verus!
