//! What the parser reads out of one log line.

use crate::address::IpAddress;
use crate::text::opt_view;
use crate::time::Timestamp;
use vstd::prelude::*;

verus! {

/// The facts read out of one log line. All but `raw` are best effort and may
/// be absent.
#[derive(Debug, Clone)]
pub struct LogEvent {
    /// When the line says it was written.
    pub ts: Option<Timestamp>,
    /// The first network address in the line.
    pub ip: Option<IpAddress>,
    /// The account that the line is about.
    pub user: Option<String>,
    /// The line itself, unchanged.
    pub raw: String,
}

/// A [`LogEvent`] with its texts as sequences of characters.
pub struct EventView {
    pub ts: Option<Timestamp>,
    pub ip: Option<IpAddress>,
    pub user: Option<Seq<char>>,
    pub raw: Seq<char>,
}

impl View for LogEvent {
    type V = EventView;

    open spec fn view(&self) -> EventView {
        EventView { ts: self.ts, ip: self.ip, user: opt_view(self.user), raw: self.raw@ }
    }
}

} // verus!
