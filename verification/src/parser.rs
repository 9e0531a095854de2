//! Reads the facts of a log line: time, address and user, each as far as
//! the line gives it.

use crate::address::{parse_address, IpAddress};
use crate::event::LogEvent;
use crate::pattern::{capture, find, regex_capture, regex_find};
use crate::text::{number_of, opt_view, parse_decimal, same_text};
use crate::time::{
    current_year, is_calendar_date, is_time_of_day, local_timestamp, shown_at, CivilTime,
    Timestamp,
};
use vstd::prelude::*;

verus! {

/// Four numbers of one to three digits with dots between them.
pub const IPV4_PATTERN: &'static str = r"\d{1,3}\.\d{1,3}\.\d{1,3}\.\d{1,3}";

/// Eight groups of one to four hexadecimal digits with colons between them.
pub const IPV6_PATTERN: &'static str = r"([0-9a-fA-F]{1,4}:){7}[0-9a-fA-F]{1,4}";

/// The start of a syslog line: month name, day, and time of day.
pub const SYSLOG_PATTERN: &'static str =
    r"^(?P<mon>[A-Z][a-z]{2})\s+(?P<day>\d{1,2})\s+(?P<h>\d{2}):(?P<m>\d{2}):(?P<sec>\d{2})";

/// How many phrasings the user is looked for in.
pub const USER_PATTERNS: usize = 5;

/// The address that the text found by `pattern` in `s` writes, if any.
pub open spec fn address_by(pattern: Seq<char>, s: Seq<char>) -> Option<IpAddress> {
    match regex_find(pattern, s) {
        Some(found) => parse_address(found),
        None => None,
    }
}

/// The address of a line. Where the line holds a dotted quad, the first one
/// decides: the address is what it writes, and there is none where it
/// writes none. Only a line without any dotted quad is searched for a full
/// IPv6 form, and the first one found decides likewise.
pub open spec fn address_in(s: Seq<char>) -> Option<IpAddress> {
    match regex_find(IPV4_PATTERN@, s) {
        Some(quad) => parse_address(quad),
        None => address_by(IPV6_PATTERN@, s),
    }
}

fn address_found(pattern: &str, s: &str) -> (r: Option<IpAddress>)
    ensures
        r == address_by(pattern@, s@),
{
    match find(pattern, s) {
        Some(found) => IpAddress::parse(found.as_str()),
        None => None,
    }
}

/// Reads the address of a line.
pub fn extract_ip(s: &str) -> (r: Option<IpAddress>)
    ensures
        r == address_in(s@),
{
    match find(IPV4_PATTERN, s) {
        Some(quad) => IpAddress::parse(quad.as_str()),
        None => address_found(IPV6_PATTERN, s),
    }
}

/// The phrasings that name a user, in the order they are tried. Each marks
/// the name as group `u`. The fourth reads the account that a sudo command
/// runs as, not the one that asked for it.
pub open spec fn user_pattern(i: int) -> Seq<char> {
    if i == 0 {
        r"Failed password for (?P<u>\S+)"@
    } else if i == 1 {
        r"Accepted \w+ for (?P<u>\S+)"@
    } else if i == 2 {
        r"invalid user (?P<u>\S+)"@
    } else if i == 3 {
        r"USER=(?P<u>\S+)"@
    } else {
        r"for (?P<u>\S+) from"@
    }
}

/// The user that phrasing `i` finds in the line.
pub open spec fn user_by(s: Seq<char>, i: int) -> Option<Seq<char>> {
    regex_capture(user_pattern(i), "u"@, s)
}

/// The user that the phrasings from `from` on find: that of the first one
/// that finds any.
pub open spec fn user_in_from(s: Seq<char>, from: int) -> Option<Seq<char>>
    decreases USER_PATTERNS - from,
{
    if from < 0 || from >= USER_PATTERNS {
        None
    } else {
        match user_by(s, from) {
            Some(user) => Some(user),
            None => user_in_from(s, from + 1),
        }
    }
}

/// The user of a line: what the first phrasing that matches finds. Later
/// phrasings are not tried.
pub open spec fn user_in(s: Seq<char>) -> Option<Seq<char>> {
    user_in_from(s, 0)
}

fn user_pattern_text(i: usize) -> (r: &'static str)
    requires
        i < USER_PATTERNS,
    ensures
        r@ == user_pattern(i as int),
{
    if i == 0 {
        r"Failed password for (?P<u>\S+)"
    } else if i == 1 {
        r"Accepted \w+ for (?P<u>\S+)"
    } else if i == 2 {
        r"invalid user (?P<u>\S+)"
    } else if i == 3 {
        r"USER=(?P<u>\S+)"
    } else {
        r"for (?P<u>\S+) from"
    }
}

/// Reads the user of a line.
pub fn extract_user(s: &str) -> (r: Option<String>)
    ensures
        opt_view(r) == user_in(s@),
{
    let mut i: usize = 0;
    while i < USER_PATTERNS
        invariant
            0 <= i <= USER_PATTERNS,
            user_in(s@) == user_in_from(s@, i as int),
        decreases USER_PATTERNS - i,
    {
        if let Some(user) = capture(user_pattern_text(i), "u", s) {
            return Some(user);
        }
        i += 1;
    }
    None
}

/// The first phrasing that finds a user decides: where phrasing `i` finds
/// one and none before it does, that is the user of the line, whatever the
/// later phrasings would find. Where none finds one, the line has no user.
pub proof fn lemma_first_phrasing_wins(s: Seq<char>, i: int)
    requires
        0 <= i <= USER_PATTERNS,
    ensures
        (forall|j: int| 0 <= j < i ==> (#[trigger] user_by(s, j)) is None) ==> {
            &&& user_in(s) == user_in_from(s, i)
            &&& i < USER_PATTERNS && user_by(s, i) is Some ==> user_in(s) == user_by(s, i)
            &&& i == USER_PATTERNS ==> user_in(s) is None
        },
    decreases i,
{
    if i > 0 {
        lemma_first_phrasing_wins(s, i - 1);
        if forall|j: int| 0 <= j < i ==> (#[trigger] user_by(s, j)) is None {
            assert(user_by(s, i - 1) is None);
        }
    }
}

/// Where the phrasing `Failed password for ..` finds a user in a line, that
/// is the user of the line, whatever the other phrasings find; and where
/// a dotted quad is found in a line, what it writes is the address of the
/// line, whatever else the line holds.
pub proof fn lemma_failed_password_line(line: Seq<char>, user: Seq<char>, quad: Seq<char>)
    ensures
        user_by(line, 0) == Some(user) ==> user_in(line) == Some(user),
        regex_find(IPV4_PATTERN@, line) == Some(quad) ==> address_in(line) == parse_address(quad),
{
}

/// The number of the month with this English three-letter name.
pub open spec fn month_number(name: Seq<char>) -> Option<u32> {
    if name == "Jan"@ {
        Some(1u32)
    } else if name == "Feb"@ {
        Some(2u32)
    } else if name == "Mar"@ {
        Some(3u32)
    } else if name == "Apr"@ {
        Some(4u32)
    } else if name == "May"@ {
        Some(5u32)
    } else if name == "Jun"@ {
        Some(6u32)
    } else if name == "Jul"@ {
        Some(7u32)
    } else if name == "Aug"@ {
        Some(8u32)
    } else if name == "Sep"@ {
        Some(9u32)
    } else if name == "Oct"@ {
        Some(10u32)
    } else if name == "Nov"@ {
        Some(11u32)
    } else if name == "Dec"@ {
        Some(12u32)
    } else {
        None
    }
}

/// The number of the month with this name.
pub fn month_from_name(name: &str) -> (r: Option<u32>)
    ensures
        r == month_number(name@),
{
    if same_text(name, "Jan") {
        Some(1)
    } else if same_text(name, "Feb") {
        Some(2)
    } else if same_text(name, "Mar") {
        Some(3)
    } else if same_text(name, "Apr") {
        Some(4)
    } else if same_text(name, "May") {
        Some(5)
    } else if same_text(name, "Jun") {
        Some(6)
    } else if same_text(name, "Jul") {
        Some(7)
    } else if same_text(name, "Aug") {
        Some(8)
    } else if same_text(name, "Sep") {
        Some(9)
    } else if same_text(name, "Oct") {
        Some(10)
    } else if same_text(name, "Nov") {
        Some(11)
    } else if same_text(name, "Dec") {
        Some(12)
    } else {
        None
    }
}

/// The date and time that the five texts state: a month name and four
/// decimal numbers. `None` where the month is unknown or one of the others
/// is no number. Whether such a day and time exist is not asked here.
pub open spec fn civil_time_of(
    mon: Seq<char>,
    day: Seq<char>,
    h: Seq<char>,
    m: Seq<char>,
    sec: Seq<char>,
) -> Option<CivilTime> {
    if month_number(mon) is Some && number_of(day, 10) is Some && number_of(h, 10) is Some
        && number_of(m, 10) is Some && number_of(sec, 10) is Some {
        Some(
            CivilTime {
                month: month_number(mon).unwrap(),
                day: number_of(day, 10).unwrap(),
                hour: number_of(h, 10).unwrap(),
                minute: number_of(m, 10).unwrap(),
                second: number_of(sec, 10).unwrap(),
            },
        )
    } else {
        None
    }
}

/// Reads the date and time that the five texts state.
pub fn read_civil_time(mon: &str, day: &str, h: &str, m: &str, sec: &str) -> (r: Option<
    CivilTime,
>)
    ensures
        r == civil_time_of(mon@, day@, h@, m@, sec@),
{
    let month = match month_from_name(mon) {
        Some(n) => n,
        None => { return None; },
    };
    let day = match parse_decimal(day) {
        Some(n) => n,
        None => { return None; },
    };
    let hour = match parse_decimal(h) {
        Some(n) => n,
        None => { return None; },
    };
    let minute = match parse_decimal(m) {
        Some(n) => n,
        None => { return None; },
    };
    let second = match parse_decimal(sec) {
        Some(n) => n,
        None => { return None; },
    };
    Some(CivilTime { month, day, hour, minute, second })
}

/// What group `name` of the syslog pattern holds at the start of the line.
pub open spec fn syslog_part(s: Seq<char>, name: Seq<char>) -> Option<Seq<char>> {
    regex_capture(SYSLOG_PATTERN@, name, s)
}

/// The date and time that a line states at its start, in the syslog form
/// `Mon D HH:MM:SS`. `None` where the line does not start so.
pub open spec fn syslog_time(s: Seq<char>) -> Option<CivilTime> {
    if syslog_part(s, "mon"@) is Some && syslog_part(s, "day"@) is Some && syslog_part(s, "h"@)
        is Some && syslog_part(s, "m"@) is Some && syslog_part(s, "sec"@) is Some {
        civil_time_of(
            syslog_part(s, "mon"@).unwrap(),
            syslog_part(s, "day"@).unwrap(),
            syslog_part(s, "h"@).unwrap(),
            syslog_part(s, "m"@).unwrap(),
            syslog_part(s, "sec"@).unwrap(),
        )
    } else {
        None
    }
}

/// Reads the date and time that a line states at its start.
pub fn extract_civil_time(s: &str) -> (r: Option<CivilTime>)
    ensures
        r == syslog_time(s@),
{
    let mon = match capture(SYSLOG_PATTERN, "mon", s) {
        Some(t) => t,
        None => { return None; },
    };
    let day = match capture(SYSLOG_PATTERN, "day", s) {
        Some(t) => t,
        None => { return None; },
    };
    let h = match capture(SYSLOG_PATTERN, "h", s) {
        Some(t) => t,
        None => { return None; },
    };
    let m = match capture(SYSLOG_PATTERN, "m", s) {
        Some(t) => t,
        None => { return None; },
    };
    let sec = match capture(SYSLOG_PATTERN, "sec", s) {
        Some(t) => t,
        None => { return None; },
    };
    read_civil_time(mon.as_str(), day.as_str(), h.as_str(), m.as_str(), sec.as_str())
}

/// The point in time `at` is one at which the clocks of a zone show the date
/// and time of day `t`, in a year in which that date exists.
pub open spec fn shown_in_some_year(at: Timestamp, t: CivilTime) -> bool {
    &&& is_time_of_day(t.hour as int, t.minute as int, t.second as int)
    &&& exists|year: int|
        is_calendar_date(year, t.month as int, t.day as int) && #[trigger] shown_at(at, year, t)
}

/// Reads the time of a line: the date and time stated at its start, taken to
/// be of the current year and of the local zone.
///
/// There is none where the line states none, where that day or time of day
/// does not exist, and where the local zone skips that time or has it twice.
/// A time that is returned is a point in time at which the clocks of a zone
/// show the month, day, hour, minute and second that the line states.
pub fn extract_ts(s: &str) -> (r: Option<Timestamp>)
    ensures
        r matches Some(t) ==> syslog_time(s@) is Some && shown_in_some_year(
            t,
            syslog_time(s@).unwrap(),
        ),
{
    match extract_civil_time(s) {
        Some(fields) => {
            let year = current_year();
            let r = local_timestamp(year, &fields);
            assert(r matches Some(t) ==> is_calendar_date(
                year as int,
                fields.month as int,
                fields.day as int,
            ) && shown_at(t, year as int, fields));
            r
        },
        None => None,
    }
}

/// Reads the facts of one line. This never fails: what cannot be read is
/// absent from the event, and the line itself is always kept.
pub fn parse_line(line: &str) -> (r: Option<LogEvent>)
    ensures
        r matches Some(ev) && {
            &&& ev@.raw == line@
            &&& ev@.ip == address_in(line@)
            &&& ev@.user == user_in(line@)
            &&& ev@.ts matches Some(t) ==> syslog_time(line@) is Some && shown_in_some_year(
                t,
                syslog_time(line@).unwrap(),
            )
        },
{
    let ts = extract_ts(line);
    let ip = extract_ip(line);
    let user = extract_user(line);
    Some(LogEvent { ts, ip, user, raw: line.to_owned() })
}

} // verus!
