//! How an alert is shown on one line.

use crate::address::IpAddress;
use crate::alert::{Alert, AlertView};
use crate::stats::tallies_view;
use crate::text::{append_numeral, numeral};
use vstd::prelude::*;

verus! {

/// The two ways of showing alerts: one readable line each, or one JSON
/// record each.
#[derive(Debug, Clone, Copy, PartialEq, Eq, Structural)]
pub enum OutputMode {
    Pretty,
    Jsonl,
}

/// Address and user of an alert as ` ip=.. user=.. ::`, each part only where
/// present; empty where both are absent.
pub open spec fn details(ip: Option<IpAddress>, user: Option<Seq<char>>) -> Seq<char> {
    match (ip, user) {
        (Some(ip), Some(user)) => " ip="@ + ip.text() + " user="@ + user + " ::"@,
        (Some(ip), None) => " ip="@ + ip.text() + " ::"@,
        (None, Some(user)) => " user="@ + user + " ::"@,
        (None, None) => Seq::empty(),
    }
}

/// The readable line for an alert: `[severity] rule ip=.. user=.. :: message`.
pub open spec fn pretty_line(a: AlertView) -> Seq<char> {
    "["@ + a.severity.spec_name() + "] "@ + a.rule_id + details(a.ip, a.user) + " "@ + a.message
}

/// The readable line for an alert.
pub fn format_alert(a: &Alert) -> (line: String)
    ensures
        line@ == pretty_line(a@),
{
    let mut line = "[".to_owned();
    line.append(a.severity.name());
    line.append("] ");
    line.append(a.rule_id);
    let ghost head = line@;
    if let Some(ip) = &a.ip {
        line.append(" ip=");
        ip.append_to(&mut line);
    }
    if let Some(user) = &a.user {
        line.append(" user=");
        line.append(user.as_str());
    }
    if a.ip.is_some() || a.user.is_some() {
        line.append(" ::");
    }
    assert(line@ =~= head + details(a@.ip, a@.user));
    line.append(" ");
    line.append(a.message.as_str());
    assert(line@ =~= pretty_line(a@));
    line
}

/// How many addresses the summary lists.
pub const TOP_ADDRESSES: usize = 5;

/// The summary's line for a rule or an address: two blanks, the name, a
/// colon and the count.
pub open spec fn count_line(name: Seq<char>, count: nat) -> Seq<char> {
    "  "@ + name + ": "@ + numeral(count, 10)
}

/// The summary's lines for the rules, in the order given.
pub open spec fn rule_lines(rules: Seq<(Seq<char>, nat)>) -> Seq<Seq<char>> {
    Seq::new(rules.len(), |i: int| count_line(rules[i].0, rules[i].1))
}

/// The summary's lines for the addresses, in the order given.
pub open spec fn address_lines(addresses: Seq<(IpAddress, usize)>) -> Seq<Seq<char>> {
    Seq::new(addresses.len(), |i: int| count_line(addresses[i].0.text(), addresses[i].1 as nat))
}

/// The summary at the end of a run: an empty line, the heading, the rules
/// with their counts, and the addresses with theirs.
pub open spec fn summary(rules: Seq<(Seq<char>, nat)>, addresses: Seq<(IpAddress, usize)>) -> Seq<
    Seq<char>,
> {
    seq![Seq::<char>::empty(), "== Summary =="@, "By rule:"@] + rule_lines(rules)
        + seq!["Top IPs:"@] + address_lines(addresses)
}

fn count_line_text(name: &str, count: usize) -> (line: String)
    ensures
        line@ == count_line(name@, count as nat),
{
    let mut line = "  ".to_owned();
    line.append(name);
    line.append(": ");
    append_numeral(&mut line, count as u128, 10);
    assert(line@ =~= count_line(name@, count as nat));
    line
}

/// The views of the lines of a list.
pub open spec fn lines_view(lines: Seq<String>) -> Seq<Seq<char>> {
    Seq::new(lines.len(), |i: int| lines[i]@)
}

/// The lines of the summary, for rules and addresses that are already
/// ranked.
pub fn summary_lines(rules: &Vec<(String, usize)>, addresses: &Vec<(IpAddress, usize)>) -> (lines:
    Vec<String>)
    ensures
        lines_view(lines@) == summary(tallies_view(rules@), addresses@),
{
    let mut lines: Vec<String> = Vec::new();
    lines.push(String::new());
    lines.push("== Summary ==".to_owned());
    lines.push("By rule:".to_owned());
    let ghost head = lines_view(lines@);
    assert(head =~= seq![Seq::<char>::empty(), "== Summary =="@, "By rule:"@]);
    let mut i: usize = 0;
    while i < rules.len()
        invariant
            0 <= i <= rules.len(),
            lines_view(lines@) == head + rule_lines(tallies_view(rules@)).take(i as int),
        decreases rules.len() - i,
    {
        let ghost so_far = lines_view(lines@);
        lines.push(count_line_text(rules[i].0.as_str(), rules[i].1));
        assert(lines_view(lines@) =~= so_far.push(lines@.last()@));
        assert(lines_view(lines@) =~= head + rule_lines(tallies_view(rules@)).take(i + 1));
        i += 1;
    }
    assert(rule_lines(tallies_view(rules@)).take(i as int) =~= rule_lines(tallies_view(rules@)));
    let ghost so_far = lines_view(lines@);
    lines.push("Top IPs:".to_owned());
    assert(lines_view(lines@) =~= so_far.push("Top IPs:"@));
    let ghost middle = lines_view(lines@);
    let mut i: usize = 0;
    while i < addresses.len()
        invariant
            0 <= i <= addresses.len(),
            lines_view(lines@) == middle + address_lines(addresses@).take(i as int),
        decreases addresses.len() - i,
    {
        let ghost so_far = lines_view(lines@);
        let name = addresses[i].0.to_text();
        lines.push(count_line_text(name.as_str(), addresses[i].1));
        assert(lines_view(lines@) =~= so_far.push(lines@.last()@));
        assert(lines_view(lines@) =~= middle + address_lines(addresses@).take(i + 1));
        i += 1;
    }
    assert(address_lines(addresses@).take(i as int) =~= address_lines(addresses@));
    assert(lines_view(lines@) =~= summary(tallies_view(rules@), addresses@));
    lines
}

} // verus!
