//! Counts of the alerts seen, by rule and by address, and their ranking for
//! the summary at the end of a run.

use crate::address::{AddressMap, IpAddress};
use crate::alert::{Alert, AlertView};
use vstd::prelude::*;

verus! {

/// The counts as plain values.
pub struct StatsView {
    /// Rules with the number of their alerts, in the order in which the
    /// rules were first seen. No rule stands twice: see [`rules_apart`].
    pub by_rule: Seq<(Seq<char>, nat)>,
    /// Addresses with the number of their alerts.
    pub by_ip: Map<IpAddress, nat>,
}

/// Where `rule` stands in the list, looking from `from` on.
pub open spec fn position_from(tallies: Seq<(Seq<char>, nat)>, rule: Seq<char>, from: int)
    -> Option<int>
    decreases tallies.len() - from,
{
    if from < 0 || from >= tallies.len() {
        None
    } else if tallies[from].0 == rule {
        Some(from)
    } else {
        position_from(tallies, rule, from + 1)
    }
}

/// Where `rule` stands in the list: its first entry.
pub open spec fn position_of(tallies: Seq<(Seq<char>, nat)>, rule: Seq<char>) -> Option<int> {
    position_from(tallies, rule, 0)
}

/// The number of alerts counted for `rule`.
pub open spec fn count_of(tallies: Seq<(Seq<char>, nat)>, rule: Seq<char>) -> nat {
    match position_of(tallies, rule) {
        Some(i) => tallies[i].1,
        None => 0,
    }
}

/// The list with one more alert counted for `rule`: its entry is raised by
/// one, or added at the end with a count of one.
pub open spec fn bumped(tallies: Seq<(Seq<char>, nat)>, rule: Seq<char>) -> Seq<(Seq<char>, nat)> {
    match position_of(tallies, rule) {
        Some(i) => tallies.update(i, (rule, tallies[i].1 + 1)),
        None => tallies.push((rule, 1)),
    }
}

/// No rule stands twice in the list.
pub open spec fn rules_apart(tallies: Seq<(Seq<char>, nat)>) -> bool {
    forall|i: int, j: int|
        0 <= i < j < tallies.len() ==> (#[trigger] tallies[i]).0 != (#[trigger] tallies[j]).0
}

/// Where a rule is found, it stands there and nowhere before; where it is
/// not found, it stands nowhere.
pub proof fn lemma_position(tallies: Seq<(Seq<char>, nat)>, rule: Seq<char>, from: int)
    requires
        0 <= from <= tallies.len(),
    ensures
        match position_from(tallies, rule, from) {
            Some(i) => from <= i < tallies.len() && tallies[i].0 == rule && forall|k: int|
                from <= k < i ==> (#[trigger] tallies[k]).0 != rule,
            None => forall|k: int| from <= k < tallies.len() ==> (#[trigger] tallies[k]).0 != rule,
        },
    decreases tallies.len() - from,
{
    if from < tallies.len() && tallies[from].0 != rule {
        lemma_position(tallies, rule, from + 1);
    }
}

/// Counting one more alert keeps the rules of the list apart.
pub proof fn lemma_bumped_keeps_rules_apart(tallies: Seq<(Seq<char>, nat)>, rule: Seq<char>)
    requires
        rules_apart(tallies),
    ensures
        rules_apart(bumped(tallies, rule)),
{
    lemma_position(tallies, rule, 0);
    let after = bumped(tallies, rule);
    assert forall|i: int, j: int| 0 <= i < j < after.len() implies (#[trigger] after[i]).0 != (
    #[trigger] after[j]).0 by {
        match position_of(tallies, rule) {
            Some(at) => {
                assert(after[i].0 == tallies[i].0 && after[j].0 == tallies[j].0);
            },
            None => {
                if j < tallies.len() {
                    assert(after[i] == tallies[i] && after[j] == tallies[j]);
                } else {
                    assert(after[i] == tallies[i]);
                }
            },
        }
    }
}

/// The number of alerts counted for `address`.
pub open spec fn address_count(by_ip: Map<IpAddress, nat>, address: IpAddress) -> nat {
    if by_ip.contains_key(address) {
        by_ip[address]
    } else {
        0
    }
}

/// The counts with one more alert: one more for its rule, and one more for
/// its address where it has one.
pub open spec fn observed(s: StatsView, a: AlertView) -> StatsView {
    StatsView {
        by_rule: bumped(s.by_rule, a.rule_id),
        by_ip: match a.ip {
            Some(ip) => s.by_ip.insert(ip, address_count(s.by_ip, ip) + 1),
            None => s.by_ip,
        },
    }
}

/// The counts that the alert raises can still be raised by one.
pub open spec fn has_room(s: StatsView, a: AlertView) -> bool {
    &&& count_of(s.by_rule, a.rule_id) < usize::MAX
    &&& a.ip matches Some(ip) ==> address_count(s.by_ip, ip) < usize::MAX
}

/// The counts of a list as naturals.
pub open spec fn naturals(counts: Seq<usize>) -> Seq<nat> {
    Seq::new(counts.len(), |i: int| counts[i] as nat)
}

/// Entry `a` of a list of counts stands before entry `b` in the ranking: it
/// has the larger count, or the same count and the earlier place.
pub open spec fn ranks_before(counts: Seq<nat>, a: int, b: int) -> bool {
    counts[a] > counts[b] || (counts[a] == counts[b] && a < b)
}

/// `order` lists the places of `counts`, each once, larger counts first and
/// equal counts in the order of their places. There is one such list.
pub open spec fn is_ranking(counts: Seq<nat>, order: Seq<usize>) -> bool {
    &&& order.len() == counts.len()
    &&& forall|i: int| 0 <= i < order.len() ==> (#[trigger] order[i]) < counts.len()
    &&& forall|k: int| 0 <= k < counts.len() ==> #[trigger] order.contains(k as usize)
    &&& forall|i: int, j: int|
        0 <= i < j < order.len() ==> ranks_before(counts, order[i] as int, order[j] as int)
}

/// Ranks the places of a list of counts: larger counts first, equal counts
/// in the order of their places.
pub fn rank(counts: &Vec<usize>) -> (order: Vec<usize>)
    ensures
        is_ranking(naturals(counts@), order@),
{
    let ghost nats = naturals(counts@);
    let mut order: Vec<usize> = Vec::new();
    let mut next: usize = 0;
    while next < counts.len()
        invariant
            0 <= next <= counts.len(),
            nats == naturals(counts@),
            order.len() == next,
            forall|i: int| 0 <= i < order.len() ==> (#[trigger] order[i]) < next,
            forall|k: int| 0 <= k < next ==> #[trigger] order@.contains(k as usize),
            forall|i: int, j: int|
                0 <= i < j < order.len() ==> ranks_before(nats, order[i] as int, order[j] as int),
        decreases counts.len() - next,
    {
        let mut at: usize = 0;
        while at < order.len() && counts[order[at]] >= counts[next]
            invariant
                0 <= at <= order.len(),
                next < counts.len(),
                forall|i: int| 0 <= i < order.len() ==> (#[trigger] order[i]) < next,
                forall|i: int|
                    0 <= i < at ==> counts[(#[trigger] order[i]) as int] >= counts[next as int],
            decreases order.len() - at,
        {
            at += 1;
        }
        let ghost before = order@;
        order.insert(at, next);
        assert forall|i: int, j: int| 0 <= i < j < order.len() implies ranks_before(
            nats,
            order[i] as int,
            order[j] as int,
        ) by {
            if j < at {
                assert(order[i] == before[i] && order[j] == before[j]);
            } else if j == at {
                assert(order[i] == before[i]);
            } else if i < at {
                assert(order[i] == before[i] && order[j] == before[j - 1]);
            } else if i == at {
                assert(order[j] == before[j - 1]);
                assert(ranks_before(nats, before[at as int] as int, before[j - 1] as int) || j - 1
                    == at);
            } else {
                assert(order[i] == before[i - 1] && order[j] == before[j - 1]);
            }
        }
        assert forall|i: int| 0 <= i < order.len() implies (#[trigger] order[i]) < next + 1 by {
            if i < at {
                assert(order[i] == before[i]);
            } else if i > at {
                assert(order[i] == before[i - 1]);
            }
        }
        assert forall|k: int| 0 <= k < next + 1 implies #[trigger] order@.contains(k as usize) by {
            if k == next {
                assert(order@[at as int] == next);
            } else {
                assert(before.contains(k as usize));
                let i = choose|i: int| 0 <= i < before.len() && before[i] == k as usize;
                if i < at {
                    assert(order@[i] == before[i]);
                } else {
                    assert(order@[i + 1] == before[i]);
                }
            }
        }
        next += 1;
    }
    order
}

/// The counts of a list of tallies.
pub open spec fn tally_counts(tallies: Seq<(Seq<char>, nat)>) -> Seq<nat> {
    Seq::new(tallies.len(), |i: int| tallies[i].1)
}

/// `ranked` holds the entries of `tallies`, each once: larger counts first,
/// and equal counts in the order in which they stand in `tallies`.
pub open spec fn is_ranked(tallies: Seq<(Seq<char>, nat)>, ranked: Seq<(Seq<char>, nat)>) -> bool {
    exists|order: Seq<usize>|
        is_ranking(tally_counts(tallies), order) && #[trigger] ranked_by(tallies, order) == ranked
}

/// The entries of `tallies` in the order of the places that `order` lists.
pub open spec fn ranked_by(tallies: Seq<(Seq<char>, nat)>, order: Seq<usize>) -> Seq<
    (Seq<char>, nat),
> {
    Seq::new(order.len(), |i: int| tallies[order[i] as int])
}

/// The views of a list of rules with their counts.
pub open spec fn tallies_view(tallies: Seq<(String, usize)>) -> Seq<(Seq<char>, nat)> {
    Seq::new(tallies.len(), |i: int| (tallies[i].0@, tallies[i].1 as nat))
}

/// `top` lists addresses of `by_ip` with their counts: each at most once,
/// larger counts first, and no address left out has a larger count than one
/// that is listed. Which of two addresses with the same count comes first,
/// or is listed at all, is left open.
pub open spec fn is_top(by_ip: Map<IpAddress, nat>, top: Seq<(IpAddress, usize)>) -> bool {
    &&& forall|i: int|
        0 <= i < top.len() ==> by_ip.contains_key((#[trigger] top[i]).0) && by_ip[top[i].0]
            == top[i].1
    &&& forall|i: int, j: int|
        0 <= i < j < top.len() ==> top[i].0 != top[j].0 && top[i].1 >= top[j].1
    &&& forall|a: IpAddress, i: int|
        #![trigger by_ip[a], top[i]]
        by_ip.contains_key(a) && 0 <= i < top.len() ==> by_ip[a] <= top[i].1 || lists(top, a)
}

/// `address` is one of those that `top` lists.
pub open spec fn lists(top: Seq<(IpAddress, usize)>, address: IpAddress) -> bool {
    exists|j: int| 0 <= j < top.len() && (#[trigger] top[j]).0 == address
}

/// Rules with the number of their alerts, in the order in which the rules
/// were first seen. No rule stands twice.
pub struct RuleTallies {
    entries: Vec<(String, usize)>,
}

impl View for RuleTallies {
    type V = Seq<(Seq<char>, nat)>;

    closed spec fn view(&self) -> Seq<(Seq<char>, nat)> {
        tallies_view(self.entries@)
    }
}

impl RuleTallies {
    #[verifier::type_invariant]
    spec fn apart(self) -> bool {
        rules_apart(tallies_view(self.entries@))
    }

    /// A list without rules.
    pub fn new() -> (t: Self)
        ensures
            t@ == Seq::<(Seq<char>, nat)>::empty(),
    {
        let t = RuleTallies { entries: Vec::new() };
        assert(t@ =~= Seq::empty());
        t
    }

    fn find(&self, rule: &str) -> (r: Option<usize>)
        ensures
            match r {
                Some(i) => position_of(self@, rule@) == Some(i as int) && i < self.entries.len(),
                None => position_of(self@, rule@) is None,
            },
    {
        let mut i: usize = 0;
        while i < self.entries.len()
            invariant
                0 <= i <= self.entries.len(),
                position_of(self@, rule@) == position_from(self@, rule@, i as int),
            decreases self.entries.len() - i,
        {
            if crate::text::same_text(self.entries[i].0.as_str(), rule) {
                return Some(i);
            }
            i += 1;
        }
        None
    }

    /// The number of alerts counted for `rule`. No rule stands twice in the
    /// list.
    pub fn count(&self, rule: &str) -> (n: usize)
        ensures
            n == count_of(self@, rule@),
            rules_apart(self@),
    {
        proof {
            use_type_invariant(self);
        }
        match self.find(rule) {
            Some(i) => self.entries[i].1,
            None => 0,
        }
    }

    /// The list with one more alert counted for `rule`.
    pub fn bump(self, rule: &str) -> (t: Self)
        requires
            count_of(self@, rule@) < usize::MAX,
        ensures
            t@ == bumped(self@, rule@),
            rules_apart(t@),
    {
        proof {
            use_type_invariant(&self);
            lemma_bumped_keeps_rules_apart(self@, rule@);
        }
        let ghost before = self@;
        let found = self.find(rule);
        let mut entries = self.entries;
        match found {
            Some(i) => {
                let n = entries[i].1;
                entries.set(i, (rule.to_owned(), n + 1));
            },
            None => {
                entries.push((rule.to_owned(), 1));
            },
        }
        assert(tallies_view(entries@) =~= bumped(before, rule@));
        RuleTallies { entries }
    }
}

/// Counts alerts by rule and by address.
pub struct Stats {
    by_rule: RuleTallies,
    by_ip: AddressMap<usize>,
}

impl View for Stats {
    type V = StatsView;

    closed spec fn view(&self) -> StatsView {
        StatsView { by_rule: self.by_rule@, by_ip: self.by_ip@.map_values(|c: usize| c as nat) }
    }
}

impl Default for Stats {
    /// Counts with nothing counted yet.
    fn default() -> (s: Self)
        ensures
            s@ == (StatsView { by_rule: Seq::empty(), by_ip: Map::empty() }),
    {
        Stats::new()
    }
}

impl Stats {
    /// Counts with nothing counted yet.
    pub fn new() -> (s: Self)
        ensures
            s@ == (StatsView { by_rule: Seq::empty(), by_ip: Map::empty() }),
    {
        let s = Stats { by_rule: RuleTallies::new(), by_ip: AddressMap::new() };
        assert(s@.by_ip =~= Map::empty());
        s
    }

    /// The number of alerts counted for `rule`. No rule stands twice among
    /// the counts.
    pub fn rule_count(&self, rule: &str) -> (n: usize)
        ensures
            n == count_of(self@.by_rule, rule@),
            rules_apart(self@.by_rule),
    {
        self.by_rule.count(rule)
    }

    /// The number of alerts counted for `address`.
    pub fn address_count(&self, address: &IpAddress) -> (n: usize)
        ensures
            n == address_count(self@.by_ip, *address),
    {
        match self.by_ip.get(address) {
            Some(n) => *n,
            None => 0,
        }
    }

    /// Whether the counts that the alert raises can still be raised by one.
    pub fn has_room_for(&self, a: &Alert) -> (b: bool)
        ensures
            b == has_room(self@, a@),
    {
        if self.rule_count(a.rule_id) == usize::MAX {
            return false;
        }
        match &a.ip {
            Some(ip) => self.address_count(ip) < usize::MAX,
            None => true,
        }
    }

    /// Counts one more alert: for its rule, and for its address where it has
    /// one. No rule stands twice among the counts afterwards.
    pub fn observe(&mut self, a: &Alert)
        requires
            has_room(old(self)@, a@),
        ensures
            final(self)@ == observed(old(self)@, a@),
            rules_apart(final(self)@.by_rule),
    {
        let ghost before = self@;
        let mut tallies = RuleTallies::new();
        core::mem::swap(&mut self.by_rule, &mut tallies);
        self.by_rule = tallies.bump(a.rule_id);
        if let Some(ip) = a.ip {
            let n = self.address_count(&ip);
            self.by_ip.insert(ip, n + 1);
            assert(self@.by_ip =~= before.by_ip.insert(ip, address_count(before.by_ip, ip) + 1));
        }
    }

    /// The rules with their counts, ranked for the summary: most alerts
    /// first, and of rules with as many alerts the one seen first.
    pub fn rules_by_count(&self) -> (ranked: Vec<(String, usize)>)
        ensures
            is_ranked(self@.by_rule, tallies_view(ranked@)),
    {
        let mut counts: Vec<usize> = Vec::new();
        let mut i: usize = 0;
        while i < self.by_rule.entries.len()
            invariant
                0 <= i <= self.by_rule.entries.len(),
                counts.len() == i,
                forall|k: int| 0 <= k < i ==> counts[k] == self.by_rule.entries[k].1,
            decreases self.by_rule.entries.len() - i,
        {
            counts.push(self.by_rule.entries[i].1);
            i += 1;
        }
        assert(naturals(counts@) =~= tally_counts(self@.by_rule));
        let order = rank(&counts);
        let mut ranked: Vec<(String, usize)> = Vec::new();
        let mut i: usize = 0;
        while i < order.len()
            invariant
                0 <= i <= order.len(),
                is_ranking(tally_counts(self@.by_rule), order@),
                ranked.len() == i,
                forall|k: int|
                    0 <= k < i ==> (#[trigger] ranked[k]).0@ == self.by_rule.entries[order[k] as int].0@
                        && ranked[k].1 == self.by_rule.entries[order[k] as int].1,
            decreases order.len() - i,
        {
            let entry = &self.by_rule.entries[order[i]];
            ranked.push((entry.0.clone(), entry.1));
            i += 1;
        }
        assert(ranked_by(self@.by_rule, order@) =~= tallies_view(ranked@));
        ranked
    }

    /// The addresses with the most alerts, at most `limit` of them, with
    /// their counts and the largest first.
    pub fn top_addresses(&self, limit: usize) -> (top: Vec<(IpAddress, usize)>)
        ensures
            is_top(self@.by_ip, top@),
            top.len() <= limit,
            top.len() == limit || top.len() == self@.by_ip.dom().len(),
    {
        let keys = self.by_ip.keys();
        proof {
            keys@.unique_seq_to_set();
            assert(self@.by_ip.dom() =~= self.by_ip@.dom());
        }
        let mut counts: Vec<usize> = Vec::new();
        let mut i: usize = 0;
        while i < keys.len()
            invariant
                0 <= i <= keys.len(),
                counts.len() == i,
                keys@.to_set() == self.by_ip@.dom(),
                forall|k: int| 0 <= k < i ==> counts[k] == self.by_ip@[keys[k]],
            decreases keys.len() - i,
        {
            assert(keys@.to_set().contains(keys@[i as int]));
            counts.push(self.address_count(&keys[i]));
            i += 1;
        }
        let order = rank(&counts);
        let ghost nats = naturals(counts@);
        let mut top: Vec<(IpAddress, usize)> = Vec::new();
        let mut i: usize = 0;
        while i < order.len() && i < limit
            invariant
                0 <= i <= order.len(),
                i <= limit,
                order.len() == keys.len(),
                counts.len() == keys.len(),
                is_ranking(nats, order@),
                nats == naturals(counts@),
                top.len() == i,
                forall|k: int|
                    0 <= k < i ==> (#[trigger] top[k]) == (
                        keys[order[k] as int],
                        counts[order[k] as int],
                    ),
            decreases order.len() - i,
        {
            top.push((keys[order[i]], counts[order[i]]));
            i += 1;
        }
        proof {
            let by_ip = self@.by_ip;
            assert forall|i: int| 0 <= i < top.len() implies by_ip.contains_key(
                (#[trigger] top[i]).0,
            ) && by_ip[top[i].0] == top[i].1 by {
                assert(keys@.to_set().contains(keys@[order[i] as int]));
            }
            assert forall|i: int, j: int| 0 <= i < j < top.len() implies top[i].0 != top[j].0
                && top[i].1 >= top[j].1 by {
                assert(ranks_before(nats, order[i] as int, order[j] as int));
            }
            assert forall|a: IpAddress, i: int|
                #![trigger by_ip[a], top[i]]
                by_ip.contains_key(a) && 0 <= i < top.len() implies by_ip[a] <= top[i].1 || lists(
                    top@,
                    a,
                ) by {
                assert(keys@.to_set().contains(a));
                let k = choose|k: int| 0 <= k < keys.len() && keys[k] == a;
                assert(order@.contains(k as usize));
                let p = choose|p: int| 0 <= p < order.len() && order[p] == k as usize;
                if p < top.len() {
                    assert(top[p].0 == a);
                } else {
                    assert(ranks_before(nats, order[i] as int, order[p] as int));
                }
            }
        }
        top
    }
}

} // verus!
