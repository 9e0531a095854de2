//! Network addresses: reading them from text, and maps keyed by them.

use crate::text::{all_digits, append_numeral, chars_of, digits_value, numeral, parse_digits};
use std::collections::HashMap;
use vstd::prelude::*;
use vstd::std_specs::iter::IteratorSpec;

verus! {

/// A network address: the 32 bits of an IPv4 address or the 128 bits of an
/// IPv6 address, most significant bit first.
#[derive(Debug, Clone, Copy, PartialEq, Eq, Structural, Hash)]
pub enum IpAddress {
    V4(u32),
    V6(u128),
}

/// The parts of `s` between the occurrences of `sep`. A text without `sep`
/// is one part; the empty text is one empty part.
pub open spec fn split(s: Seq<char>, sep: char) -> Seq<Seq<char>>
    decreases s.len(),
{
    if s.len() == 0 {
        seq![Seq::empty()]
    } else {
        let before = split(s.drop_last(), sep);
        if s.last() == sep {
            before.push(Seq::empty())
        } else {
            before.update(before.len() - 1, before.last().push(s.last()))
        }
    }
}

/// The views of the parts that `parts` holds.
pub open spec fn parts_view(parts: Seq<Vec<char>>) -> Seq<Seq<char>> {
    Seq::new(parts.len(), |i: int| parts[i]@)
}

/// Cuts `s` at every occurrence of `sep`.
pub fn split_text(s: &str, sep: char) -> (parts: Vec<Vec<char>>)
    ensures
        parts_view(parts@) == split(s@, sep),
{
    let chars = chars_of(s);
    let mut done: Vec<Vec<char>> = Vec::new();
    let mut current: Vec<char> = Vec::new();
    let mut i: usize = 0;
    while i < chars.len()
        invariant
            0 <= i <= chars.len(),
            chars@ == s@,
            parts_view(done@).push(current@) == split(chars@.take(i as int), sep),
        decreases chars.len() - i,
    {
        let ghost longer = chars@.take(i + 1);
        let ghost before = split(chars@.take(i as int), sep);
        assert(longer.drop_last() =~= chars@.take(i as int));
        let c = chars[i];
        if c == sep {
            let ghost old_done = done@;
            done.push(current);
            current = Vec::new();
            assert(parts_view(done@) =~= parts_view(old_done).push(done@.last()@));
            assert(parts_view(done@).push(current@) =~= before.push(Seq::empty()));
        } else {
            let ghost old_current = current@;
            current.push(c);
            assert(parts_view(done@).push(current@) =~= before.update(
                before.len() - 1,
                old_current.push(c),
            ));
        }
        i += 1;
    }
    assert(chars@.take(i as int) =~= chars@);
    let ghost old_done = done@;
    done.push(current);
    assert(parts_view(done@) =~= parts_view(old_done).push(done@.last()@));
    done
}

/// One number of a dotted quad: one to three decimal digits that write a
/// number up to 255, with no zero in front of another digit.
pub open spec fn octet_of(part: Seq<char>) -> Option<nat> {
    if 1 <= part.len() <= 3 && all_digits(part, 10) && (part.len() == 1 || part[0] != '0')
        && digits_value(part, 10) <= 255 {
        Some(digits_value(part, 10))
    } else {
        None
    }
}

/// One group of an IPv6 address: one to four hexadecimal digits.
pub open spec fn group_of(part: Seq<char>) -> Option<nat> {
    if 1 <= part.len() <= 4 && all_digits(part, 16) {
        Some(digits_value(part, 16))
    } else {
        None
    }
}

/// The 32 bits that four octets make, the first octet on top.
pub open spec fn v4_bits(o: Seq<nat>) -> nat {
    o[0] * 0x100_0000 + o[1] * 0x1_0000 + o[2] * 0x100 + o[3]
}

/// The 128 bits that eight groups make, the first group on top.
pub open spec fn v6_bits(g: Seq<nat>) -> nat {
    g[0] * 0x1_0000_0000_0000_0000_0000_0000_0000 + g[1] * 0x1_0000_0000_0000_0000_0000_0000
        + g[2] * 0x1_0000_0000_0000_0000_0000 + g[3] * 0x1_0000_0000_0000_0000 + g[4]
        * 0x1_0000_0000_0000 + g[5] * 0x1_0000_0000 + g[6] * 0x1_0000 + g[7]
}

/// Every part is a number of a dotted quad.
pub open spec fn all_octets(parts: Seq<Seq<char>>) -> bool {
    forall|i: int| 0 <= i < parts.len() ==> (#[trigger] octet_of(parts[i])) is Some
}

/// Every part is a group of an IPv6 address.
pub open spec fn all_groups(parts: Seq<Seq<char>>) -> bool {
    forall|i: int| 0 <= i < parts.len() ==> (#[trigger] group_of(parts[i])) is Some
}

/// The IPv4 address that `s` writes as a dotted quad, such as `192.168.1.100`.
pub open spec fn parse_v4(s: Seq<char>) -> Option<IpAddress> {
    let parts = split(s, '.');
    if parts.len() == 4 && all_octets(parts) {
        Some(IpAddress::V4(v4_bits(parts.map_values(|p: Seq<char>| octet_of(p).unwrap())) as u32))
    } else {
        None
    }
}

/// The IPv6 address that `s` writes in full: eight groups with colons
/// between them. The shortened forms of IPv6 are not read.
pub open spec fn parse_v6(s: Seq<char>) -> Option<IpAddress> {
    let parts = split(s, ':');
    if parts.len() == 8 && all_groups(parts) {
        Some(
            IpAddress::V6(v6_bits(parts.map_values(|p: Seq<char>| group_of(p).unwrap())) as u128),
        )
    } else {
        None
    }
}

/// The address that `s` writes: a dotted quad, or else a full IPv6 address.
pub open spec fn parse_address(s: Seq<char>) -> Option<IpAddress> {
    match parse_v4(s) {
        Some(a) => Some(a),
        None => parse_v6(s),
    }
}

fn read_octet(part: &Vec<char>) -> (r: Option<u32>)
    ensures
        r is Some == octet_of(part@) is Some,
        r matches Some(v) ==> v == octet_of(part@).unwrap() && v <= 255,
{
    if part.len() < 1 || part.len() > 3 {
        return None;
    }
    if part.len() > 1 && part[0] == '0' {
        return None;
    }
    match parse_digits(part, 10) {
        Some(v) => if v <= 255 {
            Some(v)
        } else {
            None
        },
        None => {
            proof {
                lemma_short_number(part@, 10);
            }
            None
        },
    }
}

fn read_group(part: &Vec<char>) -> (r: Option<u32>)
    ensures
        r is Some == group_of(part@) is Some,
        r matches Some(v) ==> v == group_of(part@).unwrap() && v <= 0xffff,
{
    if part.len() < 1 || part.len() > 4 {
        return None;
    }
    proof {
        lemma_short_number(part@, 16);
    }
    parse_digits(part, 16)
}

/// Up to four digits write a number below 65536 in the radixes in use: one
/// digit a number below 16, two below 256, three below 4096.
proof fn lemma_short_number(s: Seq<char>, radix: nat)
    requires
        radix == 10 || radix == 16,
        s.len() <= 4,
    ensures
        s.len() == 0 ==> digits_value(s, radix) == 0,
        s.len() == 1 ==> digits_value(s, radix) < 16,
        s.len() == 2 ==> digits_value(s, radix) < 256,
        s.len() == 3 ==> digits_value(s, radix) < 4096,
        digits_value(s, radix) < 65536,
    decreases s.len(),
{
    if s.len() > 0 {
        lemma_short_number(s.drop_last(), radix);
    }
}

fn read_v4(s: &str) -> (r: Option<IpAddress>)
    ensures
        r == parse_v4(s@),
{
    let dotted = split_text(s, '.');
    if dotted.len() != 4 {
        return None;
    }
    let ghost parts = split(s@, '.');
    let mut octets: Vec<u32> = Vec::new();
    let mut i: usize = 0;
    while i < 4
        invariant
            0 <= i <= 4,
            dotted.len() == 4,
            parts_view(dotted@) == parts,
            parts == split(s@, '.'),
            octets.len() == i,
            forall|j: int|
                0 <= j < i ==> octet_of(#[trigger] parts[j]) == Some(octets[j] as nat)
                    && octets[j] <= 255,
        decreases 4 - i,
    {
        assert(parts[i as int] == dotted@[i as int]@);
        match read_octet(&dotted[i]) {
            Some(v) => {
                octets.push(v);
            },
            None => {
                return None;
            },
        }
        i += 1;
    }
    let bits: u32 = octets[0] * 0x100_0000 + octets[1] * 0x1_0000 + octets[2] * 0x100 + octets[3];
    proof {
        let values = parts.map_values(|p: Seq<char>| octet_of(p).unwrap());
        assert(values[0] == octets[0] && values[1] == octets[1] && values[2] == octets[2]
            && values[3] == octets[3]);
        assert(all_octets(parts));
    }
    Some(IpAddress::V4(bits))
}

fn read_v6(s: &str) -> (r: Option<IpAddress>)
    ensures
        r == parse_v6(s@),
{
    let colons = split_text(s, ':');
    if colons.len() != 8 {
        return None;
    }
    let ghost parts = split(s@, ':');
    let mut groups: Vec<u128> = Vec::new();
    let mut i: usize = 0;
    while i < 8
        invariant
            0 <= i <= 8,
            colons.len() == 8,
            parts_view(colons@) == parts,
            parts == split(s@, ':'),
            groups.len() == i,
            forall|j: int|
                0 <= j < i ==> group_of(#[trigger] parts[j]) == Some(groups[j] as nat)
                    && groups[j] <= 0xffff,
        decreases 8 - i,
    {
        assert(parts[i as int] == colons@[i as int]@);
        match read_group(&colons[i]) {
            Some(v) => {
                groups.push(v as u128);
            },
            None => {
                return None;
            },
        }
        i += 1;
    }
    let bits: u128 = groups[0] * 0x1_0000_0000_0000_0000_0000_0000_0000 + groups[1]
        * 0x1_0000_0000_0000_0000_0000_0000 + groups[2] * 0x1_0000_0000_0000_0000_0000 + groups[3]
        * 0x1_0000_0000_0000_0000 + groups[4] * 0x1_0000_0000_0000 + groups[5] * 0x1_0000_0000
        + groups[6] * 0x1_0000 + groups[7];
    proof {
        let values = parts.map_values(|p: Seq<char>| group_of(p).unwrap());
        assert(values[0] == groups[0] && values[1] == groups[1] && values[2] == groups[2]
            && values[3] == groups[3] && values[4] == groups[4] && values[5] == groups[5]
            && values[6] == groups[6] && values[7] == groups[7]);
        assert(all_groups(parts));
    }
    Some(IpAddress::V6(bits))
}

impl IpAddress {
    /// Reads an address from text: a dotted quad, or a full IPv6 address of
    /// eight groups.
    pub fn parse(s: &str) -> (r: Option<IpAddress>)
        ensures
            r == parse_address(s@),
    {
        match read_v4(s) {
            Some(a) => Some(a),
            None => read_v6(s),
        }
    }
}

/// How an IPv4 address is written: its four octets in decimal, with dots
/// between them.
pub open spec fn v4_text(bits: nat) -> Seq<char> {
    numeral(bits / 0x100_0000, 10) + seq!['.'] + numeral(bits / 0x1_0000 % 0x100, 10) + seq!['.']
        + numeral(bits / 0x100 % 0x100, 10) + seq!['.'] + numeral(bits % 0x100, 10)
}

/// What one unit of group `i` (0 to 7) of an IPv6 address weighs in its bits.
pub open spec fn group_weight(i: int) -> nat {
    if i == 0 {
        0x1_0000_0000_0000_0000_0000_0000_0000
    } else if i == 1 {
        0x1_0000_0000_0000_0000_0000_0000
    } else if i == 2 {
        0x1_0000_0000_0000_0000_0000
    } else if i == 3 {
        0x1_0000_0000_0000_0000
    } else if i == 4 {
        0x1_0000_0000_0000
    } else if i == 5 {
        0x1_0000_0000
    } else if i == 6 {
        0x1_0000
    } else {
        1
    }
}

/// The eight groups of sixteen bits of an IPv6 address, the first on top.
pub open spec fn groups_of(bits: nat) -> Seq<nat> {
    Seq::new(8, |i: int| bits / group_weight(i) % 0x1_0000)
}

/// How many groups from `from` on are zero without a break.
pub open spec fn zero_run(g: Seq<nat>, from: int) -> nat
    decreases g.len() - from,
{
    if 0 <= from < g.len() && g[from] == 0 {
        1 + zero_run(g, from + 1)
    } else {
        0
    }
}

/// Start and length of the longest run of zero groups that starts before
/// `upto`; of several longest, the first.
pub open spec fn longest_zero_run(g: Seq<nat>, upto: int) -> (int, nat)
    decreases upto,
{
    if upto <= 0 {
        (0, 0)
    } else {
        let best = longest_zero_run(g, upto - 1);
        let here = zero_run(g, upto - 1);
        if here > best.1 {
            (upto - 1, here)
        } else {
            best
        }
    }
}

/// The groups in hexadecimal, with colons between them.
pub open spec fn joined(g: Seq<nat>) -> Seq<char>
    decreases g.len(),
{
    if g.len() == 0 {
        Seq::empty()
    } else if g.len() == 1 {
        numeral(g[0], 16)
    } else {
        joined(g.drop_last()) + seq![':'] + numeral(g.last(), 16)
    }
}

/// The address carries an IPv4 address: its first five groups are zero and
/// the sixth is `ffff`.
pub open spec fn is_v4_mapped(g: Seq<nat>) -> bool {
    g[0] == 0 && g[1] == 0 && g[2] == 0 && g[3] == 0 && g[4] == 0 && g[5] == 0xffff
}

/// How an IPv6 address is written. One that carries an IPv4 address is
/// written `::ffff:` and the dotted quad. Otherwise the groups are written
/// in hexadecimal with colons between, and the longest run of two or more
/// zero groups (the first of several) is shortened to `::`.
pub open spec fn v6_text(bits: nat) -> Seq<char> {
    let g = groups_of(bits);
    if is_v4_mapped(g) {
        "::ffff:"@ + v4_text(g[6] * 0x1_0000 + g[7])
    } else {
        let run = longest_zero_run(g, 8);
        if run.1 > 1 {
            joined(g.take(run.0)) + "::"@ + joined(g.skip(run.0 + run.1))
        } else {
            joined(g)
        }
    }
}

/// The views of the numbers as naturals.
pub open spec fn naturals(v: Seq<u128>) -> Seq<nat> {
    Seq::new(v.len(), |i: int| v[i] as nat)
}

fn weight_of(i: usize) -> (w: u128)
    requires
        i < 8,
    ensures
        w == group_weight(i as int),
        w > 0,
{
    if i == 0 {
        0x1_0000_0000_0000_0000_0000_0000_0000
    } else if i == 1 {
        0x1_0000_0000_0000_0000_0000_0000
    } else if i == 2 {
        0x1_0000_0000_0000_0000_0000
    } else if i == 3 {
        0x1_0000_0000_0000_0000
    } else if i == 4 {
        0x1_0000_0000_0000
    } else if i == 5 {
        0x1_0000_0000
    } else if i == 6 {
        0x1_0000
    } else {
        1
    }
}

fn split_groups(bits: u128) -> (g: Vec<u128>)
    ensures
        g.len() == 8,
        naturals(g@) == groups_of(bits as nat),
        forall|i: int| 0 <= i < 8 ==> g@[i] < 0x1_0000,
{
    let mut g: Vec<u128> = Vec::new();
    let mut i: usize = 0;
    while i < 8
        invariant
            0 <= i <= 8,
            g.len() == i,
            forall|j: int|
                0 <= j < i ==> g@[j] == bits as nat / group_weight(j) % 0x1_0000 && g@[j]
                    < 0x1_0000,
        decreases 8 - i,
    {
        let w = weight_of(i);
        g.push(bits / w % 0x1_0000);
        i += 1;
    }
    assert(naturals(g@) =~= groups_of(bits as nat));
    g
}

fn count_zeros(g: &Vec<u128>, from: usize) -> (n: usize)
    requires
        from <= g.len(),
    ensures
        n == zero_run(naturals(g@), from as int),
        from + n <= g.len(),
{
    let mut n: usize = 0;
    while from + n < g.len() && g[from + n] == 0
        invariant
            from + n <= g.len(),
            zero_run(naturals(g@), from as int) == n + zero_run(naturals(g@), from + n),
        decreases g.len() - n,
    {
        n += 1;
    }
    n
}

fn find_zero_run(g: &Vec<u128>) -> (run: (usize, usize))
    requires
        g.len() == 8,
    ensures
        (run.0 as int, run.1 as nat) == longest_zero_run(naturals(g@), 8),
        run.0 + run.1 <= 8,
{
    let mut best: (usize, usize) = (0, 0);
    let mut upto: usize = 0;
    while upto < 8
        invariant
            0 <= upto <= 8,
            g.len() == 8,
            (best.0 as int, best.1 as nat) == longest_zero_run(naturals(g@), upto as int),
            best.0 + best.1 <= 8,
        decreases 8 - upto,
    {
        let here = count_zeros(g, upto);
        if here > best.1 {
            best = (upto, here);
        }
        upto += 1;
    }
    best
}

fn append_joined(out: &mut String, g: &Vec<u128>, from: usize, to: usize)
    requires
        from <= to <= g.len(),
    ensures
        final(out)@ == old(out)@ + joined(naturals(g@).subrange(from as int, to as int)),
{
    let ghost all = naturals(g@);
    let mut i: usize = from;
    while i < to
        invariant
            from <= i <= to <= g.len(),
            all == naturals(g@),
            out@ == old(out)@ + joined(all.subrange(from as int, i as int)),
        decreases to - i,
    {
        let ghost shorter = all.subrange(from as int, i as int);
        let ghost longer = all.subrange(from as int, i + 1);
        assert(longer.drop_last() =~= shorter);
        assert(longer.last() == g@[i as int] as nat);
        if i > from {
            out.append(":");
            proof {
                reveal_strlit(":");
                assert(":"@ =~= seq![':']);
            }
        }
        append_numeral(out, g[i], 16);
        assert(out@ =~= old(out)@ + joined(longer));
        i += 1;
    }
}

fn append_v4(out: &mut String, bits: u32)
    ensures
        final(out)@ == old(out)@ + v4_text(bits as nat),
{
    proof {
        reveal_strlit(".");
        assert("."@ =~= seq!['.']);
    }
    append_numeral(out, (bits / 0x100_0000) as u128, 10);
    out.append(".");
    append_numeral(out, (bits / 0x1_0000 % 0x100) as u128, 10);
    out.append(".");
    append_numeral(out, (bits / 0x100 % 0x100) as u128, 10);
    out.append(".");
    append_numeral(out, (bits % 0x100) as u128, 10);
    assert(out@ =~= old(out)@ + v4_text(bits as nat));
}

fn append_v6(out: &mut String, bits: u128)
    ensures
        final(out)@ == old(out)@ + v6_text(bits as nat),
{
    let g = split_groups(bits);
    let ghost groups = groups_of(bits as nat);
    assert forall|i: int| 0 <= i < 8 implies groups[i] == g@[i] by {
        assert(naturals(g@)[i] == g@[i]);
    }
    if g[0] == 0 && g[1] == 0 && g[2] == 0 && g[3] == 0 && g[4] == 0 && g[5] == 0xffff {
        out.append("::ffff:");
        append_v4(out, (g[6] * 0x1_0000 + g[7]) as u32);
        assert(out@ =~= old(out)@ + v6_text(bits as nat));
    } else {
        let run = find_zero_run(&g);
        if run.1 > 1 {
            append_joined(out, &g, 0, run.0);
            out.append("::");
            append_joined(out, &g, run.0 + run.1, 8);
            assert(groups.take(run.0 as int) =~= groups.subrange(0, run.0 as int));
            assert(groups.skip(run.0 + run.1) =~= groups.subrange(run.0 + run.1, 8));
            assert(out@ =~= old(out)@ + v6_text(bits as nat));
        } else {
            append_joined(out, &g, 0, 8);
            assert(groups.subrange(0, 8) =~= groups);
        }
    }
}

impl IpAddress {
    /// How the address is written; see [`v4_text`] and [`v6_text`].
    pub open spec fn text(self) -> Seq<char> {
        match self {
            IpAddress::V4(bits) => v4_text(bits as nat),
            IpAddress::V6(bits) => v6_text(bits as nat),
        }
    }

    /// Writes the address at the end of `out`.
    pub fn append_to(&self, out: &mut String)
        ensures
            final(out)@ == old(out)@ + self.text(),
    {
        match self {
            IpAddress::V4(bits) => append_v4(out, *bits),
            IpAddress::V6(bits) => append_v6(out, *bits),
        }
    }

    /// The address as text.
    pub fn to_text(&self) -> (r: String)
        ensures
            r@ == self.text(),
    {
        let mut out = String::new();
        self.append_to(&mut out);
        assert(out@ =~= self.text());
        out
    }
}

/// A map keyed by network address.
///
/// IPv4 and IPv6 addresses are kept apart, each kind hashed by its bits, so
/// an IPv4 address and the IPv6 address with the same bits are two keys.
pub struct AddressMap<V> {
    v4: HashMap<u32, V>,
    v6: HashMap<u128, V>,
}

impl<V> View for AddressMap<V> {
    type V = Map<IpAddress, V>;

    closed spec fn view(&self) -> Map<IpAddress, V> {
        Map::new(
            |a: IpAddress|
                match a {
                    IpAddress::V4(bits) => self.v4@.contains_key(bits),
                    IpAddress::V6(bits) => self.v6@.contains_key(bits),
                },
            |a: IpAddress|
                match a {
                    IpAddress::V4(bits) => self.v4@[bits],
                    IpAddress::V6(bits) => self.v6@[bits],
                },
        )
    }
}

impl<V> AddressMap<V> {
    /// A map without entries.
    pub fn new() -> (m: Self)
        ensures
            m@ == Map::<IpAddress, V>::empty(),
    {
        let m = AddressMap { v4: HashMap::new(), v6: HashMap::new() };
        assert(m@ =~= Map::<IpAddress, V>::empty());
        m
    }

    /// Whether the map has an entry for `address`.
    pub fn contains_key(&self, address: &IpAddress) -> (b: bool)
        ensures
            b == self@.contains_key(*address),
    {
        match address {
            IpAddress::V4(bits) => self.v4.contains_key(bits),
            IpAddress::V6(bits) => self.v6.contains_key(bits),
        }
    }

    /// The value kept for `address`, if there is one.
    pub fn get(&self, address: &IpAddress) -> (r: Option<&V>)
        ensures
            match r {
                Some(v) => self@.contains_key(*address) && *v == self@[*address],
                None => !self@.contains_key(*address),
            },
    {
        match address {
            IpAddress::V4(bits) => self.v4.get(bits),
            IpAddress::V6(bits) => self.v6.get(bits),
        }
    }

    /// Sets the value kept for `address`, in place of an earlier one.
    pub fn insert(&mut self, address: IpAddress, value: V)
        ensures
            final(self)@ == old(self)@.insert(address, value),
    {
        match address {
            IpAddress::V4(bits) => {
                self.v4.insert(bits, value);
            },
            IpAddress::V6(bits) => {
                self.v6.insert(bits, value);
            },
        }
        assert(self@ =~= old(self)@.insert(address, value));
    }

    /// Takes the entry for `address` out of the map and hands its value back.
    pub fn remove(&mut self, address: &IpAddress) -> (r: Option<V>)
        ensures
            match r {
                Some(v) => old(self)@.contains_key(*address) && v == old(self)@[*address],
                None => !old(self)@.contains_key(*address),
            },
            final(self)@ == old(self)@.remove(*address),
    {
        let r = match address {
            IpAddress::V4(bits) => self.v4.remove(bits),
            IpAddress::V6(bits) => self.v6.remove(bits),
        };
        assert(self@ =~= old(self)@.remove(*address));
        r
    }

    /// The addresses that the map has entries for, each once, in no
    /// particular order.
    pub fn keys(&self) -> (r: Vec<IpAddress>)
        ensures
            r@.no_duplicates(),
            r@.to_set() == self@.dom(),
    {
        broadcast use vstd::std_specs::hash::axiom_spec_keys_iter;

        let mut out: Vec<IpAddress> = Vec::new();
        for k in it: self.v4.keys()
            invariant
                it.seq().unref().to_set() == self.v4@.dom(),
                it.seq().no_duplicates(),
                out@ == it.seq().unref().take(it.index() as int).map_values(
                    |bits: u32| IpAddress::V4(bits),
                ),
                it.index() == it.seq().len() ==> out@ == it.seq().unref().map_values(
                    |bits: u32| IpAddress::V4(bits),
                ),
        {
            out.push(IpAddress::V4(*k));
            assert(out@ =~= it.seq().unref().take(it.index() + 1).map_values(
                |bits: u32| IpAddress::V4(bits),
            ));
            assert(it.index() + 1 == it.seq().len() ==> it.seq().unref().take(it.index() + 1)
                =~= it.seq().unref());
        }
        let ghost first = out@;
        assert(first.no_duplicates() && (forall|a: IpAddress|
            first.contains(a) <==> a is V4 && self.v4@.contains_key(a->V4_0))) by {
            let keys = choose|keys: Seq<u32>|
                keys.no_duplicates() && keys.to_set() == self.v4@.dom() && first
                    == keys.map_values(|bits: u32| IpAddress::V4(bits));
            assert forall|a: IpAddress| first.contains(a) implies a is V4
                && self.v4@.contains_key(a->V4_0) by {
                let i = choose|i: int| 0 <= i < first.len() && first[i] == a;
                assert(keys.contains(keys[i]));
            }
            assert forall|a: IpAddress| a is V4 && self.v4@.contains_key(a->V4_0) implies first.contains(
                a,
            ) by {
                assert(keys.to_set().contains(a->V4_0));
                let i = choose|i: int| 0 <= i < keys.len() && keys[i] == a->V4_0;
                assert(first[i] == a);
            }
        }
        for k in it: self.v6.keys()
            invariant
                it.seq().unref().to_set() == self.v6@.dom(),
                it.seq().no_duplicates(),
                out@ == first + it.seq().unref().take(it.index() as int).map_values(
                    |bits: u128| IpAddress::V6(bits),
                ),
                it.index() == it.seq().len() ==> out@ == first + it.seq().unref().map_values(
                    |bits: u128| IpAddress::V6(bits),
                ),
        {
            out.push(IpAddress::V6(*k));
            assert(out@ =~= first + it.seq().unref().take(it.index() + 1).map_values(
                |bits: u128| IpAddress::V6(bits),
            ));
            assert(it.index() + 1 == it.seq().len() ==> it.seq().unref().take(it.index() + 1)
                =~= it.seq().unref());
        }
        proof {
            let keys = choose|keys: Seq<u128>|
                keys.no_duplicates() && keys.to_set() == self.v6@.dom() && out@ == first
                    + keys.map_values(|bits: u128| IpAddress::V6(bits));
            let second = keys.map_values(|bits: u128| IpAddress::V6(bits));
            assert forall|i: int, j: int| 0 <= i < out@.len() && 0 <= j < out@.len() && i
                != j implies out@[i] != out@[j] by {
                if i < first.len() {
                    assert(first.contains(out@[i]));
                } else {
                    assert(out@[i] == second[i - first.len()]);
                }
                if j < first.len() {
                    assert(first.contains(out@[j]));
                } else {
                    assert(out@[j] == second[j - first.len()]);
                }
            }
            assert forall|a: IpAddress| out@.to_set().contains(a) <==> self@.dom().contains(
                a,
            ) by {
                if out@.contains(a) {
                    let i = choose|i: int| 0 <= i < out@.len() && out@[i] == a;
                    if i < first.len() {
                        assert(first.contains(a));
                    } else {
                        assert(a == second[i - first.len()]);
                        assert(keys.contains(keys[i - first.len()]));
                    }
                }
                if self@.dom().contains(a) {
                    match a {
                        IpAddress::V4(bits) => {
                            assert(first.contains(a));
                            let i = choose|i: int| 0 <= i < first.len() && first[i] == a;
                            assert(out@[i] == a);
                        },
                        IpAddress::V6(bits) => {
                            assert(keys.to_set().contains(bits));
                            let i = choose|i: int| 0 <= i < keys.len() && keys[i] == bits;
                            assert(out@[first.len() + i] == a);
                        },
                    }
                }
            }
            assert(out@.to_set() =~= self@.dom());
        }
        out
    }
}

} // verus!
