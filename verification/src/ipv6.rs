//! IPv6 addresses and their textual form: eight groups of up to four
//! hexadecimal digits with colons between them, where one run of zero
//! groups may be left out as `::` and the last two groups may be written as
//! an IPv4 address.

use vstd::prelude::*;
use crate::ipv4::{address_of, address_text, lemma_address_round_trip, Ipv4};
use crate::text::{find, index_of, is_digit, lemma_index_of_is, lemma_index_of_joined};

verus! {

/// An IPv6 address, one field per group of sixteen bits, most significant
/// first.
#[derive(Clone, Copy, Debug, PartialEq, Eq, Hash, Structural)]
pub struct Ipv6(pub u16, pub u16, pub u16, pub u16, pub u16, pub u16, pub u16, pub u16);

impl Ipv6 {
    /// The eight groups of the address, in order.
    pub open spec fn groups(self) -> Seq<u16> {
        seq![self.0, self.1, self.2, self.3, self.4, self.5, self.6, self.7]
    }

    /// The address with the given eight groups.
    pub open spec fn of_groups(groups: Seq<u16>) -> Ipv6 {
        Ipv6(
            groups[0],
            groups[1],
            groups[2],
            groups[3],
            groups[4],
            groups[5],
            groups[6],
            groups[7],
        )
    }
}

/// Whether `c` is a hexadecimal digit, in upper or lower case.
pub open spec fn is_hex(c: char) -> bool {
    is_digit(c) || ('a' <= c && c <= 'f') || ('A' <= c && c <= 'F')
}

/// The value of the hexadecimal digit `c`.
pub open spec fn hex_value(c: char) -> nat {
    if is_digit(c) {
        (c as int - '0' as int) as nat
    } else if 'a' <= c && c <= 'f' {
        (c as int - 'a' as int + 10) as nat
    } else {
        (c as int - 'A' as int + 10) as nat
    }
}

/// The hexadecimal digit, in lower case, for a value below sixteen.
pub open spec fn hex_char(value: nat) -> char {
    if value < 10 {
        (value + '0' as nat) as char
    } else {
        (value - 10 + 'a' as nat) as char
    }
}

/// Whether `s` holds hexadecimal digits only.
pub open spec fn all_hex(s: Seq<char>) -> bool {
    forall|i: int| 0 <= i < s.len() ==> is_hex(#[trigger] s[i])
}

/// The number that the hexadecimal digits `s` write.
pub open spec fn hex_number(s: Seq<char>) -> nat
    decreases s.len(),
{
    if s.len() == 0 {
        0
    } else {
        hex_number(s.drop_last()) * 16 + hex_value(s.last())
    }
}

/// The group that `s` writes: one to four hexadecimal digits.
pub open spec fn group_of(s: Seq<char>) -> Option<u16> {
    if 1 <= s.len() <= 4 && all_hex(s) {
        Some(hex_number(s) as u16)
    } else {
        None
    }
}

/// The two groups that an IPv4 address fills at the end of an IPv6 address.
pub open spec fn groups_of_ipv4(address: Ipv4) -> Seq<u16> {
    seq![(address.0 * 256 + address.1) as u16, (address.2 * 256 + address.3) as u16]
}

/// The groups that `s` writes: pieces with a colon between each two, every
/// piece a group; where `mixed` is set, the last piece may also be an IPv4
/// address, which stands for two groups.
pub open spec fn groups_in(s: Seq<char>, mixed: bool) -> Option<Seq<u16>>
    decreases s.len(),
{
    let colon = index_of(s, ':');
    if colon < 0 || colon > s.len() {
        None
    } else if colon == s.len() {
        match group_of(s) {
            Some(group) => Some(seq![group]),
            None => match address_of(s) {
                Some(address) => if mixed {
                    Some(groups_of_ipv4(address))
                } else {
                    None
                },
                None => None,
            },
        }
    } else {
        match group_of(s.take(colon)) {
            None => None,
            Some(group) => match groups_in(s.skip(colon + 1), mixed) {
                None => None,
                Some(rest) => Some(seq![group] + rest),
            },
        }
    }
}

/// The place of the first `::` in `s`, or the length of `s` where it holds
/// none.
pub open spec fn gap_of(s: Seq<char>) -> int
    decreases s.len(),
{
    if s.len() < 2 {
        s.len() as int
    } else if s[0] == ':' && s[1] == ':' {
        0
    } else {
        1 + gap_of(s.drop_first())
    }
}

/// `count` groups of zero.
pub open spec fn zeros(count: int) -> Seq<u16> {
    Seq::new(count as nat, |i: int| 0u16)
}

/// The groups that the text of an address writes. Without a `::` the text
/// must write all eight groups. With a `::`, which stands for one group of
/// zero or more, only groups may stand before it, none as an IPv4 address,
/// and the groups before and after it must leave room for at least one.
pub open spec fn ipv6_groups(s: Seq<char>) -> Option<Seq<u16>> {
    let gap = gap_of(s);
    if gap < s.len() {
        let head = if gap == 0 {
            Some(Seq::<u16>::empty())
        } else {
            groups_in(s.take(gap), false)
        };
        let tail = if gap + 2 == s.len() {
            Some(Seq::<u16>::empty())
        } else {
            groups_in(s.skip(gap + 2), true)
        };
        match (head, tail) {
            (Some(head), Some(tail)) => if head.len() + tail.len() <= 7 {
                Some(head + zeros(8 - head.len() - tail.len()) + tail)
            } else {
                None
            },
            _ => None,
        }
    } else {
        match groups_in(s, true) {
            Some(groups) => if groups.len() == 8 {
                Some(groups)
            } else {
                None
            },
            None => None,
        }
    }
}

/// The address that `s` writes.
pub open spec fn ipv6_of(s: Seq<char>) -> Option<Ipv6> {
    match ipv6_groups(s) {
        Some(groups) => Some(Ipv6::of_groups(groups)),
        None => None,
    }
}

/// The digits of `n` in base sixteen, in lower case and without leading
/// zeros.
pub open spec fn hex_text(n: nat) -> Seq<char>
    decreases n,
{
    if n < 16 {
        seq![hex_char(n)]
    } else {
        hex_text(n / 16).push(hex_char(n % 16))
    }
}

/// The texts of `groups` with a colon between each two.
pub open spec fn join_groups(groups: Seq<u16>) -> Seq<char>
    decreases groups.len(),
{
    if groups.len() == 0 {
        Seq::empty()
    } else if groups.len() == 1 {
        hex_text(groups[0] as nat)
    } else {
        hex_text(groups[0] as nat) + seq![':'] + join_groups(groups.drop_first())
    }
}

/// The number of zero groups in a row from `start` on.
pub open spec fn zero_run(groups: Seq<u16>, start: int) -> int
    decreases groups.len() - start,
{
    if 0 <= start < groups.len() && groups[start] == 0 {
        1 + zero_run(groups, start + 1)
    } else {
        0
    }
}

/// Where the longest run of zero groups starts, among the runs that start
/// before `limit`; where several are longest, the first of them.
pub open spec fn longest_run(groups: Seq<u16>, limit: int) -> int
    decreases limit,
{
    if limit <= 1 {
        0
    } else {
        let best = longest_run(groups, limit - 1);
        if zero_run(groups, limit - 1) > zero_run(groups, best) {
            limit - 1
        } else {
            best
        }
    }
}

/// Whether the address stands for an IPv4 address: its first five groups
/// are zero and the sixth is `ffff`.
pub open spec fn is_mapped(groups: Seq<u16>) -> bool {
    groups[0] == 0 && groups[1] == 0 && groups[2] == 0 && groups[3] == 0 && groups[4] == 0
        && groups[5] == 0xffff
}

/// The IPv4 address in the last two groups.
pub open spec fn ipv4_in(groups: Seq<u16>) -> Ipv4 {
    Ipv4(
        (groups[6] / 256) as u8,
        (groups[6] % 256) as u8,
        (groups[7] / 256) as u8,
        (groups[7] % 256) as u8,
    )
}

/// The text of an address. An address that stands for an IPv4 address is
/// written as `::ffff:` and that address. Any other is written as its
/// groups, but that the longest run of two or more zero groups, the first
/// of them where several are longest, is left out as `::`.
pub open spec fn ipv6_text(address: Ipv6) -> Seq<char> {
    let groups = address.groups();
    if is_mapped(groups) {
        "::ffff:"@ + address_text(ipv4_in(groups))
    } else {
        let start = longest_run(groups, 8);
        let length = zero_run(groups, start);
        if length >= 2 {
            join_groups(groups.take(start)) + "::"@ + join_groups(groups.skip(start + length))
        } else {
            join_groups(groups)
        }
    }
}

/// The value of the hexadecimal digit `c`, if it is one.
pub fn hex_digit(c: char) -> (value: Option<u16>)
    ensures
        match value {
            Some(value) => is_hex(c) && value == hex_value(c) && value < 16,
            None => !is_hex(c),
        },
{
    if c >= '0' && c <= '9' {
        Some((c as u32 - '0' as u32) as u16)
    } else if c >= 'a' && c <= 'f' {
        Some((c as u32 - 'a' as u32 + 10) as u16)
    } else if c >= 'A' && c <= 'F' {
        Some((c as u32 - 'A' as u32 + 10) as u16)
    } else {
        None
    }
}

/// The number that up to four hexadecimal digits write fits a group.
proof fn lemma_hex_number_bound(s: Seq<char>)
    requires
        all_hex(s),
        s.len() <= 4,
    ensures
        s.len() == 0 ==> hex_number(s) == 0,
        s.len() == 1 ==> hex_number(s) < 16,
        s.len() == 2 ==> hex_number(s) < 256,
        s.len() == 3 ==> hex_number(s) < 4096,
        s.len() == 4 ==> hex_number(s) < 65536,
    decreases s.len(),
{
    if s.len() > 0 {
        assert(all_hex(s.drop_last())) by {
            assert forall|i: int| 0 <= i < s.drop_last().len() implies is_hex(
                #[trigger] s.drop_last()[i],
            ) by {
                assert(s.drop_last()[i] == s[i]);
            }
        }
        lemma_hex_number_bound(s.drop_last());
        assert(is_hex(s.last()));
    }
}

/// Reads the group that the characters of `chars` from `from` up to `to`
/// write.
pub fn parse_group(chars: &Vec<char>, from: usize, to: usize) -> (group: Option<u16>)
    requires
        from <= to <= chars.len(),
    ensures
        group == group_of(chars@.subrange(from as int, to as int)),
{
    let ghost s = chars@.subrange(from as int, to as int);
    if to - from < 1 || to - from > 4 {
        return None;
    }
    let mut value: u16 = 0;
    let mut i: usize = from;
    while i < to
        invariant
            from <= i <= to <= chars.len(),
            to - from <= 4,
            s == chars@.subrange(from as int, to as int),
            all_hex(s.take(i - from)),
            value == hex_number(s.take(i - from)),
        decreases to - i,
    {
        proof {
            assert(s.take(i - from + 1).drop_last() =~= s.take(i - from));
            assert(s.take(i - from + 1).last() == chars@[i as int]);
            lemma_hex_number_bound(s.take(i - from));
        }
        match hex_digit(chars[i]) {
            None => {
                return None;
            },
            Some(digit) => {
                value = value * 16 + digit;
            },
        }
        i += 1;
    }
    proof {
        assert(s.take(to - from) =~= s);
    }
    Some(value)
}

/// `gap_of` is the first place where two colons stand side by side.
pub proof fn lemma_gap_of(s: Seq<char>)
    ensures
        0 <= gap_of(s) <= s.len(),
        gap_of(s) < s.len() ==> gap_of(s) + 1 < s.len() && s[gap_of(s)] == ':' && s[gap_of(s) + 1]
            == ':',
        forall|i: int|
            0 <= i < gap_of(s) && i + 1 < s.len() ==> !(#[trigger] s[i] == ':' && s[i + 1] == ':'),
    decreases s.len(),
{
    if s.len() >= 2 && !(s[0] == ':' && s[1] == ':') {
        lemma_gap_of(s.drop_first());
        let rest = s.drop_first();
        assert forall|i: int| 0 <= i < gap_of(s) && i + 1 < s.len() implies !(#[trigger] s[i] == ':'
            && s[i + 1] == ':') by {
            if i > 0 {
                assert(rest[i - 1] == s[i]);
                assert(rest[i] == s[i + 1]);
            }
        }
        if gap_of(s) < s.len() {
            assert(rest[gap_of(rest)] == s[gap_of(rest) + 1]);
            assert(rest[gap_of(rest) + 1] == s[gap_of(rest) + 2]);
        }
    }
}

/// A place where two colons stand side by side, after places where they do
/// not, is `gap_of`.
pub proof fn lemma_gap_of_is(s: Seq<char>, place: int)
    requires
        0 <= place <= s.len(),
        place < s.len() ==> place + 1 < s.len() && s[place] == ':' && s[place + 1] == ':',
        forall|i: int|
            0 <= i < place && i + 1 < s.len() ==> !(#[trigger] s[i] == ':' && s[i + 1] == ':'),
    ensures
        gap_of(s) == place,
{
    lemma_gap_of(s);
    let found = gap_of(s);
    if found < place {
        assert(!(s[found] == ':' && s[found + 1] == ':'));
    } else if found > place {
        assert(!(s[place] == ':' && s[place + 1] == ':'));
    }
}

/// The place of the first `::` in `chars` from `from` up to `to`, or `to`
/// where there is none.
pub fn find_gap(chars: &Vec<char>, from: usize, to: usize) -> (place: usize)
    requires
        from <= to <= chars.len(),
    ensures
        place == from + gap_of(chars@.subrange(from as int, to as int)),
        from <= place <= to,
{
    let ghost part = chars@.subrange(from as int, to as int);
    let mut i: usize = from;
    while i < to
        invariant
            from <= i <= to <= chars.len(),
            part == chars@.subrange(from as int, to as int),
            forall|k: int|
                0 <= k < i - from && k + 1 < part.len() ==> !(#[trigger] part[k] == ':' && part[k
                    + 1] == ':'),
        decreases to - i,
    {
        if i + 1 < to && chars[i] == ':' && chars[i + 1] == ':' {
            proof {
                lemma_gap_of_is(part, i - from);
            }
            return i;
        }
        i += 1;
    }
    proof {
        lemma_gap_of_is(part, to - from);
    }
    to
}

/// Reads the groups that the characters of `chars` from `from` up to `to`
/// write.
pub fn parse_groups(chars: &Vec<char>, from: usize, to: usize, mixed: bool) -> (groups: Option<
    Vec<u16>,
>)
    requires
        from <= to <= chars.len(),
    ensures
        match groups {
            Some(groups) => groups_in(chars@.subrange(from as int, to as int), mixed) == Some(
                groups@,
            ),
            None => groups_in(chars@.subrange(from as int, to as int), mixed) is None,
        },
{
    let ghost whole = chars@.subrange(from as int, to as int);
    let mut groups: Vec<u16> = Vec::new();
    let mut at: usize = from;
    loop
        invariant
            from <= at <= to <= chars.len(),
            whole == chars@.subrange(from as int, to as int),
            match groups_in(chars@.subrange(at as int, to as int), mixed) {
                Some(rest) => groups_in(whole, mixed) == Some(groups@ + rest),
                None => groups_in(whole, mixed) is None,
            },
        decreases to - at,
    {
        let ghost rest = chars@.subrange(at as int, to as int);
        let colon = find(chars, at, to, ':');
        proof {
            assert(rest.take(colon - at) =~= chars@.subrange(at as int, colon as int));
        }
        if colon == to {
            match parse_group(chars, at, to) {
                Some(group) => {
                    groups.push(group);
                    return Some(groups);
                },
                None => {
                    if !mixed {
                        return None;
                    }
                    match Ipv4::parse_range(chars, at, to) {
                        None => {
                            return None;
                        },
                        Some(address) => {
                            groups.push((address.0 as u16) * 256 + address.1 as u16);
                            groups.push((address.2 as u16) * 256 + address.3 as u16);
                            return Some(groups);
                        },
                    }
                },
            }
        }
        match parse_group(chars, at, colon) {
            None => {
                return None;
            },
            Some(group) => {
                proof {
                    assert(rest.skip(colon - at + 1) =~= chars@.subrange(colon + 1, to as int));
                }
                groups.push(group);
                at = colon + 1;
            },
        }
    }
}

impl Ipv6 {
    /// The address with the eight groups of `groups`.
    pub fn from_groups(groups: &Vec<u16>) -> (address: Ipv6)
        requires
            groups.len() == 8,
        ensures
            address == Ipv6::of_groups(groups@),
            address.groups() == groups@,
    {
        Ipv6(
            groups[0],
            groups[1],
            groups[2],
            groups[3],
            groups[4],
            groups[5],
            groups[6],
            groups[7],
        )
    }

    /// The eight groups of the address, in order.
    pub fn to_groups(&self) -> (groups: Vec<u16>)
        ensures
            groups@ == self.groups(),
    {
        let mut groups: Vec<u16> = Vec::new();
        groups.push(self.0);
        groups.push(self.1);
        groups.push(self.2);
        groups.push(self.3);
        groups.push(self.4);
        groups.push(self.5);
        groups.push(self.6);
        groups.push(self.7);
        groups
    }

    /// Reads the address that the characters of `chars` from `from` up to
    /// `to` write.
    pub fn parse_range(chars: &Vec<char>, from: usize, to: usize) -> (address: Option<Ipv6>)
        requires
            from <= to <= chars.len(),
        ensures
            address == ipv6_of(chars@.subrange(from as int, to as int)),
    {
        let ghost s = chars@.subrange(from as int, to as int);
        let gap = find_gap(chars, from, to);
        proof {
            lemma_gap_of(s);
        }
        if gap < to {
            proof {
                assert(s.take(gap - from) =~= chars@.subrange(from as int, gap as int));
                assert(s.skip(gap - from + 2) =~= chars@.subrange(gap + 2, to as int));
            }
            let head = if gap == from {
                Vec::new()
            } else {
                match parse_groups(chars, from, gap, false) {
                    Some(head) => head,
                    None => {
                        return None;
                    },
                }
            };
            let tail = if gap + 2 == to {
                Vec::new()
            } else {
                match parse_groups(chars, gap + 2, to, true) {
                    Some(tail) => tail,
                    None => {
                        return None;
                    },
                }
            };
            if head.len() > 7 || tail.len() > 7 - head.len() {
                return None;
            }
            let mut groups = head;
            let missing = 8 - groups.len() - tail.len();
            let mut i: usize = 0;
            while i < missing
                invariant
                    i <= missing,
                    groups@ == head@ + zeros(i as int),
                decreases missing - i,
            {
                groups.push(0);
                i += 1;
            }
            let mut k: usize = 0;
            while k < tail.len()
                invariant
                    k <= tail.len(),
                    groups@ == head@ + zeros(missing as int) + tail@.take(k as int),
                decreases tail.len() - k,
            {
                groups.push(tail[k]);
                k += 1;
            }
            Some(Ipv6::from_groups(&groups))
        } else {
            match parse_groups(chars, from, to, true) {
                Some(groups) => {
                    if groups.len() == 8 {
                        Some(Ipv6::from_groups(&groups))
                    } else {
                        None
                    }
                },
                None => None,
            }
        }
    }
}

/// The hexadecimal digit for `value`, as a string of one character.
pub fn hex_str(value: u16) -> (digit: &'static str)
    requires
        value < 16,
    ensures
        digit@ == seq![hex_char(value as nat)],
{
    proof {
        reveal_strlit("a");
        reveal_strlit("b");
        reveal_strlit("c");
        reveal_strlit("d");
        reveal_strlit("e");
        reveal_strlit("f");
    }
    if value < 10 {
        crate::text::digit_str(value as u64)
    } else if value == 10 {
        "a"
    } else if value == 11 {
        "b"
    } else if value == 12 {
        "c"
    } else if value == 13 {
        "d"
    } else if value == 14 {
        "e"
    } else {
        "f"
    }
}

/// Writes `n` in base sixteen at the end of `out`.
pub fn push_hex(out: &mut String, n: u16)
    ensures
        final(out)@ == old(out)@ + hex_text(n as nat),
    decreases n,
{
    if n < 16 {
        out.append(hex_str(n));
    } else {
        push_hex(out, n / 16);
        out.append(hex_str(n % 16));
    }
}

/// The text of groups with one more group is the text of the groups, a
/// colon, and the text of that group.
proof fn lemma_join_push(groups: Seq<u16>, last: u16)
    ensures
        join_groups(groups.push(last)) == if groups.len() == 0 {
            hex_text(last as nat)
        } else {
            join_groups(groups) + seq![':'] + hex_text(last as nat)
        },
    decreases groups.len(),
{
    let all = groups.push(last);
    if groups.len() == 1 {
        assert(all.drop_first() =~= seq![last]);
        assert(join_groups(all.drop_first()) == hex_text(last as nat));
    } else if groups.len() > 1 {
        lemma_join_push(groups.drop_first(), last);
        assert(all.drop_first() =~= groups.drop_first().push(last));
        assert(join_groups(all) =~= join_groups(groups) + seq![':'] + hex_text(last as nat));
    }
}

/// Writes the groups of `groups` from `from` up to `to`, with a colon
/// between each two, at the end of `out`.
pub fn push_groups(out: &mut String, groups: &Vec<u16>, from: usize, to: usize)
    requires
        from <= to <= groups.len(),
    ensures
        final(out)@ == old(out)@ + join_groups(groups@.subrange(from as int, to as int)),
{
    let mut i: usize = from;
    while i < to
        invariant
            from <= i <= to <= groups.len(),
            out@ == old(out)@ + join_groups(groups@.subrange(from as int, i as int)),
        decreases to - i,
    {
        let ghost before = groups@.subrange(from as int, i as int);
        proof {
            lemma_join_push(before, groups@[i as int]);
            assert(before.push(groups@[i as int]) =~= groups@.subrange(from as int, i + 1));
            reveal_strlit(":");
        }
        if i > from {
            out.append(":");
        }
        push_hex(out, groups[i]);
        proof {
            if i == from {
                assert(join_groups(before) =~= Seq::<char>::empty());
            }
        }
        i += 1;
    }
}

/// A run of zero groups lies within the groups and holds zeros only.
pub proof fn lemma_zero_run(groups: Seq<u16>, start: int)
    requires
        0 <= start <= groups.len(),
    ensures
        0 <= zero_run(groups, start) <= groups.len() - start,
        forall|i: int| start <= i < start + zero_run(groups, start) ==> #[trigger] groups[i] == 0,
        start + zero_run(groups, start) < groups.len() ==> groups[start + zero_run(groups, start)]
            != 0,
    decreases groups.len() - start,
{
    if start < groups.len() && groups[start] == 0 {
        lemma_zero_run(groups, start + 1);
    }
}

/// The longest run starts within the groups.
pub proof fn lemma_longest_run(groups: Seq<u16>, limit: int)
    ensures
        limit >= 1 ==> 0 <= longest_run(groups, limit) < limit,
        limit < 1 ==> longest_run(groups, limit) == 0,
        forall|start: int|
            0 <= start < limit ==> #[trigger] zero_run(groups, start) <= zero_run(
                groups,
                longest_run(groups, limit),
            ),
        forall|start: int|
            0 <= start < longest_run(groups, limit) ==> #[trigger] zero_run(groups, start)
                < zero_run(groups, longest_run(groups, limit)),
    decreases limit,
{
    if limit > 1 {
        lemma_longest_run(groups, limit - 1);
    }
}

/// The number of zero groups in a row from `start` on.
pub fn count_zeros(groups: &Vec<u16>, start: usize) -> (count: usize)
    requires
        start <= groups.len(),
    ensures
        count == zero_run(groups@, start as int),
        start + count <= groups.len(),
{
    let mut i: usize = start;
    while i < groups.len() && groups[i] == 0
        invariant
            start <= i <= groups.len(),
            zero_run(groups@, start as int) == (i - start) + zero_run(groups@, i as int),
        decreases groups.len() - i,
    {
        i += 1;
    }
    i - start
}

/// Where the longest run of zero groups starts, the first of them where
/// several are longest, and how long it is.
pub fn find_longest_run(groups: &Vec<u16>) -> (run: (usize, usize))
    requires
        groups.len() >= 1,
    ensures
        run.0 == longest_run(groups@, groups@.len() as int),
        run.1 == zero_run(groups@, run.0 as int),
        run.0 + run.1 <= groups.len(),
{
    let mut best: usize = 0;
    let mut length: usize = count_zeros(groups, 0);
    let mut at: usize = 1;
    while at < groups.len()
        invariant
            1 <= at <= groups.len(),
            best == longest_run(groups@, at as int),
            length == zero_run(groups@, best as int),
            best + length <= groups.len(),
        decreases groups.len() - at,
    {
        let here = count_zeros(groups, at);
        if here > length {
            best = at;
            length = here;
        }
        at += 1;
    }
    (best, length)
}

impl Ipv6 {
    /// Writes the address at the end of `out`.
    pub fn push_text(&self, out: &mut String)
        ensures
            final(out)@ == old(out)@ + ipv6_text(*self),
    {
        let groups = self.to_groups();
        if groups[0] == 0 && groups[1] == 0 && groups[2] == 0 && groups[3] == 0 && groups[4] == 0
            && groups[5] == 0xffff {
            let inner = Ipv4(
                (groups[6] / 256) as u8,
                (groups[6] % 256) as u8,
                (groups[7] / 256) as u8,
                (groups[7] % 256) as u8,
            );
            out.append("::ffff:");
            inner.push_text(out);
            assert(out@ =~= old(out)@ + ipv6_text(*self));
        } else {
            let (start, length) = find_longest_run(&groups);
            if length >= 2 {
                push_groups(out, &groups, 0, start);
                out.append("::");
                push_groups(out, &groups, start + length, 8);
            } else {
                proof {
                    assert(groups@.subrange(0, 8) =~= groups@);
                }
                push_groups(out, &groups, 0, 8);
            }
        }
    }
}

/// The text of a group writes that group, in one to four hexadecimal
/// digits.
pub proof fn lemma_hex_text(n: nat)
    requires
        n < 65536,
    ensures
        1 <= hex_text(n).len() <= 4,
        n < 4096 ==> hex_text(n).len() <= 3,
        n < 256 ==> hex_text(n).len() <= 2,
        n < 16 ==> hex_text(n).len() == 1,
        all_hex(hex_text(n)),
        hex_number(hex_text(n)) == n,
        group_of(hex_text(n)) == Some(n as u16),
        forall|i: int| 0 <= i < hex_text(n).len() ==> #[trigger] hex_text(n)[i] != ':',
    decreases n,
{
    let s = hex_text(n);
    if n < 16 {
        assert(s.drop_last() =~= Seq::<char>::empty());
        assert(hex_number(s.drop_last()) == 0);
        assert(is_hex(hex_char(n)));
        assert(hex_value(hex_char(n)) == n);
    } else {
        lemma_hex_text(n / 16);
        assert(s.drop_last() =~= hex_text(n / 16));
        assert(is_hex(hex_char(n % 16)));
        assert(hex_value(hex_char(n % 16)) == n % 16);
        assert forall|i: int| 0 <= i < s.len() implies is_hex(#[trigger] s[i]) && s[i] != ':' by {
            if i < s.len() - 1 {
                assert(s[i] == hex_text(n / 16)[i]);
            }
        }
    }
}

/// The text of one group or more starts and ends with a digit, and has no
/// two colons side by side.
proof fn lemma_join_shape(groups: Seq<u16>)
    requires
        groups.len() >= 1,
    ensures
        join_groups(groups).len() >= 1,
        join_groups(groups)[0] != ':',
        join_groups(groups).last() != ':',
        forall|i: int|
            0 <= i && i + 1 < join_groups(groups).len() ==> !(#[trigger] join_groups(groups)[i]
                == ':' && join_groups(groups)[i + 1] == ':'),
    decreases groups.len(),
{
    let first = hex_text(groups[0] as nat);
    lemma_hex_text(groups[0] as nat);
    if groups.len() > 1 {
        let rest = join_groups(groups.drop_first());
        lemma_join_shape(groups.drop_first());
        let text = join_groups(groups);
        assert(text == first + seq![':'] + rest);
        assert(text[0] == first[0]);
        assert(text.last() == rest.last());
        assert forall|i: int| 0 <= i && i + 1 < text.len() implies !(#[trigger] text[i] == ':'
            && text[i + 1] == ':') by {
            if i < first.len() {
                assert(text[i] == first[i]);
            } else if i == first.len() {
                assert(text[i + 1] == rest[0]);
            } else {
                assert(text[i] == rest[i - first.len() - 1]);
                assert(text[i + 1] == rest[i - first.len()]);
            }
        }
    }
}

/// The text of one group or more writes these groups.
proof fn lemma_join_round_trip(groups: Seq<u16>, mixed: bool)
    requires
        groups.len() >= 1,
    ensures
        groups_in(join_groups(groups), mixed) == Some(groups),
    decreases groups.len(),
{
    let first = hex_text(groups[0] as nat);
    lemma_hex_text(groups[0] as nat);
    if groups.len() == 1 {
        lemma_index_of_is(first, ':', first.len() as int);
        assert(groups =~= seq![groups[0]]);
    } else {
        let rest = join_groups(groups.drop_first());
        lemma_join_round_trip(groups.drop_first(), mixed);
        lemma_index_of_joined(first, ':', rest);
        assert(seq![groups[0]] + groups.drop_first() =~= groups);
    }
}

/// The text of an address that leaves a run of zero groups out writes
/// that address.
proof fn lemma_gap_round_trip(groups: Seq<u16>, start: int, length: int)
    requires
        groups.len() == 8,
        0 <= start,
        2 <= length,
        start + length <= 8,
        forall|i: int| start <= i < start + length ==> #[trigger] groups[i] == 0,
    ensures
        ipv6_groups(
            join_groups(groups.take(start)) + "::"@ + join_groups(groups.skip(start + length)),
        ) == Some(groups),
{
    reveal_strlit("::");
    let head = groups.take(start);
    let tail = groups.skip(start + length);
    let before = join_groups(head);
    let after = join_groups(tail);
    let text = before + "::"@ + after;
    assert(text[before.len() as int] == ':');
    assert(text[before.len() as int + 1] == ':');
    if head.len() >= 1 {
        lemma_join_shape(head);
        lemma_join_round_trip(head, false);
    }
    if tail.len() >= 1 {
        lemma_join_shape(tail);
        lemma_join_round_trip(tail, true);
    }
    assert forall|i: int| 0 <= i < before.len() && i + 1 < text.len() implies !(#[trigger] text[i]
        == ':' && text[i + 1] == ':') by {
        assert(text[i] == before[i]);
        if i + 1 < before.len() {
            assert(text[i + 1] == before[i + 1]);
        }
    }
    lemma_gap_of_is(text, before.len() as int);
    assert(text.take(before.len() as int) =~= before);
    assert(text.skip(before.len() as int + 2) =~= after);
    assert(head + zeros(8 - head.len() - tail.len()) + tail =~= groups);
}

/// The text of an address that stands for an IPv4 address writes that
/// address.
proof fn lemma_mapped_round_trip(groups: Seq<u16>)
    requires
        groups.len() == 8,
        is_mapped(groups),
    ensures
        ipv6_groups("::ffff:"@ + address_text(ipv4_in(groups))) == Some(groups),
{
    reveal_strlit("::ffff:");
    let inner = address_text(ipv4_in(groups));
    lemma_address_round_trip(ipv4_in(groups));
    let text = "::ffff:"@ + inner;
    assert(text[0] == ':' && text[1] == ':');
    lemma_gap_of_is(text, 0);
    let rest = text.skip(2);
    let word = seq!['f', 'f', 'f', 'f'];
    assert(rest =~= word + seq![':'] + inner);
    lemma_index_of_joined(word, ':', inner);
    assert(group_of(word) == Some(0xffffu16)) by {
        let one = seq!['f'];
        let two = seq!['f', 'f'];
        let three = seq!['f', 'f', 'f'];
        assert(one.drop_last() =~= Seq::<char>::empty());
        assert(two.drop_last() =~= one);
        assert(three.drop_last() =~= two);
        assert(word.drop_last() =~= three);
        assert(hex_value('f') == 15);
        assert(hex_number(one.drop_last()) == 0);
        assert(hex_number(one) == 15);
        assert(hex_number(two) == 255);
        assert(hex_number(three) == 4095);
        assert(hex_number(word) == 65535);
    }
    assert forall|i: int| 0 <= i < inner.len() implies #[trigger] inner[i] != ':' by {
        assert(is_digit(inner[i]) || inner[i] == '.');
    }
    lemma_index_of_is(inner, ':', inner.len() as int);
    assert(group_of(inner) is None);
    let tail = seq![0xffffu16] + groups_of_ipv4(ipv4_in(groups));
    assert(groups_in(inner, true) == Some(groups_of_ipv4(ipv4_in(groups))));
    assert(groups_in(rest, true) == Some(tail));
    assert(Seq::<u16>::empty() + zeros(8 - 0 - 3) + tail =~= groups);
}

/// Writing an address and reading the text back gives the address.
pub proof fn lemma_ipv6_round_trip(address: Ipv6)
    ensures
        ipv6_of(ipv6_text(address)) == Some(address),
        forall|i: int|
            0 <= i < ipv6_text(address).len() ==> #[trigger] ipv6_text(address)[i] != ']'
                && ipv6_text(address)[i] != '%',
{
    let groups = address.groups();
    assert(Ipv6::of_groups(groups) == address);
    if is_mapped(groups) {
        lemma_mapped_round_trip(groups);
    } else {
        let start = longest_run(groups, 8);
        lemma_longest_run(groups, 8);
        lemma_zero_run(groups, start);
        let length = zero_run(groups, start);
        if length >= 2 {
            lemma_gap_round_trip(groups, start, length);
        } else {
            lemma_join_shape(groups);
            lemma_join_round_trip(groups, true);
            lemma_gap_of_is(join_groups(groups), join_groups(groups).len() as int);
        }
    }
    lemma_ipv6_text_chars(address);
}

/// Whether `c` may stand in the text of an address.
pub open spec fn is_address_char(c: char) -> bool {
    is_hex(c) || c == ':' || c == '.'
}

/// The text of groups holds hexadecimal digits and colons only.
proof fn lemma_join_chars(groups: Seq<u16>)
    ensures
        forall|i: int|
            0 <= i < join_groups(groups).len() ==> is_address_char(#[trigger] join_groups(groups)[i]),
    decreases groups.len(),
{
    if groups.len() >= 1 {
        let first = hex_text(groups[0] as nat);
        lemma_hex_text(groups[0] as nat);
        if groups.len() > 1 {
            let rest = join_groups(groups.drop_first());
            lemma_join_chars(groups.drop_first());
            let text = join_groups(groups);
            assert forall|i: int| 0 <= i < text.len() implies is_address_char(#[trigger] text[i]) by {
                if i < first.len() {
                    assert(text[i] == first[i]);
                } else if i > first.len() {
                    assert(text[i] == rest[i - first.len() - 1]);
                }
            }
        }
    }
}

/// The text of an address holds hexadecimal digits, colons and dots only.
proof fn lemma_ipv6_text_chars(address: Ipv6)
    ensures
        forall|i: int|
            0 <= i < ipv6_text(address).len() ==> is_address_char(#[trigger] ipv6_text(address)[i]),
{
    let groups = address.groups();
    let text = ipv6_text(address);
    if is_mapped(groups) {
        reveal_strlit("::ffff:");
        let inner = address_text(ipv4_in(groups));
        lemma_address_round_trip(ipv4_in(groups));
        assert forall|i: int| 0 <= i < text.len() implies is_address_char(#[trigger] text[i]) by {
            if i >= 7 {
                assert(text[i] == inner[i - 7]);
                assert(is_digit(inner[i - 7]) || inner[i - 7] == '.');
            }
        }
    } else {
        let start = longest_run(groups, 8);
        lemma_longest_run(groups, 8);
        lemma_zero_run(groups, start);
        let length = zero_run(groups, start);
        if length >= 2 {
            reveal_strlit("::");
            let before = join_groups(groups.take(start));
            let after = join_groups(groups.skip(start + length));
            lemma_join_chars(groups.take(start));
            lemma_join_chars(groups.skip(start + length));
            assert forall|i: int| 0 <= i < text.len() implies is_address_char(#[trigger] text[i]) by {
                if i < before.len() {
                    assert(text[i] == before[i]);
                } else if i >= before.len() + 2 {
                    assert(text[i] == after[i - before.len() - 2]);
                }
            }
        } else {
            lemma_join_chars(groups);
        }
    }
}

} // verus!
