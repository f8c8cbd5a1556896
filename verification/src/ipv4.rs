//! IPv4 addresses and their textual form, `a.b.c.d`.

use vstd::prelude::*;
use crate::text::{
    all_digits, decimal_text, find, index_of, lemma_decimal_text, lemma_digits_hold_no,
    lemma_index_of_joined, number_of, parse_number, push_decimal,
};

verus! {

/// An IPv4 address, one field per octet, most significant first.
#[derive(Clone, Copy, Debug, PartialEq, Eq, Hash, Structural)]
pub struct Ipv4(pub u8, pub u8, pub u8, pub u8);

/// The octet that `s` writes: one to three digits, no greater than 255, and
/// without a leading zero unless it is the single digit `0`.
pub open spec fn octet_of(s: Seq<char>) -> Option<u8> {
    if s.len() <= 3 && (s.len() == 1 || s[0] != '0') {
        match number_of(s, 255) {
            Some(n) => Some(n as u8),
            None => None,
        }
    } else {
        None
    }
}

/// The address that `s` writes: four octets with a dot between each two.
pub open spec fn address_of(s: Seq<char>) -> Option<Ipv4> {
    let first = index_of(s, '.');
    let rest1 = s.skip(first + 1);
    let second = index_of(rest1, '.');
    let rest2 = rest1.skip(second + 1);
    let third = index_of(rest2, '.');
    let rest3 = rest2.skip(third + 1);
    if first < s.len() && second < rest1.len() && third < rest2.len() {
        match (
            octet_of(s.take(first)),
            octet_of(rest1.take(second)),
            octet_of(rest2.take(third)),
            octet_of(rest3),
        ) {
            (Some(a), Some(b), Some(c), Some(d)) => Some(Ipv4(a, b, c, d)),
            _ => None,
        }
    } else {
        None
    }
}

/// The text of an address: its octets in base ten with dots between them.
pub open spec fn address_text(address: Ipv4) -> Seq<char> {
    decimal_text(address.0 as nat) + seq!['.'] + (decimal_text(address.1 as nat) + seq!['.'] + (
    decimal_text(address.2 as nat) + seq!['.'] + decimal_text(address.3 as nat)))
}

/// The text of an octet writes that octet.
proof fn lemma_octet_text(octet: u8)
    ensures
        octet_of(decimal_text(octet as nat)) == Some(octet),
        all_digits(decimal_text(octet as nat)),
        1 <= decimal_text(octet as nat).len() <= 3,
{
    lemma_decimal_text(octet as nat);
}

/// The text of an address writes that address, and holds digits and dots
/// only.
pub proof fn lemma_address_round_trip(address: Ipv4)
    ensures
        address_of(address_text(address)) == Some(address),
        forall|i: int|
            0 <= i < address_text(address).len() ==> crate::text::is_digit(
                #[trigger] address_text(address)[i],
            ) || address_text(address)[i] == '.',
        7 <= address_text(address).len() <= 15,
{
    let a = decimal_text(address.0 as nat);
    let b = decimal_text(address.1 as nat);
    let c = decimal_text(address.2 as nat);
    let d = decimal_text(address.3 as nat);
    lemma_octet_text(address.0);
    lemma_octet_text(address.1);
    lemma_octet_text(address.2);
    lemma_octet_text(address.3);
    lemma_digits_hold_no(a, '.');
    lemma_digits_hold_no(b, '.');
    lemma_digits_hold_no(c, '.');
    let tail2 = c + seq!['.'] + d;
    let tail1 = b + seq!['.'] + tail2;
    let s = a + seq!['.'] + tail1;
    assert(s == address_text(address));
    lemma_index_of_joined(a, '.', tail1);
    lemma_index_of_joined(b, '.', tail2);
    lemma_index_of_joined(c, '.', d);
    assert forall|i: int| 0 <= i < s.len() implies crate::text::is_digit(#[trigger] s[i]) || s[i]
        == '.' by {
        if i < a.len() {
            assert(s[i] == a[i]);
        } else if i == a.len() {
        } else {
            let j = i - a.len() - 1;
            assert(s[i] == tail1[j]);
            if j < b.len() {
                assert(tail1[j] == b[j]);
            } else if j == b.len() {
            } else {
                let k = j - b.len() - 1;
                assert(tail1[j] == tail2[k]);
                if k < c.len() {
                    assert(tail2[k] == c[k]);
                } else if k == c.len() {
                } else {
                    assert(tail2[k] == d[k - c.len() - 1]);
                }
            }
        }
    }
}

/// Reads the octet that the characters of `chars` from `from` up to `to`
/// write.
fn parse_octet(chars: &Vec<char>, from: usize, to: usize) -> (octet: Option<u8>)
    requires
        from <= to <= chars.len(),
    ensures
        octet == octet_of(chars@.subrange(from as int, to as int)),
{
    if to - from > 3 {
        return None;
    }
    if to - from != 1 && to > from && chars[from] == '0' {
        return None;
    }
    match parse_number(chars, from, to, 255) {
        Some(n) => Some(n as u8),
        None => None,
    }
}

impl Ipv4 {
    /// Reads the address that the characters of `chars` from `from` up to
    /// `to` write.
    pub fn parse_range(chars: &Vec<char>, from: usize, to: usize) -> (address: Option<Ipv4>)
        requires
            from <= to <= chars.len(),
        ensures
            address == address_of(chars@.subrange(from as int, to as int)),
    {
        let ghost s = chars@.subrange(from as int, to as int);
        let dot1 = find(chars, from, to, '.');
        if dot1 >= to {
            return None;
        }
        let ghost rest1 = s.skip(dot1 - from + 1);
        assert(rest1 =~= chars@.subrange(dot1 + 1, to as int));
        assert(s.take(dot1 - from) =~= chars@.subrange(from as int, dot1 as int));
        let dot2 = find(chars, dot1 + 1, to, '.');
        if dot2 >= to {
            return None;
        }
        let ghost rest2 = rest1.skip(dot2 - dot1);
        assert(rest2 =~= chars@.subrange(dot2 + 1, to as int));
        assert(rest1.take(dot2 - dot1 - 1) =~= chars@.subrange(dot1 + 1, dot2 as int));
        let dot3 = find(chars, dot2 + 1, to, '.');
        if dot3 >= to {
            return None;
        }
        let ghost rest3 = rest2.skip(dot3 - dot2);
        assert(rest3 =~= chars@.subrange(dot3 + 1, to as int));
        assert(rest2.take(dot3 - dot2 - 1) =~= chars@.subrange(dot2 + 1, dot3 as int));
        let a = parse_octet(chars, from, dot1);
        let b = parse_octet(chars, dot1 + 1, dot2);
        let c = parse_octet(chars, dot2 + 1, dot3);
        let d = parse_octet(chars, dot3 + 1, to);
        match (a, b, c, d) {
            (Some(a), Some(b), Some(c), Some(d)) => Some(Ipv4(a, b, c, d)),
            _ => None,
        }
    }

    /// Writes the address at the end of `out`.
    pub fn push_text(&self, out: &mut String)
        ensures
            final(out)@ == old(out)@ + address_text(*self),
    {
        proof {
            reveal_strlit(".");
        }
        push_decimal(out, self.0 as u64);
        out.append(".");
        push_decimal(out, self.1 as u64);
        out.append(".");
        push_decimal(out, self.2 as u64);
        out.append(".");
        push_decimal(out, self.3 as u64);
    }
}

} // verus!
