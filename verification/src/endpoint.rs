//! Network endpoints: an IP address and a port, with their textual form,
//! `a.b.c.d:port` for IPv4 and `[address]:port` or `[address%zone]:port` for
//! IPv6.

use vstd::prelude::*;
use crate::ipv4::{address_of, address_text, lemma_address_round_trip, Ipv4};
use crate::ipv6::{ipv6_of, ipv6_text, lemma_ipv6_round_trip, Ipv6};
use crate::text::{
    decimal_text, find, index_of, is_digit, lemma_decimal_text, lemma_index_of,
    lemma_index_of_is, lemma_index_of_joined, number_of, parse_number, push_decimal,
};

verus! {

/// An IP address. An IPv6 address comes with the number of its zone, which
/// is 0 where it has none.
#[derive(Clone, Copy, Debug, PartialEq, Eq, Hash, Structural)]
pub enum Address {
    V4(Ipv4),
    V6 { address: Ipv6, zone: u32 },
}

/// A socket address: where a session listens or where it forwards to.
#[derive(Clone, Copy, Debug, PartialEq, Eq, Hash, Structural)]
pub struct Endpoint {
    pub address: Address,
    pub port: u16,
}

/// The port that `s` writes: one or more digits, no greater than 65535.
pub open spec fn port_of(s: Seq<char>) -> Option<u16> {
    match number_of(s, 65535) {
        Some(n) => Some(n as u16),
        None => None,
    }
}

/// The zone that the text after an IPv6 address writes: none, which
/// stands for zone 0, or a `%` and the number of the zone in digits.
pub open spec fn zone_of(s: Seq<char>) -> Option<u32> {
    if s.len() == 0 {
        Some(0u32)
    } else if s[0] == '%' {
        match number_of(s.skip(1), u32::MAX as nat) {
            Some(n) => Some(n as u32),
            None => None,
        }
    } else {
        None
    }
}

/// The IPv4 endpoint that `s` writes: an address, a colon, and a port.
pub open spec fn endpoint4_of(s: Seq<char>) -> Option<Endpoint> {
    let colon = index_of(s, ':');
    if colon < s.len() {
        match (address_of(s.take(colon)), port_of(s.skip(colon + 1))) {
            (Some(address), Some(port)) => Some(Endpoint { address: Address::V4(address), port }),
            _ => None,
        }
    } else {
        None
    }
}

/// The IPv6 endpoint that `s` writes: an address in square brackets, with
/// its zone where it has one, a colon, and a port.
pub open spec fn endpoint6_of(s: Seq<char>) -> Option<Endpoint> {
    let close = index_of(s, ']');
    if s.len() >= 1 && s[0] == '[' && close + 1 < s.len() && s[close + 1] == ':' {
        let inner = s.subrange(1, close);
        let percent = index_of(inner, '%');
        match (
            ipv6_of(inner.take(percent)),
            zone_of(inner.skip(percent)),
            port_of(s.skip(close + 2)),
        ) {
            (Some(address), Some(zone), Some(port)) => Some(
                Endpoint { address: Address::V6 { address, zone }, port },
            ),
            _ => None,
        }
    } else {
        None
    }
}

/// The endpoint that `s` writes.
pub open spec fn endpoint_of(s: Seq<char>) -> Option<Endpoint> {
    if s.len() >= 1 && s[0] == '[' {
        endpoint6_of(s)
    } else {
        endpoint4_of(s)
    }
}

/// The text of a zone: nothing for zone 0, else `%` and its number.
pub open spec fn zone_text(zone: u32) -> Seq<char> {
    if zone == 0 {
        Seq::empty()
    } else {
        seq!['%'] + decimal_text(zone as nat)
    }
}

/// The text of an endpoint: its address, in square brackets and with its
/// zone where it is an IPv6 address, a colon, and its port in base ten.
pub open spec fn endpoint_text(endpoint: Endpoint) -> Seq<char> {
    match endpoint.address {
        Address::V4(address) => address_text(address) + seq![':'] + decimal_text(
            endpoint.port as nat,
        ),
        Address::V6 { address, zone } => seq!['['] + (ipv6_text(address) + zone_text(zone))
            + seq![']'] + (seq![':'] + decimal_text(endpoint.port as nat)),
    }
}

/// Writing a zone and reading the text back gives the zone.
proof fn lemma_zone_round_trip(zone: u32)
    ensures
        zone_of(zone_text(zone)) == Some(zone),
        forall|i: int| 0 <= i < zone_text(zone).len() ==> #[trigger] zone_text(zone)[i] != ']',
        zone != 0 ==> zone_text(zone)[0] == '%',
{
    if zone != 0 {
        lemma_decimal_text(zone as nat);
        let digits = decimal_text(zone as nat);
        assert(zone_text(zone).skip(1) =~= digits);
        assert forall|i: int| 0 <= i < zone_text(zone).len() implies #[trigger] zone_text(zone)[i]
            != ']' by {
            if i >= 1 {
                assert(zone_text(zone)[i] == digits[i - 1]);
                assert(is_digit(digits[i - 1]));
            }
        }
    }
}

/// Writing an endpoint and reading the text back gives the endpoint.
pub proof fn lemma_endpoint_round_trip(endpoint: Endpoint)
    ensures
        endpoint_of(endpoint_text(endpoint)) == Some(endpoint),
{
    lemma_decimal_text(endpoint.port as nat);
    let port = decimal_text(endpoint.port as nat);
    match endpoint.address {
        Address::V4(address) => {
            lemma_address_round_trip(address);
            let host = address_text(address);
            assert forall|i: int| 0 <= i < host.len() implies #[trigger] host[i] != ':' by {
                assert(is_digit(host[i]) || host[i] == '.');
            }
            lemma_index_of_joined(host, ':', port);
            assert(endpoint_text(endpoint)[0] == host[0]);
            assert(is_digit(host[0]) || host[0] == '.');
        },
        Address::V6 { address, zone } => {
            lemma_ipv6_round_trip(address);
            lemma_zone_round_trip(zone);
            let ip = ipv6_text(address);
            let inner = ip + zone_text(zone);
            let text = endpoint_text(endpoint);
            let open = seq!['['] + inner;
            assert(text == open + seq![']'] + (seq![':'] + port));
            assert forall|i: int| 0 <= i < open.len() implies #[trigger] open[i] != ']' by {
                if i >= 1 {
                    if i - 1 < ip.len() {
                        assert(open[i] == ip[i - 1]);
                    } else {
                        assert(open[i] == zone_text(zone)[i - 1 - ip.len()]);
                    }
                }
            }
            lemma_index_of_joined(open, ']', seq![':'] + port);
            let close = open.len() as int;
            assert(text[0] == '[');
            assert(text[close + 1] == ':');
            assert(text.subrange(1, close) =~= inner);
            assert(text.skip(close + 2) =~= port);
            if zone == 0 {
                assert(inner =~= ip);
                lemma_index_of_is(inner, '%', inner.len() as int);
                assert(inner.take(inner.len() as int) =~= ip);
                assert(inner.skip(inner.len() as int) =~= Seq::<char>::empty());
            } else {
                assert(zone_text(zone) =~= seq!['%'] + decimal_text(zone as nat));
                assert(inner =~= ip + seq!['%'] + decimal_text(zone as nat));
                lemma_index_of_joined(ip, '%', decimal_text(zone as nat));
                assert(inner.take(ip.len() as int) =~= ip);
                assert(inner.skip(ip.len() as int) =~= zone_text(zone));
            }
        },
    }
}

impl Endpoint {
    /// Reads the endpoint that the characters of `chars` from `from` up to
    /// `to` write.
    pub fn parse_range(chars: &Vec<char>, from: usize, to: usize) -> (endpoint: Option<Endpoint>)
        requires
            from <= to <= chars.len(),
        ensures
            endpoint == endpoint_of(chars@.subrange(from as int, to as int)),
    {
        let ghost s = chars@.subrange(from as int, to as int);
        if from < to && chars[from] == '[' {
            let close = find(chars, from, to, ']');
            if close >= to || close + 1 >= to || chars[close + 1] != ':' {
                return None;
            }
            proof {
                lemma_index_of(s, ']');
            }
            let ghost inner = s.subrange(1, close - from);
            proof {
                assert(inner =~= chars@.subrange(from + 1, close as int));
                assert(s.skip(close - from + 2) =~= chars@.subrange(close + 2, to as int));
            }
            let percent = find(chars, from + 1, close, '%');
            proof {
                assert(inner.take(percent - from - 1) =~= chars@.subrange(
                    from + 1,
                    percent as int,
                ));
                lemma_index_of(inner, '%');
                if percent < close {
                    assert(inner.skip(percent - from - 1).skip(1) =~= chars@.subrange(
                        percent + 1,
                        close as int,
                    ));
                }
            }
            let address = Ipv6::parse_range(chars, from + 1, percent);
            let zone: Option<u32> = if percent == close {
                Some(0)
            } else {
                match parse_number(chars, percent + 1, close, u32::MAX as u64) {
                    Some(zone) => Some(zone as u32),
                    None => None,
                }
            };
            let port = parse_number(chars, close + 2, to, 65535);
            match (address, zone, port) {
                (Some(address), Some(zone), Some(port)) => Some(
                    Endpoint { address: Address::V6 { address, zone }, port: port as u16 },
                ),
                _ => None,
            }
        } else {
            let colon = find(chars, from, to, ':');
            if colon >= to {
                return None;
            }
            assert(s.take(colon - from) =~= chars@.subrange(from as int, colon as int));
            assert(s.skip(colon - from + 1) =~= chars@.subrange(colon + 1, to as int));
            let address = Ipv4::parse_range(chars, from, colon);
            let port = parse_number(chars, colon + 1, to, 65535);
            match (address, port) {
                (Some(address), Some(port)) => Some(
                    Endpoint { address: Address::V4(address), port: port as u16 },
                ),
                _ => None,
            }
        }
    }

    /// Reads an endpoint from its text.
    pub fn parse(text: &str) -> (endpoint: Option<Endpoint>)
        ensures
            endpoint == endpoint_of(text@),
    {
        let chars = crate::text::chars_of(text);
        assert(chars@.subrange(0, chars@.len() as int) =~= chars@);
        Endpoint::parse_range(&chars, 0, chars.len())
    }

    /// Writes the endpoint at the end of `out`.
    pub fn push_text(&self, out: &mut String)
        ensures
            final(out)@ == old(out)@ + endpoint_text(*self),
    {
        proof {
            reveal_strlit(":");
            reveal_strlit("[");
            reveal_strlit("]");
            reveal_strlit("%");
        }
        match self.address {
            Address::V4(address) => {
                address.push_text(out);
                out.append(":");
                push_decimal(out, self.port as u64);
            },
            Address::V6 { address, zone } => {
                out.append("[");
                address.push_text(out);
                if zone != 0 {
                    out.append("%");
                    push_decimal(out, zone as u64);
                }
                out.append("]");
                out.append(":");
                push_decimal(out, self.port as u64);
            },
        }
    }

    /// The text of the endpoint.
    pub fn to_text(&self) -> (text: String)
        ensures
            text@ == endpoint_text(*self),
            endpoint_of(text@) == Some(*self),
    {
        let mut text = String::new();
        self.push_text(&mut text);
        proof {
            lemma_endpoint_round_trip(*self);
        }
        text
    }
}

} // verus!
