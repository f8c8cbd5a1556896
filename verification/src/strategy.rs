//! Destination strategies: which of a rule's destinations the next datagram
//! or connection goes to.

use vstd::prelude::*;
use crate::endpoint::Endpoint;
use crate::rules::{Protocol, Rule};
use crate::text::{chars_of, eq_ignoring_case, eq_str, same_ignoring_case};

verus! {

/// How traffic is distributed over the destinations of a rule.
#[derive(Clone, Copy, Debug, PartialEq, Eq, Hash, Structural)]
pub enum Mode {
    RoundRobin,
    Broadcast,
}

/// Why a text names no mode.
#[derive(Debug, PartialEq)]
pub enum Error {
    /// The text, as it was given.
    ParseModeError(String),
}

impl Error {
    /// The message for the error: the text, and that it is not a mode.
    pub open spec fn message(self) -> Seq<char> {
        match self {
            Error::ParseModeError(text) => text@ + " is not a mode"@,
        }
    }

    /// The message for the error.
    pub fn to_string(&self) -> (message: String)
        ensures
            message@ == self.message(),
    {
        match self {
            Error::ParseModeError(text) => {
                let mut message = text.clone();
                message.append(" is not a mode");
                message
            },
        }
    }
}

impl Mode {
    /// The mode that a text names: `roundrobin` or `broadcast`, in upper or
    /// lower case.
    pub open spec fn named(text: Seq<char>) -> Option<Mode> {
        if same_ignoring_case(text, "roundrobin"@) {
            Some(Mode::RoundRobin)
        } else if same_ignoring_case(text, "broadcast"@) {
            Some(Mode::Broadcast)
        } else {
            None
        }
    }

    /// The name of the mode in a rule's JSON form.
    pub open spec fn json_name(self) -> Seq<char> {
        match self {
            Mode::RoundRobin => "round-robin"@,
            Mode::Broadcast => "broadcast"@,
        }
    }

    /// The mode that a JSON name stands for.
    pub open spec fn of_json_name(name: Seq<char>) -> Option<Mode> {
        if name == "round-robin"@ {
            Some(Mode::RoundRobin)
        } else if name == "broadcast"@ {
            Some(Mode::Broadcast)
        } else {
            None
        }
    }

    /// The display form of the mode.
    pub open spec fn display(self) -> Seq<char> {
        match self {
            Mode::RoundRobin => "RoundRobin"@,
            Mode::Broadcast => "Broadcast"@,
        }
    }

    /// The mode where a rule names none: broadcast for UDP, round-robin for
    /// TCP.
    pub open spec fn default_of(protocol: Protocol) -> Mode {
        match protocol {
            Protocol::Udp => Mode::Broadcast,
            Protocol::Tcp => Mode::RoundRobin,
        }
    }

    /// The mode where a rule names none: broadcast for UDP, round-robin for
    /// TCP.
    pub fn default_for(protocol: Protocol) -> (mode: Mode)
        ensures
            mode == Mode::default_of(protocol),
    {
        match protocol {
            Protocol::Udp => Mode::Broadcast,
            Protocol::Tcp => Mode::RoundRobin,
        }
    }

    /// The name of the mode in a rule's JSON form: `round-robin` or
    /// `broadcast`.
    pub fn name(&self) -> (name: &'static str)
        ensures
            name@ == self.json_name(),
            Mode::of_json_name(name@) == Some(*self),
    {
        proof {
            reveal_strlit("round-robin");
            reveal_strlit("broadcast");
        }
        match self {
            Mode::RoundRobin => "round-robin",
            Mode::Broadcast => {
                assert("broadcast"@ != "round-robin"@) by {
                    assert("broadcast"@.len() != "round-robin"@.len());
                }
                "broadcast"
            },
        }
    }

    /// The mode that a JSON name stands for.
    pub fn from_name(name: &str) -> (mode: Option<Mode>)
        ensures
            mode == Mode::of_json_name(name@),
    {
        if eq_str(name, "round-robin") {
            Some(Mode::RoundRobin)
        } else if eq_str(name, "broadcast") {
            Some(Mode::Broadcast)
        } else {
            None
        }
    }

    /// The display form of the mode: `RoundRobin` or `Broadcast`.
    pub fn to_string(&self) -> (text: String)
        ensures
            text@ == self.display(),
    {
        match self {
            Mode::RoundRobin => String::from_str("RoundRobin"),
            Mode::Broadcast => String::from_str("Broadcast"),
        }
    }
}

impl core::str::FromStr for Mode {
    type Err = Error;

    /// Reads a mode from its name, `roundrobin` or `broadcast`, in upper or
    /// lower case. Any other text comes back in the error.
    fn from_str(s: &str) -> (outcome: Result<Mode, Error>)
        ensures
            match outcome {
                Ok(mode) => Mode::named(s@) == Some(mode),
                Err(Error::ParseModeError(text)) => Mode::named(s@) is None && text@ == s@,
            },
    {
        let chars = chars_of(s);
        if eq_ignoring_case(&chars, "roundrobin") {
            Ok(Mode::RoundRobin)
        } else if eq_ignoring_case(&chars, "broadcast") {
            Ok(Mode::Broadcast)
        } else {
            Err(Error::ParseModeError(s.to_owned()))
        }
    }
}

/// What a strategy is, as a mathematical value: its mode, its destinations in
/// list order, and the index that round-robin selects next (0 for broadcast).
pub struct StrategyModel {
    pub mode: Mode,
    pub peers: Seq<Endpoint>,
    pub cursor: int,
}

impl StrategyModel {
    /// A round-robin cursor points into the list; broadcast keeps it at 0.
    pub open spec fn wf(self) -> bool {
        match self.mode {
            Mode::RoundRobin => 0 <= self.cursor < self.peers.len(),
            Mode::Broadcast => self.cursor == 0,
        }
    }

    /// The destinations that the next call hands out.
    pub open spec fn selected(self) -> Seq<Endpoint> {
        match self.mode {
            Mode::Broadcast => self.peers,
            Mode::RoundRobin => seq![self.peers[self.cursor]],
        }
    }

    /// The strategy after one call.
    pub open spec fn advance(self) -> StrategyModel {
        match self.mode {
            Mode::Broadcast => self,
            Mode::RoundRobin => StrategyModel {
                cursor: (self.cursor + 1) % (self.peers.len() as int),
                ..self
            },
        }
    }

    /// The index that round-robin selects at call number `call`, counted
    /// from 0 at this state.
    pub open spec fn turn(self, call: nat) -> int {
        (self.cursor + call) % (self.peers.len() as int)
    }

    /// The call, counted from 0 at this state, at which round-robin selects
    /// the destination at `index`.
    pub open spec fn call_for(self, index: int) -> nat {
        if index >= self.cursor {
            (index - self.cursor) as nat
        } else {
            (index - self.cursor + self.peers.len()) as nat
        }
    }

    /// The strategy after `calls` calls.
    pub open spec fn advance_by(self, calls: nat) -> StrategyModel
        decreases calls,
    {
        if calls == 0 {
            self
        } else {
            self.advance().advance_by((calls - 1) as nat)
        }
    }
}

/// A copy of `peers`.
pub fn copy_endpoints(peers: &[Endpoint]) -> (copy: Vec<Endpoint>)
    ensures
        copy@ == peers@,
{
    let mut copy: Vec<Endpoint> = Vec::new();
    let mut i: usize = 0;
    while i < peers.len()
        invariant
            i <= peers.len(),
            copy@ == peers@.take(i as int),
        decreases peers.len() - i,
    {
        copy.push(peers[i]);
        i += 1;
    }
    copy
}

/// Sends every datagram to all destinations. Only makes sense for UDP.
pub struct BroadcastStrategy {
    peers: Vec<Endpoint>,
}

impl View for BroadcastStrategy {
    type V = StrategyModel;

    closed spec fn view(&self) -> StrategyModel {
        StrategyModel { mode: Mode::Broadcast, peers: self.peers@, cursor: 0 }
    }
}

impl BroadcastStrategy {
    pub fn new(peers: &[Endpoint]) -> (strategy: BroadcastStrategy)
        ensures
            strategy@ == (StrategyModel { mode: Mode::Broadcast, peers: peers@, cursor: 0 }),
    {
        BroadcastStrategy { peers: copy_endpoints(peers) }
    }

    /// All destinations, in list order; the strategy has no state to advance.
    pub fn destinations(&mut self) -> (selected: Vec<Endpoint>)
        ensures
            selected@ == old(self)@.selected(),
            final(self)@ == old(self)@.advance(),
    {
        copy_endpoints(self.peers.as_slice())
    }
}

/// Sends each datagram or connection to one destination, taking the
/// destinations in turn.
pub struct RoundRobinStrategy {
    next: usize,
    peers: Vec<Endpoint>,
}

impl View for RoundRobinStrategy {
    type V = StrategyModel;

    closed spec fn view(&self) -> StrategyModel {
        StrategyModel { mode: Mode::RoundRobin, peers: self.peers@, cursor: self.next as int }
    }
}

impl RoundRobinStrategy {
    #[verifier::type_invariant]
    spec fn cursor_in_range(&self) -> bool {
        self.next < self.peers.len()
    }

    pub fn new(peers: &[Endpoint]) -> (strategy: RoundRobinStrategy)
        requires
            peers@.len() >= 1,
        ensures
            strategy@ == (StrategyModel { mode: Mode::RoundRobin, peers: peers@, cursor: 0 }),
    {
        RoundRobinStrategy { next: 0, peers: copy_endpoints(peers) }
    }

    /// The destination under the cursor; the cursor then moves on by one and
    /// wraps around at the end of the list.
    pub fn destinations(&mut self) -> (selected: Vec<Endpoint>)
        ensures
            old(self)@.wf(),
            selected@ == old(self)@.selected(),
            final(self)@ == old(self)@.advance(),
    {
        proof {
            use_type_invariant(&*self);
            let n = self.peers.len() as int;
            if self.next + 1 == n {
                vstd::arithmetic::div_mod::lemma_mod_self_0(n);
            } else {
                vstd::arithmetic::div_mod::lemma_small_mod((self.next + 1) as nat, n as nat);
            }
        }
        let mut selected: Vec<Endpoint> = Vec::new();
        selected.push(self.peers[self.next]);
        if self.next + 1 >= self.peers.len() {
            self.next = 0;
        } else {
            self.next = self.next + 1;
        }
        selected
    }
}

/// The strategy of a session: one of the two variants, chosen by the mode.
pub enum Strategy {
    Broadcast(BroadcastStrategy),
    RoundRobin(RoundRobinStrategy),
}

impl View for Strategy {
    type V = StrategyModel;

    open spec fn view(&self) -> StrategyModel {
        match self {
            Strategy::Broadcast(inner) => inner@,
            Strategy::RoundRobin(inner) => inner@,
        }
    }
}

impl Strategy {
    /// A fresh strategy over `peers` that starts at the head of the list.
    pub fn new(mode: Mode, peers: &[Endpoint]) -> (strategy: Strategy)
        requires
            mode == Mode::RoundRobin ==> peers@.len() >= 1,
        ensures
            strategy@ == (StrategyModel { mode, peers: peers@, cursor: 0 }),
            strategy@.wf(),
    {
        match mode {
            Mode::Broadcast => Strategy::Broadcast(BroadcastStrategy::new(peers)),
            Mode::RoundRobin => Strategy::RoundRobin(RoundRobinStrategy::new(peers)),
        }
    }

    /// The destinations for the next datagram or connection. Broadcast yields
    /// all destinations on every call; round-robin yields one and rotates.
    pub fn destinations(&mut self) -> (selected: Vec<Endpoint>)
        ensures
            old(self)@.wf(),
            selected@ == old(self)@.selected(),
            old(self)@.peers.len() >= 1 ==> selected@.len() >= 1,
            final(self)@ == old(self)@.advance(),
            final(self)@.wf(),
    {
        match self {
            Strategy::Broadcast(inner) => inner.destinations(),
            Strategy::RoundRobin(inner) => inner.destinations(),
        }
    }
}

/// Builds the strategy that a rule asks for.
pub struct StrategyFactory;

impl StrategyFactory {
    /// The strategy for `rule`: its mode over its destinations, starting at
    /// the head of the list.
    pub fn make(rule: &Rule) -> (strategy: Strategy)
        requires
            rule@.mode == Mode::RoundRobin ==> rule@.destinations.len() >= 1,
        ensures
            strategy@ == (StrategyModel {
                mode: rule@.mode,
                peers: rule@.destinations,
                cursor: 0,
            }),
            strategy@.wf(),
    {
        Strategy::new(rule.mode, rule.destinations.as_slice())
    }
}

/// A well-formed strategy stays well-formed when it advances.
pub proof fn lemma_advance_wf(s: StrategyModel)
    requires
        s.wf(),
    ensures
        s.advance().wf(),
        s.advance().peers == s.peers,
        s.advance().mode == s.mode,
{
    if s.mode == Mode::RoundRobin {
        let n = s.peers.len() as int;
        vstd::arithmetic::div_mod::lemma_mod_bound(s.cursor + 1, n);
    }
}

/// After `calls` calls a round-robin cursor stands `calls` places further on,
/// counted around the list.
pub proof fn lemma_round_robin_cursor(s: StrategyModel, calls: nat)
    requires
        s.mode == Mode::RoundRobin,
        s.wf(),
    ensures
        s.advance_by(calls) == (StrategyModel {
            cursor: (s.cursor + calls) % (s.peers.len() as int),
            ..s
        }),
        s.advance_by(calls).wf(),
    decreases calls,
{
    let n = s.peers.len() as int;
    if calls == 0 {
        vstd::arithmetic::div_mod::lemma_small_mod(s.cursor as nat, n as nat);
    } else {
        lemma_advance_wf(s);
        lemma_round_robin_cursor(s.advance(), (calls - 1) as nat);
        vstd::arithmetic::div_mod::lemma_add_mod_noop(s.cursor + 1, (calls - 1) as int, n);
        vstd::arithmetic::div_mod::lemma_mod_twice(s.cursor + 1, n);
        vstd::arithmetic::div_mod::lemma_add_mod_noop((s.cursor + 1) % n, (calls - 1) as int, n);
        assert(s.cursor + 1 + (calls - 1) == s.cursor + calls);
        vstd::arithmetic::div_mod::lemma_mod_bound(s.cursor + calls, n);
    }
}

/// Round-robin over N destinations serves, in N consecutive calls, each
/// destination exactly once: call number `k` (from 0) hands out the single
/// destination at index `turn(k) = (cursor + k) mod N`, so the calls walk the
/// list in order and wrap around at its end; two different calls among N in
/// a row hand out different indices, the index `i` is handed out at call
/// `call_for(i)`, and after the N calls the strategy is back where it started.
pub proof fn law_round_robin_cycle(s: StrategyModel)
    requires
        s.mode == Mode::RoundRobin,
        s.wf(),
    ensures
        forall|k: nat| #[trigger] s.advance_by(k).selected() == seq![s.peers[s.turn(k)]],
        forall|k: nat| 0 <= #[trigger] s.turn(k) < s.peers.len(),
        forall|j: nat, k: nat|
            j < k < s.peers.len() ==> #[trigger] s.turn(j) != #[trigger] s.turn(k),
        forall|i: int|
            0 <= i < s.peers.len() ==> (#[trigger] s.call_for(i)) < s.peers.len() && s.turn(
                s.call_for(i),
            ) == i,
        s.advance_by(s.peers.len()) == s,
{
    let n = s.peers.len() as int;
    assert forall|k: nat| #[trigger] s.advance_by(k).selected() == seq![s.peers[s.turn(k)]] by {
        lemma_round_robin_cursor(s, k);
    }
    assert forall|k: nat| 0 <= #[trigger] s.turn(k) < s.peers.len() by {
        vstd::arithmetic::div_mod::lemma_mod_bound(s.cursor + k, n);
    }
    assert forall|j: nat, k: nat| j < k < s.peers.len() implies #[trigger] s.turn(j)
        != #[trigger] s.turn(k) by {
        lemma_offset_mod(s.cursor, j as int, n);
        lemma_offset_mod(s.cursor, k as int, n);
    }
    assert forall|i: int| 0 <= i < s.peers.len() implies (#[trigger] s.call_for(i))
        < s.peers.len() && s.turn(s.call_for(i)) == i by {
        lemma_offset_mod(s.cursor, s.call_for(i) as int, n);
    }
    lemma_round_robin_cursor(s, s.peers.len());
    lemma_offset_mod(s.cursor, 0, n);
    vstd::arithmetic::div_mod::lemma_mod_add_multiples_vanish(s.cursor, n);
}

/// For a cursor and an offset below `n`, the sum taken modulo `n` is the sum
/// itself, or the sum less `n` where it runs past the end.
proof fn lemma_offset_mod(cursor: int, offset: int, n: int)
    requires
        0 <= cursor < n,
        0 <= offset < n,
    ensures
        (cursor + offset) % n == if cursor + offset < n {
            cursor + offset
        } else {
            cursor + offset - n
        },
{
    if cursor + offset < n {
        vstd::arithmetic::div_mod::lemma_small_mod((cursor + offset) as nat, n as nat);
    } else {
        vstd::arithmetic::div_mod::lemma_small_mod((cursor + offset - n) as nat, n as nat);
        vstd::arithmetic::div_mod::lemma_mod_add_multiples_vanish(cursor + offset - n, n);
    }
}

/// Broadcast hands out every destination exactly once per call, in list
/// order, and is the same strategy after any number of calls.
pub proof fn law_broadcast_all(s: StrategyModel, calls: nat)
    requires
        s.mode == Mode::Broadcast,
    ensures
        s.advance_by(calls) == s,
        s.advance_by(calls).selected() == s.peers,
    decreases calls,
{
    if calls > 0 {
        law_broadcast_all(s, (calls - 1) as nat);
    }
}

/// Advancing `calls` times is advancing once after `calls - 1` times.
pub proof fn lemma_advance_by_last(s: StrategyModel, calls: nat)
    requires
        calls > 0,
    ensures
        s.advance_by(calls) == s.advance_by((calls - 1) as nat).advance(),
    decreases calls,
{
    if calls > 1 {
        lemma_advance_by_last(s.advance(), (calls - 1) as nat);
        assert(s.advance_by((calls - 1) as nat) == s.advance().advance_by((calls - 2) as nat));
    } else {
        assert(s.advance_by(1) == s.advance().advance_by(0));
        assert(s.advance_by(0) == s);
    }
}

} // verus!
