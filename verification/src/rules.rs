//! Forwarding rules and the store that holds them under stable identifiers.

use vstd::prelude::*;
use crate::endpoint::Endpoint;
use crate::strategy::Mode;
use crate::text::{chars_of, eq_ignoring_case, eq_str, same_ignoring_case};

verus! {

/// The transport that a rule forwards.
#[derive(Clone, Copy, Debug, PartialEq, Eq, Hash, Structural)]
pub enum Protocol {
    Udp,
    Tcp,
}

/// Why a rule, or an operation of the rule store, was refused.
#[derive(Clone, Copy, Debug, PartialEq, Eq, Hash, Structural)]
pub enum Error {
    /// The text names no protocol.
    ParseError,
    /// No active rule has the identifier.
    NotFound,
    /// The rule is not valid, or another active rule already listens on its
    /// protocol and source.
    InvariantViolated,
}

impl Protocol {
    /// The protocol that a text names: `udp` or `tcp`, in upper or lower
    /// case.
    pub open spec fn named(text: Seq<char>) -> Option<Protocol> {
        if same_ignoring_case(text, "udp"@) {
            Some(Protocol::Udp)
        } else if same_ignoring_case(text, "tcp"@) {
            Some(Protocol::Tcp)
        } else {
            None
        }
    }

    /// The name of the protocol in a rule's JSON form.
    pub open spec fn json_name(self) -> Seq<char> {
        match self {
            Protocol::Udp => "udp"@,
            Protocol::Tcp => "tcp"@,
        }
    }

    /// The protocol that a JSON name stands for.
    pub open spec fn of_json_name(name: Seq<char>) -> Option<Protocol> {
        if name == "udp"@ {
            Some(Protocol::Udp)
        } else if name == "tcp"@ {
            Some(Protocol::Tcp)
        } else {
            None
        }
    }

    /// The name of the protocol in a rule's JSON form: `udp` or `tcp`.
    pub fn name(&self) -> (name: &'static str)
        ensures
            name@ == self.json_name(),
            Protocol::of_json_name(name@) == Some(*self),
    {
        proof {
            reveal_strlit("udp");
            reveal_strlit("tcp");
        }
        match self {
            Protocol::Udp => "udp",
            Protocol::Tcp => {
                assert("tcp"@ != "udp"@) by {
                    assert("tcp"@[0] != "udp"@[0]);
                }
                "tcp"
            },
        }
    }

    /// The protocol that a JSON name stands for.
    pub fn from_name(name: &str) -> (protocol: Option<Protocol>)
        ensures
            protocol == Protocol::of_json_name(name@),
    {
        if eq_str(name, "udp") {
            Some(Protocol::Udp)
        } else if eq_str(name, "tcp") {
            Some(Protocol::Tcp)
        } else {
            None
        }
    }
}

impl core::str::FromStr for Protocol {
    type Err = Error;

    /// Reads a protocol from its name, `udp` or `tcp`, in upper or lower
    /// case.
    fn from_str(protocol: &str) -> (outcome: Result<Protocol, Error>)
        ensures
            match outcome {
                Ok(found) => Protocol::named(protocol@) == Some(found),
                Err(error) => Protocol::named(protocol@) is None && error == Error::ParseError,
            },
    {
        let chars = chars_of(protocol);
        if eq_ignoring_case(&chars, "udp") {
            Ok(Protocol::Udp)
        } else if eq_ignoring_case(&chars, "tcp") {
            Ok(Protocol::Tcp)
        } else {
            Err(Error::ParseError)
        }
    }
}

/// A rule as a mathematical value.
pub struct RuleModel {
    pub protocol: Protocol,
    pub mode: Mode,
    pub source: Endpoint,
    pub destinations: Seq<Endpoint>,
}

/// One forwarding path of a rule: from its source to one destination.
#[derive(Clone, Copy, Debug, PartialEq, Eq, Hash, Structural)]
pub struct Route {
    pub protocol: Protocol,
    pub source: Endpoint,
    pub destination: Endpoint,
}

impl RuleModel {
    /// A rule can be served when it has somewhere to forward to and does not
    /// ask for a TCP connection to be broadcast.
    pub open spec fn is_valid(self) -> bool {
        &&& self.destinations.len() >= 1
        &&& !(self.protocol == Protocol::Tcp && self.mode == Mode::Broadcast)
    }

    /// The forwarding paths of the rule: one to each destination, in list
    /// order.
    pub open spec fn routes(self) -> Seq<Route> {
        Seq::new(
            self.destinations.len(),
            |i: int|
                Route {
                    protocol: self.protocol,
                    source: self.source,
                    destination: self.destinations[i],
                },
        )
    }
}

/// Where to listen for connections or packets and where to forward them.
#[derive(Debug, PartialEq)]
pub struct Rule {
    pub protocol: Protocol,
    pub mode: Mode,
    pub source: Endpoint,
    pub destinations: Vec<Endpoint>,
}

impl View for Rule {
    type V = RuleModel;

    open spec fn view(&self) -> RuleModel {
        RuleModel {
            protocol: self.protocol,
            mode: self.mode,
            source: self.source,
            destinations: self.destinations@,
        }
    }
}

impl Clone for Rule {
    fn clone(&self) -> (copy: Rule)
        ensures
            copy@ == self@,
    {
        Rule {
            protocol: self.protocol,
            mode: self.mode,
            source: self.source,
            destinations: crate::strategy::copy_endpoints(self.destinations.as_slice()),
        }
    }
}

impl Rule {
    /// The forwarding paths of the rule: one to each destination, in list
    /// order.
    pub fn routes(&self) -> (routes: Vec<Route>)
        ensures
            routes@ == self@.routes(),
    {
        let mut routes: Vec<Route> = Vec::new();
        let mut i: usize = 0;
        while i < self.destinations.len()
            invariant
                i <= self.destinations.len(),
                routes@ == self@.routes().take(i as int),
            decreases self.destinations.len() - i,
        {
            routes.push(
                Route {
                    protocol: self.protocol,
                    source: self.source,
                    destination: self.destinations[i],
                },
            );
            i += 1;
        }
        routes
    }

    /// Whether the rule can be served: at least one destination, and no
    /// broadcast over TCP.
    pub fn is_valid(&self) -> (valid: bool)
        ensures
            valid == self@.is_valid(),
    {
        self.destinations.len() >= 1 && !(self.protocol == Protocol::Tcp && self.mode
            == Mode::Broadcast)
    }
}

/// The rule store as a mathematical value: one slot per identifier ever
/// handed out, in order; the slot of a deleted rule stays behind, empty.
pub struct StoreModel {
    pub slots: Seq<Option<RuleModel>>,
}

/// An operation that changes the store.
pub enum StoreOp {
    Create(RuleModel),
    Update(int, RuleModel),
    Delete(int),
}

impl StoreModel {
    /// The identifier that the next successful create hands out.
    pub open spec fn next_id(self) -> int {
        self.slots.len() as int
    }

    /// Whether `id` names a rule that was created and not deleted since.
    pub open spec fn is_active(self, id: int) -> bool {
        0 <= id < self.slots.len() && self.slots[id] is Some
    }

    /// The active rule at `id`, if there is one.
    pub open spec fn get(self, id: int) -> Option<RuleModel> {
        if self.is_active(id) {
            self.slots[id]
        } else {
            None
        }
    }

    /// Whether an active rule other than the one at `except` listens on the
    /// protocol and source of `rule`.
    pub open spec fn conflicts(self, rule: RuleModel, except: int) -> bool {
        exists|other: int|
            #![trigger self.slots[other]]
            self.is_active(other) && other != except && self.slots[other]->0.protocol
                == rule.protocol && self.slots[other]->0.source == rule.source
    }

    /// Whether `rule` may be stored at `except` (or in a new slot, for an
    /// `except` that names none): it is valid and shares its protocol and
    /// source with no other active rule.
    pub open spec fn admits(self, rule: RuleModel, except: int) -> bool {
        rule.is_valid() && !self.conflicts(rule, except)
    }

    /// Every active rule is valid, and no two active rules listen on the same
    /// protocol and source.
    pub open spec fn wf(self) -> bool {
        &&& forall|id: int| self.is_active(id) ==> (#[trigger] self.slots[id])->0.is_valid()
        &&& forall|a: int, b: int|
            self.is_active(a) && self.is_active(b) && a != b ==> !((#[trigger] self.slots[a])->0.protocol
                == (#[trigger] self.slots[b])->0.protocol && self.slots[a]->0.source
                == self.slots[b]->0.source)
    }

    /// The store after an attempt to create `rule`.
    pub open spec fn create(self, rule: RuleModel) -> StoreModel {
        if self.admits(rule, -1) {
            StoreModel { slots: self.slots.push(Some(rule)) }
        } else {
            self
        }
    }

    /// What an attempt to create `rule` answers: the new identifier, or why
    /// the rule was refused.
    pub open spec fn create_outcome(self, rule: RuleModel) -> Result<int, Error> {
        if self.admits(rule, -1) {
            Ok(self.next_id())
        } else {
            Err(Error::InvariantViolated)
        }
    }

    /// What an attempt to replace the rule at `id` by `rule` answers: the
    /// rule that was there, or why nothing was replaced.
    pub open spec fn update_outcome(self, id: int, rule: RuleModel) -> Result<RuleModel, Error> {
        if !self.is_active(id) {
            Err(Error::NotFound)
        } else if !self.admits(rule, id) {
            Err(Error::InvariantViolated)
        } else {
            Ok(self.slots[id]->0)
        }
    }

    /// The store after an attempt to replace the rule at `id` by `rule`.
    pub open spec fn update(self, id: int, rule: RuleModel) -> StoreModel {
        if self.update_outcome(id, rule) is Ok {
            StoreModel { slots: self.slots.update(id, Some(rule)) }
        } else {
            self
        }
    }

    /// The store after an attempt to delete the rule at `id`: its slot is
    /// empty from then on.
    pub open spec fn delete(self, id: int) -> StoreModel {
        if self.is_active(id) {
            StoreModel { slots: self.slots.update(id, None) }
        } else {
            self
        }
    }

    /// The active rules with their identifiers, by ascending identifier.
    pub open spec fn list(self) -> Seq<(int, RuleModel)>
        decreases self.slots.len(),
    {
        if self.slots.len() == 0 {
            Seq::empty()
        } else {
            let before = (StoreModel { slots: self.slots.drop_last() }).list();
            match self.slots.last() {
                Some(rule) => before.push((self.slots.len() - 1, rule)),
                None => before,
            }
        }
    }

    /// The number of active rules with an identifier below `id`: the place
    /// of the rule at `id` in the listing.
    pub open spec fn rank(self, id: int) -> int
        decreases id,
    {
        if id <= 0 {
            0
        } else if self.is_active(id - 1) {
            self.rank(id - 1) + 1
        } else {
            self.rank(id - 1)
        }
    }

    /// The store after `op`.
    pub open spec fn apply(self, op: StoreOp) -> StoreModel {
        match op {
            StoreOp::Create(rule) => self.create(rule),
            StoreOp::Update(id, rule) => self.update(id, rule),
            StoreOp::Delete(id) => self.delete(id),
        }
    }

    /// The store after the operations `ops`, first to last.
    pub open spec fn run(self, ops: Seq<StoreOp>) -> StoreModel
        decreases ops.len(),
    {
        if ops.len() == 0 {
            self
        } else {
            self.run(ops.drop_last()).apply(ops.last())
        }
    }
}

/// A slot of the store as a mathematical value.
pub open spec fn slot_model(slot: Option<Rule>) -> Option<RuleModel> {
    match slot {
        Some(rule) => Some(rule@),
        None => None,
    }
}

/// The rule store: every rule ever created, under the identifier it was
/// given. Identifiers count up from 0 and are never handed out twice; the
/// slot of a deleted rule stays behind as a tombstone.
pub struct Database {
    rules: Vec<Option<Rule>>,
}

impl View for Database {
    type V = StoreModel;

    closed spec fn view(&self) -> StoreModel {
        StoreModel { slots: self.rules@.map_values(|slot: Option<Rule>| slot_model(slot)) }
    }
}

impl Database {
    /// The invariant of the store: every active rule is valid, and no two
    /// active rules share protocol and source.
    pub open spec fn wf(&self) -> bool {
        self@.wf()
    }

    /// An empty store.
    pub fn new() -> (database: Database)
        ensures
            database@.slots == Seq::<Option<RuleModel>>::empty(),
            database.wf(),
    {
        Database { rules: Vec::new() }
    }

    /// The identifier that the next successful create hands out.
    pub fn next_id(&self) -> (id: usize)
        ensures
            id == self@.next_id(),
    {
        self.rules.len()
    }

    /// Whether an active rule other than the one at `except` listens on the
    /// protocol and source of `rule`.
    fn conflicts(&self, rule: &Rule, except: Option<usize>) -> (found: bool)
        ensures
            found == self@.conflicts(
                rule@,
                match except {
                    Some(id) => id as int,
                    None => -1,
                },
            ),
    {
        let ghost skip: int = match except {
            Some(id) => id as int,
            None => -1,
        };
        let mut i: usize = 0;
        while i < self.rules.len()
            invariant
                i <= self.rules.len(),
                skip == match except {
                    Some(id) => id as int,
                    None => -1,
                },
                forall|other: int|
                    #![trigger self@.slots[other]]
                    0 <= other < i ==> !(self@.is_active(other) && other != skip
                        && self@.slots[other]->0.protocol == rule@.protocol
                        && self@.slots[other]->0.source == rule@.source),
            decreases self.rules.len() - i,
        {
            let excepted = match except {
                Some(id) => id == i,
                None => false,
            };
            if !excepted {
                match &self.rules[i] {
                    Some(other) => {
                        if other.protocol == rule.protocol && other.source == rule.source {
                            assert(self@.slots[i as int] == Some(other@));
                            return true;
                        }
                    },
                    None => {},
                }
            }
            i += 1;
        }
        false
    }

    /// Stores `rule` under a new identifier, the smallest never handed out,
    /// and answers it. A rule that is not valid, or that listens where
    /// another active rule already does, is refused and the store is left as
    /// it was.
    pub fn create_rule(&mut self, rule: Rule) -> (outcome: Result<usize, Error>)
        requires
            old(self).wf(),
        ensures
            final(self).wf(),
            final(self)@ == old(self)@.create(rule@),
            match outcome {
                Ok(id) => old(self)@.create_outcome(rule@) == Ok::<int, Error>(id as int),
                Err(error) => old(self)@.create_outcome(rule@) == Err::<int, Error>(error),
            },
    {
        if !rule.is_valid() || self.conflicts(&rule, None) {
            return Err(Error::InvariantViolated);
        }
        let id = self.rules.len();
        self.rules.push(Some(rule));
        proof {
            assert(self@.slots =~= old(self)@.slots.push(Some(rule@)));
        }
        Ok(id)
    }

    /// Deletes the rule at `id` and answers it. Its identifier is not handed
    /// out again. Answers `None`, and changes nothing, where `id` names no
    /// active rule.
    pub fn drop_rule(&mut self, id: usize) -> (removed: Option<Rule>)
        requires
            old(self).wf(),
        ensures
            final(self).wf(),
            final(self)@ == old(self)@.delete(id as int),
            slot_model(removed) == old(self)@.get(id as int),
    {
        if id >= self.rules.len() {
            return None;
        }
        let mut slot: Option<Rule> = None;
        core::mem::swap(&mut self.rules[id], &mut slot);
        proof {
            if slot is Some {
                assert(self@.slots =~= old(self)@.slots.update(id as int, None));
            } else {
                assert(self@.slots =~= old(self)@.slots);
            }
        }
        slot
    }

    /// Replaces the rule at `id` by `rule` and answers the rule that was
    /// there. Answers `NotFound` where `id` names no active rule, and
    /// `InvariantViolated` where `rule` is not valid or listens where another
    /// active rule already does; the store is then left as it was.
    pub fn update_rule(&mut self, id: usize, rule: Rule) -> (outcome: Result<Rule, Error>)
        requires
            old(self).wf(),
        ensures
            final(self).wf(),
            final(self)@ == old(self)@.update(id as int, rule@),
            match outcome {
                Ok(previous) => old(self)@.update_outcome(id as int, rule@) == Ok::<
                    RuleModel,
                    Error,
                >(previous@),
                Err(error) => old(self)@.update_outcome(id as int, rule@) == Err::<
                    RuleModel,
                    Error,
                >(error),
            },
    {
        if id >= self.rules.len() || self.rules[id].is_none() {
            return Err(Error::NotFound);
        }
        if !rule.is_valid() || self.conflicts(&rule, Some(id)) {
            return Err(Error::InvariantViolated);
        }
        let mut slot: Option<Rule> = Some(rule);
        core::mem::swap(&mut self.rules[id], &mut slot);
        proof {
            assert(self@.slots =~= old(self)@.slots.update(id as int, Some(rule@)));
        }
        match slot {
            Some(previous) => Ok(previous),
            None => Err(Error::NotFound),
        }
    }

    /// The active rule at `id`, if there is one.
    pub fn get_rule(&self, id: usize) -> (found: Option<&Rule>)
        ensures
            match found {
                Some(rule) => self@.get(id as int) == Some(rule@),
                None => self@.get(id as int) is None,
            },
    {
        if id < self.rules.len() {
            self.rules[id].as_ref()
        } else {
            None
        }
    }

    /// The active rules with their identifiers, by ascending identifier.
    pub fn list_rules(&self) -> (listing: Vec<(usize, Rule)>)
        ensures
            listing@.len() == self@.list().len(),
            forall|k: int|
                0 <= k < listing@.len() ==> (#[trigger] listing@[k]).0 == self@.list()[k].0
                    && listing@[k].1@ == self@.list()[k].1,
    {
        let mut listing: Vec<(usize, Rule)> = Vec::new();
        let mut i: usize = 0;
        while i < self.rules.len()
            invariant
                i <= self.rules.len(),
                listing@.len() == (StoreModel { slots: self@.slots.take(i as int) }).list().len(),
                forall|k: int|
                    0 <= k < listing@.len() ==> (#[trigger] listing@[k]).0 == (StoreModel {
                        slots: self@.slots.take(i as int),
                    }).list()[k].0 && listing@[k].1@ == (StoreModel {
                        slots: self@.slots.take(i as int),
                    }).list()[k].1,
            decreases self.rules.len() - i,
        {
            proof {
                assert(self@.slots.take(i + 1).drop_last() =~= self@.slots.take(i as int));
            }
            match &self.rules[i] {
                Some(rule) => {
                    listing.push((i, rule.clone()));
                },
                None => {},
            }
            i += 1;
        }
        proof {
            assert(self@.slots.take(i as int) =~= self@.slots);
        }
        listing
    }
}

impl Default for Database {
    fn default() -> (database: Database)
        ensures
            database@.slots == Seq::<Option<RuleModel>>::empty(),
            database.wf(),
    {
        Database::new()
    }
}

/// A store that admits a rule is well-formed with the rule added.
pub proof fn lemma_create_keeps_wf(store: StoreModel, rule: RuleModel)
    requires
        store.wf(),
    ensures
        store.create(rule).wf(),
{
    let after = store.create(rule);
    if store.admits(rule, -1) {
        assert forall|a: int, b: int| after.is_active(a) && after.is_active(b) && a != b implies !((
        #[trigger] after.slots[a])->0.protocol == (#[trigger] after.slots[b])->0.protocol
            && after.slots[a]->0.source == after.slots[b]->0.source) by {
            if a == store.slots.len() {
                assert(store.is_active(b));
                assert(store.slots[b] == after.slots[b]);
            } else if b == store.slots.len() {
                assert(store.is_active(a));
                assert(store.slots[a] == after.slots[a]);
            } else {
                assert(store.is_active(a) && store.is_active(b));
                assert(store.slots[a] == after.slots[a]);
                assert(store.slots[b] == after.slots[b]);
            }
        }
        assert forall|id: int| after.is_active(id) implies (#[trigger] after.slots[id])->0.is_valid() by {
            if id < store.slots.len() {
                assert(store.is_active(id));
                assert(store.slots[id] == after.slots[id]);
            }
        }
    }
}

/// A well-formed store is well-formed after a delete.
pub proof fn lemma_delete_keeps_wf(store: StoreModel, id: int)
    requires
        store.wf(),
    ensures
        store.delete(id).wf(),
{
    let after = store.delete(id);
    if store.is_active(id) {
        assert forall|a: int, b: int| after.is_active(a) && after.is_active(b) && a != b implies !((
        #[trigger] after.slots[a])->0.protocol == (#[trigger] after.slots[b])->0.protocol
            && after.slots[a]->0.source == after.slots[b]->0.source) by {
            assert(store.is_active(a) && store.is_active(b));
            assert(store.slots[a] == after.slots[a]);
            assert(store.slots[b] == after.slots[b]);
        }
        assert forall|i: int| after.is_active(i) implies (#[trigger] after.slots[i])->0.is_valid() by {
            assert(store.is_active(i));
            assert(store.slots[i] == after.slots[i]);
        }
    }
}

/// A well-formed store is well-formed after an update.
pub proof fn lemma_update_keeps_wf(store: StoreModel, id: int, rule: RuleModel)
    requires
        store.wf(),
    ensures
        store.update(id, rule).wf(),
{
    let after = store.update(id, rule);
    if store.update_outcome(id, rule) is Ok {
        assert forall|a: int, b: int| after.is_active(a) && after.is_active(b) && a != b implies !((
        #[trigger] after.slots[a])->0.protocol == (#[trigger] after.slots[b])->0.protocol
            && after.slots[a]->0.source == after.slots[b]->0.source) by {
            assert(store.is_active(a) && store.is_active(b));
            if a == id {
                assert(store.slots[b] == after.slots[b]);
            } else if b == id {
                assert(store.slots[a] == after.slots[a]);
            } else {
                assert(store.slots[a] == after.slots[a]);
                assert(store.slots[b] == after.slots[b]);
            }
        }
        assert forall|i: int| after.is_active(i) implies (#[trigger] after.slots[i])->0.is_valid() by {
            assert(store.is_active(i));
            if i != id {
                assert(store.slots[i] == after.slots[i]);
            }
        }
    }
}

/// What the listing holds: entry `k` is an active rule under its identifier,
/// identifiers ascend strictly, and every active rule is listed at the place
/// `rank(id)`.
pub proof fn lemma_list_contents(store: StoreModel)
    ensures
        forall|k: int|
            0 <= k < store.list().len() ==> store.is_active((#[trigger] store.list()[k]).0)
                && store.slots[store.list()[k].0] == Some(store.list()[k].1),
        forall|j: int, k: int|
            0 <= j < k < store.list().len() ==> (#[trigger] store.list()[j]).0 < (
            #[trigger] store.list()[k]).0,
        forall|id: int|
            store.is_active(id) ==> 0 <= (#[trigger] store.rank(id)) < store.list().len()
                && store.list()[store.rank(id)] == (id, store.slots[id]->0),
        store.list().len() == store.rank(store.next_id()),
    decreases store.slots.len(),
{
    if store.slots.len() > 0 {
        let before = StoreModel { slots: store.slots.drop_last() };
        lemma_list_contents(before);
        let last = store.slots.len() - 1;
        assert forall|id: int| 0 <= id <= last implies #[trigger] store.rank(id) == before.rank(
            id,
        ) by {
            lemma_rank_prefix(store, before, id);
        }
        assert forall|k: int| 0 <= k < store.list().len() implies store.is_active(
            (#[trigger] store.list()[k]).0,
        ) && store.slots[store.list()[k].0] == Some(store.list()[k].1) by {
            if k < before.list().len() {
                assert(before.is_active(before.list()[k].0));
            }
        }
        assert forall|j: int, k: int| 0 <= j < k < store.list().len() implies (
        #[trigger] store.list()[j]).0 < (#[trigger] store.list()[k]).0 by {
            assert(before.is_active(before.list()[j].0));
            if k < before.list().len() {
                assert(before.is_active(before.list()[k].0));
            }
        }
        assert forall|id: int| store.is_active(id) implies 0 <= (#[trigger] store.rank(id))
            < store.list().len() && store.list()[store.rank(id)] == (id, store.slots[id]->0) by {
            if id < last {
                assert(before.is_active(id));
            }
        }
        assert(store.rank(store.next_id()) == store.rank(last) + if store.slots[last] is Some {
            1int
        } else {
            0int
        });
    }
}

/// The rank of an identifier depends only on the slots below it.
proof fn lemma_rank_prefix(store: StoreModel, before: StoreModel, id: int)
    requires
        0 <= id <= before.slots.len() <= store.slots.len(),
        before.slots == store.slots.take(before.slots.len() as int),
    ensures
        store.rank(id) == before.rank(id),
    decreases id,
{
    if id > 0 {
        lemma_rank_prefix(store, before, id - 1);
    }
}

/// No operation takes an identifier back: the next identifier never falls,
/// and a slot that is empty stays empty.
pub proof fn lemma_run_keeps_tombstones(store: StoreModel, ops: Seq<StoreOp>)
    ensures
        store.run(ops).next_id() >= store.next_id(),
        forall|id: int|
            0 <= id < store.next_id() && !store.is_active(id) ==> !(#[trigger] store.run(
                ops,
            ).is_active(id)),
    decreases ops.len(),
{
    if ops.len() > 0 {
        lemma_run_keeps_tombstones(store, ops.drop_last());
        let before = store.run(ops.drop_last());
        let after = before.apply(ops.last());
        assert(after == store.run(ops));
        assert forall|id: int| 0 <= id < store.next_id() && !store.is_active(id) implies !(
        #[trigger] store.run(ops).is_active(id)) by {
            assert(!before.is_active(id));
            assert(0 <= id < before.slots.len());
            assert(before.slots[id] is None);
            match ops.last() {
                StoreOp::Create(rule) => {},
                StoreOp::Update(at, rule) => {},
                StoreOp::Delete(at) => {},
            }
        }
    }
}

/// A well-formed store stays well-formed under every operation.
pub proof fn lemma_run_keeps_wf(store: StoreModel, ops: Seq<StoreOp>)
    requires
        store.wf(),
    ensures
        store.run(ops).wf(),
    decreases ops.len(),
{
    if ops.len() > 0 {
        lemma_run_keeps_wf(store, ops.drop_last());
        let before = store.run(ops.drop_last());
        match ops.last() {
            StoreOp::Create(rule) => lemma_create_keeps_wf(before, rule),
            StoreOp::Update(id, rule) => lemma_update_keeps_wf(before, id, rule),
            StoreOp::Delete(id) => lemma_delete_keeps_wf(before, id),
        }
    }
}

/// Identifiers are strictly monotonic: a rule created after another one,
/// whatever happened to the store in between, has the greater identifier.
pub proof fn law_ids_strictly_increase(
    store: StoreModel,
    first: RuleModel,
    between: Seq<StoreOp>,
    second: RuleModel,
)
    requires
        store.create_outcome(first) is Ok,
        store.create(first).run(between).create_outcome(second) is Ok,
    ensures
        store.create_outcome(first)->Ok_0 < store.create(first).run(between).create_outcome(
            second,
        )->Ok_0,
{
    lemma_run_keeps_tombstones(store.create(first), between);
}

/// Every rule in a store that started empty is valid: it has at least one
/// destination, and where its protocol is TCP its mode is round-robin.
pub proof fn law_stored_rules_are_valid(ops: Seq<StoreOp>, id: int)
    requires
        (StoreModel { slots: Seq::empty() }).run(ops).is_active(id),
    ensures
        (StoreModel { slots: Seq::empty() }).run(ops).get(id)->0.destinations.len() >= 1,
        (StoreModel { slots: Seq::empty() }).run(ops).get(id)->0.protocol == Protocol::Tcp ==> (
        StoreModel { slots: Seq::empty() }).run(ops).get(id)->0.mode == Mode::RoundRobin,
{
    let empty = StoreModel { slots: Seq::empty() };
    lemma_run_keeps_wf(empty, ops);
    let after = empty.run(ops);
    assert(after.slots[id]->0.is_valid());
}

/// A deleted identifier stays deleted: whatever is done to the store after
/// the delete, `get` finds nothing under it, the listing does not hold it, an
/// update of it answers not-found, and another delete of it finds nothing
/// and changes nothing.
pub proof fn law_deleted_stays_deleted(store: StoreModel, id: int, later: Seq<StoreOp>)
    requires
        store.is_active(id),
    ensures
        store.delete(id).run(later).get(id) is None,
        forall|k: int|
            0 <= k < store.delete(id).run(later).list().len() ==> (#[trigger] store.delete(id).run(
                later,
            ).list()[k]).0 != id,
        forall|rule: RuleModel|
            #[trigger] store.delete(id).run(later).update_outcome(id, rule) == Err::<
                RuleModel,
                Error,
            >(Error::NotFound),
        store.delete(id).run(later).delete(id) == store.delete(id).run(later),
{
    let deleted = store.delete(id);
    assert(!deleted.is_active(id));
    lemma_run_keeps_tombstones(deleted, later);
    let after = deleted.run(later);
    assert(!after.is_active(id));
    lemma_list_contents(after);
}

} // verus!
