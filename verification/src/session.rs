//! The session manager: owns the rule store and knows which rules have a
//! running session. It decides; the driver spawns, cancels and waits.

use vstd::prelude::*;
use crate::config::{listen_address, Config, Web};
use crate::protocol::tcp::{TcpModel, TcpSession};
use crate::protocol::udp::{UdpModel, UdpSession};
pub use crate::rules::{Database, Protocol, Route, Rule};
use crate::rules::{RuleModel, StoreModel};
pub use crate::strategy::Mode;
use crate::strategy::{StrategyFactory, StrategyModel};

verus! {

/// What the manager tells the control plane.
#[derive(Clone, Copy, Debug, PartialEq, Eq, Hash, Structural)]
pub enum Action {
    Shutdown,
}

/// What can go wrong in the manager.
#[derive(Clone, Copy, Debug, PartialEq, Eq, Hash, Structural)]
pub enum Error {
    /// The shutdown event could not be delivered.
    ShutdownFailed,
}

/// Where the manager stands.
#[derive(Clone, Copy, Debug, PartialEq, Eq, Hash, Structural)]
pub enum Phase {
    /// Not started yet.
    Idle,
    /// Started: sessions run until all have ended or a shutdown arrives.
    Running,
    /// All sessions have ended or were cancelled.
    Stopped,
}

/// What a call of `shutdown` found.
#[derive(Clone, Copy, Debug, PartialEq, Eq, Hash, Structural)]
pub enum Shutdown {
    /// This is the first request: the event is to be delivered.
    Requested(Action),
    /// A shutdown was requested before; nothing is to be done.
    AlreadyRequested,
}

/// A session listens on a socket and processes what arrives there.
pub enum Session {
    Udp(UdpSession),
    Tcp(TcpSession),
}

/// A session to be spawned for the rule at `id`.
pub struct Launch {
    pub id: usize,
    pub session: Session,
}

/// The manager as a mathematical value.
pub struct ManagerModel {
    /// Where the control plane listens.
    pub addr: Web,
    pub store: StoreModel,
    /// For every identifier handed out, whether its rule has a session
    /// that runs.
    pub live: Seq<bool>,
    pub phase: Phase,
    /// Whether a shutdown was requested.
    pub requested: bool,
}

/// The identifiers below `live.len()` that are marked, ascending.
pub open spec fn marked(live: Seq<bool>) -> Seq<usize>
    decreases live.len(),
{
    if live.len() == 0 {
        Seq::empty()
    } else if live.last() {
        marked(live.drop_last()).push((live.len() - 1) as usize)
    } else {
        marked(live.drop_last())
    }
}

/// No identifier is marked.
pub open spec fn none_marked(live: Seq<bool>) -> bool {
    forall|id: int| 0 <= id < live.len() ==> !(#[trigger] live[id])
}

impl ManagerModel {
    /// The store is well-formed, and only active rules have a session.
    pub open spec fn wf(self) -> bool {
        &&& self.store.wf()
        &&& self.live.len() == self.store.slots.len()
        &&& self.live.len() <= usize::MAX
        &&& forall|id: int| 0 <= id < self.live.len() && #[trigger] self.live[id] ==> self.store.is_active(id)
    }

    /// A manager for a configuration, before any rule is added.
    pub open spec fn initial(addr: Web) -> ManagerModel {
        ManagerModel {
            addr,
            store: StoreModel { slots: Seq::empty() },
            live: Seq::empty(),
            phase: Phase::Idle,
            requested: false,
        }
    }

    /// The manager after an attempt to add `rule`: where the store takes
    /// the rule, it has a session from then on.
    pub open spec fn add_rule(self, rule: RuleModel) -> ManagerModel {
        if self.store.create_outcome(rule) is Ok {
            ManagerModel { store: self.store.create(rule), live: self.live.push(true), ..self }
        } else {
            self
        }
    }

    /// The manager after an attempt to remove the rule at `id`: its session
    /// is no longer counted, and the store has deleted the rule.
    pub open spec fn remove_rule(self, id: int) -> ManagerModel {
        if self.store.is_active(id) {
            ManagerModel { store: self.store.delete(id), live: self.live.update(id, false), ..self }
        } else {
            self
        }
    }

    /// The manager after the session of the rule at `id` has ended: once
    /// started, the manager stops with its last session.
    pub open spec fn session_exited(self, id: int) -> ManagerModel {
        let live = if 0 <= id < self.live.len() {
            self.live.update(id, false)
        } else {
            self.live
        };
        ManagerModel {
            live,
            phase: if self.phase == Phase::Running && none_marked(live) {
                Phase::Stopped
            } else {
                self.phase
            },
            ..self
        }
    }

    /// The manager after the shutdown event has arrived: no session is
    /// left, and the manager has stopped.
    pub open spec fn stop(self) -> ManagerModel {
        ManagerModel {
            live: Seq::new(self.live.len(), |id: int| false),
            phase: Phase::Stopped,
            ..self
        }
    }
}

/// The session that serves `rule`: a UDP or a TCP session by its protocol,
/// on its source, with the strategy of its mode over its destinations.
pub open spec fn session_for(rule: RuleModel, session: Session) -> bool {
    let strategy = StrategyModel { mode: rule.mode, peers: rule.destinations, cursor: 0 };
    match rule.protocol {
        Protocol::Udp => session matches Session::Udp(udp) && udp.wf() && udp@
            == UdpModel::initial(rule.source, strategy),
        Protocol::Tcp => session matches Session::Tcp(tcp) && tcp.wf() && tcp@
            == TcpModel::initial(rule.source, strategy),
    }
}

/// Session manager that handles the addition and removal of sessions as
/// well as answers requests for information about sessions.
pub struct Manager {
    requested: bool,
    /// Listen address of the control plane.
    addr: Web,
    database: Database,
    live: Vec<bool>,
    phase: Phase,
}

impl View for Manager {
    type V = ManagerModel;

    closed spec fn view(&self) -> ManagerModel {
        ManagerModel {
            addr: self.addr,
            store: self.database@,
            live: self.live@,
            phase: self.phase,
            requested: self.requested,
        }
    }
}

impl Manager {
    /// The invariant of the manager.
    pub open spec fn wf(&self) -> bool {
        self@.wf()
    }

    /// Create a new manager but do not start it.
    pub fn new(config: &Config) -> (manager: Manager)
        ensures
            manager.wf(),
            manager@ == ManagerModel::initial(listen_address(config@.web)),
    {
        Manager {
            requested: false,
            addr: config.listen(),
            database: Database::new(),
            live: Vec::new(),
            phase: Phase::Idle,
        }
    }

    /// The rule store.
    pub fn database(&self) -> (database: &Database)
        ensures
            database@ == self@.store,
            self.wf() ==> database.wf(),
    {
        &self.database
    }

    /// Adds a rule: the store checks it and gives it an identifier, and the
    /// answer is the session to spawn for it, which the manager counts as
    /// running from then on. A rule that the store refuses changes nothing.
    pub fn add_rule(&mut self, rule: Rule) -> (outcome: Result<Launch, crate::rules::Error>)
        requires
            old(self).wf(),
        ensures
            final(self).wf(),
            final(self)@ == old(self)@.add_rule(rule@),
            match outcome {
                Ok(launch) => old(self)@.store.create_outcome(rule@) == Ok::<
                    int,
                    crate::rules::Error,
                >(launch.id as int) && session_for(rule@, launch.session),
                Err(error) => old(self)@.store.create_outcome(rule@) == Err::<
                    int,
                    crate::rules::Error,
                >(error),
            },
    {
        let copy = rule.clone();
        match self.database.create_rule(rule) {
            Err(error) => Err(error),
            Ok(id) => {
                self.live.push(true);
                let strategy = StrategyFactory::make(&copy);
                let session = match copy.protocol {
                    Protocol::Udp => Session::Udp(UdpSession::new(&copy, strategy)),
                    Protocol::Tcp => Session::Tcp(TcpSession::new(copy.source, strategy)),
                };
                proof {
                    assert(self.live@.len() == self.live.len());
                }
                Ok(Launch { id, session })
            },
        }
    }

    /// Removes the rule at `id`: the store deletes it, and its session, which
    /// the driver is to cancel, is no longer counted. Answers the rule, or
    /// `NotFound`, with nothing changed, where `id` names no active rule.
    pub fn remove_rule(&mut self, id: usize) -> (outcome: Result<Rule, crate::rules::Error>)
        requires
            old(self).wf(),
        ensures
            final(self).wf(),
            final(self)@ == old(self)@.remove_rule(id as int),
            match outcome {
                Ok(rule) => old(self)@.store.get(id as int) == Some(rule@),
                Err(error) => old(self)@.store.get(id as int) is None && error
                    == crate::rules::Error::NotFound,
            },
    {
        match self.database.drop_rule(id) {
            None => Err(crate::rules::Error::NotFound),
            Some(rule) => {
                self.live.set(id, false);
                Ok(rule)
            },
        }
    }

    /// Replaces the rule at `id` in the store. The session that runs for the
    /// rule is left as it is.
    pub fn update_rule(&mut self, id: usize, rule: Rule) -> (outcome: Result<
        Rule,
        crate::rules::Error,
    >)
        requires
            old(self).wf(),
        ensures
            final(self).wf(),
            final(self)@ == (ManagerModel {
                store: old(self)@.store.update(id as int, rule@),
                ..old(self)@
            }),
            match outcome {
                Ok(previous) => old(self)@.store.update_outcome(id as int, rule@) == Ok::<
                    RuleModel,
                    crate::rules::Error,
                >(previous@),
                Err(error) => old(self)@.store.update_outcome(id as int, rule@) == Err::<
                    RuleModel,
                    crate::rules::Error,
                >(error),
            },
    {
        self.database.update_rule(id, rule)
    }

    /// Starts the manager. Answers where the control plane is to listen. A
    /// manager that was started before is left as it is, and the answer is
    /// `None`.
    pub fn start(&mut self) -> (serve: Option<Web>)
        requires
            old(self).wf(),
        ensures
            final(self).wf(),
            old(self)@.phase == Phase::Idle ==> final(self)@ == (ManagerModel {
                phase: Phase::Running,
                ..old(self)@
            }) && serve == Some(old(self)@.addr),
            old(self)@.phase != Phase::Idle ==> final(self)@ == old(self)@ && serve is None,
    {
        match self.phase {
            Phase::Idle => {
                self.phase = Phase::Running;
                Some(self.addr)
            },
            _ => None,
        }
    }

    /// Whether the manager, once started, has nothing left to wait for.
    pub fn is_done(&self) -> (done: bool)
        requires
            self.wf(),
        ensures
            done == (self@.phase == Phase::Stopped || (self@.phase == Phase::Running
                && none_marked(self@.live))),
    {
        match self.phase {
            Phase::Idle => false,
            Phase::Stopped => true,
            Phase::Running => !self.any_live(),
        }
    }

    /// Whether a session runs.
    fn any_live(&self) -> (any: bool)
        ensures
            any == !none_marked(self@.live),
    {
        let mut i: usize = 0;
        while i < self.live.len()
            invariant
                i <= self.live.len(),
                forall|id: int| 0 <= id < i ==> !(#[trigger] self@.live[id]),
            decreases self.live.len() - i,
        {
            if self.live[i] {
                return true;
            }
            i += 1;
        }
        false
    }

    /// Takes note that the session of the rule at `id` has ended. Answers
    /// whether the manager has stopped with it: once started, it stops with
    /// its last session.
    pub fn session_exited(&mut self, id: usize) -> (stopped: bool)
        requires
            old(self).wf(),
        ensures
            final(self).wf(),
            final(self)@ == old(self)@.session_exited(id as int),
            stopped == (final(self)@.phase == Phase::Stopped),
    {
        if id < self.live.len() {
            self.live.set(id, false);
        }
        match self.phase {
            Phase::Running => {
                if !self.any_live() {
                    self.phase = Phase::Stopped;
                }
            },
            _ => {},
        }
        match self.phase {
            Phase::Stopped => true,
            _ => false,
        }
    }

    /// Asks for a shutdown. The first call answers the event to deliver to
    /// the running manager; every later call answers that a shutdown was
    /// requested already, which is no error.
    pub fn shutdown(&mut self) -> (found: Shutdown)
        ensures
            final(self)@ == (ManagerModel { requested: true, ..old(self)@ }),
            found == if old(self)@.requested {
                Shutdown::AlreadyRequested
            } else {
                Shutdown::Requested(Action::Shutdown)
            },
    {
        if self.requested {
            Shutdown::AlreadyRequested
        } else {
            self.requested = true;
            Shutdown::Requested(Action::Shutdown)
        }
    }

    /// What a request for shutdown comes to, given whether its event could be
    /// delivered.
    pub fn delivery(delivered: bool) -> (outcome: Result<(), Error>)
        ensures
            outcome == if delivered {
                Ok::<(), Error>(())
            } else {
                Err::<(), Error>(Error::ShutdownFailed)
            },
    {
        if delivered {
            Ok(())
        } else {
            Err(Error::ShutdownFailed)
        }
    }

    /// Takes in the shutdown event: answers the rules whose sessions are to
    /// be cancelled, which are all that run, by ascending identifier, and
    /// stops the manager.
    pub fn stop(&mut self) -> (cancel: Vec<usize>)
        requires
            old(self).wf(),
        ensures
            final(self).wf(),
            final(self)@ == old(self)@.stop(),
            cancel@ == marked(old(self)@.live),
    {
        let mut cancel: Vec<usize> = Vec::new();
        let mut i: usize = 0;
        while i < self.live.len()
            invariant
                i <= self.live.len(),
                self.live.len() == old(self).live.len(),
                self.database == old(self).database,
                self.addr == old(self).addr,
                self.requested == old(self).requested,
                self.phase == old(self).phase,
                cancel@ == marked(old(self)@.live.take(i as int)),
                forall|id: int| 0 <= id < i ==> !(#[trigger] self.live@[id]),
                forall|id: int| i <= id < self.live.len() ==> self.live@[id] == old(self).live@[id],
            decreases self.live.len() - i,
        {
            proof {
                assert(old(self)@.live.take(i + 1).drop_last() =~= old(self)@.live.take(i as int));
            }
            if self.live[i] {
                cancel.push(i);
                self.live.set(i, false);
            }
            i += 1;
        }
        self.phase = Phase::Stopped;
        proof {
            assert(old(self)@.live.take(i as int) =~= old(self)@.live);
            assert(self@.live =~= old(self)@.stop().live);
        }
        cancel
    }
}

/// What `marked` holds: every identifier in it is marked, they ascend, and
/// every marked identifier is in it.
pub proof fn lemma_marked(live: Seq<bool>)
    requires
        live.len() <= usize::MAX,
    ensures
        forall|k: int|
            0 <= k < marked(live).len() ==> (#[trigger] marked(live)[k]) < live.len()
                && live[marked(live)[k] as int],
        forall|j: int, k: int|
            0 <= j < k < marked(live).len() ==> (#[trigger] marked(live)[j]) < (
            #[trigger] marked(live)[k]),
        forall|id: int|
            0 <= id < live.len() && #[trigger] live[id] ==> marked(live).contains(id as usize),
        none_marked(live) <==> marked(live).len() == 0,
    decreases live.len(),
{
    if live.len() > 0 {
        let before = live.drop_last();
        lemma_marked(before);
        let last = live.len() - 1;
        assert forall|id: int| 0 <= id < live.len() && #[trigger] live[id] implies marked(
            live,
        ).contains(id as usize) by {
            if id < last {
                assert(before[id]);
                let k = choose|k: int| 0 <= k < marked(before).len() && marked(before)[k] == id as usize;
                assert(marked(live)[k] == id as usize);
            } else {
                assert(marked(live)[marked(live).len() - 1] == id as usize);
            }
        }
        assert forall|k: int| 0 <= k < marked(live).len() implies (#[trigger] marked(live)[k])
            < live.len() && live[marked(live)[k] as int] by {
            if k < marked(before).len() {
                assert(marked(live)[k] == marked(before)[k]);
                assert(before[marked(before)[k] as int]);
            }
        }
        assert forall|j: int, k: int| 0 <= j < k < marked(live).len() implies (
        #[trigger] marked(live)[j]) < (#[trigger] marked(live)[k]) by {
            assert(marked(live)[j] == marked(before)[j]);
            if k < marked(before).len() {
                assert(marked(live)[k] == marked(before)[k]);
            }
        }
        if none_marked(live) {
            assert forall|id: int| 0 <= id < before.len() implies !(#[trigger] before[id]) by {
                assert(!live[id]);
            }
            assert(!live[last]);
        }
        if marked(live).len() == 0 {
            assert forall|id: int| 0 <= id < live.len() implies !(#[trigger] live[id]) by {
                if live[id] {
                    assert(marked(live).contains(id as usize));
                }
            }
        }
    }
}

/// A shutdown cancels every session that runs and leaves none: the
/// identifiers that `stop` answers are those of the sessions that ran, each
/// once, and after it no session is counted as running and the manager has
/// stopped, with its rules as they were.
pub proof fn law_shutdown_cancels_all(manager: ManagerModel)
    requires
        manager.wf(),
    ensures
        forall|id: int|
            0 <= id < manager.live.len() && #[trigger] manager.live[id] ==> marked(
                manager.live,
            ).contains(id as usize),
        forall|k: int|
            0 <= k < marked(manager.live).len() ==> manager.live[(#[trigger] marked(
                manager.live,
            )[k]) as int],
        marked(manager.live).no_duplicates(),
        none_marked(manager.stop().live),
        manager.stop().phase == Phase::Stopped,
        manager.stop().store == manager.store,
        manager.stop().wf(),
{
    lemma_marked(manager.live);
}

/// Only the first request for a shutdown is delivered: once one was made,
/// none of the manager's operations forgets it.
pub proof fn law_shutdown_is_remembered(manager: ManagerModel, rule: RuleModel, id: int)
    requires
        manager.requested,
    ensures
        manager.add_rule(rule).requested,
        manager.remove_rule(id).requested,
        manager.session_exited(id).requested,
        manager.stop().requested,
{
}

} // verus!
