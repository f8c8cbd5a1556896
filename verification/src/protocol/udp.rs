//! The UDP session: bind one datagram socket, read packets, and send each
//! one to the destinations that the strategy selects.

use vstd::prelude::*;
use crate::endpoint::Endpoint;
use crate::protocol::{Error, Exit};
use crate::rules::Rule;
use crate::strategy::{Strategy, StrategyModel};

verus! {

/// Size of the receive buffer in bytes. A datagram that is longer arrives
/// cut to this size.
pub const BUFFER_SIZE: usize = 1500;

/// Where a UDP session stands.
#[derive(Clone, Copy, Debug, PartialEq, Eq, Hash, Structural)]
pub enum UdpState {
    /// The source socket is being bound.
    Binding,
    /// The socket is bound and the session waits for a datagram.
    Receiving,
    /// A datagram is being sent to its destinations, one after the other.
    Dispatching,
    /// The session is over.
    Terminated,
}

/// What the driver reports to a UDP session.
#[derive(Clone, Copy, Debug, PartialEq, Eq, Hash, Structural)]
pub enum UdpEvent {
    /// The source socket is bound.
    Bound,
    /// The source socket could not be bound.
    BindFailed,
    /// A datagram of this many bytes is in the buffer.
    Received(usize),
    /// The receive failed; nothing is in the buffer.
    ReceiveFailed,
    /// The datagram went out to the destination asked for.
    Sent,
    /// The datagram could not be sent to the destination asked for.
    SendFailed,
    /// The session is to stop.
    Cancelled,
}

/// What a UDP session asks the driver to do next.
#[derive(Clone, Copy, Debug, PartialEq, Eq, Hash, Structural)]
pub enum UdpAction {
    /// Bind the datagram socket to this endpoint.
    Bind(Endpoint),
    /// Receive one datagram into a buffer of this many bytes.
    Receive(usize),
    /// Send the first `length` bytes of the buffer to `to`.
    Send { to: Endpoint, length: usize },
    /// Close the socket; the session has ended this way.
    Stop(Exit),
}

/// A UDP session as a mathematical value.
pub struct UdpModel {
    pub source: Endpoint,
    pub strategy: StrategyModel,
    pub state: UdpState,
    /// The destinations that the datagram in the buffer has still to go to;
    /// the first of them is the one being sent to.
    pub pending: Seq<Endpoint>,
    /// The size of the datagram in the buffer.
    pub length: int,
    /// How the session ended, once it is over.
    pub exit: Exit,
}

impl UdpModel {
    /// A session that is dispatching has a destination to send to, and only
    /// such a session has destinations pending.
    pub open spec fn wf(self) -> bool {
        &&& self.strategy.wf()
        &&& self.state == UdpState::Dispatching <==> self.pending.len() >= 1
        &&& 0 <= self.length <= BUFFER_SIZE
    }

    /// A session for `source` that has not bound its socket yet.
    pub open spec fn initial(source: Endpoint, strategy: StrategyModel) -> UdpModel {
        UdpModel {
            source,
            strategy,
            state: UdpState::Binding,
            pending: Seq::empty(),
            length: 0,
            exit: Exit::Clean,
        }
    }

    /// The session, ended.
    pub open spec fn terminated(self, exit: Exit) -> UdpModel {
        UdpModel { state: UdpState::Terminated, pending: Seq::empty(), exit, ..self }
    }

    /// The session once a datagram of `size` bytes has arrived: an empty
    /// datagram ends it; any other is cut to the buffer and goes to the
    /// destinations that the strategy selects, which advances the strategy.
    pub open spec fn received(self, size: int) -> UdpModel {
        if size == 0 {
            self.terminated(Exit::Clean)
        } else if self.strategy.selected().len() == 0 {
            UdpModel { strategy: self.strategy.advance(), ..self }
        } else {
            UdpModel {
                strategy: self.strategy.advance(),
                state: UdpState::Dispatching,
                pending: self.strategy.selected(),
                length: if size <= BUFFER_SIZE {
                    size
                } else {
                    BUFFER_SIZE as int
                },
                ..self
            }
        }
    }

    /// The session once the send in flight is over, whether it went well or
    /// not: on to the next destination, or back to receiving after the last.
    pub open spec fn served(self) -> UdpModel {
        if self.pending.len() > 1 {
            UdpModel { pending: self.pending.drop_first(), ..self }
        } else {
            UdpModel { state: UdpState::Receiving, pending: Seq::empty(), ..self }
        }
    }

    /// The session after `event`. A cancellation ends it wherever it stands;
    /// a failed bind ends it with an error; a failed receive or send is
    /// passed over; an event that the state does not wait for changes
    /// nothing; a session that is over stays as it is.
    pub open spec fn next(self, event: UdpEvent) -> UdpModel {
        match (self.state, event) {
            (UdpState::Terminated, _) => self,
            (_, UdpEvent::Cancelled) => self.terminated(Exit::Clean),
            (UdpState::Binding, UdpEvent::Bound) => UdpModel { state: UdpState::Receiving, ..self },
            (UdpState::Binding, UdpEvent::BindFailed) => self.terminated(Exit::Failed(Error::Bind)),
            (UdpState::Receiving, UdpEvent::Received(size)) => self.received(size as int),
            (UdpState::Dispatching, UdpEvent::Sent) => self.served(),
            (UdpState::Dispatching, UdpEvent::SendFailed) => self.served(),
            _ => self,
        }
    }

    /// What the session waits for the driver to do.
    pub open spec fn action(self) -> UdpAction {
        match self.state {
            UdpState::Binding => UdpAction::Bind(self.source),
            UdpState::Receiving => UdpAction::Receive(BUFFER_SIZE),
            UdpState::Dispatching => UdpAction::Send {
                to: self.pending[0],
                length: self.length as usize,
            },
            UdpState::Terminated => UdpAction::Stop(self.exit),
        }
    }

    /// The session after the events `events`, first to last.
    pub open spec fn run(self, events: Seq<UdpEvent>) -> UdpModel
        decreases events.len(),
    {
        if events.len() == 0 {
            self
        } else {
            self.run(events.drop_last()).next(events.last())
        }
    }
}

/// A UDP session: listens on one socket and sends the packets on to one or
/// more other sockets.
pub struct UdpSession {
    source: Endpoint,
    strategy: Strategy,
    state: UdpState,
    /// Destinations of the datagram in the buffer; those before `position`
    /// have been served.
    selected: Vec<Endpoint>,
    position: usize,
    length: usize,
    exit: Exit,
}

impl View for UdpSession {
    type V = UdpModel;

    closed spec fn view(&self) -> UdpModel {
        UdpModel {
            source: self.source,
            strategy: self.strategy@,
            state: self.state,
            pending: if self.state == UdpState::Dispatching {
                self.selected@.skip(self.position as int)
            } else {
                Seq::empty()
            },
            length: self.length as int,
            exit: self.exit,
        }
    }
}

impl UdpSession {
    /// The invariant of the session.
    pub closed spec fn wf(&self) -> bool {
        &&& self@.wf()
        &&& self.position <= self.selected.len()
    }

    /// A session for `rule` that forwards by `strategy`. It has not bound
    /// its socket yet.
    pub fn new(rule: &Rule, strategy: Strategy) -> (session: UdpSession)
        requires
            strategy@.wf(),
        ensures
            session.wf(),
            session@ == UdpModel::initial(rule@.source, strategy@),
    {
        UdpSession {
            source: rule.source,
            strategy,
            state: UdpState::Binding,
            selected: Vec::new(),
            position: 0,
            length: 0,
            exit: Exit::Clean,
        }
    }

    /// What the session waits for the driver to do. For a new session that
    /// is to bind its socket.
    pub fn start(&self) -> (action: UdpAction)
        requires
            self.wf(),
        ensures
            action == self@.action(),
    {
        match self.state {
            UdpState::Binding => UdpAction::Bind(self.source),
            UdpState::Receiving => UdpAction::Receive(BUFFER_SIZE),
            UdpState::Dispatching => UdpAction::Send {
                to: self.selected[self.position],
                length: self.length,
            },
            UdpState::Terminated => UdpAction::Stop(self.exit),
        }
    }

    /// Takes in what the driver reports and answers what it is to do next.
    pub fn step(&mut self, event: UdpEvent) -> (action: UdpAction)
        requires
            old(self).wf(),
        ensures
            final(self).wf(),
            final(self)@ == old(self)@.next(event),
            action == final(self)@.action(),
    {
        match (self.state, event) {
            (UdpState::Terminated, _) => {},
            (_, UdpEvent::Cancelled) => {
                self.state = UdpState::Terminated;
                self.exit = Exit::Clean;
            },
            (UdpState::Binding, UdpEvent::Bound) => {
                self.state = UdpState::Receiving;
            },
            (UdpState::Binding, UdpEvent::BindFailed) => {
                self.state = UdpState::Terminated;
                self.exit = Exit::Failed(Error::Bind);
            },
            (UdpState::Receiving, UdpEvent::Received(size)) => {
                if size == 0 {
                    self.state = UdpState::Terminated;
                    self.exit = Exit::Clean;
                } else {
                    let selected = self.strategy.destinations();
                    if selected.len() > 0 {
                        self.selected = selected;
                        self.position = 0;
                        self.length = if size <= BUFFER_SIZE {
                            size
                        } else {
                            BUFFER_SIZE
                        };
                        self.state = UdpState::Dispatching;
                        assert(self.selected@.skip(0) =~= self.selected@);
                    }
                }
            },
            (UdpState::Dispatching, UdpEvent::Sent) | (UdpState::Dispatching, UdpEvent::SendFailed) => {
                if self.position + 1 < self.selected.len() {
                    self.position = self.position + 1;
                    assert(self.selected@.skip(self.position as int) =~= old(self)@.pending.drop_first());
                } else {
                    self.state = UdpState::Receiving;
                }
            },
            _ => {},
        }
        self.start()
    }

    /// Where the session stands.
    pub fn state(&self) -> (state: UdpState)
        ensures
            state == self@.state,
    {
        self.state
    }
}

/// The length that a datagram of `size` bytes has in the buffer.
pub open spec fn buffered(size: usize) -> usize {
    if size <= BUFFER_SIZE {
        size
    } else {
        BUFFER_SIZE
    }
}

/// Whether `replies` are answers to sends, good or bad.
pub open spec fn are_send_replies(replies: Seq<UdpEvent>) -> bool {
    forall|i: int|
        0 <= i < replies.len() ==> (#[trigger] replies[i]) == UdpEvent::Sent || replies[i]
            == UdpEvent::SendFailed
}

/// While a datagram is on its way out, the session has served the first
/// `done` of its destinations and is sending to the next.
proof fn lemma_dispatch_progress(session: UdpModel, size: usize, replies: Seq<UdpEvent>, done: int)
    requires
        session.wf(),
        session.state == UdpState::Receiving,
        size > 0,
        are_send_replies(replies),
        0 <= done <= replies.len(),
        done < session.strategy.selected().len(),
    ensures
        session.run(seq![UdpEvent::Received(size)] + replies.take(done)) == (UdpModel {
            strategy: session.strategy.advance(),
            state: UdpState::Dispatching,
            pending: session.strategy.selected().skip(done),
            length: buffered(size) as int,
            ..session
        }),
    decreases done,
{
    let events = seq![UdpEvent::Received(size)] + replies.take(done);
    if done == 0 {
        assert(events =~= seq![UdpEvent::Received(size)]);
        assert(events.drop_last() =~= Seq::<UdpEvent>::empty());
        assert(session.run(events.drop_last()) == session);
        assert(session.strategy.selected().skip(0) =~= session.strategy.selected());
    } else {
        lemma_dispatch_progress(session, size, replies, done - 1);
        assert(events.drop_last() =~= seq![UdpEvent::Received(size)] + replies.take(done - 1));
        assert(events.last() == replies[done - 1]);
        let before = session.run(events.drop_last());
        assert(before.pending.len() > 1);
        assert(before.pending.drop_first() =~= session.strategy.selected().skip(done));
    }
}

/// A datagram goes to every destination that the strategy selects for it,
/// exactly once and in list order, whether the sends before went well or
/// not: after the datagram has arrived and `k` sends have been answered, the
/// session asks for the send to destination number `k`; after the last
/// answer it asks for the next datagram, and the strategy has advanced once.
pub proof fn law_fan_out_in_order(session: UdpModel, size: usize, replies: Seq<UdpEvent>)
    requires
        session.wf(),
        session.state == UdpState::Receiving,
        size > 0,
        are_send_replies(replies),
        replies.len() == session.strategy.selected().len(),
    ensures
        forall|k: int|
            0 <= k < replies.len() ==> session.run(
                seq![UdpEvent::Received(size)] + #[trigger] replies.take(k),
            ).action() == (UdpAction::Send {
                to: session.strategy.selected()[k],
                length: buffered(size),
            }),
        session.run(seq![UdpEvent::Received(size)] + replies).state == UdpState::Receiving,
        session.run(seq![UdpEvent::Received(size)] + replies).strategy
            == session.strategy.advance(),
        session.run(seq![UdpEvent::Received(size)] + replies).action() == UdpAction::Receive(
            BUFFER_SIZE,
        ),
        session.run(seq![UdpEvent::Received(size)] + replies).wf(),
{
    assert forall|k: int| 0 <= k < replies.len() implies session.run(
        seq![UdpEvent::Received(size)] + #[trigger] replies.take(k),
    ).action() == (UdpAction::Send { to: session.strategy.selected()[k], length: buffered(size) }) by {
        lemma_dispatch_progress(session, size, replies, k);
    }
    let events = seq![UdpEvent::Received(size)] + replies;
    if replies.len() == 0 {
        assert(events =~= seq![UdpEvent::Received(size)]);
        assert(events.drop_last() =~= Seq::<UdpEvent>::empty());
        assert(session.run(events.drop_last()) == session);
        assert(session.pending =~= Seq::<Endpoint>::empty());
    } else {
        let done = replies.len() - 1;
        lemma_dispatch_progress(session, size, replies, done);
        assert(events.drop_last() =~= seq![UdpEvent::Received(size)] + replies.take(done));
        assert(events.last() == replies[done]);
        let before = session.run(events.drop_last());
        assert(before.pending.len() == 1);
        assert(session.pending =~= Seq::<Endpoint>::empty());
    }
}

/// What the driver reports while `datagrams` datagrams of `size` bytes
/// arrive, each of which is sent on once.
pub open spec fn rounds(datagrams: nat, size: usize) -> Seq<UdpEvent>
    decreases datagrams,
{
    if datagrams == 0 {
        Seq::empty()
    } else {
        rounds((datagrams - 1) as nat, size).push(UdpEvent::Received(size)).push(UdpEvent::Sent)
    }
}

/// Under round-robin each datagram goes to exactly one destination, and the
/// datagrams take the destinations in turn: datagram number `k` (from 0)
/// that a receiving session takes in goes to the destination that the
/// strategy selects at its call `k`, and to no other.
pub proof fn law_round_robin_datagrams(session: UdpModel, datagrams: nat, size: usize)
    requires
        session.wf(),
        session.state == UdpState::Receiving,
        session.strategy.mode == crate::strategy::Mode::RoundRobin,
        size > 0,
    ensures
        session.run(rounds(datagrams, size)).state == UdpState::Receiving,
        session.run(rounds(datagrams, size)).strategy == session.strategy.advance_by(datagrams),
        session.run(rounds(datagrams, size)).wf(),
        session.run(rounds(datagrams, size)).next(UdpEvent::Received(size)).action() == (
        UdpAction::Send {
            to: session.strategy.peers[session.strategy.turn(datagrams)],
            length: buffered(size),
        }),
        session.run(rounds(datagrams, size)).next(UdpEvent::Received(size)).next(
            UdpEvent::Sent,
        ).action() == UdpAction::Receive(BUFFER_SIZE),
    decreases datagrams,
{
    crate::strategy::lemma_round_robin_cursor(session.strategy, datagrams);
    if datagrams > 0 {
        law_round_robin_datagrams(session, (datagrams - 1) as nat, size);
        let events = rounds(datagrams, size);
        let earlier = rounds((datagrams - 1) as nat, size);
        assert(events.drop_last() =~= earlier.push(UdpEvent::Received(size)));
        assert(events.drop_last().drop_last() =~= earlier);
        assert(events.drop_last().last() == UdpEvent::Received(size));
        assert(events.last() == UdpEvent::Sent);
        let before = session.run(earlier);
        let taken = before.next(UdpEvent::Received(size));
        assert(session.run(events.drop_last()) == taken);
        assert(session.run(events) == taken.next(UdpEvent::Sent));
        crate::strategy::lemma_advance_wf(before.strategy);
        crate::strategy::lemma_round_robin_cursor(session.strategy, (datagrams - 1) as nat);
        crate::strategy::lemma_advance_by_last(session.strategy, datagrams);
        assert(taken.pending =~= seq![before.strategy.selected()[0]]);
    } else {
        assert(session.pending.len() == 0);
    }
    let now = session.run(rounds(datagrams, size));
    let taken = now.next(UdpEvent::Received(size));
    assert(taken.pending.len() == 1);
}

} // verus!
