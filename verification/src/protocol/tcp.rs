//! The TCP session: bind a listener, and for each connection that comes in
//! dial the one destination that the strategy selects and splice the two
//! streams until both directions have ended.

use vstd::prelude::*;
use crate::endpoint::Endpoint;
use crate::protocol::{Error, Exit};
use crate::strategy::{Mode, Strategy, StrategyModel};

verus! {

/// Where a TCP listener stands.
#[derive(Clone, Copy, Debug, PartialEq, Eq, Hash, Structural)]
pub enum TcpState {
    /// The listener is being bound.
    Binding,
    /// The listener waits for a connection.
    Accepting,
    /// A connection has come in and is being handed to its destination.
    Forwarding,
    /// The session is over.
    Terminated,
}

/// What the driver reports to a TCP session.
#[derive(Clone, Copy, Debug, PartialEq, Eq, Hash, Structural)]
pub enum TcpEvent {
    /// The listener is bound.
    Bound,
    /// The listener could not be bound.
    BindFailed,
    /// A connection has come in.
    Accepted,
    /// The accept failed. A failure that is not fatal is one that the
    /// system may recover from, such as a passing lack of resources.
    AcceptFailed { fatal: bool },
    /// The connection that came in has its own transfer now.
    Forwarded,
    /// The session is to stop.
    Cancelled,
}

/// What a TCP session asks the driver to do next.
#[derive(Clone, Copy, Debug, PartialEq, Eq, Hash, Structural)]
pub enum TcpAction {
    /// Bind the listener to this endpoint.
    Bind(Endpoint),
    /// Wait for the next connection.
    Accept,
    /// Start a transfer between the connection that came in and `to`.
    Forward { to: Endpoint },
    /// Close the listener; the session has ended this way.
    Stop(Exit),
}

/// A TCP session as a mathematical value.
pub struct TcpModel {
    pub source: Endpoint,
    pub strategy: StrategyModel,
    pub state: TcpState,
    /// The destination of the connection that is being forwarded.
    pub target: Endpoint,
    /// How the session ended, once it is over.
    pub exit: Exit,
}

impl TcpModel {
    /// The strategy of a TCP session is round-robin, so that it selects one
    /// destination for each connection.
    pub open spec fn wf(self) -> bool {
        self.strategy.wf() && self.strategy.mode == Mode::RoundRobin
    }

    /// A session for `source` that has not bound its listener yet.
    pub open spec fn initial(source: Endpoint, strategy: StrategyModel) -> TcpModel {
        TcpModel { source, strategy, state: TcpState::Binding, target: source, exit: Exit::Clean }
    }

    /// The session, ended.
    pub open spec fn terminated(self, exit: Exit) -> TcpModel {
        TcpModel { state: TcpState::Terminated, exit, ..self }
    }

    /// The session after `event`. A cancellation ends it wherever it stands;
    /// a failed bind and a fatal failure to accept end it with an error; any
    /// other failure to accept is passed over; each connection goes to the
    /// one destination that the strategy selects, which advances the
    /// strategy; an event that the state does not wait for changes nothing;
    /// a session that is over stays as it is.
    pub open spec fn next(self, event: TcpEvent) -> TcpModel {
        match (self.state, event) {
            (TcpState::Terminated, _) => self,
            (_, TcpEvent::Cancelled) => self.terminated(Exit::Clean),
            (TcpState::Binding, TcpEvent::Bound) => TcpModel { state: TcpState::Accepting, ..self },
            (TcpState::Binding, TcpEvent::BindFailed) => self.terminated(Exit::Failed(Error::Bind)),
            (TcpState::Accepting, TcpEvent::Accepted) => TcpModel {
                state: TcpState::Forwarding,
                target: self.strategy.selected()[0],
                strategy: self.strategy.advance(),
                ..self
            },
            (TcpState::Accepting, TcpEvent::AcceptFailed { fatal }) => if fatal {
                self.terminated(Exit::Failed(Error::Accept))
            } else {
                self
            },
            (TcpState::Forwarding, TcpEvent::Forwarded) => TcpModel {
                state: TcpState::Accepting,
                ..self
            },
            _ => self,
        }
    }

    /// What the session waits for the driver to do.
    pub open spec fn action(self) -> TcpAction {
        match self.state {
            TcpState::Binding => TcpAction::Bind(self.source),
            TcpState::Accepting => TcpAction::Accept,
            TcpState::Forwarding => TcpAction::Forward { to: self.target },
            TcpState::Terminated => TcpAction::Stop(self.exit),
        }
    }

    /// The session after the events `events`, first to last.
    pub open spec fn run(self, events: Seq<TcpEvent>) -> TcpModel
        decreases events.len(),
    {
        if events.len() == 0 {
            self
        } else {
            self.run(events.drop_last()).next(events.last())
        }
    }
}

/// A TCP session: listens for connections on one socket and connects each
/// of them to one destination.
pub struct TcpSession {
    source: Endpoint,
    strategy: Strategy,
    state: TcpState,
    target: Endpoint,
    exit: Exit,
}

impl View for TcpSession {
    type V = TcpModel;

    closed spec fn view(&self) -> TcpModel {
        TcpModel {
            source: self.source,
            strategy: self.strategy@,
            state: self.state,
            target: self.target,
            exit: self.exit,
        }
    }
}

impl TcpSession {
    /// The invariant of the session.
    pub closed spec fn wf(&self) -> bool {
        self@.wf()
    }

    /// A session that listens on `source` and forwards by `strategy`, which
    /// must select one destination at a time. It has not bound its listener
    /// yet.
    pub fn new(source: Endpoint, strategy: Strategy) -> (session: TcpSession)
        requires
            strategy@.wf(),
            strategy@.mode == Mode::RoundRobin,
        ensures
            session.wf(),
            session@ == TcpModel::initial(source, strategy@),
    {
        TcpSession { source, strategy, state: TcpState::Binding, target: source, exit: Exit::Clean }
    }

    /// What the session waits for the driver to do. For a new session that
    /// is to bind its listener.
    pub fn run(&self) -> (action: TcpAction)
        requires
            self.wf(),
        ensures
            action == self@.action(),
    {
        match self.state {
            TcpState::Binding => TcpAction::Bind(self.source),
            TcpState::Accepting => TcpAction::Accept,
            TcpState::Forwarding => TcpAction::Forward { to: self.target },
            TcpState::Terminated => TcpAction::Stop(self.exit),
        }
    }

    /// Takes in what the driver reports and answers what it is to do next.
    pub fn step(&mut self, event: TcpEvent) -> (action: TcpAction)
        requires
            old(self).wf(),
        ensures
            final(self).wf(),
            final(self)@ == old(self)@.next(event),
            action == final(self)@.action(),
    {
        match (self.state, event) {
            (TcpState::Terminated, _) => {},
            (_, TcpEvent::Cancelled) => {
                self.state = TcpState::Terminated;
                self.exit = Exit::Clean;
            },
            (TcpState::Binding, TcpEvent::Bound) => {
                self.state = TcpState::Accepting;
            },
            (TcpState::Binding, TcpEvent::BindFailed) => {
                self.state = TcpState::Terminated;
                self.exit = Exit::Failed(Error::Bind);
            },
            (TcpState::Accepting, TcpEvent::Accepted) => {
                let selected = self.strategy.destinations();
                self.target = selected[0];
                self.state = TcpState::Forwarding;
            },
            (TcpState::Accepting, TcpEvent::AcceptFailed { fatal }) => {
                if fatal {
                    self.state = TcpState::Terminated;
                    self.exit = Exit::Failed(Error::Accept);
                }
            },
            (TcpState::Forwarding, TcpEvent::Forwarded) => {
                self.state = TcpState::Accepting;
            },
            _ => {},
        }
        self.run()
    }

    /// Where the session stands.
    pub fn state(&self) -> (state: TcpState)
        ensures
            state == self@.state,
    {
        self.state
    }
}

/// One end of a spliced connection.
#[derive(Clone, Copy, Debug, PartialEq, Eq, Hash, Structural)]
pub enum Side {
    /// The connection that came in.
    Client,
    /// The connection to the destination.
    Server,
}

impl Side {
    /// The other end.
    pub open spec fn other(self) -> Side {
        match self {
            Side::Client => Side::Server,
            Side::Server => Side::Client,
        }
    }

    /// The other end.
    pub fn opposite(self) -> (side: Side)
        ensures
            side == self.other(),
    {
        match self {
            Side::Client => Side::Server,
            Side::Server => Side::Client,
        }
    }
}

/// Where the transfer of one connection stands.
#[derive(Clone, Copy, Debug, PartialEq, Eq, Hash, Structural)]
pub enum TransferState {
    /// The destination is being dialled.
    Dialing,
    /// Both directions are open and copying.
    Splicing,
    /// The stream read from this side has ended, and the write side of the
    /// other socket is shut down; the other direction still copies.
    HalfClosed(Side),
    /// Both streams have ended; the stream read from this side ended last,
    /// and the write side of the other socket is being shut down.
    Closing(Side),
    /// Both sockets are closed.
    Closed,
}

/// What the driver reports to a transfer.
#[derive(Clone, Copy, Debug, PartialEq, Eq, Hash, Structural)]
pub enum TransferEvent {
    /// The destination has answered.
    Connected,
    /// The destination could not be reached.
    ConnectFailed,
    /// The stream read from this side has ended.
    EndOfStream(Side),
    /// The write side asked for is shut down.
    ShutDown,
    /// Copying, or a shutdown, failed.
    Failed,
}

/// What a transfer asks the driver to do next.
#[derive(Clone, Copy, Debug, PartialEq, Eq, Hash, Structural)]
pub enum TransferAction {
    /// Dial this destination.
    Connect(Endpoint),
    /// Copy both ways, each direction on its own, until a stream ends.
    Splice,
    /// Shut down the write side of this socket, so that its peer sees the
    /// end of the stream, and go on copying the direction that is left.
    ShutdownWrite(Side),
    /// Close both sockets.
    Close,
}

/// The transfer between one connection that came in and its destination.
#[derive(Clone, Copy, Debug, PartialEq, Eq, Hash, Structural)]
pub struct Transfer {
    pub destination: Endpoint,
    pub state: TransferState,
}

impl Transfer {
    /// The transfer after `event`. A destination that cannot be reached
    /// closes the connection at once. A stream that ends has the write side
    /// of the other socket shut down; when both have ended, and the second
    /// shutdown is done, the connection is closed. A failure closes the
    /// connection. An event that the state does not wait for changes
    /// nothing.
    pub open spec fn next(self, event: TransferEvent) -> Transfer {
        match (self.state, event) {
            (TransferState::Closed, _) => self,
            (_, TransferEvent::Failed) => Transfer { state: TransferState::Closed, ..self },
            (TransferState::Dialing, TransferEvent::Connected) => Transfer {
                state: TransferState::Splicing,
                ..self
            },
            (TransferState::Dialing, TransferEvent::ConnectFailed) => Transfer {
                state: TransferState::Closed,
                ..self
            },
            (TransferState::Splicing, TransferEvent::EndOfStream(side)) => Transfer {
                state: TransferState::HalfClosed(side),
                ..self
            },
            (TransferState::HalfClosed(first), TransferEvent::EndOfStream(side)) => if side
                == first.other() {
                Transfer { state: TransferState::Closing(side), ..self }
            } else {
                self
            },
            (TransferState::Closing(_), TransferEvent::ShutDown) => Transfer {
                state: TransferState::Closed,
                ..self
            },
            _ => self,
        }
    }

    /// What the transfer waits for the driver to do.
    pub open spec fn action(self) -> TransferAction {
        match self.state {
            TransferState::Dialing => TransferAction::Connect(self.destination),
            TransferState::Splicing => TransferAction::Splice,
            TransferState::HalfClosed(side) => TransferAction::ShutdownWrite(side.other()),
            TransferState::Closing(side) => TransferAction::ShutdownWrite(side.other()),
            TransferState::Closed => TransferAction::Close,
        }
    }

    /// A transfer to `destination` that has not dialled yet.
    pub fn new(destination: Endpoint) -> (transfer: Transfer)
        ensures
            transfer == (Transfer { destination, state: TransferState::Dialing }),
    {
        Transfer { destination, state: TransferState::Dialing }
    }

    /// What the transfer waits for the driver to do. For a new transfer that
    /// is to dial the destination.
    pub fn start(&self) -> (action: TransferAction)
        ensures
            action == self.action(),
    {
        match self.state {
            TransferState::Dialing => TransferAction::Connect(self.destination),
            TransferState::Splicing => TransferAction::Splice,
            TransferState::HalfClosed(side) => TransferAction::ShutdownWrite(side.opposite()),
            TransferState::Closing(side) => TransferAction::ShutdownWrite(side.opposite()),
            TransferState::Closed => TransferAction::Close,
        }
    }

    /// Takes in what the driver reports and answers what it is to do next.
    pub fn step(&mut self, event: TransferEvent) -> (action: TransferAction)
        ensures
            *final(self) == old(self).next(event),
            action == final(self).action(),
    {
        match (self.state, event) {
            (TransferState::Closed, _) => {},
            (_, TransferEvent::Failed) => {
                self.state = TransferState::Closed;
            },
            (TransferState::Dialing, TransferEvent::Connected) => {
                self.state = TransferState::Splicing;
            },
            (TransferState::Dialing, TransferEvent::ConnectFailed) => {
                self.state = TransferState::Closed;
            },
            (TransferState::Splicing, TransferEvent::EndOfStream(side)) => {
                self.state = TransferState::HalfClosed(side);
            },
            (TransferState::HalfClosed(first), TransferEvent::EndOfStream(side)) => {
                if side == first.opposite() {
                    self.state = TransferState::Closing(side);
                }
            },
            (TransferState::Closing(_), TransferEvent::ShutDown) => {
                self.state = TransferState::Closed;
            },
            _ => {},
        }
        self.start()
    }
}

/// Each connection of a TCP session goes to exactly one destination, and
/// the connections take the destinations in turn: connection number `k`
/// (from 0) that an accepting session takes in goes to the destination that
/// the strategy selects at its call `k`.
pub proof fn law_one_destination_each(session: TcpModel, connections: nat)
    requires
        session.wf(),
        session.state == TcpState::Accepting,
    ensures
        session.run(accepts(connections)).state == TcpState::Accepting,
        session.run(accepts(connections)).strategy == session.strategy.advance_by(connections),
        session.run(accepts(connections)).wf(),
        session.run(accepts(connections)).next(TcpEvent::Accepted).action() == (TcpAction::Forward {
            to: session.strategy.peers[session.strategy.turn(connections)],
        }),
    decreases connections,
{
    crate::strategy::lemma_round_robin_cursor(session.strategy, connections);
    if connections > 0 {
        law_one_destination_each(session, (connections - 1) as nat);
        let events = accepts(connections);
        let earlier = accepts((connections - 1) as nat);
        assert(events.drop_last().drop_last() =~= earlier);
        assert(events.drop_last() =~= earlier.push(TcpEvent::Accepted));
        assert(events.drop_last().last() == TcpEvent::Accepted);
        assert(events.last() == TcpEvent::Forwarded);
        let before = session.run(earlier);
        let taken = before.next(TcpEvent::Accepted);
        assert(session.run(events.drop_last()) == taken);
        assert(session.run(events) == taken.next(TcpEvent::Forwarded));
        crate::strategy::lemma_advance_wf(before.strategy);
        crate::strategy::lemma_round_robin_cursor(session.strategy, (connections - 1) as nat);
        assert(session.strategy.advance_by(connections) == session.strategy.advance_by(
            (connections - 1) as nat,
        ).advance()) by {
            crate::strategy::lemma_advance_by_last(session.strategy, connections);
        }
    }
}

/// What the driver reports while `connections` connections come in and are
/// handed on, one after the other.
pub open spec fn accepts(connections: nat) -> Seq<TcpEvent>
    decreases connections,
{
    if connections == 0 {
        Seq::empty()
    } else {
        accepts((connections - 1) as nat).push(TcpEvent::Accepted).push(TcpEvent::Forwarded)
    }
}

/// Half-close is symmetric: whichever stream of a spliced connection ends
/// first, the write side of the other socket is shut down while the other
/// direction goes on; when the other stream ends too, the write side of
/// the first socket is shut down, and after that the connection is closed.
pub proof fn law_half_close(transfer: Transfer, first: Side)
    requires
        transfer.state == TransferState::Splicing,
    ensures
        transfer.next(TransferEvent::EndOfStream(first)).action() == TransferAction::ShutdownWrite(
            first.other(),
        ),
        transfer.next(TransferEvent::EndOfStream(first)).next(
            TransferEvent::EndOfStream(first.other()),
        ).action() == TransferAction::ShutdownWrite(first),
        transfer.next(TransferEvent::EndOfStream(first)).next(
            TransferEvent::EndOfStream(first.other()),
        ).next(TransferEvent::ShutDown) == (Transfer { state: TransferState::Closed, ..transfer }),
        (Transfer { state: TransferState::Closed, ..transfer }).action() == TransferAction::Close,
{
}

} // verus!
