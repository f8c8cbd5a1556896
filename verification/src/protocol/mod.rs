//! The forwarding sessions, one per rule, as state machines. A session does
//! no I/O itself: it names the next action, the driver performs it and
//! reports what came of it, and the session decides what follows.

pub mod tcp;
pub mod udp;

use vstd::prelude::*;

verus! {

/// Why a session gave up.
#[derive(Clone, Copy, Debug, PartialEq, Eq, Hash, Structural)]
pub enum Error {
    /// The source socket could not be bound.
    Bind,
    /// The listener failed for good.
    Accept,
}

/// How a session ended: cleanly (end of stream, or cancelled), or with the
/// error that stopped it.
#[derive(Clone, Copy, Debug, PartialEq, Eq, Hash, Structural)]
pub enum Exit {
    Clean,
    Failed(Error),
}

} // verus!
