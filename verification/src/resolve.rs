//! Settling who listens: the race for the channel name.
//!
//! A process that wants to know whether it is the first instance tries to
//! connect to the channel that bears the application's name. The outcome of
//! that one attempt settles its role: it talks to the instance that
//! answered, or, where nobody is home, binds the name and listens itself.
//!
//! The connect and the bind are the caller's to perform. This module holds
//! the decisions between them: [`Resolver::on_connect`] takes the outcome
//! of the connect, [`Binding::on_bind`] that of the bind.

use vstd::prelude::*;

verus! {

/// Communication endpoint between an existing and a new instance.
///
/// `L` is the listener that a new instance owns, `S` the stream that
/// leads to an existing one.
#[derive(Debug, PartialEq, Eq)]
pub enum Endpoint<L, S> {
    /// You are the new instance
    New(L),
    /// There is already an existing instance running
    Existing(S),
}

/// Which calls on a listener return at once instead of waiting.
#[derive(Debug, Clone, Copy, PartialEq, Eq)]
pub enum NonblockingMode {
    /// None: accepting a connection waits for a peer, and so do reads and
    /// writes on the connections accepted.
    Neither,
    /// Both accepting and the I/O on the connections accepted.
    Both,
}

/// Why a connect failed, as far as the decision depends on it.
#[derive(Debug, Clone, Copy, PartialEq, Eq)]
pub enum ConnectErrorKind {
    /// No channel of that name exists.
    NotFound,
    /// A channel of that name exists, and nobody listens on it.
    ConnectionRefused,
    /// Anything else, such as a lack of permission.
    Other,
}

/// A failed connect: what kind of failure it was, and the error itself.
#[derive(Debug, PartialEq, Eq)]
pub struct ConnectError<E> {
    pub kind: ConnectErrorKind,
    pub error: E,
}

/// A resolution attempt that is about to connect.
#[derive(Debug, PartialEq, Eq)]
pub struct Resolver {
    /// Whether the listener, should this process become one, is to be
    /// non-blocking.
    pub nonblocking: bool,
}

/// A resolution attempt that found nobody home and is about to bind.
#[derive(Debug, PartialEq, Eq)]
pub struct Binding {
    /// The mode to bind the listener with.
    pub mode: NonblockingMode,
}

/// What follows the connect.
#[derive(Debug, PartialEq, Eq)]
pub enum Next<L, S, E> {
    /// Nobody is home: bind the name.
    Bind(Binding),
    /// The attempt is over, for better or worse.
    Done(Result<Endpoint<L, S>, E>),
}

impl NonblockingMode {
    /// The mode that the caller's flag asks for.
    pub open spec fn of(nonblocking: bool) -> NonblockingMode {
        if nonblocking {
            NonblockingMode::Both
        } else {
            NonblockingMode::Neither
        }
    }
}

impl ConnectErrorKind {
    /// Whether the failure shows that no instance owns the name.
    pub open spec fn nobody_home(self) -> bool {
        self is NotFound || self is ConnectionRefused
    }
}

impl Resolver {
    /// The decision that the outcome of the connect leads to.
    ///
    /// * Connected: there is an existing instance, and the connection leads
    ///   to it.
    /// * Nobody home: this process is first, and binds with the mode asked
    ///   for.
    /// * Any other failure is handed on, and never taken to mean "first".
    pub open spec fn spec_on_connect<L, S, E>(
        self,
        outcome: Result<S, ConnectError<E>>,
    ) -> Next<L, S, E> {
        match outcome {
            Ok(stream) => Next::Done(Ok(Endpoint::Existing(stream))),
            Err(failure) => if failure.kind.nobody_home() {
                Next::Bind(Binding { mode: NonblockingMode::of(self.nonblocking) })
            } else {
                Next::Done(Err(failure.error))
            },
        }
    }

    /// Starts a resolution attempt.
    pub fn new(nonblocking: bool) -> (resolver: Resolver)
        ensures
            resolver.nonblocking == nonblocking,
    {
        Resolver { nonblocking }
    }

    /// Takes the outcome of the one connect that an attempt makes, and
    /// decides what follows. The attempt is spent: nothing is retried.
    pub fn on_connect<L, S, E>(self, outcome: Result<S, ConnectError<E>>) -> (next: Next<L, S, E>)
        ensures
            next == self.spec_on_connect::<L, S, E>(outcome),
    {
        match outcome {
            Ok(stream) => Next::Done(Ok(Endpoint::Existing(stream))),
            Err(failure) => match failure.kind {
                ConnectErrorKind::NotFound | ConnectErrorKind::ConnectionRefused => {
                    let mode = if self.nonblocking {
                        NonblockingMode::Both
                    } else {
                        NonblockingMode::Neither
                    };
                    Next::Bind(Binding { mode })
                },
                ConnectErrorKind::Other => Next::Done(Err(failure.error)),
            },
        }
    }
}

impl Binding {
    /// The end of an attempt that had to bind: the listener makes this
    /// process the new instance; a failure to bind is handed on.
    pub open spec fn spec_on_bind<L, S, E>(self, outcome: Result<L, E>) -> Result<
        Endpoint<L, S>,
        E,
    > {
        match outcome {
            Ok(listener) => Ok(Endpoint::New(listener)),
            Err(error) => Err(error),
        }
    }

    /// Takes the outcome of the bind and ends the attempt.
    pub fn on_bind<L, S, E>(self, outcome: Result<L, E>) -> (end: Result<Endpoint<L, S>, E>)
        ensures
            end == self.spec_on_bind::<L, S, E>(outcome),
    {
        match outcome {
            Ok(listener) => Ok(Endpoint::New(listener)),
            Err(error) => Err(error),
        }
    }
}

} // verus!
