use vstd::prelude::*;

verus! {

/// Why an accept call returned no connection.
#[derive(PartialEq, Eq, Structural, Clone, Copy, Debug)]
pub enum AcceptError {
    /// Nothing is pending on the non-blocking listener right now.
    WouldBlock,
    /// Any other listener failure; the listener is not usable any more.
    Other,
}

/// What one iteration of the accept loop observed.
#[derive(PartialEq, Eq, Structural, Clone, Copy, Debug)]
pub enum AcceptEvent {
    /// The shutdown flag was found set before accepting.
    ShutdownRequested,
    /// A connection was accepted.
    Connection,
    /// The accept call failed.
    Failed(AcceptError),
}

/// What the accept loop does next.
#[derive(PartialEq, Eq, Structural, Clone, Copy, Debug)]
pub enum AcceptorAction {
    /// Wrap the accepted connection into a job, submit it, and poll again.
    Submit,
    /// Poll again after the poll interval.
    Poll,
    /// Leave the loop; the pool is then shut down.
    Stop,
}

pub open spec fn acceptor_action(event: AcceptEvent) -> AcceptorAction {
    match event {
        AcceptEvent::ShutdownRequested => AcceptorAction::Stop,
        AcceptEvent::Connection => AcceptorAction::Submit,
        AcceptEvent::Failed(AcceptError::WouldBlock) => AcceptorAction::Poll,
        AcceptEvent::Failed(AcceptError::Other) => AcceptorAction::Stop,
    }
}

/// Decides the accept loop's next move: a shutdown request or a fatal
/// listener error ends the loop, a connection is submitted, and an empty
/// poll is retried.
pub fn acceptor_step(event: AcceptEvent) -> (r: AcceptorAction)
    ensures
        r == acceptor_action(event),
{
    match event {
        AcceptEvent::ShutdownRequested => AcceptorAction::Stop,
        AcceptEvent::Connection => AcceptorAction::Submit,
        AcceptEvent::Failed(AcceptError::WouldBlock) => AcceptorAction::Poll,
        AcceptEvent::Failed(AcceptError::Other) => AcceptorAction::Stop,
    }
}

} // verus!
