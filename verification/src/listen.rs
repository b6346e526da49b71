//! Listening for the instances that come later.
//!
//! The new instance polls its listener. An accept that fails, be it only
//! because nobody has called yet, is no reason to stop listening.

use vstd::prelude::*;

verus! {

/// Takes the outcome of an accept: the connection where a peer has come,
/// nothing this round where the accept failed. A failure is never handed
/// on, and the listener stays in use.
pub fn on_accept<S, E>(outcome: Result<S, E>) -> (stream: Option<S>)
    ensures
        stream == match outcome {
            Ok(accepted) => Some(accepted),
            Err(_) => None,
        },
{
    match outcome {
        Ok(accepted) => Some(accepted),
        Err(_) => None,
    }
}

} // verus!
