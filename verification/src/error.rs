//! What can go wrong.
use vstd::prelude::*;

verus! {

/// The errors of the client. Those of a broken transport are not among them: they come from the
/// connection itself and pass through the client unread.
#[derive(Debug)]
pub enum Error {
    /// A text that is no JSON, or JSON that does not hold what it should; the message says what is
    /// wrong.
    Json(String),
    /// The error that the server answered with.
    Rpc { code: i64, message: String },
    /// A message or a connection that breaks the protocol.
    Protocol(String),
    /// The server has not said yet where to send messages.
    NotInitialized,
    /// The call was cancelled by its token.
    Cancelled,
    /// The connection is closed.
    Closed,
}

} // verus!
