//! Asynchronous client creation: the connection work (address parsing,
//! host resolution, connecting) runs on a background thread owned by the
//! host program, which sends its outcome over a channel; this side owns
//! the receiving end and polls it without blocking.

use vstd::prelude::*;

verus! {

/// Receiving end of a standard multi-producer, single-consumer channel.
#[verifier::external_type_specification]
#[verifier::external_body]
#[verifier::reject_recursive_types(T)]
pub struct ExReceiver<T>(std::sync::mpsc::Receiver<T>);

/// Why a non-blocking receive returned no value.
#[verifier::external_type_specification]
pub struct ExTryRecvError(std::sync::mpsc::TryRecvError);

/// Relies on std's `Receiver::try_recv`: a non-blocking poll that yields a
/// sent value, or `Empty` while none is waiting, or `Disconnected` once
/// every sender is gone. Which of the three comes back depends on the
/// sending side, so nothing is promised of the outcome.
pub assume_specification<T>[ std::sync::mpsc::Receiver::<T>::try_recv ](
    r: &std::sync::mpsc::Receiver<T>,
) -> Result<T, std::sync::mpsc::TryRecvError>;

/// Why client creation failed.
#[derive(Debug, Clone, Copy, PartialEq, Eq, Structural)]
pub enum Error {
    /// Error parsing the input string or resolving the host name.
    BadAddress,
    /// Parsing yielded no address at all.
    NoAddress,
    /// Parsing and host name resolution succeeded but no connection did.
    ConnectionFailed,
    /// The connection worker is gone without having sent an outcome.
    ClientCrashed,
}

/// What one poll of the connection worker's channel means: a received
/// outcome is handed through, silence means the worker is still running,
/// and a closed channel means the worker crashed.
pub fn interpret_recv<C>(r: Result<Result<C, Error>, std::sync::mpsc::TryRecvError>) -> (out:
    Option<Result<C, Error>>)
    ensures
        r matches Ok(v) ==> out == Some(v),
        r matches Err(e) && e is Empty ==> out is None,
        r matches Err(e) && e is Disconnected ==> out == Some(
            Err::<C, Error>(Error::ClientCrashed),
        ),
{
    match r {
        Ok(result) => Some(result),
        Err(std::sync::mpsc::TryRecvError::Empty) => None,
        Err(std::sync::mpsc::TryRecvError::Disconnected) => Some(Err(Error::ClientCrashed)),
    }
}

/// Tracks one asynchronous client creation: the host's connection worker
/// parses the server address, resolves host names and connects, then
/// sends the created client (or the error) over this channel.
#[verifier::reject_recursive_types(C)]
pub struct ClientInit<C> {
    rx: std::sync::mpsc::Receiver<Result<C, Error>>,
}

impl<C> ClientInit<C> {
    /// Adopt the receiving end of a connection worker's outcome channel.
    pub fn new(rx: std::sync::mpsc::Receiver<Result<C, Error>>) -> (r: ClientInit<C>) {
        ClientInit { rx }
    }

    /// Poll whether the connection worker has finished. Returns `None`
    /// while it is still running; otherwise the outcome of client
    /// creation, with a gone worker reported as `ClientCrashed`. Never
    /// blocks; what comes back depends on the worker, so the mapping from
    /// the channel's answer is stated on `interpret_recv`.
    pub fn poll(&self) -> Option<Result<C, Error>> {
        interpret_recv(self.rx.try_recv())
    }
}

} // verus!
