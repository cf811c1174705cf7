//! The two ways in which the transport can fail the client.

use vstd::prelude::*;

verus! {

/// A failure of the transport, with the cause that the transport gave.
#[derive(Debug, PartialEq, Eq)]
pub enum Error<E> {
    /// No connection to the endpoint could be established.
    Connection(E),
    /// An established connection failed while bytes were written or flushed.
    Io(E),
}

} // verus!
