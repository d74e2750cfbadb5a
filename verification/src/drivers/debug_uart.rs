//! Sink for debug output.

use vstd::prelude::*;

verus! {

/// Owns the UART that debug output goes to, so that it can be handed around
/// by value.
pub struct Uart2Sink<U> {
    inner: U,
}

impl<U> Uart2Sink<U> {
    /// The UART in the sink.
    pub closed spec fn uart(&self) -> U {
        self.inner
    }

    pub fn new(inner: U) -> (sink: Uart2Sink<U>)
        ensures
            sink.uart() == inner,
    {
        Uart2Sink { inner }
    }

    /// Gives the UART back.
    pub fn into_inner(self) -> (inner: U)
        ensures
            inner == self.uart(),
    {
        self.inner
    }
}

} // verus!
