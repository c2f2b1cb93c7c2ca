use vstd::prelude::*;

verus! {

/// Why an engine operation did not take effect.
#[derive(Clone, Copy, Debug, PartialEq, Eq, Structural)]
pub enum EngineError {
    /// The operation named a subscription or monitored item that is not there.
    IdentifierNotFound,
    /// A parameter is out of range (a zero interval, count or queue size).
    InvalidParameter,
    /// Every identifier a new entity could take has been handed out.
    IdsExhausted,
    /// A retransmission asked for a sequence number no longer buffered.
    SequenceUnavailable,
}

} // verus!
