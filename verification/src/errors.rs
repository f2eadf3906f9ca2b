use vstd::prelude::*;

verus! {

/// Failure taxonomy of a node run. Every variant is fatal: a run is a
/// single session, so no failure is retried locally.
#[derive(Clone, Copy, Debug, PartialEq, Eq, Structural)]
pub enum NodeError {
    /// The byte stream itself failed.
    Transport,
    /// A line was not a well-formed envelope with a recognized body tag.
    MalformedEnvelope,
    /// A message arrived that the protocol does not allow at this point.
    ProtocolViolation,
    /// The node's own state broke an internal invariant.
    InternalInvariant,
}

impl NodeError {
    /// The text a process prints when it dies of this error.
    pub open spec fn text(self) -> Seq<char> {
        match self {
            NodeError::Transport => "stream i/o failure"@,
            NodeError::MalformedEnvelope => "malformed envelope"@,
            NodeError::ProtocolViolation => "protocol violation"@,
            NodeError::InternalInvariant => "internal invariant violated"@,
        }
    }

    pub fn as_str(&self) -> (r: &'static str)
        ensures
            r@ == self.text(),
    {
        match self {
            NodeError::Transport => "stream i/o failure",
            NodeError::MalformedEnvelope => "malformed envelope",
            NodeError::ProtocolViolation => "protocol violation",
            NodeError::InternalInvariant => "internal invariant violated",
        }
    }
}

} // verus!
