use vstd::prelude::*;

verus! {

/// A load error as the contracts see it.
pub enum LoadFailure {
    Parse,
    Missing(Seq<char>),
    Unknown(Seq<char>),
    NoFrames,
}

impl LoadError {
    pub open spec fn view(&self) -> LoadFailure {
        match self {
            LoadError::ParseError => LoadFailure::Parse,
            LoadError::MissingField(f) => LoadFailure::Missing(f@),
            LoadError::UnknownNode(v) => LoadFailure::Unknown(v@),
            LoadError::NoFrames => LoadFailure::NoFrames,
        }
    }
}

/// Why a textual node definition could not be turned into a node.
#[derive(Debug, Clone, PartialEq, Eq)]
pub enum LoadError {
    /// A literal or the definition's grammar is malformed.
    ParseError,
    /// A field that the variant needs is absent.
    MissingField(String),
    /// The variant tag names no known node kind.
    UnknownNode(String),
    /// An index node was given an empty list of frames.
    NoFrames,
}

} // verus!

verus! {

/// Why running a node, or a chain of nodes, failed.
#[derive(Debug, Clone, Copy, PartialEq, Eq, Structural)]
pub enum RunError {
    /// An identity reached by the driver is absent from the graph.
    NodeNotFound(crate::node_id::NodeId),
    /// A key was read with a type other than the one it was written with.
    AttributeTypeMismatch(crate::state::Attribute),
    /// A count or rate computed by a node does not fit in 64 bits.
    Overflow,
    /// The chain of `Next` hops in one tick went past the driver's limit;
    /// the identity is the one that would have run next.
    HopLimit(crate::node_id::NodeId),
}

} // verus!
