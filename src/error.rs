use vstd::prelude::*;

verus! {

/// A trap: a failure that aborts the current Wasm call.
#[derive(Debug, Clone, Copy, PartialEq, Eq)]
pub enum Trap {
    /// A load or store touched bytes outside `[0, max)`.
    MemoryOutOfBounds { offset: usize, len: usize, max: usize },
    /// A table write, initialisation or growth went past the table's bound.
    TableOutOfBounds { offset: usize, len: usize, max: usize },
    /// A table read at an index past the table's length.
    UndefinedElement { index: usize },
}

/// The errors of the store.
#[derive(Debug, Clone, PartialEq, Eq)]
pub enum Error {
    /// A Wasm trap.
    Trap(Trap),
    /// The input uses something this runtime does not implement.
    UnsupportedFeature(String),
    /// An index that resolves to nothing, or a value of the wrong kind.
    Other(String),
}

/// What kind of error an `Error` is, without its message.
#[derive(Debug, Clone, Copy, PartialEq, Eq)]
pub enum ErrorKind {
    Trap(Trap),
    UnsupportedFeature,
    Other,
}

/// An error as contracts see it: its kind and its message (empty for a trap).
pub struct Failure {
    pub kind: ErrorKind,
    pub msg: Seq<char>,
}

impl Error {
    /// The message of the error; a trap has none.
    pub open spec fn msg(&self) -> Seq<char> {
        match self {
            Error::Trap(_) => Seq::empty(),
            Error::UnsupportedFeature(m) => m@,
            Error::Other(m) => m@,
        }
    }

    pub open spec fn failure(&self) -> Failure {
        Failure { kind: self.kind_spec(), msg: self.msg() }
    }

    pub open spec fn kind_spec(&self) -> ErrorKind {
        match self {
            Error::Trap(t) => ErrorKind::Trap(*t),
            Error::UnsupportedFeature(_) => ErrorKind::UnsupportedFeature,
            Error::Other(_) => ErrorKind::Other,
        }
    }

    /// The kind of the error.
    pub fn kind(&self) -> (r: ErrorKind)
        ensures
            r == self.kind_spec(),
    {
        match self {
            Error::Trap(t) => ErrorKind::Trap(*t),
            Error::UnsupportedFeature(_) => ErrorKind::UnsupportedFeature,
            Error::Other(_) => ErrorKind::Other,
        }
    }
}

} // verus!
