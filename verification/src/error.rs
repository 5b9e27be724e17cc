//! The signals with which the writer and its shards refuse an operation.

use vstd::prelude::*;

verus! {

/// A shard is full: every offset of its range already holds a value.
#[derive(Debug, PartialEq, Eq, Structural)]
pub struct InsufficientCapacity;

/// Why a writer refused to take a shard back.
#[derive(Debug, PartialEq, Eq, Structural)]
pub enum InitError {
    /// One or more offsets of the shard hold no value yet.
    UninitElements,
    /// The shard was handed out by another writer.
    WrongVec,
    /// The shard does not start where the buffer currently ends: an earlier
    /// shard is still outstanding, or this range was committed before.
    OutOfOrder,
}

/// The text that describes a full shard.
pub open spec fn insufficient_capacity_text() -> Seq<char> {
    "Insufficient capacity"@
}

/// The text that describes each reason for refusing a shard.
pub open spec fn init_error_text(error: InitError) -> Seq<char> {
    match error {
        InitError::UninitElements => "Elements not initialised"@,
        InitError::WrongVec => "Shard returned to wrong vec"@,
        InitError::OutOfOrder => "Shards returned out-of-order"@,
    }
}

impl InsufficientCapacity {
    /// A description for people.
    pub fn to_string(&self) -> (text: String)
        ensures
            text@ == insufficient_capacity_text(),
    {
        "Insufficient capacity".to_owned()
    }
}

impl InitError {
    /// A description for people, one per variant.
    pub fn to_string(&self) -> (text: String)
        ensures
            text@ == init_error_text(*self),
    {
        match self {
            InitError::UninitElements => "Elements not initialised".to_owned(),
            InitError::WrongVec => "Shard returned to wrong vec".to_owned(),
            InitError::OutOfOrder => "Shards returned out-of-order".to_owned(),
        }
    }
}

} // verus!
