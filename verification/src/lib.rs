//! Fill the spare capacity of a `Vec` in independent pieces.
//!
//! A [`VecWriter`] borrows a vector and hands out its spare capacity as
//! [`Shard`]s, each the exclusive right to fill one range of offsets. Shards
//! share nothing, so they can be filled in any order and on different threads.
//! The writer takes full shards back in the order in which it handed them out,
//! and each one it takes back becomes the next part of the vector.

pub mod error;
pub mod laws;
pub mod model;
pub mod shard;
pub mod writer;

pub use error::InitError;
pub use error::InsufficientCapacity;
pub use shard::Shard;
pub use writer::Rejected;
pub use writer::VecWriter;
