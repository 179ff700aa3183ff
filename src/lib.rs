//! Typed, ownership-safe front end to Linux kernel asynchronous I/O.
//!
//! The verified core of the crate is the bookkeeping that keeps
//! asynchronous buffer I/O safe: a fixed-capacity pool that gives every
//! in-flight control block a stable slot, and a submission engine that
//! moves caller buffers and tokens into those slots, tracks which of them
//! are batched and which the kernel holds, and hands them back on
//! completion.
use vstd::prelude::*;

mod addr;
pub mod aioabi;
pub mod aligned;
pub mod buf;
pub mod chan;
pub mod directio;
pub mod future;
pub mod pool;
pub mod raw;
pub mod timeout;

pub use buf::{RdBuf, WrBuf};

verus! {

/// A file offset.
pub type Offset = u64;

} // verus!
