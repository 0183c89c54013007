//! Kernel logging core: severity filtering, multi-sink log transactions with
//! an explicit lock/interrupt discipline, a bounded scrollback ring buffer,
//! byte-dump formatters, a reader-writer style shared map, and the user-mode
//! file object bookkeeping.
use vstd::prelude::*;

pub mod dump;
pub mod filter;
pub mod level;
pub mod logging;
pub mod memory;
pub mod ring;
pub mod serial;
pub mod shared_map;
pub mod vecmap;
pub mod vfs;

verus! {

} // verus!
