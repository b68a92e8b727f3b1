//! Staged synchronisation engine: bounded execution batches, an ordered stage
//! pipeline with checkpoints and unwinds, header and body download ordering,
//! static-file promotion, and the interval driver that runs and rolls back
//! ranges of blocks.
use vstd::prelude::*;

pub mod bodies;
pub mod driver;
pub mod execution;
pub mod headers;
pub mod node;
pub mod pipeline;
pub mod rpc;
pub mod snapshot;
pub mod static_file;
pub mod thresholds;

verus! {

} // verus!
