use vstd::prelude::*;

pub mod error;
pub mod outside;
pub mod version;
pub mod waves;
pub mod manifest;
pub mod select;
pub mod plan;
pub mod flow;
pub mod host;
pub mod args;
pub mod text;

verus! {

/// Seeds, and the keys of a wave schedule, lie in `[0, MAX_SEED)`.
pub const MAX_SEED: u64 = 2048;

} // verus!
