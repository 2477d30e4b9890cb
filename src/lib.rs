//! Polls upstream sources for the current versions of many packages.
//!
//! The library holds the decisions of a run: how a fetch command's output is
//! judged (`cmd`), how a channel's version is checked and a package's defaults
//! filled in (`package`), whether a package is fetched or falls back on its
//! earlier versions (`fetch`), and how the outcomes of a run are merged
//! (`bulk`). Running processes, reading and writing files and the worker pool
//! are left to the program around it.
use vstd::prelude::*;

pub mod bulk;
pub mod cmd;
pub mod config;
pub mod fetch;
pub mod package;
pub mod text;

verus! {

/// Number of steps in the fixed-point scale used for fetch probabilities:
/// a chance of `CHANCE_SCALE` is certainty.
pub const CHANCE_SCALE: u32 = 1000000;

} // verus!
