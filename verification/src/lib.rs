//! Planning and driving the creation of large synthetic directory trees.
//!
//! A run fills a single chain of nested directories with one-byte files so
//! that file scanners can be exercised at scale.  This crate holds the rules
//! of such a run: how an inode budget is split over the levels of the chain,
//! how unique names are supplied, and which filesystem operation comes next.
//! It performs no I/O itself; a driver carries out the requests it issues.
//!
//! - `plan`: the budget, the depth, and what follows from them.
//! - `names`, `order`, `pool`: names, their order, and where they come from.
//! - `model`: a run as a state machine over plain values, and what holds of it.
//! - `run`: the same machine over real strings, ready to be driven.
//! - `report`, `text`, `error`: the summary, text building, and failures.

pub mod error;
pub mod model;
pub mod names;
pub mod order;
pub mod plan;
pub mod pool;
pub mod report;
pub mod run;
pub mod text;
