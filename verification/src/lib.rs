//! Reachability audit engine for canister projects.
//!
//! The engine walks a program's call graph, classifies findings (unsafe
//! regions, foreign imports, foreign exports), suppresses whitelisted
//! dependencies, and reconstructs call paths for diagnostics.  Semantic
//! facts about the audited program (module trees, call resolution, macro
//! expansions, attributes) are supplied by an external resolution service
//! and handed to this crate as plain data (see [`model`]).

pub mod model;
pub mod utils;
pub mod report;
pub mod audit;
pub mod classify;
pub mod candid;
pub mod bindgen;
pub mod driver;
pub mod laws;
pub mod samples;
