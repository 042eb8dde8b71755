//! Ending or going on with a merge or a rebase that is in progress.
//!
//! Recovery runs only where no configured program, hook or rebase instruction could start a process
//! that is not contained, and an exact recovery only where the repository is in the state that was
//! shown when it was planned.
pub mod bounded;
pub mod files;
pub mod drivers;
pub mod safety;
pub mod lock;
pub mod records;
pub mod survey;
pub mod state;
pub mod fence;
pub mod collisions;
pub mod operations;
pub mod laws;
pub mod fingerprints;
pub mod effects;
pub mod containment;
pub mod plans;
pub mod looks;
pub mod questions;
