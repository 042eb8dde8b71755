//! Git operations: the commands they run, the guards before them and the reading of their output.
pub mod types;
pub mod status;
pub mod refs;
pub mod commands;
pub mod inspect;
pub mod branches;
pub mod remotes;
pub mod commits;
pub mod recovery;
pub mod errors;
pub mod launch;
pub mod starts;
pub mod laws;
pub mod effects;
pub mod guards;
pub mod reports;
pub mod listings;
pub mod questions;
