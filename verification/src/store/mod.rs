//! What is kept between runs: the registered repositories, the active and recent ones, and a log of what
//! was done.
pub mod files;
pub mod formats;
pub mod laws;
pub mod effects;
pub mod operations;
pub mod types;
