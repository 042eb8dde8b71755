//! Guarded Git operations: what a prompt asks for, which policy applies, which commands are run and when
//! they are refused, what is asked of GitHub, and what is stored.
pub mod bytes;
pub mod config;
pub mod digest;
pub mod figures;
pub mod git;
pub mod github;
pub mod hosting;
pub mod number;
pub mod operation;
pub mod order;
pub mod parts;
pub mod paths;
pub mod policy;
pub mod previews;
pub mod prompt_parser;
pub mod prompts;
pub mod safeguards;
pub mod session;
pub mod store;
pub mod text;
pub mod words;

use vstd::prelude::*;

verus! {

/// The name under which the application presents itself.
pub const APP_NAME: &'static str = "bitbygit";

/// The version of the application.
pub const VERSION: &'static str = "0.1.0";

}
