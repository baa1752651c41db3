//! Line concatenation with optional line numbering.
//!
//! The crate holds the rules of a `cat`-like tool as verified functions on
//! plain values: how an invocation becomes a [`Config`], how one line is
//! turned into its output form, and how a run over several inputs reacts to
//! what opening and reading them gives.

pub mod config;
pub mod error;
pub mod lines;
pub mod number;
pub mod run;
pub mod session;

pub use crate::config::{get_args, Config, Numbering};
pub use crate::error::CatError;
pub use crate::run::{run, Source, Transcript};
pub use crate::session::{Request, Session};
