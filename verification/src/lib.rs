//! Front end of a binding generator: reads the small configuration language of
//! an invocation, decides which interface sources have to be resolved and in
//! which order, assembles the generator's options and packages the generated
//! text together with one dependency marker per file that was read.

mod text;
pub mod token;
pub mod grammar;
pub mod recognizer;
pub mod options;
pub mod error;
pub mod plan;
pub mod package;
pub mod session;
pub mod laws;
pub mod rendering;

pub use crate::session::{export, import};
