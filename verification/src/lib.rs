//! Loop-else constructs: a loop paired with a block that runs only when the
//! loop finishes without a `break` of its own.
//!
//! ```text
//! [ label ':' ] pattern 'in' expression block 'else' block
//! [ label ':' ] expression block 'else' block
//! ```
//!
//! The crate holds the two halves of the transformation and what is proved
//! of them.
//!
//! - [`resolver`] finds, in the run of tokens behind a loop header, where
//!   the driver expression ends and the `{ body } else { block }` pair
//!   begins; [`header`] reads a whole header with it.
//! - [`rewrite`] walks a parsed body and puts a flag assignment in front of
//!   every `break` that leaves the construct; [`expand`] puts the rewritten
//!   body, the loop head and the `else` block together.
//! - [`semantics`] says what running a body does to control and to the
//!   flag, and [`laws`] proves that the `else` block of an expansion runs
//!   exactly when the construct, by its own meaning, finished without a
//!   break.
//!
//! Lexing, parsing and writing code out are not done here. Tokens come in
//! as [`token::Token`], bodies as [`tree::Block`]; [`syntax`] puts to the
//! parser the few questions that the resolver has.

pub mod token;
pub mod syntax;
pub mod resolver;
pub mod header;
pub mod tree;
pub mod rewrite;
pub mod semantics;
pub mod expand;
pub mod laws;

pub use crate::expand::{for_, while_, Expansion, Finish};
pub use crate::header::{Error, ForLoop, Reason, WhileLoop};
