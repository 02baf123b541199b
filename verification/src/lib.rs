//! Expression parser for an arithmetic-circuit language.
//!
//! The parser consumes a sequence of tokens with source spans and builds one
//! expression tree. Every parsing function is specified against a
//! mathematical description of the grammar in [`grammar`]: it returns what
//! the grammar gives for the tokens at the cursor, and leaves the cursor
//! where the grammar says the parse ends.
//!
//! - [`span`], [`token`], [`ast`], [`errors`]: the data, each with its view.
//! - [`grammar`]: the grammar; [`unfold`]: one step of each of its functions.
//! - [`context`]: the parser's state and the operations on its cursor.
//! - [`types`], [`expression`], [`access`], [`primary`]: the parser.
//! - [`text`]: the text of negated numerals.
//! - [`laws`], [`cover`], [`nesting`], [`bounds`]: what holds of every parse.

pub mod span;
pub mod token;
pub mod ast;
pub mod errors;
pub mod grammar;
pub mod unfold;
pub mod text;
pub mod context;
pub mod types;
pub mod expression;
pub mod access;
pub mod primary;
pub mod laws;
pub mod cover;
pub mod nesting;
pub mod bounds;
