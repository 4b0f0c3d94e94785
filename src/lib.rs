//! A tokenizer for the structured fields of Internet messages: folding white space and
//! comments, quoted strings, atoms, words and phrases, and the local-part / domain grammar of
//! an e-mail address.
//!
//! Every parser reads from a [`Buffer`] and reports how many bytes it consumed. The parsers that
//! canonicalise a token append the result to a byte vector, and only when they succeed: a
//! failed parse leaves the vector as it was.

use vstd::prelude::*;

pub mod ascii;
pub mod errors;
pub mod buffer;
pub mod whitespaces;
pub mod quoted_string;
pub mod atom;
pub mod common;
pub mod address;

pub use buffer::Buffer;
