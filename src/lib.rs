//! Character-filtered, length-limited text input.
//!
//! The library computes what a text field shows after each edit: the
//! characters that a filter accepts, in the order they were typed, cut off at an
//! optional maximum length. The hosting user interface feeds it the raw text
//! of the field and applies the result.

pub mod filter;
pub mod edit;
pub mod laws;
