//! The grammar of the text that stages read: lines, tokens and literals of
//! numbers, each as a function on sequences of characters, with the scanner
//! that computes it.

pub mod lines;
pub mod literals;
pub mod strings;
pub mod tokens;

pub use lines::nonempty_lines;
pub use literals::float_literal;
pub use strings::{same_text, string_of};
pub use tokens::{float_tokens, separator, white_space};
