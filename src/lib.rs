//! A lexical scanner for a small dynamically typed scripting language.

pub mod cursor;
pub mod keywords;
pub mod laws;
mod limit;
pub mod literals;
pub mod numeral;
pub mod scanner;
pub mod text;
pub mod token;

pub use cursor::{walk_to_next_quote, walk_to_next_whitespace, SourceCursor};
pub use scanner::{parse_chars, scan, scan_classified, scan_tokens, Diagnostic, ScanError, ScanOutput, ScanStep};
pub use token::{Literal, Token, TokenType};
