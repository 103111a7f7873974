//! A text scanner over byte sources: characters, lines, whitespace-separated
//! tokens, delimited runs and integers, with every extraction primitive
//! specified over the byte stream it consumes.

mod buffer;
mod classify;
mod extract;
pub mod laws;
pub mod parse;
mod scanner;
mod scanner_ascii;
mod scanner_error;
mod scanner_str;
mod scanner_u8_slice;
mod scanner_u8_slice_ascii;
mod slice_scan;
mod source;
pub mod text;

pub use classify::{is_whitespace_1, is_whitespace_3};
pub use scanner::Scanner;
pub use scanner_ascii::ScannerAscii;
pub use scanner_error::ScannerError;
pub use scanner_str::ScannerStr;
pub use scanner_u8_slice::ScannerU8Slice;
pub use scanner_u8_slice_ascii::ScannerU8SliceAscii;
pub use source::{ByteSource, OwnedBytes};
