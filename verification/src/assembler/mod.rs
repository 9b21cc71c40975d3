//! The assembler: source text to a big-endian byte image.

pub mod assemble;
pub mod error;
pub mod labels;
pub mod mnemonic;
pub mod preprocess;
pub mod round_trip;
pub mod text;
pub mod trim;
