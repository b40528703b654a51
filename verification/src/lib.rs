//! Decoding of per-base modification calls, and drawing of aligned reads on
//! the character cells of a terminal.

pub mod alignment;
pub mod cigar;
pub mod command;
pub mod error;
pub mod layout;
pub mod message;
pub mod modification;
pub mod palette;
pub mod rendering;
pub mod style;
pub mod terminal;
pub mod text;
