//! Drawing of the alignment on the buffer of the terminal, and export of the
//! buffer.

pub mod alignment;
pub mod export;
