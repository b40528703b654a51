//! The errors that the library reports.

use vstd::prelude::*;

verus! {

/// What went wrong.
#[derive(Clone, Debug, PartialEq, Eq)]
pub enum TGVError {
    /// The state handed in lacks something that the operation needs.
    StateError(String),
    /// A command could not be understood.
    RegisterError(String),
    /// A byte that should be drawn as a glyph is not a character by itself.
    Utf8Error(u8),
}

} // verus!
