//! What can be wrong with a theme or with a requested image size.

use vstd::prelude::*;

verus! {

/// A theme that no sigil can be generated from.
#[derive(Clone, Copy, Debug, PartialEq, Eq, Structural)]
pub enum ConfigError {
    /// The number of rows is 0 or greater than 15.
    RowsOutOfRange,
    /// The theme offers no foreground colour.
    EmptyPalette,
}

/// An image size that is not a multiple of `unit`, twice the number of rows
/// plus two.
#[derive(Clone, Copy, Debug, PartialEq, Eq, Structural)]
pub struct GeometryError {
    /// The size that was asked for.
    pub size: u32,
    /// The number that the size has to be a multiple of.
    pub unit: u32,
}

} // verus!
