//! Colours.

use vstd::prelude::*;

verus! {

/// An RGB colour with eight bits per channel, in the order red, green, blue.
#[derive(Clone, Copy, Debug, PartialEq, Eq)]
pub struct Rgb(pub [u8; 3]);

impl Rgb {
    /// The three channels in the order red, green, blue.
    pub open spec fn channels(self) -> Seq<u8> {
        self.0@
    }
}

} // verus!
