//! The configuration of a sigil's look.

use crate::color::Rgb;
use crate::error::ConfigError;
use vstd::prelude::*;

verus! {

/// Configures the way a sigil looks.
pub struct Theme {
    /// Number of rows and columns of the grid. Supported values: 1 to 15.
    pub rows: u16,
    /// Available foreground colours, of which each sigil uses one. It must
    /// not be empty; a colour may occur more than once.
    pub foreground: Vec<Rgb>,
    /// Background colour.
    pub background: Rgb,
}

impl Theme {
    /// What is wrong with the theme, if anything: the number of rows is
    /// looked at first, then the palette.
    pub open spec fn fault(&self) -> Option<ConfigError> {
        if self.rows < 1 || self.rows > 15 {
            Some(ConfigError::RowsOutOfRange)
        } else if self.foreground@.len() == 0 {
            Some(ConfigError::EmptyPalette)
        } else {
            None
        }
    }

    /// A theme that sigils can be generated from: 1 to 15 rows and at least
    /// one foreground colour.
    pub open spec fn valid(&self) -> bool {
        1 <= self.rows <= 15 && self.foreground@.len() > 0
    }

    /// The foreground colour that the selector byte picks: the selector
    /// modulo the number of colours is the index into the palette.
    pub open spec fn picked(&self, selector: u8) -> Rgb {
        self.foreground@[(selector as int) % (self.foreground@.len() as int)]
    }

    /// Accepts a valid theme and names the fault of any other.
    pub fn validate(&self) -> (res: Result<(), ConfigError>)
        ensures
            res is Ok <==> self.valid(),
            res matches Err(e) ==> self.fault() == Some(e),
    {
        if self.rows < 1 || self.rows > 15 {
            Err(ConfigError::RowsOutOfRange)
        } else if self.foreground.len() == 0 {
            Err(ConfigError::EmptyPalette)
        } else {
            Ok(())
        }
    }

    /// Picks the foreground colour for a selector byte.
    pub fn pick_foreground(&self, v: u8) -> (color: Rgb)
        requires
            self.foreground@.len() > 0,
        ensures
            color == self.picked(v),
    {
        self.foreground[(v as usize) % self.foreground.len()]
    }
}

impl Default for Theme {
    /// Five rows, seven foreground colours and a light grey background.
    fn default() -> (theme: Theme)
        ensures
            theme.rows == 5,
            theme.foreground@.len() == 7,
            theme.foreground@[0].channels() == seq![45u8, 79u8, 255u8],
            theme.foreground@[1].channels() == seq![254u8, 180u8, 44u8],
            theme.foreground@[2].channels() == seq![226u8, 121u8, 234u8],
            theme.foreground@[3].channels() == seq![30u8, 179u8, 253u8],
            theme.foreground@[4].channels() == seq![232u8, 77u8, 65u8],
            theme.foreground@[5].channels() == seq![49u8, 203u8, 115u8],
            theme.foreground@[6].channels() == seq![141u8, 69u8, 170u8],
            theme.background.channels() == seq![224u8, 224u8, 224u8],
            theme.valid(),
    {
        let mut foreground: Vec<Rgb> = Vec::new();
        foreground.push(Rgb([45, 79, 255]));
        foreground.push(Rgb([254, 180, 44]));
        foreground.push(Rgb([226, 121, 234]));
        foreground.push(Rgb([30, 179, 253]));
        foreground.push(Rgb([232, 77, 65]));
        foreground.push(Rgb([49, 203, 115]));
        foreground.push(Rgb([141, 69, 170]));
        Theme { rows: 5, foreground, background: Rgb([224, 224, 224]) }
    }
}

} // verus!
