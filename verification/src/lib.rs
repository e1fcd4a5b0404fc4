//! A minimal identicon generator.
//!
//! A sigil is a small grid of cells, mirrored across its vertical axis, and
//! a pair of colours. Both follow from a 16-byte digest: the same input
//! always gives the same sigil. A sigil is rendered into a square RGB image
//! of any size that splits evenly into its cells and the border around them.
//!
//! ```no_run
//! use sigil_rs::Sigil;
//! use sigil_rs::Theme;
//!
//! // The default theme uses 5 rows and columns.
//! let theme = Theme::default();
//! let sigil = Sigil::generate(&theme, b"username").unwrap();
//!
//! // The size must be a multiple of `(rows + 1) * 2`.
//! let image = sigil.to_image(240).unwrap();
//! assert_eq!(image.size(), 240);
//! ```

pub mod cells;
pub mod color;
pub mod display;
pub mod endpoint;
pub mod error;
pub mod grid;
pub mod hasher;
pub mod hex;
pub mod raster;
pub mod sigil;
pub mod theme;

pub use crate::cells::Cells;
pub use crate::color::Rgb;
pub use crate::display::DisplayCells;
pub use crate::error::ConfigError;
pub use crate::error::GeometryError;
pub use crate::grid::generate_cells;
pub use crate::grid::should_fill;
pub use crate::hasher::md5;
pub use crate::raster::PixelBuffer;
pub use crate::sigil::Sigil;
pub use crate::theme::Theme;
