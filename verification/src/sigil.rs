//! The generated artifact: two colours and a grid of cells.

use crate::cells::Cells;
use crate::color::Rgb;
use crate::error::ConfigError;
use crate::grid::cell_index;
use crate::grid::confined;
use crate::grid::generate_cells;
use crate::grid::grid;
use crate::grid::lemma_index;
use crate::grid::mirrored;
use crate::hasher::md5;
use crate::hasher::md5_digest;
use crate::theme::Theme;
use vstd::prelude::*;
use vstd::slice::slice_subrange;

verus! {

/// What a sigil is, as the contracts see it.
pub struct SigilView {
    /// Colour of the filled cells.
    pub foreground: Rgb,
    /// Colour of the empty cells and of the border.
    pub background: Rgb,
    /// Number of rows and columns of the grid.
    pub rows: nat,
    /// The 256 cells; the cell in column `x` of row `y` has index
    /// `y * rows + x`.
    pub cells: Seq<bool>,
}

impl SigilView {
    /// The same sigil with foreground and background swapped.
    pub open spec fn inverted(self) -> SigilView {
        SigilView {
            foreground: self.background,
            background: self.foreground,
            rows: self.rows,
            cells: self.cells,
        }
    }
}

/// The sigil that a valid theme and a 16-byte digest determine: byte 0 of the
/// digest picks the foreground colour, bytes 1 to 15 fill the grid.
pub open spec fn sigil_of(theme: &Theme, digest: Seq<u8>) -> SigilView {
    SigilView {
        foreground: theme.picked(digest[0]),
        background: theme.background,
        rows: theme.rows as nat,
        cells: grid(theme.rows as int, digest.subrange(1, 16)),
    }
}

/// What generating a sigil from a theme and a digest gives: the sigil that
/// the two determine where the theme is valid, else the theme's fault.
pub open spec fn generated(
    theme: &Theme,
    digest: Seq<u8>,
    res: Result<Sigil, ConfigError>,
) -> bool {
    match res {
        Ok(sigil) => theme.valid() && sigil@ == sigil_of(theme, digest),
        Err(e) => !theme.valid() && theme.fault() == Some(e),
    }
}

/// A sigil that can be rendered to an image.
#[derive(Debug)]
pub struct Sigil {
    foreground: Rgb,
    background: Rgb,
    rows: u16,
    cells: Cells,
}

impl View for Sigil {
    type V = SigilView;

    closed spec fn view(&self) -> SigilView {
        SigilView {
            foreground: self.foreground,
            background: self.background,
            rows: self.rows as nat,
            cells: self.cells@,
        }
    }
}

impl Clone for Sigil {
    fn clone(&self) -> (copy: Sigil)
        ensures
            copy@ == self@,
    {
        proof {
            use_type_invariant(self);
        }
        Sigil {
            foreground: self.foreground,
            background: self.background,
            rows: self.rows,
            cells: self.cells,
        }
    }
}

impl Sigil {
    /// Every sigil has between 1 and 15 rows, and its cells form a grid of
    /// that many rows whose right half mirrors the left.
    #[verifier::type_invariant]
    spec fn well_formed(self) -> bool {
        &&& 1 <= self.rows <= 15
        &&& mirrored(self.rows as int, self.cells@)
        &&& confined(self.rows as int, self.cells@)
    }

    /// Creates a sigil for a precomputed digest. A theme whose number of
    /// rows is not between 1 and 15, or that has no foreground colour, is
    /// rejected.
    pub fn from_hash(theme: &Theme, hash: [u8; 16]) -> (res: Result<Sigil, ConfigError>)
        ensures
            generated(theme, hash@, res),
    {
        match theme.validate() {
            Err(e) => Err(e),
            Ok(()) => {
                let foreground = theme.pick_foreground(hash[0]);
                let background = theme.background;
                let source = slice_subrange(hash.as_slice(), 1, 16);
                let cells = generate_cells(theme.rows as usize, source);
                Ok(Sigil { foreground, background, rows: theme.rows, cells })
            },
        }
    }

    /// Generates a sigil by hashing an input. Any input is valid; the theme
    /// is checked before anything is hashed.
    pub fn generate(theme: &Theme, input: &[u8]) -> (res: Result<Sigil, ConfigError>)
        ensures
            generated(theme, md5_digest(input@), res),
    {
        match theme.validate() {
            Err(e) => Err(e),
            Ok(()) => Sigil::from_hash(theme, md5(input)),
        }
    }

    /// Swaps foreground and background colours; rows and cells stay.
    pub fn invert(self) -> (inverted: Sigil)
        ensures
            inverted@ == self@.inverted(),
    {
        proof {
            use_type_invariant(&self);
        }
        Sigil {
            foreground: self.background,
            background: self.foreground,
            rows: self.rows,
            cells: self.cells,
        }
    }

    /// Colour of the filled cells.
    pub fn foreground(&self) -> (color: Rgb)
        ensures
            color == self@.foreground,
    {
        self.foreground
    }

    /// Colour of the empty cells and of the border.
    pub fn background(&self) -> (color: Rgb)
        ensures
            color == self@.background,
    {
        self.background
    }

    /// Number of rows and columns of the grid.
    pub fn rows(&self) -> (rows: u16)
        ensures
            rows == self@.rows,
            1 <= rows <= 15,
    {
        proof {
            use_type_invariant(self);
        }
        self.rows
    }

    /// The cells of the grid: the right half mirrors the left, and nothing
    /// outside the grid is filled.
    pub fn cells(&self) -> (cells: &Cells)
        ensures
            cells@ == self@.cells,
            mirrored(self@.rows as int, cells@),
            confined(self@.rows as int, cells@),
    {
        proof {
            use_type_invariant(self);
        }
        &self.cells
    }

    /// Whether the cell in column `x` of row `y` is filled; its mirror image
    /// in column `rows - 1 - x` is filled alike.
    pub fn is_filled(&self, x: u16, y: u16) -> (filled: bool)
        requires
            x < self@.rows,
            y < self@.rows,
        ensures
            filled == self@.cells[cell_index(self@.rows as int, x as int, y as int)],
            filled == self@.cells[cell_index(self@.rows as int, self@.rows - 1 - x, y as int)],
    {
        proof {
            use_type_invariant(self);
            lemma_index(self.rows as int, x as int, y as int);
            assert(self.rows * self.rows <= 225) by (nonlinear_arith)
                requires
                    1 <= self.rows <= 15,
            ;
        }
        let rows = self.rows as usize;
        self.cells.get((y as usize) * rows + (x as usize))
    }
}

/// Inverting twice gives the sigil back: the swap of the two colours is its
/// own inverse, and it never touches rows or cells.
pub proof fn lemma_invert_involution(sigil: SigilView)
    ensures
        sigil.inverted().inverted() == sigil,
        sigil.inverted().rows == sigil.rows,
        sigil.inverted().cells == sigil.cells,
        sigil.inverted().foreground == sigil.background,
        sigil.inverted().background == sigil.foreground,
{
}

/// Generation is deterministic: whatever two runs of [`Sigil::from_hash`] on
/// the same theme and the same digest return, they agree on the outcome, and
/// where that is a sigil, on its colours, its rows and every cell. The same
/// holds of two runs of [`Sigil::generate`] on the same theme and the same
/// input, with the digest of that input.
pub proof fn lemma_generation_deterministic(
    theme: &Theme,
    digest: Seq<u8>,
    first: Result<Sigil, ConfigError>,
    second: Result<Sigil, ConfigError>,
)
    requires
        generated(theme, digest, first),
        generated(theme, digest, second),
    ensures
        first is Ok <==> second is Ok,
        first is Ok ==> first->Ok_0@ == second->Ok_0@,
        first is Err ==> first->Err_0 == second->Err_0,
{
}

} // verus!
