//! A grid as text: one line per row, `X` for a filled cell and `-` for an
//! empty one.

use crate::cells::Cells;
use crate::grid::cell_index;
use crate::grid::lemma_index;
use crate::sigil::Sigil;
use vstd::arithmetic::div_mod::lemma_fundamental_div_mod_converse;
use vstd::prelude::*;

verus! {

/// The text of a grid of `rows` rows: each row is `rows` characters, `X` or
/// `-`, and a line feed.
pub open spec fn rendering(cells: Seq<bool>, rows: int) -> Seq<char> {
    Seq::new(
        (rows * (rows + 1)) as nat,
        |i: int|
            if i % (rows + 1) == rows {
                '\n'
            } else if cells[cell_index(rows, i % (rows + 1), i / (rows + 1))] {
                'X'
            } else {
                '-'
            },
    )
}

/// The cells of a sigil, ready to be turned into text.
pub struct DisplayCells<'a> {
    cells: &'a Cells,
    rows: usize,
}

impl<'a> View for DisplayCells<'a> {
    type V = Seq<char>;

    /// The text that [`DisplayCells::to_string`] returns.
    closed spec fn view(&self) -> Seq<char> {
        rendering(self.cells@, self.rows as int)
    }
}

impl<'a> DisplayCells<'a> {
    /// The grid has between 1 and 15 rows.
    #[verifier::type_invariant]
    spec fn well_formed(self) -> bool {
        1 <= self.rows <= 15
    }

    /// The grid as text, row by row from the top.
    pub fn to_string(&self) -> (text: String)
        ensures
            text@ == self@,
    {
        proof {
            use_type_invariant(self);
            reveal_strlit("X");
            reveal_strlit("-");
            reveal_strlit("\n");
        }
        let rows = self.rows;
        let ghost want = rendering(self.cells@, rows as int);
        let mut text = String::new();
        let mut y: usize = 0;
        while y < rows
            invariant
                1 <= rows <= 15,
                y <= rows,
                want == rendering(self.cells@, rows as int),
                "X"@ == seq!['X'],
                "-"@ == seq!['-'],
                "\n"@ == seq!['\n'],
                text@ == want.subrange(0, y * (rows + 1)),
            decreases rows - y,
        {
            proof {
                assert(0 <= y * (rows + 1) && (y + 1) * (rows + 1) <= rows * (rows + 1)
                    && (y + 1) * (rows + 1) == y * (rows + 1) + rows + 1) by (nonlinear_arith)
                    requires
                        0 <= y < rows,
                ;
            }
            let mut x: usize = 0;
            while x < rows
                invariant
                    1 <= rows <= 15,
                    y < rows,
                    x <= rows,
                    want == rendering(self.cells@, rows as int),
                    "X"@ == seq!['X'],
                    "-"@ == seq!['-'],
                    0 <= y * (rows + 1),
                    y * (rows + 1) + rows + 1 <= rows * (rows + 1),
                    text@ == want.subrange(0, y * (rows + 1) + x),
                decreases rows - x,
            {
                proof {
                    lemma_index(rows as int, x as int, y as int);
                    lemma_fundamental_div_mod_converse(
                        y * (rows + 1) + x,
                        rows + 1,
                        y as int,
                        x as int,
                    );
                    assert(rows * rows <= 225) by (nonlinear_arith)
                        requires
                            1 <= rows <= 15,
                    ;
                }
                if self.cells.get(y * rows + x) {
                    text.append("X");
                } else {
                    text.append("-");
                }
                assert(text@ =~= want.subrange(0, y * (rows + 1) + x + 1));
                x += 1;
            }
            proof {
                lemma_fundamental_div_mod_converse(
                    y * (rows + 1) + rows,
                    rows + 1,
                    y as int,
                    rows as int,
                );
            }
            text.append("\n");
            assert(text@ =~= want.subrange(0, (y + 1) * (rows + 1)));
            y += 1;
        }
        assert(text@ =~= want);
        text
    }
}

impl Sigil {
    /// The cells of the sigil, ready to be turned into text.
    pub fn display(&self) -> (shown: DisplayCells<'_>)
        ensures
            shown@ == rendering(self@.cells, self@.rows as int),
    {
        let rows = self.rows();
        DisplayCells { cells: self.cells(), rows: rows as usize }
    }
}

} // verus!
