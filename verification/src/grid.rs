//! The rule that turns fifteen source bytes into a mirrored grid of cells.
//!
//! The source is read as a stream of 120 bits, most significant bit of each
//! byte first. The bits fill the left half of the grid column by column (the
//! middle column too when the number of rows is odd); the right half is the
//! mirror image of the left.

use crate::cells::Cells;
use vstd::arithmetic::div_mod::lemma_fundamental_div_mod;
use vstd::arithmetic::div_mod::lemma_fundamental_div_mod_converse;
use vstd::arithmetic::div_mod::lemma_mod_bound;
use vstd::prelude::*;

verus! {

/// Bit `i` of the source, counting from the most significant bit of byte 0.
pub open spec fn source_bit(source: Seq<u8>, i: int) -> bool {
    (source[i / 8] >> ((7 - i % 8) as u8)) & 1u8 == 1u8
}

/// Number of columns that are read from the source: half the rows, rounded up.
pub open spec fn columns(rows: int) -> int {
    rows / 2 + rows % 2
}

/// The column of the left half that decides column `x`: `x` itself, or its
/// mirror image when `x` lies in the right half.
pub open spec fn source_column(rows: int, x: int) -> int {
    if x <= rows - 1 - x {
        x
    } else {
        rows - 1 - x
    }
}

/// Whether the cell in column `x` of row `y` is filled.
pub open spec fn cell_filled(rows: int, source: Seq<u8>, x: int, y: int) -> bool {
    source_bit(source, source_column(rows, x) * rows + y)
}

/// Index of the cell in column `x` of row `y`: the grid is stored row by row.
pub open spec fn cell_index(rows: int, x: int, y: int) -> int {
    y * rows + x
}

/// Every cell is filled exactly when its mirror image across the vertical
/// axis of the grid is.
pub open spec fn mirrored(rows: int, cells: Seq<bool>) -> bool {
    forall|x: int, y: int|
        0 <= x < rows && 0 <= y < rows ==> #[trigger] cells[cell_index(rows, x, y)]
            == cells[cell_index(rows, rows - 1 - x, y)]
}

/// No cell outside the grid is filled.
pub open spec fn confined(rows: int, cells: Seq<bool>) -> bool {
    forall|k: int| rows * rows <= k < 256 ==> !#[trigger] cells[k]
}

/// The cells of a grid with `rows` rows and columns, stored row by row at
/// index `y * rows + x`. Indices from `rows * rows` on are never filled.
pub open spec fn grid(rows: int, source: Seq<u8>) -> Seq<bool> {
    Seq::new(256, |k: int| k < rows * rows && cell_filled(rows, source, k % rows, k / rows))
}

/// The grid after the first `n` bits of the source have been placed.
spec fn grid_prefix(rows: int, source: Seq<u8>, n: int) -> Seq<bool> {
    Seq::new(
        256,
        |k: int|
            {
                &&& k < rows * rows
                &&& source_column(rows, k % rows) * rows + k / rows < n
                &&& cell_filled(rows, source, k % rows, k / rows)
            },
    )
}

/// A cell index below `rows * rows` splits into a column and a row of the grid.
pub proof fn lemma_coordinates(rows: int, k: int)
    requires
        1 <= rows,
        0 <= k < rows * rows,
    ensures
        0 <= k % rows < rows,
        0 <= k / rows < rows,
        k == (k / rows) * rows + k % rows,
{
    lemma_fundamental_div_mod(k, rows);
    lemma_mod_bound(k, rows);
    let q = k / rows;
    assert(rows * q == q * rows) by (nonlinear_arith);
    assert(0 <= q < rows) by (nonlinear_arith)
        requires
            1 <= rows,
            0 <= k < rows * rows,
            0 <= k - q * rows < rows,
    ;
}

/// Column `x` of row `y` is stored at an index of its own below `rows * rows`.
pub proof fn lemma_index(rows: int, x: int, y: int)
    requires
        1 <= rows,
        0 <= x < rows,
        0 <= y < rows,
    ensures
        0 <= cell_index(rows, x, y) < rows * rows,
        cell_index(rows, x, y) % rows == x,
        cell_index(rows, x, y) / rows == y,
{
    assert(0 <= y * rows + x < rows * rows) by (nonlinear_arith)
        requires
            1 <= rows,
            0 <= x < rows,
            0 <= y < rows,
    ;
    lemma_fundamental_div_mod_converse(y * rows + x, rows, y, x);
}

/// Every bit that a grid of at most 15 rows reads lies within the 120 bits
/// of the source: 15 rows read exactly 120.
pub proof fn lemma_source_bits_in_range(rows: int, x: int, y: int)
    requires
        1 <= rows <= 15,
        0 <= x < rows,
        0 <= y < rows,
    ensures
        0 <= source_column(rows, x) < columns(rows),
        0 <= source_column(rows, x) * rows + y < columns(rows) * rows,
        columns(rows) * rows <= 120,
{
    let c = source_column(rows, x);
    let cols = columns(rows);
    assert(0 <= c * rows + y < cols * rows) by (nonlinear_arith)
        requires
            0 <= c < cols,
            0 <= y < rows,
    ;
    assert(cols * rows <= 120) by (nonlinear_arith)
        requires
            1 <= cols <= 8,
            1 <= rows <= 15,
    ;
}

/// Bit `i` of the left half belongs to column `i / rows` and row `i % rows`.
pub proof fn lemma_bit_position(rows: int, i: int)
    requires
        1 <= rows <= 15,
        0 <= i < columns(rows) * rows,
    ensures
        0 <= i / rows < columns(rows),
        0 <= i % rows < rows,
        i == (i / rows) * rows + i % rows,
{
    let x = i / rows;
    lemma_fundamental_div_mod(i, rows);
    lemma_mod_bound(i, rows);
    assert(rows * x == x * rows) by (nonlinear_arith);
    assert(0 <= x < columns(rows)) by (nonlinear_arith)
        requires
            1 <= rows,
            0 <= i < columns(rows) * rows,
            0 <= i - x * rows < rows,
    ;
}

/// Mirror symmetry: a cell and its mirror image across the vertical axis of
/// the grid are filled alike, whatever the source holds. Nothing outside
/// the grid is filled, and each cell of the grid reads the source bit that
/// its row and its column of the left half name.
pub proof fn lemma_mirror_symmetry(rows: int, source: Seq<u8>)
    requires
        1 <= rows <= 15,
    ensures
        mirrored(rows, grid(rows, source)),
        confined(rows, grid(rows, source)),
        forall|x: int, y: int|
            0 <= x < rows && 0 <= y < rows ==> #[trigger] grid(rows, source)[cell_index(rows, x, y)]
                == cell_filled(rows, source, x, y),
{
    let cells = grid(rows, source);
    assert(rows * rows <= 225) by (nonlinear_arith)
        requires
            1 <= rows <= 15,
    ;
    assert forall|x: int, y: int| 0 <= x < rows && 0 <= y < rows implies {
        &&& #[trigger] cells[cell_index(rows, x, y)] == cell_filled(rows, source, x, y)
        &&& cells[cell_index(rows, x, y)] == cells[cell_index(rows, rows - 1 - x, y)]
    } by {
        lemma_index(rows, x, y);
        lemma_index(rows, rows - 1 - x, y);
    }
}

/// Bit `i` of the source decides the cell in column `i / rows` of row
/// `i % rows` and that cell's mirror image: the bits fill the left half of
/// the grid column by column.
pub proof fn lemma_bit_decides_cells(rows: int, source: Seq<u8>, i: int)
    requires
        1 <= rows <= 15,
        0 <= i < columns(rows) * rows,
    ensures
        grid(rows, source)[cell_index(rows, i / rows, i % rows)] == source_bit(source, i),
        grid(rows, source)[cell_index(rows, rows - 1 - i / rows, i % rows)]
            == source_bit(source, i),
{
    lemma_bit_position(rows, i);
    lemma_mirror_symmetry(rows, source);
    let cells = grid(rows, source);
    assert(cells[cell_index(rows, i / rows, i % rows)]
        == cell_filled(rows, source, i / rows, i % rows));
}

/// Placing bit `i` fills the cell it names and that cell's mirror image when
/// the bit is set, and changes nothing when it is clear.
proof fn lemma_place_bit(rows: int, source: Seq<u8>, i: int)
    requires
        1 <= rows <= 15,
        0 <= i < columns(rows) * rows,
    ensures
        0 <= cell_index(rows, i / rows, i % rows) < rows * rows,
        0 <= cell_index(rows, rows - 1 - i / rows, i % rows) < rows * rows,
        rows * rows <= 225,
        grid_prefix(rows, source, i + 1) == if source_bit(source, i) {
            grid_prefix(rows, source, i).update(
                cell_index(rows, i / rows, i % rows),
                true,
            ).update(cell_index(rows, rows - 1 - i / rows, i % rows), true)
        } else {
            grid_prefix(rows, source, i)
        },
{
    let x0 = i / rows;
    let y0 = i % rows;
    lemma_bit_position(rows, i);
    lemma_index(rows, x0, y0);
    lemma_index(rows, rows - 1 - x0, y0);
    assert(rows * rows <= 225) by (nonlinear_arith)
        requires
            1 <= rows <= 15,
    ;
    let left = cell_index(rows, x0, y0);
    let right = cell_index(rows, rows - 1 - x0, y0);
    let before = grid_prefix(rows, source, i);
    let after = grid_prefix(rows, source, i + 1);
    let placed = if source_bit(source, i) {
        before.update(left, true).update(right, true)
    } else {
        before
    };
    assert forall|k: int| 0 <= k < 256 implies after[k] == placed[k] by {
        if k < rows * rows {
            lemma_coordinates(rows, k);
            let x = k % rows;
            let y = k / rows;
            let c = source_column(rows, x);
            lemma_fundamental_div_mod_converse(c * rows + y, rows, c, y);
            // The cell reads bit `i` exactly when it is one of the two placed.
            assert((c * rows + y == i) <==> (k == left || k == right));
        }
    }
    assert(after =~= placed);
}

/// Once all the bits of the left half are placed the grid is complete.
proof fn lemma_all_bits_placed(rows: int, source: Seq<u8>)
    requires
        1 <= rows <= 15,
    ensures
        grid_prefix(rows, source, columns(rows) * rows) == grid(rows, source),
{
    let placed = grid_prefix(rows, source, columns(rows) * rows);
    let whole = grid(rows, source);
    assert forall|k: int| 0 <= k < 256 implies placed[k] == whole[k] by {
        if k < rows * rows {
            lemma_coordinates(rows, k);
            lemma_source_bits_in_range(rows, k % rows, k / rows);
        }
    }
    assert(placed =~= whole);
}

/// Whether bit `index` of the 15-byte source is set, counting from the most
/// significant bit of the first byte.
pub fn should_fill(index: usize, hash: &[u8]) -> (filled: bool)
    requires
        hash@.len() == 15,
        index < 120,
    ensures
        filled == source_bit(hash@, index as int),
{
    let shift: u8 = (8 - ((index % 8) + 1)) as u8;
    (hash[index / 8] >> shift) & 1 == 1
}

/// Builds the grid of `size` rows and columns from the 15-byte source.
pub fn generate_cells(size: usize, hash: &[u8]) -> (cells: Cells)
    requires
        1 <= size <= 15,
        hash@.len() == 15,
    ensures
        cells@ == grid(size as int, hash@),
        mirrored(size as int, cells@),
        confined(size as int, cells@),
{
    let cols = (size / 2) + (size % 2);
    proof {
        lemma_source_bits_in_range(size as int, 0, 0);
    }
    let total = cols * size;
    let mut cells = Cells::new();
    assert(cells@ =~= grid_prefix(size as int, hash@, 0));
    let mut i: usize = 0;
    while i < total
        invariant
            1 <= size <= 15,
            hash@.len() == 15,
            total == columns(size as int) * size,
            total <= 120,
            i <= total,
            cells@ == grid_prefix(size as int, hash@, i as int),
        decreases total - i,
    {
        proof {
            lemma_place_bit(size as int, hash@, i as int);
        }
        if should_fill(i, hash) {
            let x = i / size;
            let y = i % size;
            cells.set(y * size + x);
            // Mirror it.
            cells.set(y * size + size - 1 - x);
        }
        i += 1;
    }
    proof {
        lemma_all_bits_placed(size as int, hash@);
        lemma_mirror_symmetry(size as int, hash@);
    }
    cells
}

} // verus!
