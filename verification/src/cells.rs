//! A fixed-capacity bit set that stores the cells of a grid.

use vstd::prelude::*;

verus! {

/// Whether bit `k` of `byte` is set, counting from the least significant bit.
spec fn bit_is_set(byte: u8, k: int) -> bool {
    byte & (1u8 << (k as u8)) != 0
}

/// The cell at index `i` of a bit set stored as bytes, eight cells to a byte,
/// the lowest index in the least significant bit.
spec fn stored_cell(bits: Seq<u8>, i: int) -> bool {
    bit_is_set(bits[i / 8], i % 8)
}

/// A bit set of 256 cells, each addressed by an index below 256.
#[derive(Clone, Copy, Debug)]
pub struct Cells {
    bits: [u8; 32],
}

impl View for Cells {
    type V = Seq<bool>;

    /// The 256 cells in index order: `true` for a filled cell.
    closed spec fn view(&self) -> Seq<bool> {
        Seq::new(256, |i: int| stored_cell(self.bits@, i))
    }
}

impl Cells {
    /// A set with every cell empty.
    pub fn new() -> (cells: Cells)
        ensures
            cells@ == Seq::new(256, |i: int| false),
    {
        let cells = Cells { bits: [0u8; 32] };
        proof {
            assert forall|i: int| 0 <= i < 256 implies !#[trigger] stored_cell(cells.bits@, i) by {
                let k = (i % 8) as u8;
                assert(0u8 & (1u8 << k) == 0) by (bit_vector);
            }
            assert(cells@ =~= Seq::new(256, |i: int| false));
        }
        cells
    }

    /// The number of cells, which is the same for every value.
    pub fn capacity(&self) -> (n: usize)
        ensures
            n == 256,
            n == self@.len(),
    {
        self.bits.len() * 8
    }

    /// Whether the cell at `index` is filled.
    pub fn get(&self, index: usize) -> (filled: bool)
        requires
            index < 256,
        ensures
            filled == self@[index as int],
    {
        let byte = self.bits[index / 8];
        let mask = 1u8 << ((index % 8) as u8);
        byte & mask != 0
    }

    /// Fills the cell at `index` and leaves every other cell as it was.
    pub fn set(&mut self, index: usize)
        requires
            index < 256,
        ensures
            final(self)@ == old(self)@.update(index as int, true),
    {
        let slot = index / 8;
        let shift = (index % 8) as u8;
        let byte = self.bits[slot];
        self.bits[slot] = byte | (1u8 << shift);
        proof {
            let filled = old(self)@.update(index as int, true);
            assert forall|i: int| 0 <= i < 256 implies self@[i] == filled[i] by {
                lemma_set_bit(byte, shift, (i % 8) as u8);
            }
            assert(self@ =~= filled);
        }
    }
}

/// Setting bit `k` of a byte sets that bit and keeps every other.
proof fn lemma_set_bit(byte: u8, k: u8, j: u8)
    requires
        k < 8,
        j < 8,
    ensures
        bit_is_set(byte | (1u8 << k), j as int) == (j == k || bit_is_set(byte, j as int)),
{
    assert(((byte | (1u8 << k)) & (1u8 << j) != 0) == (j == k || byte & (1u8 << j) != 0))
        by (bit_vector)
        requires
            k < 8,
            j < 8,
    ;
}

} // verus!
