//! The executable engine: a bit-packed toroidal grid of cells with the
//! operations a host drives it through, each proved against the model.

use crate::bits::{bitset_bits, bitset_contains, bitset_set, bitset_with_capacity};
use crate::model::{
    alive_at, cleared, dead_grid, glider_stamped, lemma_flat_in_range, life_rule, marked,
    marked_all, neighbor_count, next_gen, reseeded, rendered, row_prefix, rows_prefix, seeded,
    seeded_grid, stamped, toggled, wf_view, with_height, with_width, wrap, UniverseView,
};
use vstd::arithmetic::div_mod::lemma_fundamental_div_mod_converse;
use vstd::prelude::*;
use vstd::string::StringExecFns;

verus! {

/// A toroidal Game of Life universe: a dense bit per cell, row-major, plus a
/// generation counter. Edges wrap: neighbors are taken modulo the dimensions.
pub struct Universe {
    width: u32,
    height: u32,
    cells: fixedbitset::FixedBitSet,
    tick_count: usize,
}

impl View for Universe {
    type V = UniverseView;

    closed spec fn view(&self) -> UniverseView {
        UniverseView {
            width: self.width as nat,
            height: self.height as nat,
            cells: bitset_bits(self.cells),
            ticks: self.tick_count as nat,
        }
    }
}

impl Universe {
    /// Well-formed universe: positive dimensions whose product fits the
    /// machine arithmetic, and exactly one stored bit per cell.
    pub open spec fn wf(&self) -> bool {
        wf_view(self@)
    }

    /// Flat row-major index of `(row, col)`.
    fn get_index(&self, row: u32, col: u32) -> (idx: usize)
        requires
            self.wf(),
            row < self@.height,
            col < self@.width,
        ensures
            idx == row * self@.width + col,
    {
        proof {
            lemma_flat_in_range(self.width as int, self.height as int, row as int, col as int);
        }
        (row * self.width + col) as usize
    }

    /// One toroidal step: `(i + d) % m`.
    fn wrap_add(i: u32, d: u32, m: u32) -> (r: u32)
        requires
            1 <= m,
        ensures
            r == wrap(i as int, d as int, m as int),
            r < m,
    {
        let s: u64 = i as u64 + d as u64;
        (s % (m as u64)) as u32
    }

    /// Whether the cell at `(row, col)` is alive.
    fn cell_at(&self, row: u32, col: u32) -> (b: bool)
        requires
            self.wf(),
            row < self@.height,
            col < self@.width,
        ensures
            b == alive_at(self@, row as int, col as int),
    {
        proof {
            lemma_flat_in_range(self.width as int, self.height as int, row as int, col as int);
        }
        let idx = self.get_index(row, col);
        bitset_contains(&self.cells, idx)
    }

    /// Count of live cells among the 8 toroidally-wrapped neighbors of
    /// `(row, col)`.
    fn live_neighbor_count(&self, row: u32, col: u32) -> (count: u8)
        requires
            self.wf(),
            row < self@.height,
            col < self@.width,
        ensures
            count == neighbor_count(self@, row as int, col as int),
    {
        let h = self.height;
        let w = self.width;
        let up = Self::wrap_add(row, h - 1, h);
        let mid_row = Self::wrap_add(row, 0, h);
        let down = Self::wrap_add(row, 1, h);
        let left = Self::wrap_add(col, w - 1, w);
        let mid_col = Self::wrap_add(col, 0, w);
        let right = Self::wrap_add(col, 1, w);
        let mut count: u8 = 0;
        if self.cell_at(up, left) {
            count += 1;
        }
        if self.cell_at(up, mid_col) {
            count += 1;
        }
        if self.cell_at(up, right) {
            count += 1;
        }
        if self.cell_at(mid_row, left) {
            count += 1;
        }
        if self.cell_at(mid_row, right) {
            count += 1;
        }
        if self.cell_at(down, left) {
            count += 1;
        }
        if self.cell_at(down, mid_col) {
            count += 1;
        }
        if self.cell_at(down, right) {
            count += 1;
        }
        count
    }

    /// Writes the deterministic seed into the first `size` bits.
    fn reset_cells(cells: &mut fixedbitset::FixedBitSet, size: usize)
        requires
            size <= bitset_bits(*old(cells)).len(),
        ensures
            bitset_bits(*final(cells)).len() == bitset_bits(*old(cells)).len(),
            forall|i: int|
                0 <= i < size ==> bitset_bits(*final(cells))[i] == seeded(i),
            forall|i: int|
                size <= i < bitset_bits(*old(cells)).len() ==> bitset_bits(*final(cells))[i]
                    == bitset_bits(*old(cells))[i],
    {
        let mut i: usize = 0;
        while i < size
            invariant
                i <= size,
                size <= bitset_bits(*old(cells)).len(),
                bitset_bits(*cells).len() == bitset_bits(*old(cells)).len(),
                forall|j: int| 0 <= j < i ==> bitset_bits(*cells)[j] == seeded(j),
                forall|j: int|
                    i <= j < bitset_bits(*old(cells)).len() ==> bitset_bits(*cells)[j]
                        == bitset_bits(*old(cells))[j],
            decreases size - i,
        {
            bitset_set(cells, i, i % 2 == 0 || i % 7 == 0);
            i += 1;
        }
    }

    /// A fresh 64x64 universe, deterministically seeded: the cell at flat
    /// index `i` starts alive exactly when `i` is even or a multiple of 7.
    /// The generation counter starts at zero.
    pub fn new() -> (u: Universe)
        ensures
            u.wf(),
            u@.width == 64,
            u@.height == 64,
            u@.ticks == 0,
            u@.cells == seeded_grid(4096),
    {
        let width: u32 = 64;
        let height: u32 = 64;
        let size: usize = 4096;
        let mut cells = bitset_with_capacity(size);
        Self::reset_cells(&mut cells, size);
        let u = Universe { width, height, cells, tick_count: 0 };
        proof {
            assert(u@.cells =~= seeded_grid(4096));
        }
        u
    }

    /// Reseeds every cell deterministically; dimensions and the generation
    /// counter are unchanged.
    pub fn reset(&mut self)
        requires
            old(self).wf(),
        ensures
            final(self).wf(),
            final(self)@ == reseeded(old(self)@),
    {
        let size = (self.width * self.height) as usize;
        Self::reset_cells(&mut self.cells, size);
        proof {
            assert(self@.cells =~= seeded_grid((old(self)@.width * old(self)@.height) as nat));
            assert(self@ =~= reseeded(old(self)@));
        }
    }

    /// Kills every cell; dimensions and the generation counter are unchanged.
    pub fn dead(&mut self)
        requires
            old(self).wf(),
        ensures
            final(self).wf(),
            final(self)@ == cleared(old(self)@),
    {
        let size = (self.width * self.height) as usize;
        let mut i: usize = 0;
        while i < size
            invariant
                i <= size,
                self.width == old(self).width,
                self.height == old(self).height,
                self.tick_count == old(self).tick_count,
                old(self).wf(),
                size == old(self)@.width * old(self)@.height,
                bitset_bits(self.cells).len() == bitset_bits(old(self).cells).len(),
                forall|j: int| 0 <= j < i ==> !bitset_bits(self.cells)[j],
            decreases size - i,
        {
            bitset_set(&mut self.cells, i, false);
            i += 1;
        }
        proof {
            assert(self@.cells =~= dead_grid((old(self)@.width * old(self)@.height) as nat));
            assert(self@ =~= cleared(old(self)@));
        }
    }

    /// The grid width in cells.
    pub fn width(&self) -> (w: u32)
        ensures
            w == self@.width,
    {
        self.width
    }

    /// The grid height in cells.
    pub fn height(&self) -> (h: u32)
        ensures
            h == self@.height,
    {
        self.height
    }

    /// How many generations have been computed so far.
    pub fn tick_count(&self) -> (n: usize)
        ensures
            n == self@.ticks,
    {
        self.tick_count
    }

    /// Sets the width; the grid is reallocated with every cell dead.
    /// Dimensions of the other axis and the generation counter are unchanged.
    pub fn set_width(&mut self, width: u32)
        requires
            old(self).wf(),
            1 <= width,
            width * old(self)@.height <= u32::MAX,
        ensures
            final(self).wf(),
            final(self)@ == with_width(old(self)@, width as nat),
    {
        self.width = width;
        self.cells = bitset_with_capacity((width * self.height) as usize);
        proof {
            assert(self@ =~= with_width(old(self)@, width as nat));
        }
    }

    /// Sets the height; the grid is reallocated with every cell dead.
    /// Dimensions of the other axis and the generation counter are unchanged.
    pub fn set_height(&mut self, height: u32)
        requires
            old(self).wf(),
            1 <= height,
            old(self)@.width * height <= u32::MAX,
        ensures
            final(self).wf(),
            final(self)@ == with_height(old(self)@, height as nat),
    {
        self.height = height;
        self.cells = bitset_with_capacity((self.width * height) as usize);
        proof {
            assert(self@ =~= with_height(old(self)@, height as nat));
        }
    }

    /// Read-only view of the packed cell buffer: one bit per cell, row-major,
    /// bit `i` is the cell at flat index `i = row * width + col`. The borrow
    /// is transient: any mutating call may reallocate the buffer.
    pub fn cells(&self) -> (r: &fixedbitset::FixedBitSet)
        ensures
            bitset_bits(*r) == self@.cells,
    {
        &self.cells
    }

    /// Get the dead and alive values of the entire universe, as the packed
    /// row-major bit buffer.
    pub fn get_cells(&self) -> (r: &fixedbitset::FixedBitSet)
        ensures
            bitset_bits(*r) == self@.cells,
    {
        &self.cells
    }

    /// Flips the state of the single cell `(row, col)`: dead becomes alive,
    /// alive becomes dead.
    pub fn toggle_cell(&mut self, row: u32, col: u32)
        requires
            old(self).wf(),
            row < old(self)@.height,
            col < old(self)@.width,
        ensures
            final(self).wf(),
            final(self)@ == toggled(old(self)@, row as int, col as int),
    {
        proof {
            lemma_flat_in_range(self.width as int, self.height as int, row as int, col as int);
        }
        let idx = self.get_index(row, col);
        let set = bitset_contains(&self.cells, idx);
        bitset_set(&mut self.cells, idx, !set);
        proof {
            assert(self@ =~= toggled(old(self)@, row as int, col as int));
        }
    }

    /// Overwrites the one cell at wrapped offsets `(dr, dc)` from `(row, col)`
    /// with `alive`.
    fn stamp(&mut self, row: u32, col: u32, dr: u32, dc: u32, alive: bool)
        requires
            old(self).wf(),
        ensures
            final(self).wf(),
            final(self)@ == stamped(old(self)@, row as int, col as int, dr as int, dc as int, alive),
    {
        let r = Self::wrap_add(row, dr, self.height);
        let c = Self::wrap_add(col, dc, self.width);
        proof {
            lemma_flat_in_range(self.width as int, self.height as int, r as int, c as int);
        }
        let idx = self.get_index(r, c);
        bitset_set(&mut self.cells, idx, alive);
        proof {
            assert(self@ =~= stamped(old(self)@, row as int, col as int, dr as int, dc as int, alive));
        }
    }

    /// Writes the canonical 3x3 glider with its origin cell at `(row, col)`,
    /// offsets wrapped toroidally. All 9 footprint cells are overwritten,
    /// the dead cells of the pattern included.
    pub fn add_glider(&mut self, row: u32, col: u32)
        requires
            old(self).wf(),
        ensures
            final(self).wf(),
            final(self)@ == glider_stamped(old(self)@, row as int, col as int),
    {
        let h = self.height;
        let w = self.width;
        self.stamp(row, col, h - 1, w - 1, false);
        self.stamp(row, col, h - 1, 0, false);
        self.stamp(row, col, h - 1, 1, true);
        self.stamp(row, col, 0, w - 1, true);
        self.stamp(row, col, 0, 0, false);
        self.stamp(row, col, 0, 1, true);
        self.stamp(row, col, 1, w - 1, false);
        self.stamp(row, col, 1, 0, true);
        self.stamp(row, col, 1, 1, true);
    }

    /// Marks every listed `(row, col)` coordinate alive, in list order;
    /// unlisted cells, the dimensions and the counter are unchanged.
    pub fn set_cells(&mut self, cells: &[(u32, u32)])
        requires
            old(self).wf(),
            forall|k: int|
                0 <= k < cells@.len() ==> cells@[k].0 < old(self)@.height && cells@[k].1 < old(
                    self,
                )@.width,
        ensures
            final(self).wf(),
            final(self)@ == marked_all(old(self)@, cells@),
    {
        let mut k: usize = 0;
        while k < cells.len()
            invariant
                k <= cells@.len(),
                old(self).wf(),
                forall|j: int|
                    0 <= j < cells@.len() ==> cells@[j].0 < old(self)@.height && cells@[j].1 < old(
                        self,
                    )@.width,
                self@ == marked_all(old(self)@, cells@.take(k as int)),
                self.width == old(self).width,
                self.height == old(self).height,
                self.wf(),
            decreases cells@.len() - k,
        {
            let (row, col) = cells[k];
            proof {
                lemma_flat_in_range(self.width as int, self.height as int, row as int, col as int);
                assert(cells@.take(k + 1).drop_last() =~= cells@.take(k as int));
            }
            let idx = self.get_index(row, col);
            bitset_set(&mut self.cells, idx, true);
            proof {
                assert(self@ =~= marked(
                    marked_all(old(self)@, cells@.take(k as int)),
                    row as int,
                    col as int,
                ));
            }
            k += 1;
        }
        proof {
            assert(cells@.take(cells@.len() as int) =~= cells@);
        }
    }

    /// Advances one generation: every cell of the new grid is computed by the
    /// B3/S23 rule from the *pre-tick* grid (a separate output buffer, swapped
    /// in wholesale), then the generation counter increments by one.
    pub fn tick(&mut self)
        requires
            old(self).wf(),
            old(self)@.ticks < usize::MAX,
        ensures
            final(self).wf(),
            final(self)@ == next_gen(old(self)@),
    {
        let size = (self.width * self.height) as usize;
        let mut next = bitset_with_capacity(size);
        let ghost v = self@;
        let mut row: u32 = 0;
        while row < self.height
            invariant
                *self == *old(self),
                v == self@,
                self.wf(),
                row <= self@.height,
                size == self@.width * self@.height,
                bitset_bits(next).len() == size,
                forall|i: int|
                    0 <= i < row * v.width ==> bitset_bits(next)[i] == life_rule(
                        v.cells[i],
                        neighbor_count(v, i / v.width as int, i % v.width as int),
                    ),
            decreases self@.height - row,
        {
            let mut col: u32 = 0;
            while col < self.width
                invariant
                    *self == *old(self),
                    v == self@,
                    self.wf(),
                    row < self@.height,
                    col <= self@.width,
                    size == self@.width * self@.height,
                    bitset_bits(next).len() == size,
                    forall|i: int|
                        0 <= i < row * v.width + col ==> bitset_bits(next)[i] == life_rule(
                            v.cells[i],
                            neighbor_count(v, i / v.width as int, i % v.width as int),
                        ),
                decreases self@.width - col,
            {
                let idx = self.get_index(row, col);
                let cell = self.cell_at(row, col);
                let live_neighbor = self.live_neighbor_count(row, col);
                let next_cell = if cell {
                    live_neighbor == 2 || live_neighbor == 3
                } else {
                    live_neighbor == 3
                };
                proof {
                    lemma_flat_in_range(
                        self.width as int,
                        self.height as int,
                        row as int,
                        col as int,
                    );
                    lemma_fundamental_div_mod_converse(
                        idx as int,
                        v.width as int,
                        row as int,
                        col as int,
                    );
                }
                bitset_set(&mut next, idx, next_cell);
                col += 1;
            }
            proof {
                assert(row as int * v.width + v.width == (row + 1) * v.width) by (nonlinear_arith);
            }
            row += 1;
        }
        proof {
            assert(row as int * v.width == v.width * v.height) by (nonlinear_arith)
                requires
                    row == v.height,
            ;
            assert(bitset_bits(next) =~= next_gen(v).cells);
        }
        self.cells = next;
        self.tick_count = self.tick_count + 1;
        proof {
            assert(self@ =~= next_gen(old(self)@));
        }
    }

    /// Renders the grid as text: `height` lines of `width` glyphs each, one
    /// glyph per cell in row-major top-to-bottom order, a filled square for a
    /// live cell and an open square for a dead one, each line ended by a
    /// newline.
    pub fn render(&self) -> (s: String)
        requires
            self.wf(),
        ensures
            s@ == rendered(self@),
    {
        let mut s = String::new();
        let mut row: u32 = 0;
        while row < self.height
            invariant
                self.wf(),
                row <= self@.height,
                s@ == rows_prefix(self@, row as int),
            decreases self@.height - row,
        {
            let mut col: u32 = 0;
            while col < self.width
                invariant
                    self.wf(),
                    row < self@.height,
                    col <= self@.width,
                    s@ == rows_prefix(self@, row as int) + row_prefix(
                        self@,
                        row as int,
                        col as int,
                    ),
                decreases self@.width - col,
            {
                if self.cell_at(row, col) {
                    s.append("◼");
                    proof {
                        reveal_strlit("◼");
                    }
                } else {
                    s.append("◻");
                    proof {
                        reveal_strlit("◻");
                    }
                }
                proof {
                    assert(s@ =~= rows_prefix(self@, row as int) + row_prefix(
                        self@,
                        row as int,
                        col + 1,
                    ));
                }
                col += 1;
            }
            s.append("\n");
            proof {
                reveal_strlit("\n");
                assert(s@ =~= rows_prefix(self@, row as int + 1));
            }
            row += 1;
        }
        s
    }
}

} // verus!
