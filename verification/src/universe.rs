//! The `Universe`: grid dimensions plus one alive/dead flag per cell, stored
//! bit-packed in row-major order.

use vstd::prelude::*;
use vstd::slice::slice_index_get;

use vstd::arithmetic::div_mod::lemma_fundamental_div_mod_converse;

use crate::bits::bits_of;
use crate::bits::bitset_clear;
use crate::bits::bitset_clone;
use crate::bits::bitset_get;
use crate::bits::bitset_len;
use crate::bits::bitset_set;
use crate::bits::bitset_toggle;
use crate::bits::bitset_with_capacity;
use crate::rules::bulk_set;
use crate::rules::lemma_bulk_set_empty;
use crate::rules::lemma_bulk_set_step;
use crate::rules::lemma_row_major_bound;
use crate::rules::live_neighbors;
use crate::rules::neighbor_term;
use crate::rules::next_state;
use crate::rules::pair_index;
use crate::rules::target_cells;
use crate::rules::tick_spec;
use crate::rules::wrap_offset;
use crate::pattern::Pattern;
use crate::pattern::pattern_of;

verus! {

/// The abstract state of a universe: its dimensions and one flag per cell,
/// row-major (index = row * width + column).
pub struct GridModel {
    pub width: nat,
    pub height: nat,
    pub cells: Seq<bool>,
}

/// A toroidal Game-of-Life grid.
pub struct Universe {
    width: u32,
    height: u32,
    cells: fixedbitset::FixedBitSet,
}

impl View for Universe {
    type V = GridModel;

    closed spec fn view(&self) -> GridModel {
        GridModel {
            width: self.width as nat,
            height: self.height as nat,
            cells: bits_of(self.cells),
        }
    }
}

impl Universe {
    /// The cell buffer holds exactly `width * height` flags.
    pub open spec fn wf(self) -> bool {
        &&& self@.cells.len() == self@.width * self@.height
        &&& self@.width * self@.height <= usize::MAX
    }

    /// Builds a universe of the given dimensions whose cells are exactly
    /// `seed`, row-major.
    pub fn new(width: u32, height: u32, seed: &[bool]) -> (u: Universe)
        requires
            seed@.len() == (width as int) * (height as int),
        ensures
            u.wf(),
            u@.width == width,
            u@.height == height,
            u@.cells == seed@,
    {
        let size = seed.len();
        let mut cells = bitset_with_capacity(size);
        for i in 0..size
            invariant
                size == seed@.len(),
                bits_of(cells).len() == size,
                forall|j: int| 0 <= j < i ==> bits_of(cells)[j] == seed@[j],
                forall|j: int| i <= j < size ==> bits_of(cells)[j] == false,
        {
            let v = *slice_index_get(seed, i);
            bitset_set(&mut cells, i, v);
        }
        proof {
            assert(bits_of(cells) =~= seed@);
        }
        Universe { width, height, cells }
    }

    /// The grid's width, in cells per row.
    pub fn width(&self) -> (w: u32)
        ensures
            w == self@.width,
    {
        self.width
    }

    /// The grid's height, in cells per column.
    pub fn height(&self) -> (h: u32)
        ensures
            h == self@.height,
    {
        self.height
    }

    /// The whole cell buffer as one flag per cell, row-major.
    pub fn cells(&self) -> (r: Vec<bool>)
        ensures
            r@ == self@.cells,
    {
        let n = bitset_len(&self.cells);
        let mut out: Vec<bool> = Vec::new();
        for i in 0..n
            invariant
                n == bits_of(self.cells).len(),
                out@.len() == i,
                forall|j: int| 0 <= j < i ==> out@[j] == bits_of(self.cells)[j],
        {
            out.push(bitset_get(&self.cells, i));
        }
        proof {
            assert(out@ =~= self@.cells);
        }
        out
    }

    /// Read-only access to the packed cell buffer.
    pub fn get_cells(&self) -> (r: &fixedbitset::FixedBitSet)
        ensures
            bits_of(*r) == self@.cells,
    {
        &self.cells
    }

    /// The flat index of a pre-wrapped coordinate.
    fn get_index(&self, row: u32, column: u32) -> (idx: usize)
        requires
            self.wf(),
            row < self@.height,
            column < self@.width,
        ensures
            idx == row * self@.width + column,
            idx < self@.cells.len(),
    {
        proof {
            lemma_row_major_bound(
                row as int,
                column as int,
                self@.width as int,
                self@.height as int,
            );
            assert(self@.height * self@.width == self@.width * self@.height) by (nonlinear_arith);
        }
        (row as u64 * self.width as u64 + column as u64) as usize
    }

    /// Sets the grid's width; every cell of the reallocated buffer is dead.
    pub fn set_width(&mut self, width: u32)
        requires
            old(self).wf(),
            (width as int) * (old(self)@.height as int) <= usize::MAX,
        ensures
            final(self).wf(),
            final(self)@.width == width,
            final(self)@.height == old(self)@.height,
            final(self)@.cells == Seq::new(
                ((width as int) * (old(self)@.height as int)) as nat,
                |i: int| false,
            ),
    {
        self.width = width;
        let size = (self.width as u64 * self.height as u64) as usize;
        self.cells = bitset_with_capacity(size);
    }

    /// Sets the grid's height; every cell of the reallocated buffer is dead.
    pub fn set_height(&mut self, height: u32)
        requires
            old(self).wf(),
            (old(self)@.width as int) * (height as int) <= usize::MAX,
        ensures
            final(self).wf(),
            final(self)@.width == old(self)@.width,
            final(self)@.height == height,
            final(self)@.cells == Seq::new(
                ((old(self)@.width as int) * (height as int)) as nat,
                |i: int| false,
            ),
    {
        self.height = height;
        let size = (self.width as u64 * self.height as u64) as usize;
        self.cells = bitset_with_capacity(size);
    }

    /// Flips one cell's alive/dead state in place.
    pub fn toggle_cell(&mut self, row: u32, column: u32)
        requires
            old(self).wf(),
            row < old(self)@.height,
            column < old(self)@.width,
        ensures
            final(self).wf(),
            final(self)@.width == old(self)@.width,
            final(self)@.height == old(self)@.height,
            final(self)@.cells == old(self)@.cells.update(
                row * old(self)@.width + column,
                !old(self)@.cells[row * old(self)@.width + column],
            ),
    {
        let idx = self.get_index(row, column);
        bitset_toggle(&mut self.cells, idx);
    }

    /// Sets every cell to dead, preserving the dimensions.
    pub fn clear(&mut self)
        requires
            old(self).wf(),
        ensures
            final(self).wf(),
            final(self)@.width == old(self)@.width,
            final(self)@.height == old(self)@.height,
            final(self)@.cells == Seq::new(old(self)@.cells.len(), |i: int| false),
    {
        bitset_clear(&mut self.cells);
    }

    /// Sets each listed (row, column) cell to alive; all other cells keep
    /// their value. Listing a cell more than once is the same as listing it
    /// once.
    pub fn set_cells(&mut self, cells: &[(u32, u32)])
        requires
            old(self).wf(),
            forall|k: int|
                0 <= k < cells@.len() ==> (#[trigger] cells@[k]).0 < old(self)@.height
                    && cells@[k].1 < old(self)@.width,
        ensures
            final(self).wf(),
            final(self)@.width == old(self)@.width,
            final(self)@.height == old(self)@.height,
            final(self)@.cells == bulk_set(old(self)@.cells, old(self)@.width as int, cells@),
    {
        let ghost g0 = self@.cells;
        let ghost w = self@.width as int;
        let n = cells.len();
        proof {
            lemma_bulk_set_empty(g0, w, cells@.take(0));
        }
        for i in 0..n
            invariant
                self.wf(),
                self@.width == old(self)@.width,
                self@.height == old(self)@.height,
                w == self@.width as int,
                self@.cells.len() == g0.len(),
                n == cells@.len(),
                forall|k: int|
                    0 <= k < n ==> (#[trigger] cells@[k]).0 < self@.height && cells@[k].1
                        < self@.width,
                self@.cells == bulk_set(g0, w, cells@.take(i as int)),
        {
            let (r, c) = *slice_index_get(cells, i);
            let idx = self.get_index(r, c);
            bitset_set(&mut self.cells, idx, true);
            proof {
                assert(idx == pair_index(cells@[i as int], w));
                lemma_bulk_set_step(g0, w, cells@, i as int);
            }
        }
        proof {
            assert(cells@.take(n as int) =~= cells@);
        }
    }

    /// The number of live neighbors of `(row, column)` in the toroidal
    /// Moore neighborhood.
    pub fn live_neighbor_count(&self, row: u32, column: u32) -> (count: u8)
        requires
            self.wf(),
            1 <= self@.width,
            1 <= self@.height,
            row < self@.height,
            column < self@.width,
        ensures
            count == live_neighbors(
                self@.cells,
                self@.width as int,
                self@.height as int,
                row as int,
                column as int,
            ),
    {
        let h1 = self.height - 1;
        let w1 = self.width - 1;
        let mut count: u8 = 0;
        count = count + self.neighbor_delta(row, column, h1, w1);
        count = count + self.neighbor_delta(row, column, h1, 0);
        count = count + self.neighbor_delta(row, column, h1, 1);
        count = count + self.neighbor_delta(row, column, 0, w1);
        count = count + self.neighbor_delta(row, column, 0, 0);
        count = count + self.neighbor_delta(row, column, 0, 1);
        count = count + self.neighbor_delta(row, column, 1, w1);
        count = count + self.neighbor_delta(row, column, 1, 0);
        count = count + self.neighbor_delta(row, column, 1, 1);
        count
    }

    /// One summand of the neighbor count: the wrapped cell at the given
    /// offset pair, with the (0, 0) pair contributing nothing.
    fn neighbor_delta(&self, row: u32, column: u32, dr: u32, dc: u32) -> (t: u8)
        requires
            self.wf(),
            1 <= self@.width,
            1 <= self@.height,
            row < self@.height,
            column < self@.width,
        ensures
            t == neighbor_term(
                self@.cells,
                self@.width as int,
                self@.height as int,
                row as int,
                column as int,
                dr as int,
                dc as int,
            ),
            t <= 1,
    {
        if dr == 0 && dc == 0 {
            0
        } else {
            let h = self.height as u64;
            let w = self.width as u64;
            let nr = ((row as u64 + dr as u64) % h) as u32;
            let nc = ((column as u64 + dc as u64) % w) as u32;
            let idx = self.get_index(nr, nc);
            if bitset_get(&self.cells, idx) {
                1
            } else {
                0
            }
        }
    }

    /// Advances the universe by exactly one generation: every cell's next
    /// value is computed from the current generation's snapshot.
    pub fn tick(&mut self)
        requires
            old(self).wf(),
        ensures
            final(self).wf(),
            final(self)@.width == old(self)@.width,
            final(self)@.height == old(self)@.height,
            final(self)@.cells == tick_spec(
                old(self)@.cells,
                old(self)@.width as int,
                old(self)@.height as int,
            ),
    {
        let ghost g0 = self@.cells;
        let ghost w = self@.width as int;
        let ghost h = self@.height as int;
        let mut next = bitset_clone(&self.cells);
        let height = self.height;
        let width = self.width;
        proof {
            assert(0 * w == 0) by (nonlinear_arith);
        }
        for row in 0..height
            invariant
                self.wf(),
                w == self@.width as int,
                h == self@.height as int,
                self@.cells == g0,
                width == self.width,
                height == self.height,
                bits_of(next).len() == g0.len(),
                forall|j: int| 0 <= j < row * w ==> bits_of(next)[j] == tick_spec(g0, w, h)[j],
                forall|j: int| row * w <= j < g0.len() ==> bits_of(next)[j] == g0[j],
        {
            for col in 0..width
                invariant
                    self.wf(),
                    w == self@.width as int,
                    h == self@.height as int,
                    self@.cells == g0,
                    width == self.width,
                    height == self.height,
                    row < height,
                    bits_of(next).len() == g0.len(),
                    forall|j: int|
                        0 <= j < row * w + col ==> bits_of(next)[j] == tick_spec(g0, w, h)[j],
                    forall|j: int| row * w + col <= j < g0.len() ==> bits_of(next)[j] == g0[j],
            {
                let idx = self.get_index(row, col);
                let alive = bitset_get(&self.cells, idx);
                let live = self.live_neighbor_count(row, col);
                let v = if alive {
                    live == 2 || live == 3
                } else {
                    live == 3
                };
                bitset_set(&mut next, idx, v);
                proof {
                    lemma_fundamental_div_mod_converse(idx as int, w, row as int, col as int);
                    assert(v == next_state(g0[idx as int], live_neighbors(g0, w, h, idx as int / w, idx as int % w)));
                    assert(bits_of(next)[idx as int] == tick_spec(g0, w, h)[idx as int]);
                }
            }
            proof {
                assert((row + 1) * w == row * w + w) by (nonlinear_arith);
            }
        }
        proof {
            assert(height * w == w * h) by (nonlinear_arith)
                requires
                    w == width as int,
                    h == height as int,
            ;
        }
        self.cells = next;
        proof {
            assert(self@.cells =~= tick_spec(g0, w, h));
        }
    }

    /// Stamps the named pattern onto the grid around the anchor
    /// `(row, column)`, wrapping toroidally: each offset cell becomes
    /// alive, every other cell keeps its value. The name is matched
    /// ignoring ASCII case; an unknown name leaves the grid unchanged.
    pub fn deploy(&mut self, pattern: &str, row: u32, column: u32)
        requires
            old(self).wf(),
        ensures
            final(self).wf(),
            final(self)@.width == old(self)@.width,
            final(self)@.height == old(self)@.height,
            match pattern_of(pattern@) {
                Some(p) => final(self)@.cells == bulk_set(
                    old(self)@.cells,
                    old(self)@.width as int,
                    target_cells(
                        p.offsets(),
                        row,
                        column,
                        old(self)@.width as int,
                        old(self)@.height as int,
                    ),
                ),
                None => final(self)@.cells == old(self)@.cells,
            },
    {
        let p = match Pattern::from_name(pattern) {
            Some(p) => p,
            None => {
                return ;
            },
        };
        let ghost w = self@.width as int;
        let ghost h = self@.height as int;
        let ghost goal = target_cells(p.offsets(), row, column, w, h);
        if self.width == 0 || self.height == 0 {
            proof {
                assert(self@.width * self@.height == 0) by (nonlinear_arith)
                    requires
                        self@.width == 0 || self@.height == 0,
                ;
                assert(self@.cells =~= bulk_set(self@.cells, w, goal));
            }
            return ;
        }
        let offs = p.offset_list();
        let mut targets: Vec<(u32, u32)> = Vec::new();
        let n = offs.len();
        for i in 0..n
            invariant
                self.wf(),
                w == self@.width as int,
                h == self@.height as int,
                1 <= self@.width,
                1 <= self@.height,
                n == offs@.len(),
                offs@ == p.offsets(),
                goal == target_cells(p.offsets(), row, column, w, h),
                targets@.len() == i,
                forall|k: int| 0 <= k < i ==> targets@[k] == goal[k],
                forall|k: int|
                    0 <= k < i ==> (#[trigger] targets@[k]).0 < self@.height && targets@[k].1
                        < self@.width,
        {
            let (dr, dc) = offs[i];
            let r = wrap_offset(row, dr, self.height);
            let c = wrap_offset(column, dc, self.width);
            targets.push((r, c));
        }
        proof {
            assert(targets@ =~= goal);
        }
        self.set_cells(targets.as_slice());
    }
}

} // verus!
