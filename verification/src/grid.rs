//! A rectangular grid of cells, the working material of the level
//! generator.

use crate::geom::Coord;
use vstd::prelude::*;

verus! {

/// Upper bound on each grid dimension, in cells.
pub const MAP_DIMENSION_LIMIT: usize = 0x4000;

/// A `width` by `height` grid stored row-major.
pub struct Grid<T> {
    cells: Vec<T>,
    width: usize,
    height: usize,
}

impl<T: Copy> Grid<T> {
    /// The cells in row-major order.
    pub closed spec fn view(&self) -> Seq<T> {
        self.cells@
    }

    pub closed spec fn spec_width(&self) -> int {
        self.width as int
    }

    pub closed spec fn spec_height(&self) -> int {
        self.height as int
    }

    /// The grid's storage matches its dimensions, which stay within the
    /// global limit.
    pub open spec fn wf(&self) -> bool {
        &&& self@.len() == self.spec_width() * self.spec_height()
        &&& 0 < self.spec_width() <= MAP_DIMENSION_LIMIT
        &&& 0 < self.spec_height() <= MAP_DIMENSION_LIMIT
    }

    /// Whether a coordinate lies on the grid.
    pub open spec fn in_bounds(&self, c: Coord) -> bool {
        0 <= c.x < self.spec_width() && 0 <= c.y < self.spec_height()
    }

    /// The row-major index of an in-bounds coordinate.
    pub open spec fn spec_index_of(&self, c: Coord) -> int {
        c.y * self.spec_width() + c.x
    }

    /// The cell at an in-bounds coordinate.
    pub open spec fn spec_get(&self, c: Coord) -> T {
        self@[self.spec_index_of(c)]
    }

    /// An in-bounds coordinate names one cell.
    pub proof fn lemma_index(&self, c: Coord)
        requires
            self.wf(),
            self.in_bounds(c),
        ensures
            0 <= self.spec_index_of(c) < self@.len(),
            0 <= c.y * self.spec_width() < 0x1000_0000,
    {
        assert(0 <= c.y * self.spec_width() && c.y * self.spec_width() + c.x < self.spec_width()
            * self.spec_height() && c.y * self.spec_width() < 0x1000_0000) by (nonlinear_arith)
            requires
                0 <= c.x < self.spec_width(),
                0 <= c.y < self.spec_height(),
                self.spec_width() <= MAP_DIMENSION_LIMIT,
                self.spec_height() <= MAP_DIMENSION_LIMIT,
        ;
    }

    /// Distinct in-bounds coordinates name distinct cells.
    pub proof fn lemma_index_injective(&self, a: Coord, b: Coord)
        requires
            self.wf(),
            self.in_bounds(a),
            self.in_bounds(b),
            a != b,
        ensures
            self.spec_index_of(a) != self.spec_index_of(b),
    {
        assert(a.y * self.spec_width() + a.x != b.y * self.spec_width() + b.x)
            by (nonlinear_arith)
            requires
                0 <= a.x < self.spec_width(),
                0 <= a.y < self.spec_height(),
                0 <= b.x < self.spec_width(),
                0 <= b.y < self.spec_height(),
                a.x != b.x || a.y != b.y,
        ;
    }

    /// A grid with every cell set to `fill`.
    pub fn new_filled(width: usize, height: usize, fill: T) -> (g: Grid<T>)
        requires
            0 < width <= MAP_DIMENSION_LIMIT,
            0 < height <= MAP_DIMENSION_LIMIT,
        ensures
            g.wf(),
            g.spec_width() == width,
            g.spec_height() == height,
            forall|i: int| 0 <= i < g@.len() ==> g@[i] == fill,
    {
        proof {
            assert(width * height <= MAP_DIMENSION_LIMIT * MAP_DIMENSION_LIMIT)
                by (nonlinear_arith)
                requires
                    width <= MAP_DIMENSION_LIMIT,
                    height <= MAP_DIMENSION_LIMIT,
            ;
        }
        let size = width * height;
        let mut cells: Vec<T> = Vec::new();
        let mut i: usize = 0;
        while i < size
            invariant
                i <= size,
                cells@.len() == i,
                forall|j: int| 0 <= j < i ==> cells@[j] == fill,
            decreases size - i,
        {
            cells.push(fill);
            i += 1;
        }
        Grid { cells, width, height }
    }

    pub fn width(&self) -> (w: usize)
        ensures
            w == self.spec_width(),
    {
        self.width
    }

    pub fn height(&self) -> (h: usize)
        ensures
            h == self.spec_height(),
    {
        self.height
    }

    /// Whether a coordinate lies on the grid.
    pub fn contains_coord(&self, c: Coord) -> (b: bool)
        requires
            self.wf(),
        ensures
            b == self.in_bounds(c),
    {
        c.x >= 0 && c.y >= 0 && (c.x as usize) < self.width && (c.y as usize) < self.height
    }

    /// The cell at an in-bounds coordinate.
    pub fn get(&self, c: Coord) -> (v: T)
        requires
            self.wf(),
            self.in_bounds(c),
        ensures
            v == self.spec_get(c),
    {
        proof {
            self.lemma_index(c);
        }
        self.cells[(c.y as usize) * self.width + (c.x as usize)]
    }

    /// Overwrites the cell at an in-bounds coordinate.
    pub fn set(&mut self, c: Coord, v: T)
        requires
            old(self).wf(),
            old(self).in_bounds(c),
        ensures
            final(self).wf(),
            final(self).spec_width() == old(self).spec_width(),
            final(self).spec_height() == old(self).spec_height(),
            final(self)@ == old(self)@.update(old(self).spec_index_of(c), v),
            final(self).spec_get(c) == v,
            forall|o: Coord|
                old(self).in_bounds(o) && o != c ==> final(self).spec_get(o) == old(
                    self,
                ).spec_get(o),
    {
        proof {
            self.lemma_index(c);
        }
        let index = (c.y as usize) * self.width + (c.x as usize);
        self.cells.set(index, v);
        proof {
            assert forall|o: Coord| old(self).in_bounds(o) && o != c implies self.spec_get(o)
                == old(self).spec_get(o) by {
                old(self).lemma_index(o);
                old(self).lemma_index_injective(o, c);
            }
        }
    }
}

} // verus!
