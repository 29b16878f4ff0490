//! The grid data structure: a rectangular board of cells stored as a flat
//! row-major vector, with toroidal (wraparound) neighbor coordinates.

use vstd::prelude::*;
use vstd::arithmetic::div_mod::{lemma_fundamental_div_mod_converse, lemma_small_mod};

verus! {

/// One grid position: an immutable coordinate pair and a mutable alive flag.
#[derive(Clone, Copy, PartialEq, Eq, Structural, Debug)]
pub struct GridCell {
    pub x: usize,
    pub y: usize,
    pub is_alive: bool,
}

impl GridCell {
    pub fn new(x: usize, y: usize, is_alive: bool) -> (c: Self)
        ensures
            c.x == x,
            c.y == y,
            c.is_alive == is_alive,
    {
        GridCell { x, y, is_alive }
    }
}

/// The ways construction and seeding can fail.
#[derive(Clone, Copy, PartialEq, Eq, Structural, Debug)]
pub enum Error {
    /// Width or height is zero.
    InvalidDimensions,
    /// The seeding density does not describe a probability in `[0, 1]`.
    InvalidParameter,
}

/// True mathematical (non-negative) modulo: for `m > 0` the result lies in
/// `[0, m)` whatever the sign of `v`. In spec code `%` is already Euclidean.
pub open spec fn wrap(v: int, m: int) -> int {
    v % m
}

/// Closed form of `wrap` one step below an in-range value.
pub proof fn lemma_wrap_dec(v: int, m: int)
    requires
        m >= 1,
        0 <= v < m,
    ensures
        wrap(v - 1, m) == if v == 0 { m - 1 } else { v - 1 },
{
    if v == 0 {
        lemma_fundamental_div_mod_converse(v - 1, m, -1, m - 1);
    } else {
        lemma_small_mod((v - 1) as nat, m as nat);
    }
}

/// Closed form of `wrap` one step above an in-range value.
pub proof fn lemma_wrap_inc(v: int, m: int)
    requires
        m >= 1,
        0 <= v < m,
    ensures
        wrap(v + 1, m) == if v == m - 1 { 0 } else { v + 1 },
{
    if v == m - 1 {
        lemma_fundamental_div_mod_converse(v + 1, m, 1, 0);
    } else {
        lemma_small_mod((v + 1) as nat, m as nat);
    }
}

/// `wrap` leaves an in-range value unchanged.
pub proof fn lemma_wrap_id(v: int, m: int)
    requires
        m >= 1,
        0 <= v < m,
    ensures
        wrap(v, m) == v,
{
    lemma_small_mod(v as nat, m as nat);
}

/// Relates a coordinate pair to its flat row-major index.
pub proof fn lemma_flat_index(w: int, h: int, x: int, y: int)
    requires
        w >= 1,
        h >= 1,
        0 <= x < w,
        0 <= y < h,
    ensures
        0 <= y * w + x < w * h,
        (y * w + x) % w == x,
        (y * w + x) / w == y,
{
    lemma_fundamental_div_mod_converse(y * w + x, w, y, x);
    assert(y * w + x < w * h) by (nonlinear_arith)
        requires 0 <= x < w && 0 <= y < h;
}

/// A rectangular board of `width * height` cells, one per coordinate pair in
/// `[0, width) x [0, height)`, stored row-major: the cell with coordinates
/// `(x, y)` sits at flat index `y * width + x`.
#[derive(Debug)]
pub struct Grid {
    pub width: usize,
    pub height: usize,
    pub cells: Vec<GridCell>,
}

impl Grid {
    /// Well-formed: positive dimensions, exactly `width * height` cells, and
    /// the cell at flat index `i` carries the coordinates `(i % width, i / width)`,
    /// so every in-range coordinate pair is held by exactly one cell.
    pub open spec fn wf(&self) -> bool {
        &&& self.width >= 1
        &&& self.height >= 1
        &&& self.cells@.len() == self.width * self.height
        &&& forall|i: int| 0 <= i < self.cells@.len() ==> {
                &&& (#[trigger] self.cells@[i]).x == i % (self.width as int)
                &&& self.cells@[i].y == i / (self.width as int)
            }
    }

    /// The alive state at coordinates `(x, y)`.
    pub open spec fn alive(&self, x: int, y: int) -> bool {
        self.cells@[y * (self.width as int) + x].is_alive
    }

    /// Whether `(x, y)` is an in-range coordinate pair of this grid.
    pub open spec fn in_range(&self, x: int, y: int) -> bool {
        0 <= x < self.width && 0 <= y < self.height
    }

    /// Allocates a grid of `width * height` cells, all coordinates populated
    /// and all cells dead; fails iff a dimension is zero.
    pub fn new(width: usize, height: usize) -> (r: Result<Grid, Error>)
        requires
            width * height <= usize::MAX,
        ensures
            (width == 0 || height == 0) <==> r == Result::<Grid, Error>::Err(Error::InvalidDimensions),
            (width >= 1 && height >= 1) ==> (r matches Ok(g) && {
                &&& g.wf()
                &&& g.width == width
                &&& g.height == height
                &&& forall|x: int, y: int| g.in_range(x, y) ==> !g.alive(x, y)
            }),
    {
        if width == 0 || height == 0 {
            return Err(Error::InvalidDimensions);
        }
        let n: usize = width * height;
        let mut cells: Vec<GridCell> = Vec::new();
        let mut i: usize = 0;
        while i < n
            invariant
                width >= 1,
                n == width * height,
                i <= n,
                cells@.len() == i,
                forall|j: int| 0 <= j < i ==> {
                    &&& (#[trigger] cells@[j]).x == j % (width as int)
                    &&& cells@[j].y == j / (width as int)
                    &&& !cells@[j].is_alive
                },
            decreases n - i,
        {
            let x: usize = i % width;
            let y: usize = i / width;
            cells.push(GridCell::new(x, y, false));
            i = i + 1;
        }
        let g = Grid { width, height, cells };
        proof {
            assert forall|x: int, y: int| g.in_range(x, y) implies !g.alive(x, y) by {
                lemma_flat_index(width as int, height as int, x, y);
            }
        }
        Ok(g)
    }

    /// Returns the alive state at `(x, y)`. Out-of-range coordinates are a
    /// caller error, ruled out by the precondition; neighbor lookups go
    /// through `wrapped_neighbor_coords` to stay in range.
    pub fn get(&self, x: usize, y: usize) -> (b: bool)
        requires
            self.wf(),
            x < self.width,
            y < self.height,
        ensures
            b == self.alive(x as int, y as int),
    {
        proof {
            lemma_flat_index(self.width as int, self.height as int, x as int, y as int);
        }
        let n: usize = self.cells.len();
        let idx: usize = y * self.width + x;
        assert(idx < n);
        self.cells[idx].is_alive
    }

    /// Overwrites the alive state at `(x, y)`, leaving every other cell and
    /// the dimensions unchanged.
    pub fn set(&mut self, x: usize, y: usize, value: bool)
        requires
            old(self).wf(),
            x < old(self).width,
            y < old(self).height,
        ensures
            final(self).wf(),
            final(self).width == old(self).width,
            final(self).height == old(self).height,
            final(self).alive(x as int, y as int) == value,
            forall|x2: int, y2: int|
                final(self).in_range(x2, y2) && !(x2 == x && y2 == y) ==>
                    final(self).alive(x2, y2) == old(self).alive(x2, y2),
    {
        proof {
            lemma_flat_index(self.width as int, self.height as int, x as int, y as int);
        }
        let n: usize = self.cells.len();
        let idx: usize = y * self.width + x;
        assert(idx < n);
        let cell = GridCell::new(x, y, value);
        self.cells.set(idx, cell);
        proof {
            assert forall|x2: int, y2: int|
                self.in_range(x2, y2) && !(x2 == x && y2 == y) implies
                    self.alive(x2, y2) == old(self).alive(x2, y2) by {
                lemma_flat_index(self.width as int, self.height as int, x2, y2);
            }
        }
    }

    /// The coordinate one step below `v` on an axis of extent `m`, wrapping
    /// at the edge.
    pub fn wrap_dec(v: usize, m: usize) -> (r: usize)
        requires
            m >= 1,
            v < m,
        ensures
            r == wrap(v - 1, m as int),
            r < m,
    {
        proof {
            lemma_wrap_dec(v as int, m as int);
        }
        if v == 0 { m - 1 } else { v - 1 }
    }

    /// The coordinate one step above `v` on an axis of extent `m`, wrapping
    /// at the edge.
    pub fn wrap_inc(v: usize, m: usize) -> (r: usize)
        requires
            m >= 1,
            v < m,
        ensures
            r == wrap(v + 1, m as int),
            r < m,
    {
        proof {
            lemma_wrap_inc(v as int, m as int);
        }
        if v == m - 1 { 0 } else { v + 1 }
    }

    /// The eight wrapped neighbor coordinates of `(x, y)`, in a fixed order:
    /// row above, own row, row below, each left to right. On boards with a
    /// dimension of 1 or 2 the wrapping legitimately repeats coordinates (a
    /// cell can be its own neighbor); that is expected toroidal behavior.
    pub fn wrapped_neighbor_coords(&self, x: usize, y: usize) -> (v: Vec<(usize, usize)>)
        requires
            self.wf(),
            x < self.width,
            y < self.height,
        ensures
            v@.len() == 8,
            forall|k: int| 0 <= k < 8 ==> {
                &&& (#[trigger] v@[k]).0 == wrap(x + neighbor_dx(k), self.width as int)
                &&& v@[k].1 == wrap(y + neighbor_dy(k), self.height as int)
            },
    {
        let xm: usize = Self::wrap_dec(x, self.width);
        let xp: usize = Self::wrap_inc(x, self.width);
        let ym: usize = Self::wrap_dec(y, self.height);
        let yp: usize = Self::wrap_inc(y, self.height);
        proof {
            lemma_wrap_id(x as int, self.width as int);
            lemma_wrap_id(y as int, self.height as int);
        }
        let mut v: Vec<(usize, usize)> = Vec::new();
        v.push((xm, ym));
        v.push((x, ym));
        v.push((xp, ym));
        v.push((xm, y));
        v.push((xp, y));
        v.push((xm, yp));
        v.push((x, yp));
        v.push((xp, yp));
        v
    }
}

/// Horizontal offset of the `k`-th neighbor, `0 <= k < 8`: the eight offsets
/// `(dx, dy)` in `{-1,0,1}^2` without `(0,0)`, row by row.
pub open spec fn neighbor_dx(k: int) -> int {
    if k == 0 || k == 3 || k == 5 {
        -1
    } else if k == 1 || k == 6 {
        0
    } else {
        1
    }
}

/// Vertical offset of the `k`-th neighbor, `0 <= k < 8`.
pub open spec fn neighbor_dy(k: int) -> int {
    if k <= 2 {
        -1
    } else if k <= 4 {
        0
    } else {
        1
    }
}

/// For dimensions of at least 3, the eight wrapped neighbor coordinates of an
/// in-range cell are pairwise distinct, and none of them is the cell itself.
/// (With a dimension of 1 or 2 wrapping can repeat a coordinate.)
pub proof fn lemma_neighbor_coords_distinct(w: int, h: int, x: int, y: int)
    requires
        w >= 3,
        h >= 3,
        0 <= x < w,
        0 <= y < h,
    ensures
        forall|j: int, k: int| 0 <= j < 8 && 0 <= k < 8 && j != k ==>
            (#[trigger] wrap(x + neighbor_dx(j), w), wrap(y + neighbor_dy(j), h))
                != (#[trigger] wrap(x + neighbor_dx(k), w), wrap(y + neighbor_dy(k), h)),
        forall|k: int| 0 <= k < 8 ==>
            (#[trigger] wrap(x + neighbor_dx(k), w), wrap(y + neighbor_dy(k), h)) != (x, y),
{
    lemma_wrap_dec(x, w);
    lemma_wrap_id(x, w);
    lemma_wrap_inc(x, w);
    lemma_wrap_dec(y, h);
    lemma_wrap_id(y, h);
    lemma_wrap_inc(y, h);
}

} // verus!
