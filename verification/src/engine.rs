//! The simulation engine: computes the next generation of a grid under the
//! standard B3/S23 rule, reading every neighbor from one consistent snapshot
//! of the prior generation, and seeds a fresh board from an injected random
//! source.

use vstd::prelude::*;

use crate::grid::{lemma_flat_index, lemma_wrap_id, neighbor_dx, neighbor_dy, wrap, Error, Grid,
    GridCell};
use crate::rng::coin_flip;

verus! {

/// The standard rule (B3/S23): a live cell with two or three live neighbors
/// survives, a dead cell with exactly three live neighbors is born, and every
/// other cell is dead in the next generation.
pub open spec fn rule(alive: bool, n: int) -> bool {
    if alive {
        n == 2 || n == 3
    } else {
        n == 3
    }
}

/// 1 if the `k`-th wrapped neighbor of `(x, y)` is alive, else 0.
pub open spec fn live_at_offset(g: &Grid, x: int, y: int, k: int) -> int {
    if g.alive(
        wrap(x + neighbor_dx(k), g.width as int),
        wrap(y + neighbor_dy(k), g.height as int),
    ) {
        1
    } else {
        0
    }
}

/// How many of the eight wrapped neighbors of `(x, y)` are alive. On boards
/// with a dimension under 3 one live cell can be counted more than once (and
/// a cell can count itself); that is the toroidal topology, not an error.
pub open spec fn neighbor_count(g: &Grid, x: int, y: int) -> int {
    live_at_offset(g, x, y, 0) + live_at_offset(g, x, y, 1) + live_at_offset(g, x, y, 2)
        + live_at_offset(g, x, y, 3) + live_at_offset(g, x, y, 4) + live_at_offset(g, x, y, 5)
        + live_at_offset(g, x, y, 6) + live_at_offset(g, x, y, 7)
}

/// The alive state of `(x, y)` in the generation after `g`.
pub open spec fn next_state(g: &Grid, x: int, y: int) -> bool {
    rule(g.alive(x, y), neighbor_count(g, x, y))
}

/// Counts the live cells among the eight wrapped neighbors of `(x, y)`, each
/// read by one direct indexed lookup.
fn count_live_neighbors(g: &Grid, x: usize, y: usize) -> (n: u8)
    requires
        g.wf(),
        x < g.width,
        y < g.height,
    ensures
        n == neighbor_count(g, x as int, y as int),
{
    let xm: usize = Grid::wrap_dec(x, g.width);
    let xp: usize = Grid::wrap_inc(x, g.width);
    let ym: usize = Grid::wrap_dec(y, g.height);
    let yp: usize = Grid::wrap_inc(y, g.height);
    proof {
        lemma_wrap_id(x as int, g.width as int);
        lemma_wrap_id(y as int, g.height as int);
    }
    let mut n: u8 = 0;
    if g.get(xm, ym) {
        n = n + 1;
    }
    if g.get(x, ym) {
        n = n + 1;
    }
    if g.get(xp, ym) {
        n = n + 1;
    }
    if g.get(xm, y) {
        n = n + 1;
    }
    if g.get(xp, y) {
        n = n + 1;
    }
    if g.get(xm, yp) {
        n = n + 1;
    }
    if g.get(x, yp) {
        n = n + 1;
    }
    if g.get(xp, yp) {
        n = n + 1;
    }
    n
}

/// Computes the next generation. Every neighbor read references the prior
/// generation exclusively: the new states go into a fresh buffer, never into
/// the grid being read, so no cell's update can observe another cell's
/// already-updated state within the same step.
pub fn advance(grid: &Grid) -> (next: Grid)
    requires
        grid.wf(),
    ensures
        next.wf(),
        next.width == grid.width,
        next.height == grid.height,
        forall|x: int, y: int| grid.in_range(x, y) ==>
            #[trigger] next.alive(x, y) == next_state(grid, x, y),
{
    let width: usize = grid.width;
    let height: usize = grid.height;
    let mut cells: Vec<GridCell> = Vec::new();
    let mut y: usize = 0;
    while y < height
        invariant
            grid.wf(),
            width == grid.width,
            height == grid.height,
            y <= height,
            cells@.len() == y * width,
            forall|j: int| 0 <= j < cells@.len() ==> {
                &&& (#[trigger] cells@[j]).x == j % (width as int)
                &&& cells@[j].y == j / (width as int)
                &&& cells@[j].is_alive == next_state(
                    grid,
                    j % (width as int),
                    j / (width as int),
                )
            },
        decreases height - y,
    {
        let mut x: usize = 0;
        while x < width
            invariant
                grid.wf(),
                width == grid.width,
                height == grid.height,
                y < height,
                x <= width,
                cells@.len() == y * width + x,
                forall|j: int| 0 <= j < cells@.len() ==> {
                    &&& (#[trigger] cells@[j]).x == j % (width as int)
                    &&& cells@[j].y == j / (width as int)
                    &&& cells@[j].is_alive == next_state(
                        grid,
                        j % (width as int),
                        j / (width as int),
                    )
                },
            decreases width - x,
        {
            let alive_now: bool = grid.get(x, y);
            let n: u8 = count_live_neighbors(grid, x, y);
            let next_alive: bool = if alive_now {
                n == 2 || n == 3
            } else {
                n == 3
            };
            proof {
                lemma_flat_index(width as int, height as int, x as int, y as int);
            }
            cells.push(GridCell::new(x, y, next_alive));
            x = x + 1;
        }
        proof {
            assert(y * width + width == (y + 1) * width) by (nonlinear_arith);
        }
        y = y + 1;
    }
    let next = Grid { width, height, cells };
    proof {
        assert(height * width == width * height) by (nonlinear_arith);
        assert(next.cells@.len() == width * height);
        assert forall|x: int, y2: int| next.in_range(x, y2) implies
            next.alive(x, y2) == next_state(grid, x, y2) by {
            lemma_flat_index(width as int, height as int, x, y2);
            let j: int = y2 * (width as int) + x;
            assert(0 <= j < next.cells@.len());
            assert(next.cells@[j].is_alive == next_state(
                grid,
                j % (width as int),
                j / (width as int),
            ));
        }
    }
    next
}

/// Constructs a grid of the given dimensions and sets every cell alive
/// independently with probability `num / den`, drawn from the injected random
/// source. Fails with `InvalidDimensions` when a dimension is zero, and with
/// `InvalidParameter` when `num / den` is not a probability in `[0, 1]`
/// (`den == 0` or `num > den`); on failure nothing is constructed. A density
/// of zero yields an all-dead board and a density of one an all-alive board,
/// whatever the random source returns.
pub fn seed(
    width: usize,
    height: usize,
    num: u32,
    den: u32,
    rng: &mut rand::rngs::StdRng,
) -> (r: Result<Grid, Error>)
    requires
        width * height <= usize::MAX,
    ensures
        (width == 0 || height == 0) <==> r == Result::<Grid, Error>::Err(
            Error::InvalidDimensions,
        ),
        (width >= 1 && height >= 1 && (den == 0 || num > den)) <==> r == Result::<
            Grid,
            Error,
        >::Err(Error::InvalidParameter),
        (width >= 1 && height >= 1 && den >= 1 && num <= den) ==> (r matches Ok(g) && {
            &&& g.wf()
            &&& g.width == width
            &&& g.height == height
            &&& num == 0 ==> forall|x: int, y: int| g.in_range(x, y) ==> !(#[trigger] g.alive(
                x,
                y,
            ))
            &&& num == den ==> forall|x: int, y: int| g.in_range(x, y) ==> #[trigger] g.alive(
                x,
                y,
            )
        }),
{
    if width == 0 || height == 0 {
        return Err(Error::InvalidDimensions);
    }
    if den == 0 || num > den {
        return Err(Error::InvalidParameter);
    }
    let n: usize = width * height;
    let mut cells: Vec<GridCell> = Vec::new();
    let mut i: usize = 0;
    while i < n
        invariant
            width >= 1,
            n == width * height,
            den >= 1,
            num <= den,
            i <= n,
            cells@.len() == i,
            forall|j: int| 0 <= j < i ==> {
                &&& (#[trigger] cells@[j]).x == j % (width as int)
                &&& cells@[j].y == j / (width as int)
                &&& (num == 0 ==> !cells@[j].is_alive)
                &&& (num == den ==> cells@[j].is_alive)
            },
        decreases n - i,
    {
        let x: usize = i % width;
        let y: usize = i / width;
        let alive: bool = coin_flip(rng, num, den);
        cells.push(GridCell::new(x, y, alive));
        i = i + 1;
    }
    let g = Grid { width, height, cells };
    proof {
        assert forall|x: int, y: int| g.in_range(x, y) implies {
            &&& (num == 0 ==> !g.alive(x, y))
            &&& (num == den ==> g.alive(x, y))
        } by {
            lemma_flat_index(width as int, height as int, x, y);
        }
    }
    Ok(g)
}

} // verus!
