//! Properties of the engine, stated over whole grids and proved once for all
//! dimensions and cell states.

use vstd::prelude::*;
use vstd::arithmetic::div_mod::lemma_mod_bound;

use crate::engine::{live_at_offset, neighbor_count, next_state};
use crate::grid::{lemma_wrap_dec, lemma_wrap_id, lemma_wrap_inc, neighbor_dx, neighbor_dy, wrap,
    Grid};

verus! {

/// No spontaneous life: on an all-dead grid every cell is dead in the next
/// generation too.
pub proof fn lemma_no_spontaneous_life(g: &Grid)
    requires
        g.wf(),
        forall|x: int, y: int| g.in_range(x, y) ==> !(#[trigger] g.alive(x, y)),
    ensures
        forall|x: int, y: int| g.in_range(x, y) ==> !(#[trigger] next_state(g, x, y)),
{
    assert forall|x: int, y: int| g.in_range(x, y) implies !next_state(g, x, y) by {
        assert forall|k: int| 0 <= k < 8 implies live_at_offset(g, x, y, k) == 0 by {
            lemma_mod_bound(x + neighbor_dx(k), g.width as int);
            lemma_mod_bound(y + neighbor_dy(k), g.height as int);
        }
        assert(neighbor_count(g, x, y) == 0);
    }
}

/// Underpopulation: a live cell whose eight wrapped neighbor positions are
/// all dead dies after one advance.
pub proof fn lemma_isolated_cell_dies(g: &Grid, x: int, y: int)
    requires
        g.wf(),
        g.in_range(x, y),
        g.alive(x, y),
        forall|k: int| 0 <= k < 8 ==> !g.alive(
            wrap(x + #[trigger] neighbor_dx(k), g.width as int),
            wrap(y + neighbor_dy(k), g.height as int),
        ),
    ensures
        !next_state(g, x, y),
{
    assert(neighbor_count(g, x, y) == 0);
}

/// Survival: a live cell stays alive exactly when it has two or three live
/// neighbors; with fewer or more it dies.
pub proof fn lemma_survival(g: &Grid, x: int, y: int)
    requires
        g.wf(),
        g.in_range(x, y),
        g.alive(x, y),
    ensures
        next_state(g, x, y) <==> (neighbor_count(g, x, y) == 2 || neighbor_count(g, x, y) == 3),
{
}

/// Birth: a dead cell becomes alive exactly when it has three live neighbors.
pub proof fn lemma_birth(g: &Grid, x: int, y: int)
    requires
        g.wf(),
        g.in_range(x, y),
        !g.alive(x, y),
    ensures
        next_state(g, x, y) <==> neighbor_count(g, x, y) == 3,
{
}

/// Snapshot isolation: the next generation depends only on the prior
/// generation's dimensions and cell states, so advancing two equal boards
/// (such as two independent copies of one input) yields equal results.
pub proof fn lemma_advance_deterministic(a: &Grid, b: &Grid)
    requires
        a.wf(),
        b.wf(),
        a.width == b.width,
        a.height == b.height,
        forall|x: int, y: int| a.in_range(x, y) ==> #[trigger] a.alive(x, y) == b.alive(x, y),
    ensures
        forall|x: int, y: int| a.in_range(x, y) ==>
            #[trigger] next_state(a, x, y) == next_state(b, x, y),
{
    assert forall|x: int, y: int| a.in_range(x, y) implies
        next_state(a, x, y) == next_state(b, x, y) by {
        assert forall|k: int| 0 <= k < 8 implies
            live_at_offset(a, x, y, k) == live_at_offset(b, x, y, k) by {
            lemma_mod_bound(x + neighbor_dx(k), a.width as int);
            lemma_mod_bound(y + neighbor_dy(k), a.height as int);
        }
        assert(neighbor_count(a, x, y) == neighbor_count(b, x, y));
    }
}

/// Where the block pattern has its live cells: the 2x2 square of coordinates
/// at the origin.
pub open spec fn block_cell(x: int, y: int) -> bool {
    0 <= x <= 1 && 0 <= y <= 1
}

/// The block is a still-life: with a 2x2 live square at the origin and every
/// other cell dead, on a board of at least 4x4, the next generation is the
/// same state.
pub proof fn lemma_block_is_still_life(g: &Grid)
    requires
        g.wf(),
        g.width >= 4,
        g.height >= 4,
        forall|x: int, y: int| g.in_range(x, y) ==> (#[trigger] g.alive(x, y) <==> block_cell(
            x,
            y,
        )),
    ensures
        forall|x: int, y: int| g.in_range(x, y) ==> (#[trigger] next_state(g, x, y) <==>
            block_cell(x, y)),
{
    let w = g.width as int;
    let h = g.height as int;
    assert forall|x: int, y: int| g.in_range(x, y) implies (next_state(g, x, y) <==> block_cell(
        x,
        y,
    )) by {
        lemma_wrap_dec(x, w);
        lemma_wrap_id(x, w);
        lemma_wrap_inc(x, w);
        lemma_wrap_dec(y, h);
        lemma_wrap_id(y, h);
        lemma_wrap_inc(y, h);
    }
}

/// Where the horizontal blinker has its live cells: three in a row.
pub open spec fn blinker_h_cell(x: int, y: int) -> bool {
    1 <= x <= 3 && y == 2
}

/// Where the vertical blinker has its live cells: three in a column.
pub open spec fn blinker_v_cell(x: int, y: int) -> bool {
    x == 2 && 1 <= y <= 3
}

/// Half a blinker period: one advance turns the horizontal blinker into the
/// vertical one, on a board of at least 5x5.
pub proof fn lemma_blinker_half_period_h(g: &Grid)
    requires
        g.wf(),
        g.width >= 5,
        g.height >= 5,
        forall|x: int, y: int| g.in_range(x, y) ==> (#[trigger] g.alive(x, y) <==> blinker_h_cell(
            x,
            y,
        )),
    ensures
        forall|x: int, y: int| g.in_range(x, y) ==> (#[trigger] next_state(g, x, y) <==>
            blinker_v_cell(x, y)),
{
    let w = g.width as int;
    let h = g.height as int;
    assert forall|x: int, y: int| g.in_range(x, y) implies (next_state(g, x, y) <==>
        blinker_v_cell(x, y)) by {
        lemma_wrap_dec(x, w);
        lemma_wrap_id(x, w);
        lemma_wrap_inc(x, w);
        lemma_wrap_dec(y, h);
        lemma_wrap_id(y, h);
        lemma_wrap_inc(y, h);
    }
}

/// The other half of the blinker period: one advance turns the vertical
/// blinker back into the horizontal one.
pub proof fn lemma_blinker_half_period_v(g: &Grid)
    requires
        g.wf(),
        g.width >= 5,
        g.height >= 5,
        forall|x: int, y: int| g.in_range(x, y) ==> (#[trigger] g.alive(x, y) <==> blinker_v_cell(
            x,
            y,
        )),
    ensures
        forall|x: int, y: int| g.in_range(x, y) ==> (#[trigger] next_state(g, x, y) <==>
            blinker_h_cell(x, y)),
{
    let w = g.width as int;
    let h = g.height as int;
    assert forall|x: int, y: int| g.in_range(x, y) implies (next_state(g, x, y) <==>
        blinker_h_cell(x, y)) by {
        lemma_wrap_dec(x, w);
        lemma_wrap_id(x, w);
        lemma_wrap_inc(x, w);
        lemma_wrap_dec(y, h);
        lemma_wrap_id(y, h);
        lemma_wrap_inc(y, h);
    }
}

/// The blinker oscillates with period two: starting from the horizontal
/// blinker on a board of at least 5x5, two advances reproduce the original
/// live-cell set.
pub proof fn lemma_blinker_period_two(g: &Grid, g1: &Grid, g2: &Grid)
    requires
        g.wf(),
        g1.wf(),
        g2.wf(),
        g1.width == g.width,
        g1.height == g.height,
        g2.width == g.width,
        g2.height == g.height,
        g.width >= 5,
        g.height >= 5,
        forall|x: int, y: int| g.in_range(x, y) ==> (#[trigger] g.alive(x, y) <==> blinker_h_cell(
            x,
            y,
        )),
        forall|x: int, y: int| g.in_range(x, y) ==> #[trigger] g1.alive(x, y) == next_state(
            g,
            x,
            y,
        ),
        forall|x: int, y: int| g.in_range(x, y) ==> #[trigger] g2.alive(x, y) == next_state(
            g1,
            x,
            y,
        ),
    ensures
        forall|x: int, y: int| g.in_range(x, y) ==> #[trigger] g2.alive(x, y) == g.alive(x, y),
{
    lemma_blinker_half_period_h(g);
    assert forall|x: int, y: int| g1.in_range(x, y) implies (#[trigger] g1.alive(x, y) <==>
        blinker_v_cell(x, y)) by {
        assert(g.in_range(x, y));
    }
    lemma_blinker_half_period_v(g1);
    assert forall|x: int, y: int| g.in_range(x, y) implies g2.alive(x, y) == g.alive(x, y) by {
        assert(g1.in_range(x, y));
    }
}

} // verus!
