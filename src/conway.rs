//! Conway's rule: a live cell survives with two or three live neighbours, a dead cell
//! is born with exactly three.
use crate::grid::{board_get, board_new, board_set, cell_wrapped, cells_of, height, shape_of, is_grid, width, wrapping_get, Board};
use crate::rules::{Pos, Rules};
use vstd::prelude::*;

verus! {

/// Conway's Game of Life.
pub struct ConwayRules;

/// One for a live cell, zero for a dead one.
pub open spec fn alive_count(alive: bool) -> int {
    if alive { 1 } else { 0 }
}

/// The number of live cells among the eight around `(x, y)`, edges wrapping.
pub open spec fn neighbour_count(g: Seq<Seq<bool>>, x: int, y: int) -> int {
    alive_count(cell_wrapped(g, x - 1, y - 1)) + alive_count(cell_wrapped(g, x + 1, y + 1))
        + alive_count(cell_wrapped(g, x - 1, y + 1)) + alive_count(cell_wrapped(g, x + 1, y - 1))
        + alive_count(cell_wrapped(g, x + 1, y)) + alive_count(cell_wrapped(g, x, y + 1))
        + alive_count(cell_wrapped(g, x - 1, y)) + alive_count(cell_wrapped(g, x, y - 1))
}

/// Conway's rule for the cell at `(x, y)`.
pub open spec fn conway_next(g: Seq<Seq<bool>>, x: int, y: int) -> bool {
    let n = neighbour_count(g, x, y);
    if g[x][y] {
        n == 2 || n == 3
    } else {
        n == 3
    }
}

/// The glider as columns: `glider_cells()[x][y]` is its cell at `(x, y)`.
pub open spec fn glider_cells() -> Seq<Seq<bool>> {
    seq![seq![false, true, false], seq![false, false, true], seq![true, true, true]]
}

impl ConwayRules {
    /// The glider, a 3×3 pattern that moves one cell diagonally every four
    /// generations.
    pub fn glider() -> (r: Board)
        ensures
            shape_of(r) == (3int, 3int),
            cells_of(r) == glider_cells(),
    {
        let mut b = board_new(3, 3);
        board_set(&mut b, 0, 1, true);
        board_set(&mut b, 1, 2, true);
        board_set(&mut b, 2, 0, true);
        board_set(&mut b, 2, 1, true);
        board_set(&mut b, 2, 2, true);
        assert(cells_of(b) =~~= glider_cells());
        b
    }
}

/// The number of live cells among the eight neighbours of `(x, y)`.
fn alive_neighbours(board: &Board, pos: Pos) -> (r: usize)
    requires
        is_grid(cells_of(*board)),
        pos.0 < width(cells_of(*board)),
        pos.1 < height(cells_of(*board)),
    ensures
        r == neighbour_count(cells_of(*board), pos.0 as int, pos.1 as int),
{
    let x = pos.0 as isize;
    let y = pos.1 as isize;
    let mut alive: usize = 0;
    if wrapping_get(board, (x - 1, y - 1)) {
        alive = alive + 1;
    }
    if wrapping_get(board, (x + 1, y + 1)) {
        alive = alive + 1;
    }
    if wrapping_get(board, (x - 1, y + 1)) {
        alive = alive + 1;
    }
    if wrapping_get(board, (x + 1, y - 1)) {
        alive = alive + 1;
    }
    if wrapping_get(board, (x + 1, y)) {
        alive = alive + 1;
    }
    if wrapping_get(board, (x, y + 1)) {
        alive = alive + 1;
    }
    if wrapping_get(board, (x - 1, y)) {
        alive = alive + 1;
    }
    if wrapping_get(board, (x, y - 1)) {
        alive = alive + 1;
    }
    alive
}

impl Rules for ConwayRules {
    open spec fn next_spec(g: Seq<Seq<bool>>, x: int, y: int) -> bool {
        conway_next(g, x, y)
    }

    fn next_cell(pos: Pos, board: &Board) -> (r: bool) {
        let is_alive = board_get(board, pos.0, pos.1);
        let n = alive_neighbours(board, pos);
        if is_alive {
            n == 2 || n == 3
        } else {
            n == 3
        }
    }
}

} // verus!
