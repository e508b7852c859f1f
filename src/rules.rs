//! Rules of a cellular automaton: the next state of one cell, read from the whole
//! current board.
use crate::grid::{cells_of, is_grid, width, height, Board};
use vstd::prelude::*;

verus! {

/// A cell's position: column `x`, then row `y`.
pub type Pos = (usize, usize);

/// The next state of a cell, given its position and the current board.
pub trait Rules {
    /// The state that `next_cell` returns for the cell at `(x, y)` of `g`.
    spec fn next_spec(g: Seq<Seq<bool>>, x: int, y: int) -> bool;

    fn next_cell(pos: Pos, board: &Board) -> (r: bool)
        requires
            is_grid(cells_of(*board)),
            pos.0 < width(cells_of(*board)),
            pos.1 < height(cells_of(*board)),
        ensures
            r == Self::next_spec(cells_of(*board), pos.0 as int, pos.1 as int),
    ;
}

/// The generation after `g` under `R`: every cell's next state, each computed from
/// `g` alone.
pub open spec fn next_generation<R: Rules>(g: Seq<Seq<bool>>) -> Seq<Seq<bool>> {
    Seq::new(
        width(g) as nat,
        |x: int| Seq::new(height(g) as nat, |y: int| R::next_spec(g, x, y)),
    )
}

} // verus!
