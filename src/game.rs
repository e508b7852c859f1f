//! The engine: a current board that callers read and edit, and a scratch board that
//! each step fills before the two trade places.
use crate::grid::{board_dim, board_get, board_new, board_set, cells_of, has_shape, height, is_grid, shape_of, width, Board};
use crate::rules::{next_generation, Pos, Rules};
use core::marker::PhantomData;
use vstd::prelude::*;

verus! {

/// Why an operation on a game failed.
#[derive(Clone, Copy, Debug, PartialEq, Eq, Structural)]
pub enum GameError {
    /// A width or a height of zero was asked for.
    ConstructionError,
    /// A position, or part of a pattern, fell outside the board.
    IndexOutOfRange,
}

/// A `w` by `h` grid of dead cells.
pub open spec fn blank_grid(w: int, h: int) -> Seq<Seq<bool>> {
    Seq::new(w as nat, |x: int| Seq::new(h as nat, |y: int| false))
}

/// `g` with the cell at `(x, y)` set to `alive`.
pub open spec fn with_cell(g: Seq<Seq<bool>>, x: int, y: int, alive: bool) -> Seq<Seq<bool>> {
    g.update(x, g[x].update(y, alive))
}

/// `g` with the `pw` by `ph` pattern `p` copied over it from `(ox, oy)`: inside that
/// region each cell is the pattern's, outside it each cell is kept.
pub open spec fn stamped(g: Seq<Seq<bool>>, p: Seq<Seq<bool>>, pw: int, ph: int, ox: int, oy: int) -> Seq<Seq<bool>> {
    Seq::new(
        g.len(),
        |x: int|
            Seq::new(
                g[x].len(),
                |y: int|
                    if ox <= x < ox + pw && oy <= y < oy + ph {
                        p[x - ox][y - oy]
                    } else {
                        g[x][y]
                    },
            ),
    )
}

/// Stamping is idempotent: copying the same pattern at the same origin a second
/// time leaves the grid as the first copy left it.
pub proof fn lemma_stamp_idempotent(g: Seq<Seq<bool>>, p: Seq<Seq<bool>>, pw: int, ph: int, ox: int, oy: int)
    ensures
        stamped(stamped(g, p, pw, ph, ox, oy), p, pw, ph, ox, oy) == stamped(g, p, pw, ph, ox, oy),
{
    let once = stamped(g, p, pw, ph, ox, oy);
    let twice = stamped(once, p, pw, ph, ox, oy);
    assert forall|x: int| 0 <= x < once.len() implies #[trigger] twice[x] =~= once[x] by {}
    assert(twice =~= once);
}

/// A game of life driven by the rule `R`.
pub struct Game<R: Rules> {
    current: Board,
    next: Board,
    rules: PhantomData<R>,
}

impl<R: Rules> View for Game<R> {
    type V = Seq<Seq<bool>>;

    /// The current generation.
    closed spec fn view(&self) -> Seq<Seq<bool>> {
        cells_of(self.current)
    }
}

impl<R: Rules> Game<R> {
    /// Both boards have the same positive dimensions.
    pub closed spec fn wf(&self) -> bool {
        let g = cells_of(self.current);
        &&& is_grid(g)
        &&& shape_of(self.current) == (width(g), height(g))
        &&& shape_of(self.next) == (width(g), height(g))
        &&& has_shape(cells_of(self.next), width(g), height(g))
    }

    /// A well-formed game's current board is a grid.
    pub proof fn lemma_wf_is_grid(&self)
        requires
            self.wf(),
        ensures
            is_grid(self@),
    {
    }

    /// A game whose board is `width` by `height` dead cells, or `ConstructionError`
    /// where either side is zero.
    pub fn new(width: usize, height: usize) -> (r: Result<Game<R>, GameError>)
        requires
            width * height <= isize::MAX,
        ensures
            match r {
                Ok(game) => width > 0 && height > 0 && game.wf() && game@ == blank_grid(
                    width as int,
                    height as int,
                ),
                Err(e) => (width == 0 || height == 0) && e == GameError::ConstructionError,
            },
    {
        if width == 0 || height == 0 {
            return Err(GameError::ConstructionError);
        }
        assert(width <= isize::MAX && height <= isize::MAX) by (nonlinear_arith)
            requires
                width * height <= isize::MAX,
                width > 0,
                height > 0,
        ;
        let current = board_new(width, height);
        let next = board_new(width, height);
        let game = Game { current, next, rules: PhantomData };
        assert(game@ =~~= blank_grid(width as int, height as int));
        Ok(game)
    }

    /// Sets the cell at `pos` of the current board to `alive`, or fails with
    /// `IndexOutOfRange`, changing nothing, where `pos` lies outside the board.
    pub fn set(&mut self, pos: Pos, alive: bool) -> (r: Result<(), GameError>)
        requires
            old(self).wf(),
        ensures
            final(self).wf(),
            pos.0 < width(old(self)@) && pos.1 < height(old(self)@) ==> r == Ok::<(), GameError>(())
                && final(self)@ == with_cell(old(self)@, pos.0 as int, pos.1 as int, alive),
            !(pos.0 < width(old(self)@) && pos.1 < height(old(self)@)) ==> r == Err::<(), GameError>(
                GameError::IndexOutOfRange,
            ) && final(self)@ == old(self)@,
    {
        self.current.set(pos, alive)
    }

    /// Copies `shape` onto the current board with its first cell at `pos`,
    /// overwriting what was there. Where the pattern would reach past the board it
    /// fails with `IndexOutOfRange` and changes nothing.
    pub fn put(&mut self, shape: &Board, pos: Pos) -> (r: Result<(), GameError>)
        requires
            old(self).wf(),
        ensures
            final(self).wf(),
            pos.0 + shape_of(*shape).0 <= width(old(self)@) && pos.1 + shape_of(*shape).1 <= height(
                old(self)@,
            ) ==> r == Ok::<(), GameError>(()) && final(self)@ == stamped(
                old(self)@,
                cells_of(*shape),
                shape_of(*shape).0,
                shape_of(*shape).1,
                pos.0 as int,
                pos.1 as int,
            ),
            !(pos.0 + shape_of(*shape).0 <= width(old(self)@) && pos.1 + shape_of(*shape).1 <= height(
                old(self)@,
            )) ==> r == Err::<(), GameError>(GameError::IndexOutOfRange) && final(self)@ == old(self)@,
    {
        let (w, h) = board_dim(&self.current);
        let (pw, ph) = board_dim(shape);
        if !(pos.0 <= w && pw <= w - pos.0 && pos.1 <= h && ph <= h - pos.1) {
            return Err(GameError::IndexOutOfRange);
        }
        let ghost g = cells_of(self.current);
        let ghost p = cells_of(*shape);
        let mut i: usize = 0;
        while i < pw
            invariant
                self.wf(),
                g == old(self)@,
                p == cells_of(*shape),
                has_shape(p, pw as int, ph as int),
                (w as int, h as int) == shape_of(self.current),
                width(g) == w,
                height(g) == h,
                pos.0 + pw <= w,
                pos.1 + ph <= h,
                i <= pw,
                has_shape(self@, w as int, h as int),
                forall|x: int, y: int|
                    0 <= x < w && 0 <= y < h ==> #[trigger] self@[x][y] == (if pos.0 <= x < pos.0 + i
                        && pos.1 <= y < pos.1 + ph {
                        p[x - pos.0][y - pos.1]
                    } else {
                        g[x][y]
                    }),
            decreases pw - i,
        {
            let mut j: usize = 0;
            while j < ph
                invariant
                    self.wf(),
                    g == old(self)@,
                    p == cells_of(*shape),
                    has_shape(p, pw as int, ph as int),
                    (w as int, h as int) == shape_of(self.current),
                    width(g) == w,
                    height(g) == h,
                    pos.0 + pw <= w,
                    pos.1 + ph <= h,
                    i < pw,
                    j <= ph,
                    has_shape(self@, w as int, h as int),
                    forall|x: int, y: int|
                        0 <= x < w && 0 <= y < h ==> #[trigger] self@[x][y] == (if (pos.0 <= x < pos.0
                            + i && pos.1 <= y < pos.1 + ph) || (x == pos.0 + i && pos.1 <= y < pos.1
                            + j) {
                            p[x - pos.0][y - pos.1]
                        } else {
                            g[x][y]
                        }),
                decreases ph - j,
            {
                let v = board_get(shape, i, j);
                board_set(&mut self.current, pos.0 + i, pos.1 + j, v);
                j = j + 1;
            }
            i = i + 1;
        }
        assert(self@ =~~= stamped(g, p, pw as int, ph as int, pos.0 as int, pos.1 as int));
        Ok(())
    }

    /// Advances one generation: fills the scratch board with the next state of every
    /// cell, read from the current board only, then swaps the two.
    pub fn step(&mut self)
        requires
            old(self).wf(),
        ensures
            final(self).wf(),
            final(self)@ == next_generation::<R>(old(self)@),
    {
        let (w, h) = board_dim(&self.current);
        let ghost g = self@;
        let mut x: usize = 0;
        while x < w
            invariant
                self.wf(),
                self@ == g,
                width(g) == w,
                height(g) == h,
                x <= w,
                forall|i: int, j: int|
                    0 <= i < x && 0 <= j < h ==> #[trigger] cells_of(self.next)[i][j] == R::next_spec(
                        g,
                        i,
                        j,
                    ),
            decreases w - x,
        {
            let mut y: usize = 0;
            while y < h
                invariant
                    self.wf(),
                    self@ == g,
                    width(g) == w,
                    height(g) == h,
                    x < w,
                    y <= h,
                    forall|i: int, j: int|
                        (0 <= i < x && 0 <= j < h) || (i == x && 0 <= j < y) ==> #[trigger] cells_of(
                            self.next,
                        )[i][j] == R::next_spec(g, i, j),
                decreases h - y,
            {
                let v = R::next_cell((x, y), &self.current);
                board_set(&mut self.next, x, y, v);
                y = y + 1;
            }
            x = x + 1;
        }
        core::mem::swap(&mut self.current, &mut self.next);
        assert(self@ =~~= next_generation::<R>(g));
    }

    /// The board as it now stands.
    pub fn current(&self) -> (r: &Board)
        ensures
            cells_of(*r) == self@,
    {
        &self.current
    }
}

} // verus!
