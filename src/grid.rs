//! The board: a two-dimensional `ndarray` array of cells, seen by the proofs as a
//! sequence of columns, each a sequence of cells.
use vstd::arithmetic::div_mod::lemma_mod_multiples_vanish;
use crate::game::GameError;
use vstd::prelude::*;

verus! {

/// A two-dimensional array of cells; the first index is the column `x`, the second
/// the row `y`. The array is opaque to the proofs, which see it through `cells_of`
/// and `shape_of`. (It is held in a field of a struct of ours because Verus refuses
/// to declare `ndarray::ArrayBase` itself: its `RawData` bound cannot be resolved.)
#[verifier::external_body]
pub struct Board {
    cells: ndarray::Array2<bool>,
}

/// What a board holds: `cells_of(b)[x][y]` is the cell at index `(x, y)`.
pub uninterp spec fn cells_of(b: Board) -> Seq<Seq<bool>>;

/// The lengths of a board's two axes, as it was made.
pub uninterp spec fn shape_of(b: Board) -> (int, int);

/// A sequence of `w` columns of `h` cells each.
pub open spec fn has_shape(g: Seq<Seq<bool>>, w: int, h: int) -> bool {
    &&& g.len() == w
    &&& forall|x: int| 0 <= x < w ==> #[trigger] g[x].len() == h
}

/// The width of a board's contents: its number of columns.
pub open spec fn width(g: Seq<Seq<bool>>) -> int {
    g.len() as int
}

/// The height of a board's contents: the length of its first column.
pub open spec fn height(g: Seq<Seq<bool>>) -> int {
    g[0].len() as int
}

/// A grid: rectangular, with both sides positive and small enough that signed
/// coordinates reach every cell.
pub open spec fn is_grid(g: Seq<Seq<bool>>) -> bool {
    &&& 0 < width(g) <= isize::MAX
    &&& 0 < height(g) <= isize::MAX
    &&& has_shape(g, width(g), height(g))
}

/// The cell at any integer coordinates, which wrap around both edges.
pub open spec fn cell_wrapped(g: Seq<Seq<bool>>, x: int, y: int) -> bool {
    g[x % width(g)][y % height(g)]
}

/// Relies on `ArrayBase::default`: an array of shape `(w, h)` whose every element
/// is `bool::default()`, that is `false`. It panics when a side, or the product of
/// the sides that are not zero, overflows `isize`, which `requires` rules out.
#[verifier::external_body]
pub(crate) fn board_new(w: usize, h: usize) -> (r: Board)
    requires
        w <= isize::MAX,
        h <= isize::MAX,
        w * h <= isize::MAX,
    ensures
        shape_of(r) == (w as int, h as int),
        has_shape(cells_of(r), w as int, h as int),
        forall|x: int, y: int| 0 <= x < w && 0 <= y < h ==> !#[trigger] cells_of(r)[x][y],
{
    Board { cells: ndarray::Array2::<bool>::default((w, h)) }
}

/// Relies on `ArrayBase::dim`: the lengths of the two axes.
#[verifier::external_body]
pub(crate) fn board_dim(b: &Board) -> (r: (usize, usize))
    ensures
        shape_of(*b) == (r.0 as int, r.1 as int),
        has_shape(cells_of(*b), r.0 as int, r.1 as int),
{
    b.cells.dim()
}

/// Relies on `Index` for `ArrayBase`: the element at `(x, y)`; it panics out of
/// bounds, which `requires` rules out.
#[verifier::external_body]
pub(crate) fn board_get(b: &Board, x: usize, y: usize) -> (r: bool)
    requires
        0 <= x < cells_of(*b).len(),
        0 <= y < cells_of(*b)[x as int].len(),
    ensures
        r == cells_of(*b)[x as int][y as int],
{
    b.cells[(x, y)]
}

/// Relies on `IndexMut` for `ArrayBase`: overwrites the element at `(x, y)` and
/// nothing else; it panics out of bounds, which `requires` rules out.
#[verifier::external_body]
pub(crate) fn board_set(b: &mut Board, x: usize, y: usize, v: bool)
    requires
        0 <= x < cells_of(*old(b)).len(),
        0 <= y < cells_of(*old(b))[x as int].len(),
    ensures
        shape_of(*final(b)) == shape_of(*old(b)),
        cells_of(*final(b)) == cells_of(*old(b)).update(
            x as int,
            cells_of(*old(b))[x as int].update(y as int, v),
        ),
{
    b.cells[(x, y)] = v;
}

impl Board {
    /// A board of `width` columns and `height` rows, every cell dead.
    pub fn blank(width: usize, height: usize) -> (r: Board)
        requires
            width <= isize::MAX,
            height <= isize::MAX,
            width * height <= isize::MAX,
        ensures
            shape_of(r) == (width as int, height as int),
            cells_of(r) == Seq::new(width as nat, |x: int| Seq::new(height as nat, |y: int| false)),
    {
        let b = board_new(width, height);
        assert(cells_of(b) =~~= Seq::new(width as nat, |x: int| Seq::new(height as nat, |y: int| false)));
        b
    }

    /// The number of columns and the number of rows.
    pub fn dim(&self) -> (r: (usize, usize))
        ensures
            shape_of(*self) == (r.0 as int, r.1 as int),
            has_shape(cells_of(*self), r.0 as int, r.1 as int),
    {
        board_dim(self)
    }

    /// The cell at `pos`, or `None` where `pos` lies outside the board.
    pub fn get(&self, pos: (usize, usize)) -> (r: Option<bool>)
        ensures
            r == (if pos.0 < shape_of(*self).0 && pos.1 < shape_of(*self).1 {
                Some(cells_of(*self)[pos.0 as int][pos.1 as int])
            } else {
                None::<bool>
            }),
    {
        let (w, h) = board_dim(self);
        if pos.0 < w && pos.1 < h {
            Some(board_get(self, pos.0, pos.1))
        } else {
            None
        }
    }

    /// Sets the cell at `pos` to `alive`, or fails with `IndexOutOfRange`, leaving
    /// the board as it was, where `pos` lies outside the board.
    pub fn set(&mut self, pos: (usize, usize), alive: bool) -> (r: Result<(), GameError>)
        ensures
            shape_of(*final(self)) == shape_of(*old(self)),
            pos.0 < shape_of(*old(self)).0 && pos.1 < shape_of(*old(self)).1 ==> r == Ok::<(), GameError>(())
                && cells_of(*final(self)) == cells_of(*old(self)).update(
                    pos.0 as int,
                    cells_of(*old(self))[pos.0 as int].update(pos.1 as int, alive),
                ),
            !(pos.0 < shape_of(*old(self)).0 && pos.1 < shape_of(*old(self)).1) ==> r == Err::<(), GameError>(GameError::IndexOutOfRange)
                && *final(self) == *old(self),
    {
        let (w, h) = board_dim(self);
        if pos.0 < w && pos.1 < h {
            board_set(self, pos.0, pos.1, alive);
            Ok(())
        } else {
            Err(GameError::IndexOutOfRange)
        }
    }
}

/// The state of the cell at `pos`, where both coordinates wrap around the edges of
/// the board: `x` is taken modulo the width and `y` modulo the height, with a result
/// that is never negative.
pub fn wrapping_get(board: &Board, pos: (isize, isize)) -> (r: bool)
    requires
        is_grid(cells_of(*board)),
    ensures
        r == cell_wrapped(cells_of(*board), pos.0 as int, pos.1 as int),
{
    let (w, h) = board_dim(board);
    let w = w as isize;
    let h = h as isize;
    // Euclidean remainders: never negative for a positive divisor.
    let x = pos.0.checked_rem_euclid(w).unwrap();
    let y = pos.1.checked_rem_euclid(h).unwrap();
    board_get(board, x as usize, y as usize)
}

/// Wrapping is periodic: shifting the coordinates by `k` whole widths and `k` whole
/// heights, for any integer `k`, addresses the same cell.
pub proof fn lemma_wrapping_periodic(g: Seq<Seq<bool>>, x: int, y: int, k: int)
    requires
        is_grid(g),
    ensures
        cell_wrapped(g, x + k * width(g), y + k * height(g)) == cell_wrapped(g, x, y),
{
    lemma_mod_multiples_vanish(k, x, width(g));
    lemma_mod_multiples_vanish(k, y, height(g));
    assert(x + k * width(g) == width(g) * k + x) by (nonlinear_arith);
    assert(y + k * height(g) == height(g) * k + y) by (nonlinear_arith);
}

} // verus!
