use game_of_life::conway::ConwayRules;
use game_of_life::game::{Game, GameError};
use game_of_life::grid::{wrapping_get, Board};
use game_of_life::rules::Rules;

fn board_with(width: usize, height: usize, alive: &[(usize, usize)]) -> Board {
    let mut b = Board::blank(width, height);
    for &pos in alive {
        assert_eq!(b.set(pos, true), Ok(()));
    }
    b
}

fn alive_cells(b: &Board) -> Vec<(usize, usize)> {
    let (w, h) = b.dim();
    let mut out = Vec::new();
    for x in 0..w {
        for y in 0..h {
            if b.get((x, y)) == Some(true) {
                out.push((x, y));
            }
        }
    }
    out
}

fn new_game(width: usize, height: usize) -> Game<ConwayRules> {
    match Game::new(width, height) {
        Ok(g) => g,
        Err(e) => panic!("construction failed: {:?}", e),
    }
}

#[test]
fn wrapping_get_reduces_coordinates() {
    let b = board_with(4, 3, &[(3, 2), (0, 1)]);
    assert!(wrapping_get(&b, (3, 2)));
    assert!(wrapping_get(&b, (-1, -1)));
    assert!(wrapping_get(&b, (7, 5)));
    assert!(wrapping_get(&b, (4, 1)));
    assert!(wrapping_get(&b, (-4, -2)));
    assert!(!wrapping_get(&b, (1, 1)));
    assert!(!wrapping_get(&b, (-3, 0)));
}

#[test]
fn wrapping_get_is_periodic() {
    let b = board_with(5, 7, &[(1, 2), (4, 6), (0, 0)]);
    for x in -6isize..6 {
        for y in -8isize..8 {
            let base = wrapping_get(&b, (x, y));
            for k in -3isize..=3 {
                assert_eq!(wrapping_get(&b, (x + k * 5, y + k * 7)), base);
            }
        }
    }
}

#[test]
fn rule_on_full_middle_row_of_three_by_three() {
    // On a 3x3 torus the eight neighbours of a cell are the eight other cells.
    let b = board_with(3, 3, &[(1, 0), (1, 1), (1, 2)]);
    // live cells see two live neighbours and survive
    assert!(ConwayRules::next_cell((1, 1), &b));
    assert!(ConwayRules::next_cell((1, 0), &b));
    assert!(ConwayRules::next_cell((1, 2), &b));
    // dead cells see three live neighbours and are born
    assert!(ConwayRules::next_cell((0, 0), &b));
    assert!(ConwayRules::next_cell((2, 1), &b));
    let mut g = new_game(3, 3);
    assert_eq!(g.put(&b, (0, 0)), Ok(()));
    g.step();
    assert_eq!(alive_cells(g.current()).len(), 9);
}

#[test]
fn rule_survival_birth_and_death() {
    // live centre with 0 neighbours dies
    let b = board_with(5, 5, &[(2, 2)]);
    assert!(!ConwayRules::next_cell((2, 2), &b));
    // live centre with 1 neighbour dies
    let b = board_with(5, 5, &[(2, 2), (1, 1)]);
    assert!(!ConwayRules::next_cell((2, 2), &b));
    // live centre with 2 neighbours survives
    let b = board_with(5, 5, &[(2, 2), (1, 1), (3, 3)]);
    assert!(ConwayRules::next_cell((2, 2), &b));
    // live centre with 3 neighbours survives
    let b = board_with(5, 5, &[(2, 2), (1, 1), (3, 3), (1, 3)]);
    assert!(ConwayRules::next_cell((2, 2), &b));
    // live centre with 4 neighbours dies
    let b = board_with(5, 5, &[(2, 2), (1, 1), (3, 3), (1, 3), (3, 1)]);
    assert!(!ConwayRules::next_cell((2, 2), &b));
    // dead centre with 3 neighbours is born
    let b = board_with(5, 5, &[(1, 1), (3, 3), (2, 1)]);
    assert!(ConwayRules::next_cell((2, 2), &b));
    // dead centre with 2 or 4 neighbours stays dead
    let b = board_with(5, 5, &[(1, 1), (3, 3)]);
    assert!(!ConwayRules::next_cell((2, 2), &b));
    let b = board_with(5, 5, &[(1, 1), (3, 3), (2, 1), (2, 3)]);
    assert!(!ConwayRules::next_cell((2, 2), &b));
}

#[test]
fn rule_counts_neighbours_across_edges() {
    // (0, 0) has neighbours (4, 4), (4, 0) and (0, 4) on a 5x5 torus
    let b = board_with(5, 5, &[(4, 4), (4, 0), (0, 4)]);
    assert!(ConwayRules::next_cell((0, 0), &b));
}

#[test]
fn glider_shape() {
    let g = ConwayRules::glider();
    assert_eq!(g.dim(), (3, 3));
    assert_eq!(alive_cells(&g), vec![(0, 1), (1, 2), (2, 0), (2, 1), (2, 2)]);
}

#[test]
fn glider_moves_one_cell_diagonally_in_four_steps() {
    let mut g = new_game(50, 50);
    assert_eq!(g.put(&ConwayRules::glider(), (0, 0)), Ok(()));
    for _ in 0..4 {
        g.step();
    }
    assert_eq!(alive_cells(g.current()), vec![(1, 2), (2, 3), (3, 1), (3, 2), (3, 3)]);
}

#[test]
fn glider_wraps_around_the_edges() {
    let mut g = new_game(6, 6);
    assert_eq!(g.put(&ConwayRules::glider(), (3, 3)), Ok(()));
    for _ in 0..24 {
        g.step();
    }
    // six diagonal moves on a 6x6 torus bring it back where it started
    assert_eq!(alive_cells(g.current()), vec![(3, 4), (4, 5), (5, 3), (5, 4), (5, 5)]);
}

#[test]
fn blinker_has_period_two() {
    let mut g = new_game(5, 5);
    for x in 1..4 {
        assert_eq!(g.set((x, 2), true), Ok(()));
    }
    g.step();
    assert_eq!(alive_cells(g.current()), vec![(2, 1), (2, 2), (2, 3)]);
    g.step();
    assert_eq!(alive_cells(g.current()), vec![(1, 2), (2, 2), (3, 2)]);
    g.step();
    assert_eq!(alive_cells(g.current()), vec![(2, 1), (2, 2), (2, 3)]);
}

#[test]
fn set_rejects_positions_outside_the_board() {
    let mut g = new_game(4, 3);
    assert_eq!(g.set((4, 0), true), Err(GameError::IndexOutOfRange));
    assert_eq!(g.set((0, 3), true), Err(GameError::IndexOutOfRange));
    assert!(alive_cells(g.current()).is_empty());
    assert_eq!(g.set((3, 2), true), Ok(()));
    assert_eq!(alive_cells(g.current()), vec![(3, 2)]);
    assert_eq!(g.set((3, 2), false), Ok(()));
    assert!(alive_cells(g.current()).is_empty());
}

#[test]
fn put_rejects_a_pattern_that_does_not_fit() {
    let mut g = new_game(5, 5);
    assert_eq!(g.set((0, 0), true), Ok(()));
    assert_eq!(g.put(&ConwayRules::glider(), (3, 0)), Err(GameError::IndexOutOfRange));
    assert_eq!(g.put(&ConwayRules::glider(), (0, 3)), Err(GameError::IndexOutOfRange));
    assert_eq!(alive_cells(g.current()), vec![(0, 0)]);
    assert_eq!(g.put(&ConwayRules::glider(), (2, 2)), Ok(()));
    assert_eq!(alive_cells(g.current()), vec![(0, 0), (2, 3), (3, 4), (4, 2), (4, 3), (4, 4)]);
}

#[test]
fn put_overwrites_the_region() {
    let mut g = new_game(4, 4);
    assert_eq!(g.set((1, 1), true), Ok(()));
    assert_eq!(g.set((3, 3), true), Ok(()));
    assert_eq!(g.put(&Board::blank(2, 2), (0, 0)), Ok(()));
    assert_eq!(alive_cells(g.current()), vec![(3, 3)]);
}

#[test]
fn put_twice_equals_put_once() {
    let mut once = new_game(8, 8);
    let mut twice = new_game(8, 8);
    for g in [&mut once, &mut twice] {
        assert_eq!(g.set((3, 3), true), Ok(()));
        assert_eq!(g.set((7, 7), true), Ok(()));
    }
    let glider = ConwayRules::glider();
    assert_eq!(once.put(&glider, (2, 2)), Ok(()));
    assert_eq!(twice.put(&glider, (2, 2)), Ok(()));
    assert_eq!(twice.put(&glider, (2, 2)), Ok(()));
    assert_eq!(alive_cells(once.current()), alive_cells(twice.current()));
}

#[test]
fn construction_rejects_zero_sides() {
    assert!(matches!(Game::<ConwayRules>::new(0, 10), Err(GameError::ConstructionError)));
    assert!(matches!(Game::<ConwayRules>::new(10, 0), Err(GameError::ConstructionError)));
    let g = new_game(1, 1);
    assert_eq!(g.current().dim(), (1, 1));
    assert_eq!(g.current().get((0, 0)), Some(false));
    assert_eq!(g.current().get((1, 0)), None);
}

#[test]
fn single_cell_board_steps() {
    let mut g = new_game(1, 1);
    assert_eq!(g.set((0, 0), true), Ok(()));
    // all eight neighbours of the only cell are the cell itself
    g.step();
    assert_eq!(g.current().get((0, 0)), Some(false));
    g.step();
    assert_eq!(g.current().get((0, 0)), Some(false));
}

#[test]
fn board_set_and_get() {
    let mut b = Board::blank(2, 3);
    assert_eq!(b.dim(), (2, 3));
    assert_eq!(b.set((1, 2), true), Ok(()));
    assert_eq!(b.get((1, 2)), Some(true));
    assert_eq!(b.get((0, 2)), Some(false));
    assert_eq!(b.set((2, 0), true), Err(GameError::IndexOutOfRange));
    assert_eq!(b.get((2, 0)), None);
}
