use game_of_life::universe::Universe;
use game_of_life::universe::UniverseError;
use rand::rngs::StdRng;
use rand::SeedableRng;

fn universe(width: usize, height: usize) -> Universe {
    match Universe::new(width, height) {
        Ok(universe) => universe,
        Err(error) => panic!("a {width} by {height} universe was refused: {error:?}"),
    }
}

fn alive(universe: &Universe) -> Vec<(usize, usize)> {
    let mut cells = Vec::new();
    for y in 0..universe.height() {
        for x in 0..universe.width() {
            if universe.is_alive(universe.index(x, y)) {
                cells.push((x, y));
            }
        }
    }
    cells
}

fn changed(universe: &Universe) -> Vec<(usize, usize)> {
    let mut cells = Vec::new();
    for y in 0..universe.height() {
        for x in 0..universe.width() {
            if universe.has_changed(universe.index(x, y)) {
                cells.push((x, y));
            }
        }
    }
    cells
}

fn with_cells(width: usize, height: usize, cells: &[(usize, usize)]) -> Universe {
    let mut grid = universe(width, height);
    let mut states = vec![false; width * height];
    for &(x, y) in cells {
        states[y * width + x] = true;
    }
    grid.populate(&states);
    grid
}

#[test]
fn new_universe_is_dead_and_fresh() {
    let grid = universe(4, 3);
    assert_eq!(grid.width(), 4);
    assert_eq!(grid.height(), 3);
    assert_eq!(grid.dimensions(), (4, 3));
    assert_eq!(grid.size(), 12);
    for index in 0..12 {
        assert!(!grid.is_alive(index));
        assert!(grid.has_changed(index));
    }
}

#[test]
fn new_refuses_a_universe_without_cells() {
    assert_eq!(Universe::new(0, 5).err(), Some(UniverseError::Empty));
    assert_eq!(Universe::new(5, 0).err(), Some(UniverseError::Empty));
    assert_eq!(Universe::new(0, 0).err(), Some(UniverseError::Empty));
    assert_eq!(Universe::new(0, usize::MAX).err(), Some(UniverseError::Empty));
}

#[test]
fn new_refuses_a_universe_too_large_to_count() {
    assert_eq!(Universe::new(usize::MAX, 2).err(), Some(UniverseError::TooLarge));
    assert_eq!(Universe::new(usize::MAX, usize::MAX).err(), Some(UniverseError::TooLarge));
}

#[test]
fn new_accepts_the_smallest_universe() {
    let grid = universe(1, 1);
    assert_eq!(grid.size(), 1);
    assert!(!grid.is_alive(0));
}

#[test]
fn index_is_row_major() {
    let grid = universe(7, 5);
    assert_eq!(grid.index(0, 0), 0);
    assert_eq!(grid.index(6, 0), 6);
    assert_eq!(grid.index(0, 1), 7);
    assert_eq!(grid.index(3, 2), 17);
    assert_eq!(grid.index(6, 4), 34);
}

#[test]
fn toggle_flips_and_flags() {
    let mut grid = universe(5, 5);
    grid.clear();
    assert!(changed(&grid).is_empty());

    grid.toggle(3, 1);
    assert_eq!(alive(&grid), vec![(3, 1)]);
    assert_eq!(changed(&grid), vec![(3, 1)]);
}

#[test]
fn toggling_twice_restores_the_cell() {
    let mut grid = with_cells(5, 5, &[(2, 2), (4, 0)]);
    grid.clear();
    grid.populate(&{
        let mut states = vec![false; 25];
        states[2 * 5 + 2] = true;
        states
    });

    let index = grid.index(2, 2);
    grid.toggle(2, 2);
    assert!(!grid.is_alive(index));
    assert!(grid.has_changed(index));
    grid.toggle(2, 2);
    assert!(grid.is_alive(index));
    assert!(grid.has_changed(index));

    let other = grid.index(1, 3);
    grid.toggle(1, 3);
    assert!(grid.is_alive(other));
    assert!(grid.has_changed(other));
    grid.toggle(1, 3);
    assert!(!grid.is_alive(other));
    assert!(grid.has_changed(other));
}

#[test]
fn clear_kills_all_and_flags_the_living() {
    let mut grid = with_cells(4, 4, &[(0, 0), (3, 2)]);
    grid.clear();
    assert!(alive(&grid).is_empty());
    assert_eq!(changed(&grid), vec![(0, 0), (3, 2)]);

    grid.clear();
    assert!(alive(&grid).is_empty());
    assert!(changed(&grid).is_empty());
    assert_eq!(grid.size(), 16);
}

#[test]
fn populate_flags_what_is_new() {
    let mut grid = with_cells(3, 2, &[(0, 0), (1, 1)]);
    grid.populate(&[true, true, false, false, false, false]);
    assert_eq!(alive(&grid), vec![(0, 0), (1, 0)]);
    assert_eq!(changed(&grid), vec![(1, 0), (1, 1)]);
}

#[test]
fn neighbours_are_counted_around_the_torus() {
    let grid = with_cells(5, 4, &[(4, 3), (0, 3), (1, 0), (4, 1), (2, 2)]);
    // Around the top left corner lie (4, 3), (0, 3), (1, 3), (4, 0), (1, 0),
    // (4, 1), (0, 1) and (1, 1).
    assert_eq!(grid.neighbours(0, 0), 4);
    assert_eq!(grid.neighbours(4, 3), 1);
    assert_eq!(grid.neighbours(2, 2), 0);
    assert_eq!(grid.neighbours(3, 2), 3);
    assert_eq!(grid.neighbours(1, 1), 2);
}

#[test]
fn a_cell_is_not_its_own_neighbour() {
    let grid = with_cells(3, 3, &[(1, 1)]);
    assert_eq!(grid.neighbours(1, 1), 0);
    for &(x, y) in &[(0, 0), (1, 0), (2, 0), (0, 1), (2, 1), (0, 2), (1, 2), (2, 2)] {
        assert_eq!(grid.neighbours(x, y), 1);
    }
}

#[test]
fn a_full_universe_has_eight_neighbours_everywhere() {
    let mut grid = universe(6, 5);
    grid.populate(&vec![true; 30]);
    for y in 0..5 {
        for x in 0..6 {
            assert_eq!(grid.neighbours(x, y), 8);
        }
    }
}

#[test]
fn neighbours_on_a_single_column() {
    // Every offset across leads back to the one column; the offsets that are
    // zero both across and down are left out.
    let mut grid = universe(1, 3);
    grid.populate(&[true, false, false]);
    assert_eq!(grid.neighbours(0, 0), 1);
    assert_eq!(grid.neighbours(0, 1), 3);
    assert_eq!(grid.neighbours(0, 2), 3);
}

#[test]
fn neighbours_on_a_single_cell() {
    let mut grid = universe(1, 1);
    grid.populate(&[true]);
    assert_eq!(grid.neighbours(0, 0), 5);
}

#[test]
fn a_block_is_a_still_life() {
    let block = [(1, 1), (2, 1), (1, 2), (2, 2)];
    let mut grid = with_cells(6, 6, &block);
    for _ in 0..3 {
        grid.step();
        assert_eq!(alive(&grid), vec![(1, 1), (2, 1), (1, 2), (2, 2)]);
        assert!(changed(&grid).is_empty());
    }
}

#[test]
fn an_empty_universe_is_a_still_life() {
    let mut grid = universe(4, 4);
    grid.step();
    assert!(alive(&grid).is_empty());
    assert!(changed(&grid).is_empty());
}

#[test]
fn a_blinker_oscillates() {
    let mut grid = with_cells(5, 5, &[(1, 2), (2, 2), (3, 2)]);

    grid.step();
    assert_eq!(alive(&grid), vec![(2, 1), (2, 2), (2, 3)]);
    assert_eq!(changed(&grid), vec![(2, 1), (1, 2), (3, 2), (2, 3)]);

    grid.step();
    assert_eq!(alive(&grid), vec![(1, 2), (2, 2), (3, 2)]);
    assert_eq!(changed(&grid), vec![(2, 1), (1, 2), (3, 2), (2, 3)]);
}

#[test]
fn a_blinker_oscillates_on_a_larger_universe() {
    let mut grid = with_cells(9, 6, &[(1, 2), (2, 2), (3, 2)]);
    grid.step();
    assert_eq!(alive(&grid), vec![(2, 1), (2, 2), (2, 3)]);
    grid.step();
    assert_eq!(alive(&grid), vec![(1, 2), (2, 2), (3, 2)]);
}

#[test]
fn a_blinker_oscillates_across_the_edge() {
    let mut grid = with_cells(5, 5, &[(4, 0), (0, 0), (1, 0)]);
    grid.step();
    assert_eq!(alive(&grid), vec![(0, 0), (0, 1), (0, 4)]);
    grid.step();
    assert_eq!(alive(&grid), vec![(0, 0), (1, 0), (4, 0)]);
}

#[test]
fn the_rule_is_applied_to_all_cells_at_once() {
    // A lone pair dies out in one generation; were a cell judged by the new
    // state of the cell before it, the second would still die, but a row of
    // three would not become a column.
    let mut grid = with_cells(5, 5, &[(1, 1), (2, 1)]);
    grid.step();
    assert!(alive(&grid).is_empty());
    assert_eq!(changed(&grid), vec![(1, 1), (2, 1)]);
}

#[test]
fn overcrowding_kills() {
    let mut grid = with_cells(5, 5, &[(1, 1), (2, 1), (3, 1), (1, 2), (2, 2)]);
    grid.step();
    // (2, 2) has four live neighbours and (2, 1) has four as well.
    assert!(!grid.is_alive(grid.index(2, 2)));
    assert!(!grid.is_alive(grid.index(2, 1)));
    // (1, 1) has three and survives; (2, 0) has three and is born.
    assert!(grid.is_alive(grid.index(1, 1)));
    assert!(grid.is_alive(grid.index(2, 0)));
}

#[test]
fn rand_flags_exactly_the_cells_it_changed() {
    let mut rng = StdRng::seed_from_u64(7);
    let mut grid = with_cells(16, 16, &[(0, 0), (5, 5), (15, 15)]);
    for _ in 0..4 {
        let before: Vec<bool> = (0..grid.size()).map(|index| grid.is_alive(index)).collect();
        grid.rand(&mut rng);
        assert_eq!(grid.size(), 256);
        assert_eq!(grid.dimensions(), (16, 16));
        for index in 0..256 {
            assert_eq!(grid.has_changed(index), grid.is_alive(index) != before[index]);
        }
    }
}

#[test]
fn rand_draws_both_states() {
    let mut rng = StdRng::seed_from_u64(2024);
    let mut grid = universe(32, 32);
    grid.rand(&mut rng);
    let living = alive(&grid).len();
    assert!(living > 0);
    assert!(living < 1024);
}

#[test]
fn rand_follows_the_generator() {
    let mut first = universe(8, 8);
    let mut second = universe(8, 8);
    first.rand(&mut StdRng::seed_from_u64(99));
    second.rand(&mut StdRng::seed_from_u64(99));
    assert_eq!(alive(&first), alive(&second));
}

#[test]
fn to_string_draws_one_line_per_row() {
    let grid = with_cells(3, 2, &[(0, 0), (2, 1)]);
    assert_eq!(grid.to_string(), "\u{25FC}  \n  \u{25FC}\n");
}

#[test]
fn to_string_of_a_dead_universe_is_blank() {
    let grid = universe(2, 3);
    assert_eq!(grid.to_string(), "  \n  \n  \n");
}

#[test]
fn to_string_of_a_blinker() {
    let mut grid = with_cells(5, 5, &[(1, 2), (2, 2), (3, 2)]);
    assert_eq!(grid.to_string(), "     \n     \n \u{25FC}\u{25FC}\u{25FC} \n     \n     \n");
    grid.step();
    assert_eq!(
        grid.to_string(),
        "     \n  \u{25FC}  \n  \u{25FC}  \n  \u{25FC}  \n     \n"
    );
}
