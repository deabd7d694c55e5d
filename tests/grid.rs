use conway::grid::{check_state, Game, DEFAULT_HEIGHT, DEFAULT_WIDTH};

fn grid(width: usize, height: usize, live: &[(usize, usize)]) -> Game {
    let mut game = Game::with_size(width, height).expect("positive size");
    for &(x, y) in live {
        game.set(x, y, true);
    }
    game
}

fn all_cells(game: &Game) -> Vec<bool> {
    let mut out = Vec::new();
    for x in 0..game.width() {
        for y in 0..game.height() {
            out.push(game.is_alive(x, y));
        }
    }
    out
}

#[test]
fn new_grid_is_default_size_and_dead() {
    let game = Game::new();
    assert_eq!(game.width(), DEFAULT_WIDTH);
    assert_eq!(game.height(), DEFAULT_HEIGHT);
    assert_eq!(game.width(), 60);
    assert_eq!(game.height(), 30);
    assert!(game.live_cells().is_empty());
}

#[test]
fn with_size_rejects_zero_and_overflowing_dimensions() {
    assert!(Game::with_size(0, 5).is_none());
    assert!(Game::with_size(5, 0).is_none());
    assert!(Game::with_size(0, 0).is_none());
    assert!(Game::with_size(usize::MAX, 2).is_none());
    let game = Game::with_size(4, 7).unwrap();
    assert_eq!((game.width(), game.height()), (4, 7));
}

#[test]
fn clear_kills_every_cell() {
    let mut game = grid(5, 4, &[(0, 0), (4, 3), (2, 1), (3, 3)]);
    game.clear_grid();
    assert_eq!((game.width(), game.height()), (5, 4));
    for x in 0..5 {
        for y in 0..4 {
            assert!(!game.is_alive(x, y));
        }
    }
}

#[test]
fn set_then_is_alive_reads_back() {
    let mut game = grid(3, 2, &[]);
    for x in 0..3 {
        for y in 0..2 {
            game.set(x, y, true);
            assert!(game.is_alive(x, y));
            game.set(x, y, true);
            assert!(game.is_alive(x, y));
            game.set(x, y, false);
            assert!(!game.is_alive(x, y));
            game.set(x, y, false);
            assert!(!game.is_alive(x, y));
        }
    }
}

#[test]
fn set_touches_one_cell_only() {
    let mut game = grid(4, 3, &[]);
    game.set(1, 2, true);
    assert_eq!(game.live_cells(), vec![(1, 2)]);
}

#[test]
fn corner_cell_counts_across_the_edges() {
    let game = grid(6, 5, &[(0, 0)]);
    assert_eq!(game.count_neighbours(5, 0), 1);
    assert_eq!(game.count_neighbours(0, 4), 1);
    assert_eq!(game.count_neighbours(5, 4), 1);
    assert_eq!(game.count_neighbours(3, 2), 0);
    assert_eq!(game.count_neighbours(0, 0), 0);
}

#[test]
fn neighbour_count_of_a_full_grid_is_eight() {
    let mut game = grid(4, 4, &[]);
    for x in 0..4 {
        for y in 0..4 {
            game.set(x, y, true);
        }
    }
    assert_eq!(game.count_neighbours(0, 0), 8);
    assert_eq!(game.count_neighbours(2, 1), 8);
}

#[test]
fn neighbour_count_on_a_single_cell_grid() {
    let game = grid(1, 1, &[(0, 0)]);
    assert_eq!(game.count_neighbours(0, 0), 8);
}

#[test]
fn transition_rule_table() {
    for n in 0..=8u8 {
        assert_eq!(check_state(true, n), n == 2 || n == 3);
        assert_eq!(check_state(false, n), n == 3);
    }
}

#[test]
fn dead_grid_stays_dead() {
    let mut game = grid(7, 5, &[]);
    for _ in 0..10 {
        game.update();
        assert!(game.live_cells().is_empty());
    }
}

#[test]
fn block_is_a_still_life() {
    let block = [(2, 2), (3, 2), (2, 3), (3, 3)];
    let mut game = grid(6, 6, &block);
    for &(x, y) in &block {
        assert_eq!(game.count_neighbours(x, y), 3);
    }
    assert_eq!(game.count_neighbours(1, 1), 1);
    assert_eq!(game.count_neighbours(2, 1), 2);
    assert_eq!(game.count_neighbours(1, 2), 2);
    assert_eq!(game.count_neighbours(4, 3), 2);
    let before = all_cells(&game);
    game.update();
    assert_eq!(all_cells(&game), before);
    assert_eq!(game.live_cells(), vec![(2, 2), (2, 3), (3, 2), (3, 3)]);
}

#[test]
fn blinker_oscillates() {
    let mut game = grid(5, 5, &[(1, 2), (2, 2), (3, 2)]);
    game.update();
    assert_eq!(game.live_cells(), vec![(2, 1), (2, 2), (2, 3)]);
    game.update();
    assert_eq!(game.live_cells(), vec![(1, 2), (2, 2), (3, 2)]);
}

#[test]
fn glider_moves_across_the_wrapped_edge() {
    let mut game = grid(5, 5, &[(1, 0), (2, 1), (0, 2), (1, 2), (2, 2)]);
    for _ in 0..20 {
        game.update();
    }
    // After four generations a glider has moved one cell right and one down;
    // after twenty it has crossed the whole 5x5 torus back to its start.
    assert_eq!(game.live_cells(), vec![(0, 2), (1, 0), (1, 2), (2, 1), (2, 2)]);
}

#[test]
fn step_is_deterministic() {
    let live = [(0, 0), (1, 0), (2, 1), (4, 4), (3, 2), (2, 2)];
    let mut a = grid(5, 6, &live);
    let mut b = grid(5, 6, &live);
    a.update();
    b.update();
    assert_eq!(all_cells(&a), all_cells(&b));
}

#[test]
fn step_reads_only_the_current_generation() {
    // A row of two cells dies out; an in-place update would have seen a
    // half-updated neighbourhood.
    let mut game = grid(5, 5, &[(1, 1), (2, 1)]);
    game.update();
    assert!(game.live_cells().is_empty());
}

#[test]
fn is_alive_leaves_the_grid_alone() {
    let mut game = grid(5, 5, &[(1, 2), (2, 2), (3, 2)]);
    let before = all_cells(&game);
    for _ in 0..3 {
        for x in 0..5 {
            for y in 0..5 {
                game.is_alive(x, y);
            }
        }
    }
    assert_eq!(all_cells(&game), before);
    game.update();
    assert_eq!(game.live_cells(), vec![(2, 1), (2, 2), (2, 3)]);
}

#[test]
fn live_cells_are_listed_column_by_column() {
    let game = grid(4, 3, &[(3, 0), (0, 2), (1, 1), (0, 0)]);
    assert_eq!(game.live_cells(), vec![(0, 0), (0, 2), (1, 1), (3, 0)]);
}
