use life::diff::changed_cells;
use life::engine::{alive_neighbors, next_generation, next_state};
use life::frame::{frame_cells, piece_at, title_column, FrameCell, Piece};
use life::grid::Grid;
use life::input::{classify, next_mode, Key, Mode};
use life::seed::{mark_cells, seed};
use nanorand::{Rng, WyRand};

fn grid_with(width: usize, height: usize, alive: &[(usize, usize)]) -> Grid {
    let mut g = Grid::new(width, height);
    for &(x, y) in alive {
        g.set(x, y, 0, true);
    }
    g
}

fn alive_in(g: &Grid, parity: usize) -> Vec<(usize, usize)> {
    let mut v = Vec::new();
    for y in 0..g.height() {
        for x in 0..g.width() {
            if g.get(x, y, parity) {
                v.push((x, y));
            }
        }
    }
    v
}

#[test]
fn new_grid_is_all_dead() {
    let g = Grid::new(6, 5);
    assert_eq!(g.width(), 6);
    assert_eq!(g.height(), 5);
    assert!(alive_in(&g, 0).is_empty());
    assert!(alive_in(&g, 1).is_empty());
}

#[test]
fn set_touches_one_flag() {
    let mut g = Grid::new(4, 4);
    g.set(2, 1, 1, true);
    assert!(g.get(2, 1, 1));
    assert!(!g.get(2, 1, 0));
    assert!(!g.get(1, 2, 1));
    assert_eq!(alive_in(&g, 1), vec![(2, 1)]);
    g.set(2, 1, 1, false);
    assert!(alive_in(&g, 1).is_empty());
}

#[test]
fn rule_table() {
    assert!(!next_state(true, 0));
    assert!(!next_state(true, 1));
    assert!(next_state(true, 2));
    assert!(next_state(true, 3));
    assert!(!next_state(true, 4));
    assert!(!next_state(true, 8));
    assert!(next_state(false, 3));
    assert!(!next_state(false, 2));
    assert!(!next_state(false, 4));
    assert!(!next_state(false, 0));
}

#[test]
fn neighbor_counts_full_grid() {
    let mut all = Vec::new();
    for y in 0..5 {
        for x in 0..5 {
            all.push((x, y));
        }
    }
    let g = grid_with(5, 5, &all);
    // generation 1 reads plane 0; coordinates are (row, column)
    assert_eq!(alive_neighbors(&g, 1, (2, 2)), 8);
    assert_eq!(alive_neighbors(&g, 1, (0, 0)), 3);
    assert_eq!(alive_neighbors(&g, 1, (4, 4)), 3);
    assert_eq!(alive_neighbors(&g, 1, (0, 2)), 5);
    assert_eq!(alive_neighbors(&g, 1, (2, 4)), 5);
    // generation 2 reads plane 1, which is empty
    assert_eq!(alive_neighbors(&g, 2, (2, 2)), 0);
}

#[test]
fn neighbor_count_is_row_column() {
    let g = grid_with(6, 4, &[(4, 0), (5, 1)]);
    assert_eq!(alive_neighbors(&g, 1, (0, 5)), 2);
    assert_eq!(alive_neighbors(&g, 1, (1, 4)), 2);
    assert_eq!(alive_neighbors(&g, 1, (3, 0)), 0);
}

#[test]
fn block_is_still_life() {
    let block = [(3, 3), (4, 3), (3, 4), (4, 4)];
    let mut g = grid_with(8, 8, &block);
    for gen in 1..10 {
        next_generation(&mut g, gen);
        assert_eq!(alive_in(&g, gen % 2), vec![(3, 3), (4, 3), (3, 4), (4, 4)]);
    }
}

#[test]
fn blinker_oscillates() {
    let mut g = grid_with(7, 7, &[(2, 3), (3, 3), (4, 3)]);
    next_generation(&mut g, 1);
    assert_eq!(alive_in(&g, 1), vec![(3, 2), (3, 3), (3, 4)]);
    next_generation(&mut g, 2);
    assert_eq!(alive_in(&g, 0), vec![(2, 3), (3, 3), (4, 3)]);
}

#[test]
fn lone_corner_cell_dies_without_wrapping() {
    let mut g = grid_with(5, 4, &[(0, 0), (4, 3)]);
    assert_eq!(alive_neighbors(&g, 1, (3, 4)), 0);
    assert_eq!(alive_neighbors(&g, 1, (0, 0)), 0);
    next_generation(&mut g, 1);
    assert!(alive_in(&g, 1).is_empty());
    // the previous plane is left as it was
    assert_eq!(alive_in(&g, 0), vec![(0, 0), (4, 3)]);
}

#[test]
fn edge_birth_counts_only_inside_cells() {
    // three cells along the top edge: the middle one sees two, the one below sees three
    let mut g = grid_with(5, 5, &[(1, 0), (2, 0), (3, 0)]);
    next_generation(&mut g, 1);
    assert_eq!(alive_in(&g, 1), vec![(2, 0), (2, 1)]);
}

#[test]
fn diff_lists_changed_interior_cells() {
    let mut g = grid_with(7, 7, &[(2, 3), (3, 3), (4, 3)]);
    next_generation(&mut g, 1);
    let d = changed_cells(&g, 1);
    assert_eq!(d, vec![(3, 2, true), (2, 3, false), (4, 3, false), (3, 4, true)]);
    next_generation(&mut g, 2);
    let d = changed_cells(&g, 2);
    assert_eq!(d, vec![(3, 2, false), (2, 3, true), (4, 3, true), (3, 4, false)]);
}

#[test]
fn diff_skips_border_and_unchanged() {
    let mut g = Grid::new(5, 5);
    g.set(0, 0, 1, true);
    g.set(4, 2, 1, true);
    g.set(2, 2, 1, true);
    g.set(2, 2, 0, true);
    g.set(1, 3, 1, true);
    assert_eq!(changed_cells(&g, 1), vec![(1, 3, true)]);
    assert_eq!(changed_cells(&g, 2), vec![(1, 3, false)]);
}

#[test]
fn diff_of_tiny_grid_is_empty() {
    let mut g = Grid::new(2, 2);
    g.set(0, 0, 1, true);
    assert!(changed_cells(&g, 1).is_empty());
    let g = Grid::new(0, 0);
    assert!(changed_cells(&g, 1).is_empty());
}

#[test]
fn seed_stays_in_middle() {
    let mut rng = WyRand::new_seed(42);
    let g = seed(40, 20, 150, &mut rng);
    let alive = alive_in(&g, 0);
    assert!(!alive.is_empty());
    assert!(alive.len() <= 150);
    for &(x, y) in &alive {
        assert!(x >= 10 && x < 30);
        assert!(y >= 5 && y < 15);
    }
    assert!(alive_in(&g, 1).is_empty());
}

#[test]
fn seed_draws_varied_cells() {
    let mut rng = WyRand::new_seed(7);
    let g = seed(40, 40, 200, &mut rng);
    let alive = alive_in(&g, 0);
    assert!(alive.len() > 1);
    assert!(alive.iter().any(|&(x, _)| x != 10));
    assert!(alive.iter().any(|&(_, y)| y != 10));
}

#[test]
fn seed_of_zero_cells_is_empty() {
    let mut rng = WyRand::new_seed(1);
    let g = seed(4, 4, 0, &mut rng);
    assert!(alive_in(&g, 0).is_empty());
}

#[test]
fn seed_on_smallest_grid() {
    let mut rng = WyRand::new_seed(3);
    let g = seed(4, 7, 30, &mut rng);
    let alive = alive_in(&g, 0);
    assert!(!alive.is_empty());
    for (x, y) in alive {
        assert!(x >= 1 && x < 3);
        assert!(y >= 1 && y < 3);
    }
}

#[test]
fn keys_are_classified() {
    assert_eq!(classify(' '), Key::Pause);
    assert_eq!(classify('q'), Key::Quit);
    assert_eq!(classify('Q'), Key::Other);
    assert_eq!(classify('x'), Key::Other);
}

#[test]
fn modes_follow_keys() {
    assert_eq!(next_mode(Mode::Running, None), Mode::Running);
    assert_eq!(next_mode(Mode::Running, Some(Key::Other)), Mode::Running);
    assert_eq!(next_mode(Mode::Running, Some(Key::Pause)), Mode::Paused);
    assert_eq!(next_mode(Mode::Running, Some(Key::Quit)), Mode::Stopped);
    assert_eq!(next_mode(Mode::Paused, None), Mode::Paused);
    assert_eq!(next_mode(Mode::Paused, Some(Key::Other)), Mode::Paused);
    assert_eq!(next_mode(Mode::Paused, Some(Key::Pause)), Mode::Running);
    assert_eq!(next_mode(Mode::Paused, Some(Key::Quit)), Mode::Stopped);
    assert_eq!(next_mode(Mode::Stopped, Some(Key::Pause)), Mode::Stopped);
    assert_eq!(next_mode(Mode::Stopped, None), Mode::Stopped);
}

#[test]
fn frame_pieces() {
    assert_eq!(piece_at(5, 4, 0, 0), Some(Piece::TopLeft));
    assert_eq!(piece_at(5, 4, 4, 0), Some(Piece::TopRight));
    assert_eq!(piece_at(5, 4, 0, 3), Some(Piece::BottomLeft));
    assert_eq!(piece_at(5, 4, 4, 3), Some(Piece::BottomRight));
    assert_eq!(piece_at(5, 4, 2, 0), Some(Piece::Horizontal));
    assert_eq!(piece_at(5, 4, 2, 3), Some(Piece::Horizontal));
    assert_eq!(piece_at(5, 4, 0, 1), Some(Piece::Vertical));
    assert_eq!(piece_at(5, 4, 4, 2), Some(Piece::Vertical));
    assert_eq!(piece_at(5, 4, 2, 2), None);
    assert_eq!(piece_at(5, 4, 5, 0), None);
}

#[test]
fn frame_is_the_outer_ring() {
    let f = frame_cells(5, 4);
    assert_eq!(f.len(), 14);
    assert_eq!(f[0], FrameCell { x: 0, y: 0, piece: Piece::TopLeft });
    assert_eq!(f[13], FrameCell { x: 4, y: 3, piece: Piece::BottomRight });
    for c in &f {
        assert!(c.x == 0 || c.x == 4 || c.y == 0 || c.y == 3);
    }
}

#[test]
fn title_is_centred() {
    assert_eq!(title_column(80, 14), 33);
    assert_eq!(title_column(81, 14), 33);
    assert_eq!(title_column(14, 14), 0);
}

#[test]
fn single_cell_grid_dies() {
    let mut g = grid_with(1, 1, &[(0, 0)]);
    assert_eq!(alive_neighbors(&g, 1, (0, 0)), 0);
    next_generation(&mut g, 1);
    assert!(!g.get(0, 0, 1));
    assert!(g.get(0, 0, 0));
}

#[test]
fn empty_grid_advances() {
    let mut g = Grid::new(0, 0);
    next_generation(&mut g, 1);
    assert_eq!(g.width(), 0);
}

#[test]
fn mark_cells_marks_exactly_the_list() {
    let g = mark_cells(6, 5, &vec![(1, 2), (4, 0), (1, 2), (5, 4)]);
    assert_eq!(alive_in(&g, 0), vec![(4, 0), (1, 2), (5, 4)]);
    assert!(alive_in(&g, 1).is_empty());
    let g = mark_cells(6, 5, &vec![]);
    assert!(alive_in(&g, 0).is_empty());
}

#[test]
fn seed_marks_every_draw() {
    let mut replay = WyRand::new_seed(99);
    let mut draws = Vec::new();
    for _ in 0..60 {
        let x: usize = replay.generate_range(8..24);
        let y: usize = replay.generate_range(3..9);
        draws.push((x, y));
    }
    let mut rng = WyRand::new_seed(99);
    let g = seed(32, 12, 60, &mut rng);
    let expected = mark_cells(32, 12, &draws);
    assert_eq!(alive_in(&g, 0), alive_in(&expected, 0));
    for &(x, y) in &draws {
        assert!(g.get(x, y, 0));
    }
}

#[test]
fn seed_of_one_cell_has_one_alive() {
    let mut rng = WyRand::new_seed(5);
    let g = seed(10, 10, 1, &mut rng);
    let alive = alive_in(&g, 0);
    assert_eq!(alive.len(), 1);
    assert!(alive[0].0 >= 2 && alive[0].0 < 6);
    assert!(alive[0].1 >= 2 && alive[0].1 < 6);
}

#[test]
fn frame_cells_are_distinct() {
    let f = frame_cells(6, 5);
    assert_eq!(f.len(), 18);
    for i in 0..f.len() {
        for j in i + 1..f.len() {
            assert!((f[i].x, f[i].y) != (f[j].x, f[j].y));
        }
    }
}
