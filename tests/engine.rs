use game_of_life::grid::{Grid, GridError, Pos};

fn grid_with(rows: usize, cols: usize, live: &[Pos]) -> Grid {
    let g = Grid::new(rows, cols).unwrap();
    let mut cells = vec![false; rows * cols];
    for &(r, c) in live {
        cells[r * cols + c] = true;
    }
    g.update(cells)
}

fn live_set(g: &Grid) -> Vec<Pos> {
    let mut out = Vec::new();
    for r in 0..g.rows() {
        for c in 0..g.cols() {
            if g.is_alive(&(r, c)) {
                out.push((r, c));
            }
        }
    }
    out
}

#[test]
fn new_grid_is_all_dead_with_given_size() {
    let g = Grid::new(4, 6).unwrap();
    assert_eq!(g.rows(), 4);
    assert_eq!(g.cols(), 6);
    assert_eq!(g.cells().len(), 24);
    assert!(g.cells().iter().all(|&b| !b));
}

#[test]
fn new_rejects_zero_rows() {
    assert_eq!(Grid::new(0, 5).unwrap_err(), GridError::InvalidDimensions);
}

#[test]
fn new_rejects_zero_cols() {
    assert_eq!(Grid::new(5, 0).unwrap_err(), GridError::InvalidDimensions);
    assert_eq!(Grid::new(0, 0).unwrap_err(), GridError::InvalidDimensions);
}

#[test]
fn index_and_position_round_trip() {
    let g = Grid::new(5, 7).unwrap();
    for idx in 0..35usize {
        let pos = g.idx_to_pos(&idx);
        assert!(pos.0 < 5 && pos.1 < 7);
        assert_eq!(g.pos_to_idx(&pos), idx);
    }
}

#[test]
fn coordinate_formulas() {
    let g = Grid::new(5, 7).unwrap();
    assert_eq!(g.pos_to_idx(&(2, 3)), 17);
    assert_eq!(g.idx_to_pos(&17), (2, 3));
    assert_eq!(g.idx_to_pos(&34), (4, 6));
    assert_eq!(g.pos_to_idx(&(0, 0)), 0);
}

#[test]
fn neighbor_counts_clamp_at_edges() {
    let all: Vec<Pos> = (0..3).flat_map(|r| (0..3).map(move |c| (r, c))).collect();
    let g = grid_with(3, 3, &all);
    assert_eq!(g.count_live_neighbors(&(0, 0)), 3);
    assert_eq!(g.count_live_neighbors(&(2, 2)), 3);
    assert_eq!(g.count_live_neighbors(&(0, 2)), 3);
    assert_eq!(g.count_live_neighbors(&(0, 1)), 5);
    assert_eq!(g.count_live_neighbors(&(1, 0)), 5);
    assert_eq!(g.count_live_neighbors(&(1, 1)), 8);
}

#[test]
fn neighbor_counts_stay_in_bounds_on_every_cell() {
    let all: Vec<Pos> = (0..4).flat_map(|r| (0..5).map(move |c| (r, c))).collect();
    let g = grid_with(4, 5, &all);
    for r in 0..4 {
        for c in 0..5 {
            let n = g.count_live_neighbors(&(r, c));
            let edge_r = r == 0 || r == 3;
            let edge_c = c == 0 || c == 4;
            let expected = if edge_r && edge_c {
                3
            } else if edge_r || edge_c {
                5
            } else {
                8
            };
            assert_eq!(n, expected);
        }
    }
}

#[test]
fn neighbor_count_on_single_row_and_column() {
    let g = grid_with(1, 4, &[(0, 0), (0, 1), (0, 2), (0, 3)]);
    assert_eq!(g.count_live_neighbors(&(0, 0)), 1);
    assert_eq!(g.count_live_neighbors(&(0, 1)), 2);
    let g = grid_with(1, 1, &[(0, 0)]);
    assert_eq!(g.count_live_neighbors(&(0, 0)), 0);
}

#[test]
fn neighbor_count_excludes_the_cell_itself() {
    let g = grid_with(3, 3, &[(1, 1)]);
    assert_eq!(g.count_live_neighbors(&(1, 1)), 0);
    assert_eq!(g.count_live_neighbors(&(0, 0)), 1);
}

#[test]
fn should_live_follows_the_rule() {
    // live centre with two neighbours survives
    let g = grid_with(3, 3, &[(1, 1), (0, 0), (0, 1)]);
    assert!(g.should_live(4));
    // dead corner with exactly three neighbours is born
    let g = grid_with(3, 3, &[(0, 1), (1, 0), (1, 1)]);
    assert!(g.should_live(0));
    // dead cell with two neighbours stays dead
    let g = grid_with(3, 3, &[(0, 1), (1, 0)]);
    assert!(!g.should_live(0));
    // live centre with four neighbours dies
    let g = grid_with(3, 3, &[(1, 1), (0, 0), (0, 2), (2, 0), (2, 2)]);
    assert!(!g.should_live(4));
    // live centre with one neighbour dies
    let g = grid_with(3, 3, &[(1, 1), (0, 0)]);
    assert!(!g.should_live(4));
}

#[test]
fn all_dead_three_by_three_stays_dead() {
    let g = Grid::new(3, 3).unwrap();
    let next = g.next_generation();
    assert_eq!(next, vec![false; 9]);
}

#[test]
fn lone_centre_cell_dies() {
    let g = grid_with(3, 3, &[(1, 1)]);
    let next = g.next_generation();
    assert_eq!(next, vec![false; 9]);
}

#[test]
fn blinker_turns_vertical() {
    let g = grid_with(5, 5, &[(1, 0), (1, 1), (1, 2)]);
    let next = g.tick();
    assert_eq!(live_set(&next), vec![(0, 1), (1, 1), (2, 1)]);
    let back = next.tick();
    assert_eq!(live_set(&back), vec![(1, 0), (1, 1), (1, 2)]);
}

#[test]
fn block_is_a_still_life() {
    let block = [(1, 1), (1, 2), (2, 1), (2, 2)];
    let g = grid_with(4, 4, &block);
    let next = g.tick();
    assert_eq!(next.cells(), g.cells());
    let g = grid_with(6, 7, &block);
    let next = g.tick().tick();
    assert_eq!(live_set(&next), block.to_vec());
}

#[test]
fn block_in_a_corner_is_still() {
    let g = grid_with(2, 2, &[(0, 0), (0, 1), (1, 0), (1, 1)]);
    assert_eq!(g.tick().cells(), g.cells());
}

#[test]
fn tick_keeps_dimensions() {
    let g = grid_with(3, 8, &[(0, 0), (2, 7), (1, 4)]);
    let next = g.tick();
    assert_eq!(next.rows(), 3);
    assert_eq!(next.cols(), 8);
    assert_eq!(next.cells().len(), 24);
}

#[test]
fn next_generation_leaves_the_grid_unchanged() {
    let g = grid_with(5, 5, &[(1, 0), (1, 1), (1, 2)]);
    let before = g.cells().clone();
    let next = g.next_generation();
    assert_eq!(g.cells(), &before);
    assert_ne!(next, before);
    // computing it again gives the same answer: only the current state counts
    assert_eq!(g.next_generation(), next);
}

#[test]
fn update_replaces_cells_and_keeps_size() {
    let g = Grid::new(2, 3).unwrap();
    let h = g.update(vec![true, false, true, false, false, true]);
    assert_eq!(h.rows(), 2);
    assert_eq!(h.cols(), 3);
    assert!(h.is_alive(&(0, 0)));
    assert!(!h.is_alive(&(0, 1)));
    assert!(h.is_alive(&(1, 2)));
    assert!(g.cells().iter().all(|&b| !b));
}

#[test]
fn checked_lookup_reports_out_of_range() {
    let g = grid_with(2, 3, &[(1, 2)]);
    assert_eq!(g.try_is_alive(&(1, 2)), Ok(true));
    assert_eq!(g.try_is_alive(&(0, 0)), Ok(false));
    assert_eq!(g.try_is_alive(&(2, 0)), Err(GridError::IndexOutOfRange));
    assert_eq!(g.try_is_alive(&(0, 3)), Err(GridError::IndexOutOfRange));
}
