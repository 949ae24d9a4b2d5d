use lifegame::{Cell, Universe, DEFAULT_HEIGHT, DEFAULT_WIDTH};

fn grid(width: u32, height: u32, alive: &[(u32, u32)]) -> Universe {
    let mut cells = vec![Cell::Dead; (width * height) as usize];
    for &(r, c) in alive {
        cells[(r * width + c) as usize] = Cell::Alive;
    }
    Universe::from_cells(width, height, cells).expect("valid dimensions")
}

fn alive_positions(u: &Universe) -> Vec<(u32, u32)> {
    let mut out = Vec::new();
    for (i, cell) in u.cells().iter().enumerate() {
        if *cell == Cell::Alive {
            let i = i as u32;
            out.push((i / u.width(), i % u.width()));
        }
    }
    out
}

#[test]
fn new_has_default_size_and_seed_pattern() {
    let u = Universe::new();
    assert_eq!(u.width(), DEFAULT_WIDTH);
    assert_eq!(u.height(), DEFAULT_HEIGHT);
    assert_eq!(u.width(), 400);
    assert_eq!(u.height(), 400);
    let cells = u.cells();
    assert_eq!(cells.len(), 160_000);
    for i in 0..cells.len() {
        let expected = if i % 2 == 0 || i % 7 == 0 { Cell::Alive } else { Cell::Dead };
        assert_eq!(cells[i], expected);
    }
}

#[test]
fn with_size_seeds_by_index() {
    let u = Universe::with_size(5, 3);
    assert_eq!(u.width(), 5);
    assert_eq!(u.height(), 3);
    let (a, d) = (Cell::Alive, Cell::Dead);
    assert_eq!(
        u.cells(),
        &[a, d, a, d, a, d, a, a, a, d, a, d, a, d, a][..]
    );
}

#[test]
fn from_cells_rejects_bad_shapes() {
    assert!(Universe::from_cells(0, 3, vec![]).is_none());
    assert!(Universe::from_cells(3, 0, vec![]).is_none());
    assert!(Universe::from_cells(3, 3, vec![Cell::Dead; 8]).is_none());
    assert!(Universe::from_cells(3, 3, vec![Cell::Dead; 10]).is_none());
    let u = Universe::from_cells(3, 2, vec![Cell::Alive; 6]).unwrap();
    assert_eq!(u.width(), 3);
    assert_eq!(u.height(), 2);
    assert_eq!(u.cells(), &[Cell::Alive; 6][..]);
}

#[test]
fn cell_bytes_are_zero_and_one() {
    let u = grid(3, 2, &[(0, 1), (1, 2)]);
    assert_eq!(u.cell_bytes(), vec![0, 1, 0, 0, 0, 1]);
    assert_eq!(Cell::Dead.as_byte(), 0);
    assert_eq!(Cell::Alive.as_byte(), 1);
}

#[test]
fn cell_toggle_flips() {
    let mut c = Cell::Dead;
    c.toggle();
    assert_eq!(c, Cell::Alive);
    c.toggle();
    assert_eq!(c, Cell::Dead);
}

#[test]
fn successor_follows_conway_rule() {
    for n in 0u8..=8 {
        let from_alive = if n == 2 || n == 3 { Cell::Alive } else { Cell::Dead };
        let from_dead = if n == 3 { Cell::Alive } else { Cell::Dead };
        assert_eq!(Cell::Alive.successor(n), from_alive);
        assert_eq!(Cell::Dead.successor(n), from_dead);
    }
}

#[test]
fn neighbor_counts_wrap_around_edges() {
    // the four corners of a 4x4 torus are mutual neighbours
    let u = grid(4, 4, &[(0, 0), (0, 3), (3, 0), (3, 3)]);
    assert_eq!(u.live_neighbor_count(0, 0), 3);
    assert_eq!(u.live_neighbor_count_improved(0, 0), 3);
    assert_eq!(u.live_neighbor_count(3, 3), 3);
    assert_eq!(u.live_neighbor_count_improved(3, 3), 3);
    assert_eq!(u.live_neighbor_count(1, 1), 1);
    assert_eq!(u.live_neighbor_count_improved(1, 1), 1);
    assert_eq!(u.live_neighbor_count(0, 1), 2);
    assert_eq!(u.live_neighbor_count_improved(0, 1), 2);
}

#[test]
fn neighbor_count_variants_agree_and_stay_in_range() {
    let u = Universe::with_size(7, 5);
    for r in 0..5 {
        for c in 0..7 {
            let a = u.live_neighbor_count(r, c);
            let b = u.live_neighbor_count_improved(r, c);
            assert_eq!(a, b);
            assert!(a <= 8);
        }
    }
    let full = grid(3, 3, &[(0, 0), (0, 1), (0, 2), (1, 0), (1, 1), (1, 2), (2, 0), (2, 1), (2, 2)]);
    assert_eq!(full.live_neighbor_count(1, 1), 8);
    assert_eq!(full.live_neighbor_count_improved(0, 0), 8);
}

#[test]
fn neighbor_count_is_invariant_under_translation() {
    let (w, h) = (6u32, 5u32);
    let pattern = [(0u32, 0u32), (0, 1), (1, 5), (4, 2), (2, 2), (3, 3)];
    let original = grid(w, h, &pattern);
    for (dr, dc) in [(1u32, 2u32), (4, 5), (2, 0), (0, 3)] {
        let moved: Vec<(u32, u32)> =
            pattern.iter().map(|&(r, c)| ((r + dr) % h, (c + dc) % w)).collect();
        let shifted = grid(w, h, &moved);
        for r in 0..h {
            for c in 0..w {
                assert_eq!(
                    shifted.live_neighbor_count_improved((r + dr) % h, (c + dc) % w),
                    original.live_neighbor_count_improved(r, c)
                );
            }
        }
    }
}

#[test]
fn three_neighbours_give_birth_and_lonely_cells_die() {
    // (2, 2) is dead with three live neighbours
    let mut u = grid(5, 5, &[(1, 1), (1, 2), (1, 3)]);
    assert_eq!(u.live_neighbor_count(2, 2), 3);
    u.tick();
    assert_eq!(u.cells()[12], Cell::Alive);

    // (2, 2) is alive with three live neighbours
    let mut u = grid(5, 5, &[(1, 1), (1, 2), (1, 3), (2, 2)]);
    u.tick();
    assert_eq!(u.cells()[12], Cell::Alive);

    // an alive cell with one live neighbour dies
    let mut u = grid(5, 5, &[(2, 2), (2, 3)]);
    assert_eq!(u.live_neighbor_count(2, 2), 1);
    u.tick();
    assert_eq!(u.cells()[12], Cell::Dead);
}

#[test]
fn overcrowded_cell_dies_and_two_neighbours_survive() {
    let mut u = grid(5, 5, &[(2, 2), (1, 1), (1, 2), (1, 3), (2, 1)]);
    assert_eq!(u.live_neighbor_count(2, 2), 4);
    u.tick();
    assert_eq!(u.cells()[12], Cell::Dead);

    let mut u = grid(5, 5, &[(2, 2), (1, 1), (3, 3)]);
    u.tick();
    assert_eq!(u.cells()[12], Cell::Alive);
}

#[test]
fn tick_depends_only_on_the_buffer() {
    let seed = Universe::with_size(9, 6);
    let mut a = Universe::from_cells(9, 6, seed.cells().to_vec()).unwrap();
    let mut b = Universe::from_cells(9, 6, seed.cells().to_vec()).unwrap();
    for _ in 0..4 {
        a.tick();
        b.tick();
        assert_eq!(a.cells(), b.cells());
    }
}

#[test]
fn toggle_twice_restores_the_cell() {
    let mut u = Universe::with_size(6, 4);
    let before = u.cells().to_vec();
    u.toggle_cell(2, 3);
    let once = u.cells().to_vec();
    for i in 0..before.len() {
        if i == 2 * 6 + 3 {
            assert_ne!(once[i], before[i]);
        } else {
            assert_eq!(once[i], before[i]);
        }
    }
    u.toggle_cell(2, 3);
    assert_eq!(u.cells(), &before[..]);
    assert_eq!(u.width(), 6);
    assert_eq!(u.height(), 4);
}

#[test]
fn dead_three_by_three_stays_dead() {
    let mut u = grid(3, 3, &[]);
    u.tick();
    assert_eq!(u.cells(), &[Cell::Dead; 9][..]);
    assert_eq!(u.width(), 3);
    assert_eq!(u.height(), 3);
}

#[test]
fn isolated_cell_dies() {
    let mut u = grid(5, 5, &[(2, 2)]);
    assert_eq!(u.live_neighbor_count(2, 2), 0);
    u.tick();
    assert!(alive_positions(&u).is_empty());

    // on a 3x3 torus as well, where every other cell is a neighbour
    let mut u = grid(3, 3, &[(0, 0)]);
    u.tick();
    assert_eq!(u.cells(), &[Cell::Dead; 9][..]);
}

#[test]
fn blinker_oscillates_with_period_two() {
    let mut u = grid(5, 5, &[(2, 1), (2, 2), (2, 3)]);
    u.tick();
    assert_eq!(alive_positions(&u), vec![(1, 2), (2, 2), (3, 2)]);
    u.tick();
    assert_eq!(alive_positions(&u), vec![(2, 1), (2, 2), (2, 3)]);
    u.tick();
    assert_eq!(alive_positions(&u), vec![(1, 2), (2, 2), (3, 2)]);
}

#[test]
fn toggling_a_dead_grid_builds_a_blinker() {
    let mut u = grid(6, 6, &[]);
    u.toggle_cell(1, 3);
    u.toggle_cell(2, 3);
    u.toggle_cell(3, 3);
    u.tick();
    assert_eq!(alive_positions(&u), vec![(2, 2), (2, 3), (2, 4)]);
}
