use game_of_life::{Cell, Universe};

fn grid(width: u32, height: u32, live: &[(u32, u32)]) -> Universe {
    let mut cells = vec![Cell::Dead; (width * height) as usize];
    for &(row, col) in live {
        cells[(row * width + col) as usize] = Cell::Alive;
    }
    Universe::from_cells(width, height, cells).unwrap()
}

fn live_cells(u: &Universe) -> Vec<(u32, u32)> {
    let mut out = Vec::new();
    for row in 0..u.height() {
        for col in 0..u.width() {
            if u.cells()[u.get_index(row, col)] == Cell::Alive {
                out.push((row, col));
            }
        }
    }
    out
}

#[test]
fn new_is_deterministic() {
    let a = Universe::new();
    let b = Universe::new();
    assert_eq!(a.width(), 512);
    assert_eq!(a.height(), 256);
    assert_eq!(a.width(), b.width());
    assert_eq!(a.height(), b.height());
    assert_eq!(a.cells(), b.cells());
    for (i, c) in a.cells().iter().enumerate() {
        let expected = if i % 2 == 0 || i % 7 == 0 { Cell::Alive } else { Cell::Dead };
        assert_eq!(*c, expected);
    }
    assert_eq!(a.cells()[0], Cell::Alive);
    assert_eq!(a.cells()[1], Cell::Dead);
    assert_eq!(a.cells()[7], Cell::Alive);
    assert_eq!(a.cells()[9], Cell::Dead);
}

#[test]
fn dimensions_unchanged_by_ticks() {
    let mut u = Universe::new();
    for _ in 0..3 {
        u.tick();
        assert_eq!(u.width(), 512);
        assert_eq!(u.height(), 256);
        assert_eq!(u.cells().len(), 512 * 256);
    }
    let mut v = grid(7, 3, &[(0, 0), (1, 1), (2, 6)]);
    for _ in 0..5 {
        v.tick();
        assert_eq!(v.width(), 7);
        assert_eq!(v.height(), 3);
        assert_eq!(v.cells().len(), 21);
    }
}

#[test]
fn isolated_cell_dies() {
    let mut u = grid(5, 5, &[(2, 2)]);
    assert_eq!(u.live_neighbor_count(2, 2), 0);
    u.tick();
    assert!(live_cells(&u).is_empty());
}

#[test]
fn live_cell_with_one_neighbor_dies() {
    let mut u = grid(5, 5, &[(2, 2), (2, 3)]);
    u.tick();
    assert_eq!(u.cells()[u.get_index(2, 2)], Cell::Dead);
}

#[test]
fn live_cell_with_two_neighbors_survives() {
    let mut u = grid(5, 5, &[(2, 1), (2, 2), (2, 3)]);
    assert_eq!(u.live_neighbor_count(2, 2), 2);
    u.tick();
    assert_eq!(u.cells()[u.get_index(2, 2)], Cell::Alive);
}

#[test]
fn live_cell_with_three_neighbors_survives() {
    let mut u = grid(5, 5, &[(1, 1), (1, 2), (1, 3), (2, 2)]);
    assert_eq!(u.live_neighbor_count(2, 2), 3);
    u.tick();
    assert_eq!(u.cells()[u.get_index(2, 2)], Cell::Alive);
}

#[test]
fn live_cell_with_four_neighbors_dies() {
    let mut u = grid(5, 5, &[(1, 1), (1, 2), (1, 3), (2, 1), (2, 2)]);
    assert_eq!(u.live_neighbor_count(2, 2), 4);
    u.tick();
    assert_eq!(u.cells()[u.get_index(2, 2)], Cell::Dead);
}

#[test]
fn dead_cell_with_three_neighbors_is_born() {
    let mut u = grid(5, 5, &[(1, 1), (1, 2), (1, 3)]);
    assert_eq!(u.live_neighbor_count(2, 2), 3);
    u.tick();
    assert_eq!(u.cells()[u.get_index(2, 2)], Cell::Alive);
}

#[test]
fn dead_cell_with_other_counts_stays_dead() {
    let mut two = grid(5, 5, &[(1, 1), (1, 2)]);
    assert_eq!(two.live_neighbor_count(2, 2), 2);
    two.tick();
    assert_eq!(two.cells()[two.get_index(2, 2)], Cell::Dead);
    let mut four = grid(5, 5, &[(1, 1), (1, 2), (1, 3), (2, 1)]);
    assert_eq!(four.live_neighbor_count(2, 2), 4);
    four.tick();
    assert_eq!(four.cells()[four.get_index(2, 2)], Cell::Dead);
}

#[test]
fn rule_on_every_count() {
    for n in 0..=8u8 {
        let alive = game_of_life::cell::next_state(Cell::Alive, n);
        let dead = game_of_life::cell::next_state(Cell::Dead, n);
        assert_eq!(alive == Cell::Alive, n == 2 || n == 3);
        assert_eq!(dead == Cell::Alive, n == 3);
    }
}

#[test]
fn corner_counts_opposite_edges() {
    let u = grid(3, 3, &[(2, 2)]);
    assert_eq!(u.live_neighbor_count(0, 0), 1);
    let w = 5;
    let h = 4;
    let wrapped = [(h - 1, w - 1), (h - 1, 0), (h - 1, 1), (0, w - 1), (0, 1), (1, w - 1), (1, 0), (1, 1)];
    for &(row, col) in &wrapped {
        let one = grid(w, h, &[(row, col)]);
        assert_eq!(one.live_neighbor_count(0, 0), 1);
    }
    let all = grid(w, h, &wrapped);
    assert_eq!(all.live_neighbor_count(0, 0), 8);
    let far = grid(w, h, &[(2, 2), (2, 3)]);
    assert_eq!(far.live_neighbor_count(0, 0), 0);
}

#[test]
fn corner_cell_survives_through_wraparound() {
    let mut u = grid(4, 4, &[(0, 0), (3, 3), (0, 3)]);
    assert_eq!(u.live_neighbor_count(0, 0), 2);
    u.tick();
    assert_eq!(u.cells()[u.get_index(0, 0)], Cell::Alive);
}

#[test]
fn block_is_still_life() {
    let block = [(1, 1), (1, 2), (2, 1), (2, 2)];
    let mut u = grid(6, 6, &block);
    for _ in 0..10 {
        u.tick();
        assert_eq!(live_cells(&u), block.to_vec());
    }
    let edge = [(0, 4), (0, 5), (1, 4), (1, 5)];
    let mut v = grid(6, 4, &edge);
    for _ in 0..4 {
        v.tick();
        assert_eq!(live_cells(&v), edge.to_vec());
    }
}

#[test]
fn blinker_has_period_two() {
    let row = vec![(2, 1), (2, 2), (2, 3)];
    let column = vec![(1, 2), (2, 2), (3, 2)];
    let mut u = grid(5, 5, &row);
    u.tick();
    assert_eq!(live_cells(&u), column);
    u.tick();
    assert_eq!(live_cells(&u), row);
    for _ in 0..6 {
        u.tick();
    }
    assert_eq!(live_cells(&u), row);
}

#[test]
fn render_two_by_two() {
    let u = Universe::from_cells(2, 2, vec![Cell::Dead, Cell::Alive, Cell::Alive, Cell::Dead]).unwrap();
    assert_eq!(u.render(), "◻◼\n◼◻\n");
}

#[test]
fn render_shape_of_new() {
    let text = Universe::new().render();
    let lines: Vec<&str> = text.split_terminator('\n').collect();
    assert_eq!(lines.len(), 256);
    for line in &lines {
        assert_eq!(line.chars().count(), 512);
    }
    assert!(text.ends_with('\n'));
    assert!(text.starts_with("◼◻◼◻◼◻◼◼◼◻"));
}

#[test]
fn snapshot_taken_before_tick_is_unchanged() {
    let mut u = grid(5, 5, &[(2, 1), (2, 2), (2, 3)]);
    let before = u.cells().to_vec();
    u.tick();
    let after = u.cells().to_vec();
    assert_ne!(before, after);
    assert_eq!(before, grid(5, 5, &[(2, 1), (2, 2), (2, 3)]).cells().to_vec());
    assert_eq!(after, grid(5, 5, &[(1, 2), (2, 2), (3, 2)]).cells().to_vec());
}

#[test]
fn from_cells_rejects_bad_shapes() {
    assert!(Universe::from_cells(0, 2, vec![]).is_none());
    assert!(Universe::from_cells(2, 0, vec![]).is_none());
    assert!(Universe::from_cells(2, 2, vec![Cell::Dead; 3]).is_none());
    assert!(Universe::from_cells(2, 2, vec![Cell::Dead; 5]).is_none());
    let u = Universe::from_cells(3, 2, vec![Cell::Dead; 6]).unwrap();
    assert_eq!(u.width(), 3);
    assert_eq!(u.height(), 2);
}

#[test]
fn index_is_row_major() {
    let u = grid(4, 3, &[]);
    assert_eq!(u.get_index(0, 0), 0);
    assert_eq!(u.get_index(0, 3), 3);
    assert_eq!(u.get_index(2, 1), 9);
}
