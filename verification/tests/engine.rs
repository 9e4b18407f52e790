use game_of_life::Universe;

/// Row-major list of the alive coordinates of a universe.
fn alive_cells(u: &Universe) -> Vec<(u32, u32)> {
    let w = u.width();
    let h = u.height();
    let bits = u.get_cells();
    let mut alive = Vec::new();
    for r in 0..h {
        for c in 0..w {
            if bits.contains((r * w + c) as usize) {
                alive.push((r, c));
            }
        }
    }
    alive
}

/// A universe of the given size with every cell dead and the counter as
/// `new` leaves it.
fn blank(width: u32, height: u32) -> Universe {
    let mut u = Universe::new();
    u.set_width(width);
    u.set_height(height);
    u
}

#[test]
fn new_seeds_even_or_multiple_of_seven() {
    let u = Universe::new();
    let bits = u.get_cells();
    assert_eq!(bits.len(), 64 * 64);
    for i in 0..(64 * 64) {
        assert_eq!(bits.contains(i), i % 2 == 0 || i % 7 == 0, "flat index {}", i);
    }
}

#[test]
fn default_dimensions_and_counter() {
    let u = Universe::new();
    assert_eq!(u.width(), 64);
    assert_eq!(u.height(), 64);
    assert_eq!(u.tick_count(), 0);
}

#[test]
fn toggle_cell_flips_one_cell() {
    let mut u = blank(4, 4);
    u.toggle_cell(1, 2);
    assert_eq!(alive_cells(&u), vec![(1, 2)]);
    u.toggle_cell(1, 2);
    assert_eq!(alive_cells(&u), Vec::<(u32, u32)>::new());
}

#[test]
fn dead_kills_every_cell() {
    let mut u = Universe::new();
    u.dead();
    assert_eq!(alive_cells(&u), Vec::<(u32, u32)>::new());
    assert_eq!(u.width(), 64);
    assert_eq!(u.height(), 64);
}

#[test]
fn reset_reseeds_current_dimensions() {
    let mut u = Universe::new();
    u.tick();
    u.dead();
    u.reset();
    let bits = u.get_cells();
    for i in 0..(64 * 64) {
        assert_eq!(bits.contains(i), i % 2 == 0 || i % 7 == 0);
    }
    assert_eq!(u.tick_count(), 1);
}

#[test]
fn resize_clears_state() {
    let mut u = Universe::new();
    u.set_width(10);
    assert_eq!(u.width(), 10);
    assert_eq!(u.height(), 64);
    assert_eq!(alive_cells(&u), Vec::<(u32, u32)>::new());
    u.reset();
    u.set_height(5);
    assert_eq!(u.width(), 10);
    assert_eq!(u.height(), 5);
    assert_eq!(u.get_cells().len(), 50);
    assert_eq!(alive_cells(&u), Vec::<(u32, u32)>::new());
}

#[test]
fn generation_counter_counts_only_ticks() {
    let mut u = Universe::new();
    assert_eq!(u.tick_count(), 0);
    u.tick();
    u.tick();
    u.tick();
    assert_eq!(u.tick_count(), 3);
    u.reset();
    u.dead();
    u.toggle_cell(0, 0);
    u.add_glider(5, 5);
    u.set_cells(&[(1, 1), (2, 2)]);
    u.set_width(16);
    u.set_height(16);
    assert_eq!(u.tick_count(), 3);
    u.tick();
    assert_eq!(u.tick_count(), 4);
}

#[test]
fn tick_uses_pre_state_only() {
    // A 3x3 torus with one alive row: every dead cell sees the three alive
    // cells among its eight (wrapped) neighbors and is born; every alive
    // cell sees the other two and survives. Hand-computed from the pre-tick
    // grid, the next generation is fully alive. An implementation mutating
    // in place would see freshly-born cells while counting and diverge.
    let mut u = blank(3, 3);
    u.set_cells(&[(1, 0), (1, 1), (1, 2)]);
    u.tick();
    let mut all = Vec::new();
    for r in 0..3 {
        for c in 0..3 {
            all.push((r, c));
        }
    }
    assert_eq!(alive_cells(&u), all);
}

#[test]
fn blinker_oscillates() {
    let mut u = blank(5, 5);
    u.set_cells(&[(2, 1), (2, 2), (2, 3)]);
    u.tick();
    assert_eq!(alive_cells(&u), vec![(1, 2), (2, 2), (3, 2)]);
    u.tick();
    assert_eq!(alive_cells(&u), vec![(2, 1), (2, 2), (2, 3)]);
}

#[test]
fn corner_wraparound() {
    // The far corner (2,2) is a toroidal neighbor of the origin: together
    // with (0,1) and (1,0) it gives the origin three live neighbors, so the
    // origin is born. Without wraparound the origin would see only two.
    let mut u = blank(3, 3);
    u.set_cells(&[(0, 1), (1, 0), (2, 2)]);
    u.tick();
    let alive = alive_cells(&u);
    assert!(alive.contains(&(0, 0)));
}

#[test]
fn glider_stamp_writes_footprint() {
    let mut u = blank(5, 5);
    u.toggle_cell(1, 1); // overwritten by the stamp's dead cell
    u.add_glider(2, 2);
    assert_eq!(alive_cells(&u), vec![(1, 3), (2, 1), (2, 3), (3, 2), (3, 3)]);
}

#[test]
fn glider_wraps_around_edges() {
    let mut u = blank(5, 5);
    u.add_glider(0, 0);
    assert_eq!(alive_cells(&u), vec![(0, 1), (0, 4), (1, 0), (1, 1), (4, 1)]);
}

#[test]
fn glider_one_tick_exact() {
    // The explicit scenario: a blank 5x5 grid, the glider stamped at (2,2),
    // one tick; the alive set matches the hand-computed next generation.
    let mut u = blank(5, 5);
    u.add_glider(2, 2);
    u.tick();
    assert_eq!(alive_cells(&u), vec![(1, 2), (2, 3), (2, 4), (3, 2), (3, 3)]);
}

#[test]
fn glider_translates_diagonally_after_four_ticks() {
    let mut u = blank(10, 10);
    u.add_glider(2, 2);
    let start = alive_cells(&u);
    for _ in 0..4 {
        u.tick();
    }
    let moved: Vec<(u32, u32)> = {
        let mut m: Vec<(u32, u32)> = start.iter().map(|&(r, c)| (r + 1, c + 1)).collect();
        m.sort();
        m
    };
    let mut got = alive_cells(&u);
    got.sort();
    assert_eq!(got, moved);
}

#[test]
fn set_cells_marks_listed_cells_only() {
    let mut u = blank(6, 6);
    u.toggle_cell(4, 4);
    u.set_cells(&[(0, 0), (2, 3), (5, 1)]);
    let mut got = alive_cells(&u);
    got.sort();
    assert_eq!(got, vec![(0, 0), (2, 3), (4, 4), (5, 1)]);
}

#[test]
fn set_cells_twice_is_idempotent() {
    let coords = [(0u32, 0u32), (2, 3), (2, 3), (5, 1)];
    let mut once = blank(6, 6);
    once.set_cells(&coords);
    let mut twice = blank(6, 6);
    twice.set_cells(&coords);
    twice.set_cells(&coords);
    assert_eq!(alive_cells(&once), alive_cells(&twice));
}

#[test]
fn identical_histories_give_identical_universes() {
    let mut a = Universe::new();
    let mut b = Universe::new();
    for u in [&mut a, &mut b] {
        u.tick();
        u.toggle_cell(3, 4);
        u.add_glider(10, 10);
        u.set_cells(&[(1, 1), (63, 63)]);
        u.tick();
        u.set_width(32);
        u.set_cells(&[(7, 7), (8, 7), (9, 7)]);
        u.tick();
    }
    assert_eq!(a.width(), b.width());
    assert_eq!(a.height(), b.height());
    assert_eq!(a.tick_count(), b.tick_count());
    assert_eq!(alive_cells(&a), alive_cells(&b));
    assert_eq!(a.render(), b.render());
}

#[test]
fn render_exact_text() {
    let mut u = blank(3, 2);
    u.set_cells(&[(0, 1), (1, 2)]);
    assert_eq!(u.render(), "◻◼◻\n◻◻◼\n");
}

#[test]
fn cells_view_matches_get_cells() {
    let mut u = blank(4, 3);
    u.set_cells(&[(0, 0), (2, 3)]);
    let a = u.cells();
    assert_eq!(a.len(), 12);
    assert!(a.contains(0));
    assert!(a.contains(2 * 4 + 3));
    assert!(!a.contains(5));
    let b = u.get_cells();
    assert_eq!(b.ones().collect::<Vec<_>>(), vec![0, 2 * 4 + 3]);
}
