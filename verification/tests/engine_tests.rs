use rand::SeedableRng;
use rand::rngs::StdRng;
use sandgame::grid::Element;
use sandgame::grid::Grid;

fn rng(seed: u64) -> StdRng {
    StdRng::seed_from_u64(seed)
}

#[test]
fn sand_falls_into_the_empty_cell_below() {
    // 3x3 grid, row-major: index 1 is the middle of the top row, 4 below it
    let mut g = Grid::new(3, 3);
    g.set_cell(1, 0, Element::Sand).unwrap();
    g.step_cell(4, 0, 0, 0, 0);
    assert_eq!(g.get_cell(1, 0), Ok(Element::Empty));
    assert_eq!(g.get_cell(1, 1), Ok(Element::Sand));
}

#[test]
fn water_falls_into_the_empty_cell_below() {
    let mut g = Grid::new(3, 3);
    g.set_cell(1, 0, Element::Water).unwrap();
    g.step_cell(4, 1, 2, 5, 2);
    assert_eq!(g.get_cell(1, 0), Ok(Element::Empty));
    assert_eq!(g.get_cell(1, 1), Ok(Element::Water));
}

#[test]
fn blocked_sand_spills_to_the_drawn_side_and_vacates_the_cell_above() {
    // sand on sand: the upper grain moves diagonally, the lower one stays
    let mut g = Grid::new(3, 3);
    g.set_cell(1, 0, Element::Sand).unwrap();
    g.set_cell(1, 1, Element::Sand).unwrap();
    g.step_cell(4, 0, 0, 0, 0); // draw 0: spill left
    assert_eq!(g.get_cell(0, 1), Ok(Element::Sand));
    assert_eq!(g.get_cell(1, 0), Ok(Element::Empty));
    assert_eq!(g.get_cell(1, 1), Ok(Element::Sand));

    let mut g2 = Grid::new(3, 3);
    g2.set_cell(1, 0, Element::Sand).unwrap();
    g2.set_cell(1, 1, Element::Sand).unwrap();
    g2.step_cell(4, 1, 0, 0, 0); // draw 1: spill right
    assert_eq!(g2.get_cell(2, 1), Ok(Element::Sand));
    assert_eq!(g2.get_cell(1, 0), Ok(Element::Empty));
    assert_eq!(g2.get_cell(1, 1), Ok(Element::Sand));
}

#[test]
fn sand_ignites_on_the_right_roll_with_fire_below() {
    let mut g = Grid::new(3, 3);
    g.set_cell(1, 1, Element::Sand).unwrap();
    g.set_cell(1, 2, Element::Fire).unwrap();
    g.step_cell(4, 0, 1, 5, 0); // ignition roll 1 converts
    assert_eq!(g.get_cell(1, 1), Ok(Element::Fire));

    let mut g2 = Grid::new(3, 3);
    g2.set_cell(1, 1, Element::Sand).unwrap();
    g2.set_cell(1, 2, Element::Fire).unwrap();
    g2.step_cell(4, 0, 0, 5, 0); // any other roll does not
    assert_eq!(g2.get_cell(1, 1), Ok(Element::Sand));
}

#[test]
fn sand_without_fire_nearby_never_ignites() {
    let mut g = Grid::new(3, 3);
    g.set_cell(1, 1, Element::Sand).unwrap();
    g.step_cell(4, 0, 1, 5, 0);
    assert_eq!(g.get_cell(1, 1), Ok(Element::Sand));
}

#[test]
fn fire_goes_out_only_on_roll_zero() {
    let mut g = Grid::new(3, 3);
    g.set_cell(1, 1, Element::Fire).unwrap();
    g.step_cell(4, 0, 0, 0, 0);
    assert_eq!(g.get_cell(1, 1), Ok(Element::Empty));

    let mut g2 = Grid::new(3, 3);
    g2.set_cell(1, 1, Element::Fire).unwrap();
    g2.step_cell(4, 0, 0, 7, 0);
    assert_eq!(g2.get_cell(1, 1), Ok(Element::Fire));
}

#[test]
fn blocked_water_spill_vacates_itself_not_the_cell_above() {
    // the retained asymmetry with sand: the moving cell is the lower one
    let mut g = Grid::new(3, 3);
    g.set_cell(1, 0, Element::Water).unwrap();
    g.set_cell(1, 1, Element::Water).unwrap();
    g.step_cell(4, 0, 0, 0, 1); // spill left, drift roll 1 (offset 0)
    assert_eq!(g.get_cell(0, 1), Ok(Element::Water));
    assert_eq!(g.get_cell(1, 0), Ok(Element::Water)); // the cell above stays
    assert_eq!(g.get_cell(1, 1), Ok(Element::Empty)); // the cell itself cleared
}

#[test]
fn water_drift_always_tests_the_left_cell() {
    // the drift offset only range-checks; the moved-to cell is always i - 1
    let mut g = Grid::new(3, 3);
    g.set_cell(1, 1, Element::Water).unwrap();
    g.step_cell(4, 0, 0, 5, 2); // drift roll 2, offset +1, still moves left
    assert_eq!(g.get_cell(0, 1), Ok(Element::Water));
    assert_eq!(g.get_cell(1, 1), Ok(Element::Empty));
}

#[test]
fn walls_and_novas_have_no_transition() {
    for e in [Element::Wall, Element::Nova] {
        let mut g = Grid::new(3, 3);
        g.set_cell(1, 1, e).unwrap();
        g.set_cell(1, 0, Element::Sand).unwrap();
        g.step_cell(4, 0, 1, 0, 1);
        assert_eq!(g.get_cell(1, 1), Ok(e));
        assert_eq!(g.get_cell(1, 0), Ok(Element::Sand));
    }
}

#[test]
fn lone_sand_falls_one_row_per_sweep_until_the_floor() {
    // conservation under pure fall, with the sand source not in play
    let mut g = Grid::new(3, 5);
    g.set_cell(1, 0, Element::Sand).unwrap();
    let mut r = rng(7);
    for row in 0..4u32 {
        g.sweep(&mut r);
        // exactly one grain, one row further down
        let mut found = Vec::new();
        for y in 0..5 {
            for x in 0..3 {
                if g.get_cell(x, y).unwrap() != Element::Empty {
                    found.push((x, y, g.get_cell(x, y).unwrap()));
                }
            }
        }
        assert_eq!(found, vec![(1, row + 1, Element::Sand)]);
    }
    // once on the floor it stays
    g.sweep(&mut r);
    assert_eq!(g.get_cell(1, 4), Ok(Element::Sand));
}

#[test]
fn walls_are_unchanged_by_any_number_of_ticks() {
    let mut g = Grid::new(6, 6);
    for x in 0..6 {
        g.set_cell(x, 5, Element::Wall).unwrap();
    }
    g.set_cell(2, 2, Element::Wall).unwrap();
    g.set_cell(2, 1, Element::Sand).unwrap();
    g.set_cell(3, 1, Element::Water).unwrap();
    g.set_cell(1, 1, Element::Fire).unwrap();
    let mut r = rng(99);
    for _ in 0..200 {
        g.advance_tick(&mut r);
        for x in 0..6 {
            assert_eq!(g.get_cell(x, 5), Ok(Element::Wall));
        }
        assert_eq!(g.get_cell(2, 2), Ok(Element::Wall));
    }
}

#[test]
fn ticks_never_produce_a_nova_and_keep_the_cell_count() {
    let mut g = Grid::new(8, 8);
    for x in 0..8 {
        g.set_cell(x, 7, Element::Wall).unwrap();
        g.set_cell(x, 3, Element::Sand).unwrap();
        g.set_cell(x, 2, Element::Water).unwrap();
    }
    g.set_cell(4, 4, Element::Fire).unwrap();
    let mut r = rng(5);
    for _ in 0..300 {
        g.advance_tick(&mut r);
        for y in 0..8 {
            for x in 0..8 {
                let c = g.get_cell(x, y).unwrap();
                assert_ne!(c, Element::Nova);
            }
        }
    }
}

#[test]
fn degenerate_grids_survive_many_ticks() {
    // bounds-safety regression for the neighbour guards
    for (w, h) in [(1u32, 1u32), (1, 12), (12, 1)] {
        let mut g = Grid::new(w, h);
        let mut r = rng(3);
        for y in 0..h {
            for x in 0..w {
                if (x + y) % 3 == 0 {
                    g.set_cell(x, y, Element::Sand).unwrap();
                } else if (x + y) % 3 == 1 {
                    g.set_cell(x, y, Element::Water).unwrap();
                }
            }
        }
        for _ in 0..100 {
            g.advance_tick(&mut r);
        }
        for y in 0..h {
            for x in 0..w {
                assert!(g.get_cell(x, y).is_ok());
            }
        }
    }
}

#[test]
fn empty_sized_grids_are_inert() {
    for (w, h) in [(0u32, 0u32), (0, 4), (4, 0)] {
        let mut g = Grid::new(w, h);
        let mut r = rng(11);
        for _ in 0..5 {
            g.advance_tick(&mut r);
        }
        assert!(g.get_cell(0, 0).is_err());
    }
}

#[test]
fn the_sand_source_seeds_at_most_three_grains_into_the_top() {
    let mut g = Grid::new(5, 4);
    let mut r = rng(21);
    g.advance_tick(&mut r);
    // the seeded grains fell one row during the sweep
    let mut count = 0;
    for y in 0..4 {
        for x in 0..5 {
            let c = g.get_cell(x, y).unwrap();
            if c == Element::Sand {
                assert_eq!(y, 1);
                count += 1;
            } else {
                assert_eq!(c, Element::Empty);
            }
        }
    }
    assert!(1 <= count && count <= 3);
}

#[test]
fn fire_decay_rate_is_about_one_in_eleven() {
    // 1x2 grid: the bottom cell is swept, the top is its untouched neighbour
    let trials = 4000;
    let mut r = rng(2024);
    let mut extinguished = 0;
    for _ in 0..trials {
        let mut g = Grid::new(1, 2);
        g.set_cell(0, 1, Element::Fire).unwrap();
        g.sweep(&mut r);
        match g.get_cell(0, 1).unwrap() {
            Element::Empty => extinguished += 1,
            Element::Fire => {}
            other => panic!("fire became {:?}", other),
        }
    }
    // expectation trials/11 = 364; allow a wide deterministic band
    assert!(260 <= extinguished && extinguished <= 470, "rate off: {}", extinguished);
}

#[test]
fn sand_ignition_rate_with_fire_below_is_about_one_in_three() {
    // 1x3 grid: sand in the middle, fire below it; the fire may burn out
    // in the same sweep before the sand is stepped, so the observed rate is
    // (10/11) * (1/3) of the trials
    let trials = 4000;
    let mut r = rng(77);
    let mut ignited = 0;
    for _ in 0..trials {
        let mut g = Grid::new(1, 3);
        g.set_cell(0, 1, Element::Sand).unwrap();
        g.set_cell(0, 2, Element::Fire).unwrap();
        g.sweep(&mut r);
        if g.get_cell(0, 1).unwrap() == Element::Fire {
            ignited += 1;
        }
    }
    // expectation around 1212; allow a wide deterministic band
    assert!(1050 <= ignited && ignited <= 1380, "rate off: {}", ignited);
}
