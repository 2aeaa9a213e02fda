use falling_sand::element::Element;
use falling_sand::grid::Grid;
use falling_sand::person_state::PersonState;
use falling_sand::rng::SimRng;

/// Every coordinate holds an agent state exactly when it holds an Agent.
fn check_agent_state_consistency(g: &Grid) {
    for y in 0..g.height() {
        for x in 0..g.width() {
            let is_agent = g.get(x, y) == Element::Agent;
            assert_eq!(
                g.get_person_state(x, y).is_some(),
                is_agent,
                "state table inconsistent at ({}, {})",
                x,
                y
            );
        }
    }
}

#[test]
fn new_grid_is_all_empty() {
    let g = Grid::new(4, 3);
    assert_eq!(g.width(), 4);
    assert_eq!(g.height(), 3);
    for y in 0..3 {
        for x in 0..4 {
            assert_eq!(g.get(x, y), Element::Empty);
        }
    }
}

#[test]
fn out_of_range_reads_are_stone() {
    let g = Grid::new(4, 3);
    assert_eq!(g.get(4, 0), Element::Stone);
    assert_eq!(g.get(0, 3), Element::Stone);
    assert_eq!(g.get(100, 100), Element::Stone);
    assert_eq!(g.get(usize::MAX, usize::MAX), Element::Stone);
}

#[test]
fn out_of_range_boundary_on_zero_grid() {
    let g = Grid::new(0, 0);
    assert_eq!(g.get(0, 0), Element::Stone);
    let g2 = Grid::new(5, 0);
    assert_eq!(g2.get(2, 0), Element::Stone);
}

#[test]
fn zero_size_grid_operations_are_noops() {
    let mut g = Grid::new(0, 0);
    g.set(0, 0, Element::Sand);
    g.swap_cells(0, 0, 1, 1);
    g.place_element(0, 0, Element::Water, 3);
    let mut rng = SimRng::new(7);
    g.update(&mut rng);
    assert_eq!(g.get(0, 0), Element::Stone);
}

#[test]
fn set_out_of_range_is_a_noop() {
    let mut g = Grid::new(3, 3);
    g.set(3, 0, Element::Sand);
    g.set(0, 3, Element::Sand);
    for y in 0..3 {
        for x in 0..3 {
            assert_eq!(g.get(x, y), Element::Empty);
        }
    }
}

#[test]
fn swap_with_out_of_range_is_not_even_partial() {
    let mut g = Grid::new(3, 3);
    g.set(0, 0, Element::Sand);
    g.swap_cells(0, 0, 5, 0);
    assert_eq!(g.get(0, 0), Element::Sand);
    g.swap_cells(7, 7, 0, 0);
    assert_eq!(g.get(0, 0), Element::Sand);
}

#[test]
fn swap_exchanges_cells_and_states() {
    let mut g = Grid::new(3, 3);
    g.set(0, 0, Element::Agent);
    g.set_person_state(
        0,
        0,
        PersonState {
            water_ticks: 5,
            jump_velocity: 1,
        },
    );
    g.set(2, 2, Element::Water);
    g.swap_cells(0, 0, 2, 2);
    assert_eq!(g.get(0, 0), Element::Water);
    assert_eq!(g.get(2, 2), Element::Agent);
    assert!(g.get_person_state(0, 0).is_none());
    let st = g.get_person_state(2, 2).expect("state follows the agent");
    assert_eq!(st.water_ticks, 5);
    assert_eq!(st.jump_velocity, 1);
    check_agent_state_consistency(&g);
}

#[test]
fn setting_agent_creates_default_state() {
    let mut g = Grid::new(2, 2);
    assert!(g.get_person_state(1, 1).is_none());
    g.set(1, 1, Element::Agent);
    let st = g.get_person_state(1, 1).expect("fresh state");
    assert_eq!(st.water_ticks, 0);
    assert_eq!(st.jump_velocity, 0);
}

#[test]
fn setting_agent_again_keeps_existing_state() {
    let mut g = Grid::new(2, 2);
    g.set(0, 0, Element::Agent);
    g.set_person_state(
        0,
        0,
        PersonState {
            water_ticks: 7,
            jump_velocity: 0,
        },
    );
    g.set(0, 0, Element::Agent);
    assert_eq!(g.get_person_state(0, 0).unwrap().water_ticks, 7);
}

#[test]
fn setting_away_from_agent_removes_state() {
    let mut g = Grid::new(2, 2);
    g.set(0, 0, Element::Agent);
    g.set(0, 0, Element::Sand);
    assert!(g.get_person_state(0, 0).is_none());
    check_agent_state_consistency(&g);
}

#[test]
fn state_store_applies_only_to_agent_cells() {
    let mut g = Grid::new(2, 2);
    g.set(0, 0, Element::Stone);
    g.set_person_state(
        0,
        0,
        PersonState {
            water_ticks: 9,
            jump_velocity: 9,
        },
    );
    assert!(g.get_person_state(0, 0).is_none());
    g.set_person_state(
        5,
        5,
        PersonState {
            water_ticks: 9,
            jump_velocity: 9,
        },
    );
    check_agent_state_consistency(&g);
}

#[test]
fn person_state_new_is_zeroed() {
    let st = PersonState::new();
    assert_eq!(st.water_ticks, 0);
    assert_eq!(st.jump_velocity, 0);
}

#[test]
fn state_table_consistent_after_mixed_operations() {
    let mut g = Grid::new(8, 8);
    let mut rng = SimRng::new(99);
    g.set(1, 1, Element::Agent);
    g.set(2, 2, Element::Agent);
    g.place_element(4, 4, Element::Agent, 1);
    check_agent_state_consistency(&g);
    g.swap_cells(1, 1, 6, 6);
    check_agent_state_consistency(&g);
    g.place_element(4, 4, Element::Water, 2);
    check_agent_state_consistency(&g);
    g.set(2, 2, Element::Empty);
    check_agent_state_consistency(&g);
    for _ in 0..20 {
        g.update(&mut rng);
        check_agent_state_consistency(&g);
    }
}

#[test]
fn paint_radius_two_covers_exactly_the_disk() {
    let mut g = Grid::new(9, 9);
    g.place_element(4, 4, Element::Sand, 2);
    for y in 0..9i64 {
        for x in 0..9i64 {
            let d2 = (x - 4) * (x - 4) + (y - 4) * (y - 4);
            let expected = if d2 <= 4 {
                Element::Sand
            } else {
                Element::Empty
            };
            assert_eq!(g.get(x as usize, y as usize), expected, "at ({}, {})", x, y);
        }
    }
}

#[test]
fn paint_clips_at_the_boundary() {
    let mut g = Grid::new(5, 5);
    g.place_element(0, 0, Element::Water, 2);
    for y in 0..5i64 {
        for x in 0..5i64 {
            let d2 = x * x + y * y;
            let expected = if d2 <= 4 {
                Element::Water
            } else {
                Element::Empty
            };
            assert_eq!(g.get(x as usize, y as usize), expected);
        }
    }
}

#[test]
fn paint_radius_zero_is_a_single_cell() {
    let mut g = Grid::new(3, 3);
    g.place_element(1, 1, Element::Stone, 0);
    for y in 0..3 {
        for x in 0..3 {
            let expected = if x == 1 && y == 1 {
                Element::Stone
            } else {
                Element::Empty
            };
            assert_eq!(g.get(x, y), expected);
        }
    }
}

#[test]
fn paint_center_out_of_range_still_clips() {
    let mut g = Grid::new(3, 3);
    g.place_element(4, 1, Element::Sand, 2);
    assert_eq!(g.get(2, 1), Element::Sand);
    assert_eq!(g.get(2, 0), Element::Empty);
    assert_eq!(g.get(2, 2), Element::Empty);
    assert_eq!(g.get(0, 0), Element::Empty);
    assert_eq!(g.get(1, 1), Element::Empty);
}
