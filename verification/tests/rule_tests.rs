use falling_sand::element::Element;
use falling_sand::grid::Grid;
use falling_sand::person;
use falling_sand::rng::SimRng;
use falling_sand::sand;
use falling_sand::water;

#[test]
fn sand_rule_falls_straight_down() {
    let mut g = Grid::new(1, 3);
    g.set(0, 0, Element::Sand);
    let mut rng = SimRng::new(8);
    sand::update(&mut g, 0, 0, &mut rng);
    assert_eq!(g.get(0, 0), Element::Empty);
    assert_eq!(g.get(0, 1), Element::Sand);
}

#[test]
fn sand_rule_slides_diagonally_off_a_peak() {
    let mut g = Grid::new(3, 2);
    g.set(1, 0, Element::Sand);
    g.set(1, 1, Element::Stone);
    let mut rng = SimRng::new(8);
    sand::update(&mut g, 1, 0, &mut rng);
    assert_eq!(g.get(1, 0), Element::Empty);
    assert!(
        g.get(0, 1) == Element::Sand || g.get(2, 1) == Element::Sand,
        "sand should slide to one diagonal"
    );
}

#[test]
fn water_rule_spreads_laterally_on_a_floor() {
    let mut g = Grid::new(3, 2);
    g.set(1, 0, Element::Water);
    for x in 0..3 {
        g.set(x, 1, Element::Stone);
    }
    let mut rng = SimRng::new(8);
    water::update(&mut g, 1, 0, &mut rng);
    assert_eq!(g.get(1, 0), Element::Empty);
    assert!(
        g.get(0, 0) == Element::Water || g.get(2, 0) == Element::Water,
        "water should spread to one side"
    );
}

#[test]
fn water_rule_does_not_displace_sand() {
    let mut g = Grid::new(1, 3);
    g.set(0, 1, Element::Water);
    g.set(0, 2, Element::Sand);
    let mut rng = SimRng::new(8);
    water::update(&mut g, 0, 1, &mut rng);
    assert_eq!(g.get(0, 1), Element::Water);
    assert_eq!(g.get(0, 2), Element::Sand);
}

#[test]
fn person_rule_falls_and_carries_its_state() {
    let mut g = Grid::new(1, 3);
    g.set(0, 0, Element::Agent);
    let mut rng = SimRng::new(8);
    person::update(&mut g, 0, 0, &mut rng);
    assert_eq!(g.get(0, 0), Element::Empty);
    assert_eq!(g.get(0, 1), Element::Agent);
    assert!(g.get_person_state(0, 0).is_none());
    assert!(g.get_person_state(0, 1).is_some());
}

#[test]
fn person_rule_does_nothing_on_the_bottom_row() {
    let mut g = Grid::new(1, 2);
    g.set(0, 1, Element::Agent);
    let mut rng = SimRng::new(8);
    person::update(&mut g, 0, 1, &mut rng);
    assert_eq!(g.get(0, 1), Element::Agent);
}
