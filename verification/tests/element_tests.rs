use falling_sand::element::Element;

#[test]
fn all_lists_every_kind_in_palette_order() {
    let all = Element::all();
    assert_eq!(
        all,
        vec![
            Element::Sand,
            Element::Water,
            Element::Stone,
            Element::Agent,
            Element::Empty
        ]
    );
}

#[test]
fn names_match_the_palette() {
    assert_eq!(Element::Empty.name(), "Eraser");
    assert_eq!(Element::Sand.name(), "Sand");
    assert_eq!(Element::Water.name(), "Water");
    assert_eq!(Element::Stone.name(), "Stone");
    assert_eq!(Element::Agent.name(), "Person");
}

#[test]
fn solidity_classification() {
    assert!(!Element::Empty.is_solid());
    assert!(Element::Sand.is_solid());
    assert!(!Element::Water.is_solid());
    assert!(Element::Stone.is_solid());
    assert!(Element::Agent.is_solid());
}

#[test]
fn liquidity_classification() {
    assert!(Element::Water.is_liquid());
    assert!(!Element::Empty.is_liquid());
    assert!(!Element::Sand.is_liquid());
    assert!(!Element::Stone.is_liquid());
    assert!(!Element::Agent.is_liquid());
}

#[test]
fn movability_classification() {
    assert!(Element::Sand.is_movable());
    assert!(Element::Water.is_movable());
    assert!(Element::Agent.is_movable());
    assert!(!Element::Empty.is_movable());
    assert!(!Element::Stone.is_movable());
}

#[test]
fn walkability_classification() {
    assert!(Element::Stone.can_walk_on());
    assert!(Element::Sand.can_walk_on());
    assert!(!Element::Empty.can_walk_on());
    assert!(!Element::Water.can_walk_on());
    assert!(!Element::Agent.can_walk_on());
}
