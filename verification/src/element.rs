use vstd::prelude::*;

verus! {

/// The closed set of material kinds a grid cell can hold.
#[derive(Clone, Copy, PartialEq, Eq, Structural, Debug)]
pub enum Element {
    Empty,
    Sand,
    Water,
    Stone,
    Agent,
}

impl Element {
    /// Every kind, in the order a palette offers them.
    pub fn all() -> (r: Vec<Element>)
        ensures
            r@ == seq![
                Element::Sand,
                Element::Water,
                Element::Stone,
                Element::Agent,
                Element::Empty,
            ],
    {
        let mut v: Vec<Element> = Vec::new();
        v.push(Element::Sand);
        v.push(Element::Water);
        v.push(Element::Stone);
        v.push(Element::Agent);
        v.push(Element::Empty);
        proof {
            assert(v@ =~= seq![
                Element::Sand,
                Element::Water,
                Element::Stone,
                Element::Agent,
                Element::Empty,
            ]);
        }
        v
    }

    pub open spec fn spec_name(self) -> Seq<char> {
        match self {
            Element::Empty => "Eraser"@,
            Element::Sand => "Sand"@,
            Element::Water => "Water"@,
            Element::Stone => "Stone"@,
            Element::Agent => "Person"@,
        }
    }

    /// Display name of the kind.
    pub fn name(&self) -> (r: &'static str)
        ensures
            r@ == self.spec_name(),
    {
        match self {
            Element::Empty => "Eraser",
            Element::Sand => "Sand",
            Element::Water => "Water",
            Element::Stone => "Stone",
            Element::Agent => "Person",
        }
    }

    /// Everything but Empty and Water is solid.
    pub open spec fn spec_is_solid(self) -> bool {
        !(self == Element::Empty || self == Element::Water)
    }

    pub fn is_solid(&self) -> (r: bool)
        ensures
            r == self.spec_is_solid(),
    {
        !matches!(self, Element::Empty | Element::Water)
    }

    /// Water is the only liquid.
    pub open spec fn spec_is_liquid(self) -> bool {
        self == Element::Water
    }

    pub fn is_liquid(&self) -> (r: bool)
        ensures
            r == self.spec_is_liquid(),
    {
        matches!(self, Element::Water)
    }

    /// The kinds moved by an update rule each tick.
    pub open spec fn spec_is_movable(self) -> bool {
        self == Element::Sand || self == Element::Water || self == Element::Agent
    }

    pub fn is_movable(&self) -> (r: bool)
        ensures
            r == self.spec_is_movable(),
    {
        matches!(self, Element::Sand | Element::Water | Element::Agent)
    }

    /// The kinds an agent can stand and walk on.
    pub open spec fn spec_can_walk_on(self) -> bool {
        self == Element::Stone || self == Element::Sand
    }

    pub fn can_walk_on(&self) -> (r: bool)
        ensures
            r == self.spec_can_walk_on(),
    {
        matches!(self, Element::Stone | Element::Sand)
    }
}

} // verus!
