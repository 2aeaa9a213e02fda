use vstd::prelude::*;
use vstd::map::*;
use crate::element::Element;
use crate::person_state::PersonState;

verus! {

/// Mathematical model of the grid: a rectangle of cells plus the sparse
/// side table of agent states, both keyed by coordinate.
#[verifier::ext_equal]
pub ghost struct GridModel {
    pub width: nat,
    pub height: nat,
    pub cells: Map<(int, int), Element>,
    pub states: Map<(int, int), PersonState>,
}

impl GridModel {
    pub open spec fn in_bounds(self, x: int, y: int) -> bool {
        0 <= x < self.width && 0 <= y < self.height
    }

    /// Total cell read: out-of-range coordinates read as the Stone boundary.
    pub open spec fn cell(self, x: int, y: int) -> Element {
        if self.in_bounds(x, y) {
            self.cells[(x, y)]
        } else {
            Element::Stone
        }
    }

    /// The agent state stored for a coordinate, if any.
    pub open spec fn state_at(self, x: int, y: int) -> Option<PersonState> {
        if self.states.dom().contains((x, y)) {
            Some(self.states[(x, y)])
        } else {
            None
        }
    }

    /// The agent state for a coordinate, defaulted if absent.
    pub open spec fn state_or_default(self, x: int, y: int) -> PersonState {
        match self.state_at(x, y) {
            Some(s) => s,
            None => PersonState::spec_default(),
        }
    }

    /// The side table holds exactly the coordinates whose cell is Agent.
    pub open spec fn agents_consistent(self) -> bool {
        forall|x: int, y: int|
            (#[trigger] self.state_at(x, y)) is Some <==> (self.in_bounds(x, y) && self.cell(
                x,
                y,
            ) == Element::Agent)
    }
}

/// The model of a fresh all-Empty grid.
pub open spec fn empty_model(width: nat, height: nat) -> GridModel {
    GridModel {
        width,
        height,
        cells: Map::new(
            |p: (int, int)| 0 <= p.0 < width && 0 <= p.1 < height,
            |p: (int, int)| Element::Empty,
        ),
        states: Map::empty(),
    }
}

/// The model after a bounds-checked write of one cell, with the agent-state
/// lifecycle the write entails: a cell set to Agent gains a fresh default
/// state unless one already exists, a cell set away from Agent loses its
/// state.  Out-of-range writes change nothing.
pub open spec fn spec_set(g: GridModel, x: int, y: int, e: Element) -> GridModel {
    if !g.in_bounds(x, y) {
        g
    } else {
        GridModel {
            cells: g.cells.insert((x, y), e),
            states: if e == Element::Agent {
                if g.states.dom().contains((x, y)) {
                    g.states
                } else {
                    g.states.insert((x, y), PersonState::spec_default())
                }
            } else {
                g.states.remove((x, y))
            },
            ..g
        }
    }
}

/// The agent-state table after the entries of two coordinates trade places.
pub open spec fn spec_swap_table(
    m: Map<(int, int), PersonState>,
    p1: (int, int),
    p2: (int, int),
) -> Map<(int, int), PersonState> {
    let base = m.remove(p1).remove(p2);
    let b1 = if m.dom().contains(p2) {
        base.insert(p1, m[p2])
    } else {
        base
    };
    if m.dom().contains(p1) {
        b1.insert(p2, m[p1])
    } else {
        b1
    }
}

/// The model after the atomic exchange of two cells.  Each agent state
/// follows its cell to the new coordinate.  If either coordinate is out of
/// range nothing changes, not even the other cell.
pub open spec fn spec_swap(g: GridModel, x1: int, y1: int, x2: int, y2: int) -> GridModel {
    if !g.in_bounds(x1, y1) || !g.in_bounds(x2, y2) {
        g
    } else {
        GridModel {
            cells: g.cells.insert((x1, y1), g.cells[(x2, y2)]).insert((x2, y2), g.cells[(x1, y1)]),
            states: spec_swap_table(g.states, (x1, y1), (x2, y2)),
            ..g
        }
    }
}

/// The model after storing an agent state at a coordinate.  The store only
/// applies where the cell currently holds Agent, which keeps the side table
/// consistent in one place.
pub open spec fn spec_set_state(g: GridModel, x: int, y: int, s: PersonState) -> GridModel {
    if g.in_bounds(x, y) && g.cell(x, y) == Element::Agent {
        GridModel { states: g.states.insert((x, y), s), ..g }
    } else {
        g
    }
}

pub broadcast proof fn lemma_cell_after_set(g: GridModel, x: int, y: int, e: Element, i: int, j: int)
    ensures
        #[trigger] spec_set(g, x, y, e).cell(i, j) == if i == x && j == y && g.in_bounds(x, y) {
            e
        } else {
            g.cell(i, j)
        },
{
}

pub broadcast proof fn lemma_state_after_set(
    g: GridModel,
    x: int,
    y: int,
    e: Element,
    i: int,
    j: int,
)
    ensures
        #[trigger] spec_set(g, x, y, e).state_at(i, j) == if i == x && j == y && g.in_bounds(
            x,
            y,
        ) {
            if e == Element::Agent {
                if g.state_at(x, y) is Some {
                    g.state_at(x, y)
                } else {
                    Some(PersonState::spec_default())
                }
            } else {
                None::<PersonState>
            }
        } else {
            g.state_at(i, j)
        },
{
}

pub broadcast proof fn lemma_cell_after_swap(
    g: GridModel,
    x1: int,
    y1: int,
    x2: int,
    y2: int,
    i: int,
    j: int,
)
    ensures
        #[trigger] spec_swap(g, x1, y1, x2, y2).cell(i, j) == if g.in_bounds(x1, y1)
            && g.in_bounds(x2, y2) {
            if i == x1 && j == y1 {
                g.cell(x2, y2)
            } else if i == x2 && j == y2 {
                g.cell(x1, y1)
            } else {
                g.cell(i, j)
            }
        } else {
            g.cell(i, j)
        },
{
}

pub broadcast proof fn lemma_state_after_swap(
    g: GridModel,
    x1: int,
    y1: int,
    x2: int,
    y2: int,
    i: int,
    j: int,
)
    ensures
        #[trigger] spec_swap(g, x1, y1, x2, y2).state_at(i, j) == if g.in_bounds(x1, y1)
            && g.in_bounds(x2, y2) {
            if i == x1 && j == y1 {
                g.state_at(x2, y2)
            } else if i == x2 && j == y2 {
                g.state_at(x1, y1)
            } else {
                g.state_at(i, j)
            }
        } else {
            g.state_at(i, j)
        },
{
}

pub broadcast proof fn lemma_cell_after_set_state(
    g: GridModel,
    x: int,
    y: int,
    s: PersonState,
    i: int,
    j: int,
)
    ensures
        #[trigger] spec_set_state(g, x, y, s).cell(i, j) == g.cell(i, j),
{
}

pub broadcast proof fn lemma_state_after_set_state(
    g: GridModel,
    x: int,
    y: int,
    s: PersonState,
    i: int,
    j: int,
)
    ensures
        #[trigger] spec_set_state(g, x, y, s).state_at(i, j) == if i == x && j == y && g.in_bounds(
            x,
            y,
        ) && g.cell(x, y) == Element::Agent {
            Some(s)
        } else {
            g.state_at(i, j)
        },
{
}

/// The pointwise descriptions of the three model transitions.
pub broadcast group group_grid_transitions {
    lemma_cell_after_set,
    lemma_state_after_set,
    lemma_cell_after_swap,
    lemma_state_after_swap,
    lemma_cell_after_set_state,
    lemma_state_after_set_state,
}

pub proof fn lemma_index(w: int, h: int, x: int, y: int)
    requires
        0 <= x < w,
        0 <= y < h,
    ensures
        0 <= y * w + x < w * h,
{
    assert(0 <= y * w + x < w * h) by (nonlinear_arith)
        requires
            0 <= x < w,
            0 <= y < h,
    ;
}

pub proof fn lemma_index_distinct(w: int, x1: int, y1: int, x2: int, y2: int)
    requires
        0 <= x1 < w,
        0 <= x2 < w,
        0 <= y1,
        0 <= y2,
        !(x1 == x2 && y1 == y2),
    ensures
        y1 * w + x1 != y2 * w + x2,
{
    assert(y1 * w + x1 != y2 * w + x2) by (nonlinear_arith)
        requires
            0 <= x1 < w,
            0 <= x2 < w,
            0 <= y1,
            0 <= y2,
            !(x1 == x2 && y1 == y2),
    ;
}

/// The grid store: a fixed rectangle of cells in row-major order, with the
/// sparse agent-state table kept consistent by every write.
pub struct Grid {
    width: usize,
    height: usize,
    cells: Vec<Element>,
    states: Vec<Option<PersonState>>,
}

impl View for Grid {
    type V = GridModel;

    closed spec fn view(&self) -> GridModel {
        GridModel {
            width: self.width as nat,
            height: self.height as nat,
            cells: Map::new(
                |p: (int, int)| 0 <= p.0 < self.width && 0 <= p.1 < self.height,
                |p: (int, int)| self.cells@[p.1 * self.width + p.0],
            ),
            states: Map::new(
                |p: (int, int)| 0 <= p.0 < self.width && 0 <= p.1 < self.height
                    && self.states@[p.1 * self.width + p.0] is Some,
                |p: (int, int)| self.states@[p.1 * self.width + p.0].unwrap(),
            ),
        }
    }
}

impl Grid {
    /// Internal well-formedness: both backing vectors cover the whole
    /// rectangle, and a state entry is present exactly under Agent cells.
    pub closed spec fn wf(self) -> bool {
        &&& self.width * self.height <= usize::MAX
        &&& self.cells@.len() == self.width * self.height
        &&& self.states@.len() == self.width * self.height
        &&& forall|i: int|
            0 <= i < self.cells@.len() ==> ((#[trigger] self.states@[i]) is Some <==> self.cells@[i]
                == Element::Agent)
    }

    /// A fresh all-Empty grid of the given dimensions.
    pub fn new(width: usize, height: usize) -> (r: Grid)
        requires
            width * height <= usize::MAX,
        ensures
            r.wf(),
            r@ == empty_model(width as nat, height as nat),
    {
        let n = width * height;
        let mut cells: Vec<Element> = Vec::new();
        let mut states: Vec<Option<PersonState>> = Vec::new();
        let mut k: usize = 0;
        while k < n
            invariant
                k <= n,
                cells@.len() == k,
                states@.len() == k,
                forall|i: int| 0 <= i < k ==> cells@[i] == Element::Empty,
                forall|i: int| 0 <= i < k ==> (#[trigger] states@[i]) is None,
            decreases n - k,
        {
            cells.push(Element::Empty);
            states.push(None);
            k = k + 1;
        }
        let g = Grid { width, height, cells, states };
        proof {
            let m = empty_model(width as nat, height as nat);
            assert_maps_equal!(g@.cells, m.cells, p => {
                if 0 <= p.0 < width && 0 <= p.1 < height {
                    lemma_index(width as int, height as int, p.0, p.1);
                }
            });
            assert_maps_equal!(g@.states, m.states, p => {
                if 0 <= p.0 < width && 0 <= p.1 < height {
                    lemma_index(width as int, height as int, p.0, p.1);
                }
            });
            assert(g@ =~= m);
        }
        g
    }

    pub fn width(&self) -> (r: usize)
        ensures
            r == self@.width,
    {
        self.width
    }

    pub fn height(&self) -> (r: usize)
        ensures
            r == self@.height,
    {
        self.height
    }

    /// Bounds-checked read; out-of-range coordinates answer Stone, the
    /// implicit solid boundary.
    pub fn get(&self, x: usize, y: usize) -> (r: Element)
        requires
            self.wf(),
        ensures
            r == self@.cell(x as int, y as int),
    {
        if x < self.width && y < self.height {
            proof {
                lemma_index(self.width as int, self.height as int, x as int, y as int);
            }
            self.cells[y * self.width + x]
        } else {
            Element::Stone
        }
    }

    /// Bounds-checked write (no-op out of range), maintaining the
    /// agent-state lifecycle described by `spec_set`.
    pub fn set(&mut self, x: usize, y: usize, element: Element)
        requires
            old(self).wf(),
        ensures
            final(self).wf(),
            final(self)@ == spec_set(old(self)@, x as int, y as int, element),
    {
        if x < self.width && y < self.height {
            proof {
                lemma_index(self.width as int, self.height as int, x as int, y as int);
            }
            let i = y * self.width + x;
            if element == Element::Agent {
                if self.states[i].is_none() {
                    self.states[i] = Some(PersonState::new());
                }
            } else {
                self.states[i] = None;
            }
            self.cells[i] = element;
            proof {
                let w = self.width as int;
                let h = self.height as int;
                let gm = old(self)@;
                let target = spec_set(gm, x as int, y as int, element);
                assert_maps_equal!(self@.cells, target.cells, p => {
                    if 0 <= p.0 < w && 0 <= p.1 < h {
                        lemma_index(w, h, p.0, p.1);
                        if !(p.0 == x as int && p.1 == y as int) {
                            lemma_index_distinct(w, x as int, y as int, p.0, p.1);
                        }
                    }
                });
                assert_maps_equal!(self@.states, target.states, p => {
                    if 0 <= p.0 < w && 0 <= p.1 < h {
                        lemma_index(w, h, p.0, p.1);
                        if !(p.0 == x as int && p.1 == y as int) {
                            lemma_index_distinct(w, x as int, y as int, p.0, p.1);
                        }
                    }
                });
                assert(self@ =~= target);
            }
        } else {
            proof {
                assert(self@ =~= spec_set(old(self)@, x as int, y as int, element));
            }
        }
    }

    /// The atomic exchange of two cells, the sole move primitive: element
    /// values trade places and any agent states follow them.  A no-op (not
    /// even partial) if either coordinate is out of range.
    pub fn swap_cells(&mut self, x1: usize, y1: usize, x2: usize, y2: usize)
        requires
            old(self).wf(),
        ensures
            final(self).wf(),
            final(self)@ == spec_swap(old(self)@, x1 as int, y1 as int, x2 as int, y2 as int),
    {
        if x1 < self.width && y1 < self.height && x2 < self.width && y2 < self.height {
            proof {
                lemma_index(self.width as int, self.height as int, x1 as int, y1 as int);
                lemma_index(self.width as int, self.height as int, x2 as int, y2 as int);
            }
            let i1 = y1 * self.width + x1;
            let i2 = y2 * self.width + x2;
            let c1 = self.cells[i1];
            let c2 = self.cells[i2];
            self.cells[i1] = c2;
            self.cells[i2] = c1;
            let s1 = self.states[i1];
            let s2 = self.states[i2];
            self.states[i1] = s2;
            self.states[i2] = s1;
            proof {
                let w = self.width as int;
                let h = self.height as int;
                let gm = old(self)@;
                let target = spec_swap(gm, x1 as int, y1 as int, x2 as int, y2 as int);
                assert_maps_equal!(self@.cells, target.cells, p => {
                    if 0 <= p.0 < w && 0 <= p.1 < h {
                        lemma_index(w, h, p.0, p.1);
                        if !(p.0 == x1 as int && p.1 == y1 as int) {
                            lemma_index_distinct(w, x1 as int, y1 as int, p.0, p.1);
                        }
                        if !(p.0 == x2 as int && p.1 == y2 as int) {
                            lemma_index_distinct(w, x2 as int, y2 as int, p.0, p.1);
                        }
                    }
                });
                assert_maps_equal!(self@.states, target.states, p => {
                    if 0 <= p.0 < w && 0 <= p.1 < h {
                        lemma_index(w, h, p.0, p.1);
                        if !(p.0 == x1 as int && p.1 == y1 as int) {
                            lemma_index_distinct(w, x1 as int, y1 as int, p.0, p.1);
                        }
                        if !(p.0 == x2 as int && p.1 == y2 as int) {
                            lemma_index_distinct(w, x2 as int, y2 as int, p.0, p.1);
                        }
                    }
                });
                assert(self@ =~= target);
            }
        } else {
            proof {
                assert(self@ =~= spec_swap(
                    old(self)@,
                    x1 as int,
                    y1 as int,
                    x2 as int,
                    y2 as int,
                ));
            }
        }
    }

    /// Read-only view of the agent state at a coordinate; None out of range
    /// or where the cell is not an Agent.
    pub fn get_person_state(&self, x: usize, y: usize) -> (r: Option<PersonState>)
        requires
            self.wf(),
        ensures
            r == self@.state_at(x as int, y as int),
    {
        if x < self.width && y < self.height {
            proof {
                lemma_index(self.width as int, self.height as int, x as int, y as int);
            }
            self.states[y * self.width + x]
        } else {
            None
        }
    }

    /// Store an agent state at a coordinate.  Applies only where the cell
    /// currently holds Agent, so the side table never gains a stray entry.
    pub fn set_person_state(&mut self, x: usize, y: usize, s: PersonState)
        requires
            old(self).wf(),
        ensures
            final(self).wf(),
            final(self)@ == spec_set_state(old(self)@, x as int, y as int, s),
    {
        if x < self.width && y < self.height {
            proof {
                lemma_index(self.width as int, self.height as int, x as int, y as int);
            }
            let i = y * self.width + x;
            if self.cells[i] == Element::Agent {
                self.states[i] = Some(s);
                proof {
                    let w = self.width as int;
                    let h = self.height as int;
                    let gm = old(self)@;
                    let target = spec_set_state(gm, x as int, y as int, s);
                    assert_maps_equal!(self@.cells, target.cells, p => {});
                    assert_maps_equal!(self@.states, target.states, p => {
                        if 0 <= p.0 < w && 0 <= p.1 < h {
                            lemma_index(w, h, p.0, p.1);
                            if !(p.0 == x as int && p.1 == y as int) {
                                lemma_index_distinct(w, x as int, y as int, p.0, p.1);
                            }
                        }
                    });
                    assert(self@ =~= target);
                }
            } else {
                proof {
                    assert(self@ =~= spec_set_state(old(self)@, x as int, y as int, s));
                }
            }
        } else {
            proof {
                assert(self@ =~= spec_set_state(old(self)@, x as int, y as int, s));
            }
        }
    }
}

/// Whether (x, y) lies within the filled disk of the given radius around
/// (cx, cy), by the squared-distance test.
pub open spec fn in_disk(cx: int, cy: int, radius: int, x: int, y: int) -> bool {
    (x - cx) * (x - cx) + (y - cy) * (y - cy) <= radius * radius
}

/// The agent state a painted cell ends up with.
pub open spec fn painted_state(old_state: Option<PersonState>, e: Element) -> Option<PersonState> {
    if e == Element::Agent {
        if old_state is Some {
            old_state
        } else {
            Some(PersonState::spec_default())
        }
    } else {
        None
    }
}

proof fn lemma_square_mono(a: int, b: int)
    requires
        0 <= a <= b,
    ensures
        a * a <= b * b,
{
    assert(a * a <= b * b) by (nonlinear_arith)
        requires
            0 <= a <= b,
    ;
}

proof fn lemma_square_strict(a: int, b: int)
    requires
        0 <= a < b,
    ensures
        a * a < b * b,
{
    assert(a * a < b * b) by (nonlinear_arith)
        requires
            0 <= a < b,
    ;
}

proof fn lemma_abs_square(a: int, b: int)
    ensures
        (a - b) * (a - b) == (b - a) * (b - a),
{
    assert((a - b) * (a - b) == (b - a) * (b - a)) by (nonlinear_arith);
}

/// Whether (x, y) is within `radius` of (cx, cy) by squared distance.
fn disk_test(cx: usize, cy: usize, radius: usize, x: usize, y: usize) -> (r: bool)
    ensures
        r == in_disk(cx as int, cy as int, radius as int, x as int, y as int),
{
    let dx = if x >= cx {
        x - cx
    } else {
        cx - x
    };
    let dy = if y >= cy {
        y - cy
    } else {
        cy - y
    };
    proof {
        lemma_abs_square(x as int, cx as int);
        lemma_abs_square(y as int, cy as int);
        lemma_square_mono(dx as int, 0xffff_ffff_ffff_ffff);
        lemma_square_mono(dy as int, 0xffff_ffff_ffff_ffff);
        lemma_square_mono(radius as int, 0xffff_ffff_ffff_ffff);
    }
    if dx <= radius && dy <= radius {
        proof {
            lemma_square_mono(dx as int, radius as int);
            lemma_square_mono(dy as int, radius as int);
        }
        let r2 = (radius as u128) * (radius as u128);
        let dx2 = (dx as u128) * (dx as u128);
        let dy2 = (dy as u128) * (dy as u128);
        dx2 <= r2 - dy2
    } else {
        proof {
            if dx > radius {
                lemma_square_strict(radius as int, dx as int);
                lemma_square_mono(0, dy as int);
            } else {
                lemma_square_strict(radius as int, dy as int);
                lemma_square_mono(0, dx as int);
            }
        }
        false
    }
}

impl Grid {
    /// Paint a filled disk of the given radius (squared-distance test,
    /// `dx*dx + dy*dy <= radius*radius`) centered at (x, y) with the given
    /// element, clipped to the grid bounds.  Radius 0 paints a single cell.
    pub fn place_element(&mut self, x: usize, y: usize, element: Element, radius: usize)
        requires
            old(self).wf(),
        ensures
            final(self).wf(),
            final(self)@.width == old(self)@.width,
            final(self)@.height == old(self)@.height,
            forall|a: int, b: int|
                #![trigger final(self)@.cell(a, b)]
                final(self)@.cell(a, b) == (if old(self)@.in_bounds(a, b) && in_disk(
                    x as int,
                    y as int,
                    radius as int,
                    a,
                    b,
                ) {
                    element
                } else {
                    old(self)@.cell(a, b)
                }),
            forall|a: int, b: int|
                #![trigger final(self)@.state_at(a, b)]
                final(self)@.state_at(a, b) == (if old(self)@.in_bounds(a, b) && in_disk(
                    x as int,
                    y as int,
                    radius as int,
                    a,
                    b,
                ) {
                    painted_state(old(self)@.state_at(a, b), element)
                } else {
                    old(self)@.state_at(a, b)
                }),
    {
        let ghost g0 = old(self)@;
        let w = self.width();
        let h = self.height();
        let mut j: usize = 0;
        while j < h
            invariant
                self.wf(),
                self@.width == g0.width,
                self@.height == g0.height,
                w == g0.width,
                h == g0.height,
                j <= h,
                forall|a: int, b: int|
                    #![trigger self@.cell(a, b)]
                    self@.cell(a, b) == (if g0.in_bounds(a, b) && b < j && in_disk(
                        x as int,
                        y as int,
                        radius as int,
                        a,
                        b,
                    ) {
                        element
                    } else {
                        g0.cell(a, b)
                    }),
                forall|a: int, b: int|
                    #![trigger self@.state_at(a, b)]
                    self@.state_at(a, b) == (if g0.in_bounds(a, b) && b < j && in_disk(
                        x as int,
                        y as int,
                        radius as int,
                        a,
                        b,
                    ) {
                        painted_state(g0.state_at(a, b), element)
                    } else {
                        g0.state_at(a, b)
                    }),
            decreases h - j,
        {
            let mut i: usize = 0;
            while i < w
                invariant
                    self.wf(),
                    self@.width == g0.width,
                    self@.height == g0.height,
                    w == g0.width,
                    h == g0.height,
                    i <= w,
                    j < h,
                    forall|a: int, b: int|
                        #![trigger self@.cell(a, b)]
                        self@.cell(a, b) == (if g0.in_bounds(a, b) && (b < j || (b == j && a < i))
                            && in_disk(x as int, y as int, radius as int, a, b) {
                            element
                        } else {
                            g0.cell(a, b)
                        }),
                    forall|a: int, b: int|
                        #![trigger self@.state_at(a, b)]
                        self@.state_at(a, b) == (if g0.in_bounds(a, b) && (b < j || (b == j && a
                            < i)) && in_disk(x as int, y as int, radius as int, a, b) {
                            painted_state(g0.state_at(a, b), element)
                        } else {
                            g0.state_at(a, b)
                        }),
                decreases w - i,
            {
                if disk_test(x, y, radius, i, j) {
                    self.set(i, j, element);
                    proof {
                        broadcast use group_grid_transitions;
                    }
                }
                i = i + 1;
            }
            j = j + 1;
        }
    }
}

/// A well-formed grid's side table matches its Agent cells exactly.
pub proof fn lemma_wf_agents_consistent(g: &Grid)
    requires
        g.wf(),
    ensures
        g@.agents_consistent(),
{
    assert forall|x: int, y: int|
        (#[trigger] g@.state_at(x, y)) is Some <==> (g@.in_bounds(x, y) && g@.cell(x, y)
            == Element::Agent) by {
        if g@.in_bounds(x, y) {
            lemma_index(g@.width as int, g@.height as int, x, y);
        }
    }
}

/// A bounds-checked write keeps the side table matching the Agent cells.
pub proof fn lemma_set_preserves_consistency(g: GridModel, x: int, y: int, e: Element)
    requires
        g.agents_consistent(),
    ensures
        spec_set(g, x, y, e).agents_consistent(),
{
    broadcast use group_grid_transitions;

    let g1 = spec_set(g, x, y, e);
    assert forall|a: int, b: int|
        (#[trigger] g1.state_at(a, b)) is Some <==> (g1.in_bounds(a, b) && g1.cell(a, b)
            == Element::Agent) by {
        assert(g.state_at(a, b) is Some <==> (g.in_bounds(a, b) && g.cell(a, b)
            == Element::Agent));
    }
}

/// A cell exchange keeps the side table matching the Agent cells.
pub proof fn lemma_swap_preserves_consistency(g: GridModel, x1: int, y1: int, x2: int, y2: int)
    requires
        g.agents_consistent(),
    ensures
        spec_swap(g, x1, y1, x2, y2).agents_consistent(),
{
    broadcast use group_grid_transitions;

    let g1 = spec_swap(g, x1, y1, x2, y2);
    assert forall|a: int, b: int|
        (#[trigger] g1.state_at(a, b)) is Some <==> (g1.in_bounds(a, b) && g1.cell(a, b)
            == Element::Agent) by {
        assert(g.state_at(a, b) is Some <==> (g.in_bounds(a, b) && g.cell(a, b)
            == Element::Agent));
        assert(g.state_at(x1, y1) is Some <==> (g.in_bounds(x1, y1) && g.cell(x1, y1)
            == Element::Agent));
        assert(g.state_at(x2, y2) is Some <==> (g.in_bounds(x2, y2) && g.cell(x2, y2)
            == Element::Agent));
    }
}

/// A state store keeps the side table matching the Agent cells: it only
/// ever applies where the cell already holds Agent.
pub proof fn lemma_set_state_preserves_consistency(g: GridModel, x: int, y: int, s: PersonState)
    requires
        g.agents_consistent(),
    ensures
        spec_set_state(g, x, y, s).agents_consistent(),
{
    broadcast use group_grid_transitions;

    let g1 = spec_set_state(g, x, y, s);
    assert forall|a: int, b: int|
        (#[trigger] g1.state_at(a, b)) is Some <==> (g1.in_bounds(a, b) && g1.cell(a, b)
            == Element::Agent) by {
        assert(g.state_at(a, b) is Some <==> (g.in_bounds(a, b) && g.cell(a, b)
            == Element::Agent));
    }
}

} // verus!
