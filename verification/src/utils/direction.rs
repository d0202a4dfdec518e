use vstd::prelude::*;
use vstd::std_specs::ops::AddSpec;

verus! {

/// One of the eight compass directions, in clockwise order starting at north.
#[derive(Clone, Copy, Debug, PartialEq, Eq, Structural, Hash, PartialOrd, Ord)]
pub enum CardinalDirection {
    North,
    NorthEast,
    East,
    SouthEast,
    South,
    SouthWest,
    West,
    NorthWest,
}

impl CardinalDirection {
    /// The direction's bearing in whole degrees, clockwise from north, in `-135..=180`.
    pub fn to_angle(self) -> (r: i32)
        ensures
            r == if self.index() <= 4 {
                45 * self.index()
            } else {
                45 * self.index() - 360
            },
    {
        match self {
            CardinalDirection::North => 0,
            CardinalDirection::NorthEast => 45,
            CardinalDirection::East => 90,
            CardinalDirection::SouthEast => 135,
            CardinalDirection::South => 180,
            CardinalDirection::SouthWest => -135,
            CardinalDirection::West => -90,
            CardinalDirection::NorthWest => -45,
        }
    }

    /// Position of the direction on the compass, counted in eighth turns clockwise from north.
    pub open spec fn index(self) -> int {
        match self {
            CardinalDirection::North => 0,
            CardinalDirection::NorthEast => 1,
            CardinalDirection::East => 2,
            CardinalDirection::SouthEast => 3,
            CardinalDirection::South => 4,
            CardinalDirection::SouthWest => 5,
            CardinalDirection::West => 6,
            CardinalDirection::NorthWest => 7,
        }
    }

    /// The direction `i` eighth turns clockwise from north (any integer, taken modulo 8).
    pub open spec fn from_index(i: int) -> CardinalDirection {
        let k = i % 8;
        if k == 0 {
            CardinalDirection::North
        } else if k == 1 {
            CardinalDirection::NorthEast
        } else if k == 2 {
            CardinalDirection::East
        } else if k == 3 {
            CardinalDirection::SouthEast
        } else if k == 4 {
            CardinalDirection::South
        } else if k == 5 {
            CardinalDirection::SouthWest
        } else if k == 6 {
            CardinalDirection::West
        } else {
            CardinalDirection::NorthWest
        }
    }

    /// The direction reached by turning `k` eighth turns clockwise (negative `k`: counter-clockwise).
    pub open spec fn rotated(self, k: int) -> CardinalDirection {
        CardinalDirection::from_index(self.index() + k)
    }

    /// The unit step of this direction on a grid whose second axis points north.
    pub open spec fn offset(self) -> (int, int) {
        match self {
            CardinalDirection::North => (0, 1),
            CardinalDirection::NorthEast => (1, 1),
            CardinalDirection::East => (1, 0),
            CardinalDirection::SouthEast => (1, -1),
            CardinalDirection::South => (0, -1),
            CardinalDirection::SouthWest => (-1, -1),
            CardinalDirection::West => (-1, 0),
            CardinalDirection::NorthWest => (-1, 1),
        }
    }

    /// The four directions that are not a combination of two others.
    pub fn non_compound_directions() -> (r: [CardinalDirection; 4])
        ensures
            r@ == seq![
                CardinalDirection::North,
                CardinalDirection::East,
                CardinalDirection::South,
                CardinalDirection::West,
            ],
    {
        [
            CardinalDirection::North,
            CardinalDirection::East,
            CardinalDirection::South,
            CardinalDirection::West,
        ]
    }

    /// The two directions that lie an eighth turn on either side: counter-clockwise first.
    pub fn split_direction(self) -> (r: [CardinalDirection; 2])
        ensures
            r@ == seq![self.rotated(-1), self.rotated(1)],
    {
        match self {
            CardinalDirection::North => [CardinalDirection::NorthWest, CardinalDirection::NorthEast],
            CardinalDirection::NorthEast => [CardinalDirection::North, CardinalDirection::East],
            CardinalDirection::East => [CardinalDirection::NorthEast, CardinalDirection::SouthEast],
            CardinalDirection::SouthEast => [CardinalDirection::East, CardinalDirection::South],
            CardinalDirection::South => [CardinalDirection::SouthEast, CardinalDirection::SouthWest],
            CardinalDirection::SouthWest => [CardinalDirection::South, CardinalDirection::West],
            CardinalDirection::West => [CardinalDirection::SouthWest, CardinalDirection::NorthWest],
            CardinalDirection::NorthWest => [CardinalDirection::West, CardinalDirection::North],
        }
    }

    /// The direction an eighth turn clockwise.
    pub fn next_clockwise(self) -> (r: CardinalDirection)
        ensures
            r == self.rotated(1),
    {
        match self {
            CardinalDirection::North => CardinalDirection::NorthEast,
            CardinalDirection::NorthEast => CardinalDirection::East,
            CardinalDirection::East => CardinalDirection::SouthEast,
            CardinalDirection::SouthEast => CardinalDirection::South,
            CardinalDirection::South => CardinalDirection::SouthWest,
            CardinalDirection::SouthWest => CardinalDirection::West,
            CardinalDirection::West => CardinalDirection::NorthWest,
            CardinalDirection::NorthWest => CardinalDirection::North,
        }
    }

    /// The direction an eighth turn counter-clockwise.
    pub fn next_counter_clockwise(self) -> (r: CardinalDirection)
        ensures
            r == self.rotated(-1),
    {
        match self {
            CardinalDirection::North => CardinalDirection::NorthWest,
            CardinalDirection::NorthEast => CardinalDirection::North,
            CardinalDirection::East => CardinalDirection::NorthEast,
            CardinalDirection::SouthEast => CardinalDirection::East,
            CardinalDirection::South => CardinalDirection::SouthEast,
            CardinalDirection::SouthWest => CardinalDirection::South,
            CardinalDirection::West => CardinalDirection::SouthWest,
            CardinalDirection::NorthWest => CardinalDirection::West,
        }
    }

    /// The three directions counter-clockwise of this one, nearest first.
    pub fn all_left_of(self) -> (r: Vec<CardinalDirection>)
        ensures
            r@ == seq![self.rotated(-1), self.rotated(-2), self.rotated(-3)],
    {
        let mut directions: Vec<CardinalDirection> = Vec::new();
        let mut current_direction = self;
        let mut step: usize = 0;
        while step < 3
            invariant
                step <= 3,
                directions@.len() == step,
                current_direction == self.rotated(-(step as int)),
                forall|i: int| 0 <= i < step ==> #[trigger] directions@[i] == self.rotated(-(i + 1)),
            decreases 3 - step,
        {
            current_direction = current_direction.next_counter_clockwise();
            proof {
                lemma_rotated_twice(self, -(step as int), -1);
            }
            directions.push(current_direction);
            step = step + 1;
        }
        assert(directions@ =~= seq![self.rotated(-1), self.rotated(-2), self.rotated(-3)]);
        directions
    }

    /// The three directions clockwise of this one, nearest first.
    pub fn all_right_of(self) -> (r: Vec<CardinalDirection>)
        ensures
            r@ == seq![self.rotated(1), self.rotated(2), self.rotated(3)],
    {
        let mut directions: Vec<CardinalDirection> = Vec::new();
        let mut current_direction = self;
        let mut step: usize = 0;
        while step < 3
            invariant
                step <= 3,
                directions@.len() == step,
                current_direction == self.rotated(step as int),
                forall|i: int| 0 <= i < step ==> #[trigger] directions@[i] == self.rotated(i + 1),
            decreases 3 - step,
        {
            current_direction = current_direction.next_clockwise();
            proof {
                lemma_rotated_twice(self, step as int, 1);
            }
            directions.push(current_direction);
            step = step + 1;
        }
        assert(directions@ =~= seq![self.rotated(1), self.rotated(2), self.rotated(3)]);
        directions
    }
}

impl core::ops::Neg for CardinalDirection {
    type Output = Self;

    fn neg(self) -> (r: Self::Output) {
        match self {
            CardinalDirection::North => CardinalDirection::South,
            CardinalDirection::NorthEast => CardinalDirection::SouthWest,
            CardinalDirection::East => CardinalDirection::West,
            CardinalDirection::SouthEast => CardinalDirection::NorthWest,
            CardinalDirection::South => CardinalDirection::North,
            CardinalDirection::SouthWest => CardinalDirection::NorthEast,
            CardinalDirection::West => CardinalDirection::East,
            CardinalDirection::NorthWest => CardinalDirection::SouthEast,
        }
    }
}

/// The opposite of a direction is the direction half a turn away.
impl vstd::std_specs::ops::NegSpecImpl for CardinalDirection {
    open spec fn obeys_neg_spec() -> bool {
        true
    }

    open spec fn neg_req(self) -> bool {
        true
    }

    open spec fn neg_spec(self) -> CardinalDirection {
        self.rotated(4)
    }
}

/// Whether stepping from `p` in direction `d` stays within `i32`.
pub open spec fn step_fits(p: [i32; 2], d: CardinalDirection) -> bool {
    &&& i32::MIN <= p@[0] + d.offset().0 <= i32::MAX
    &&& i32::MIN <= p@[1] + d.offset().1 <= i32::MAX
}

impl core::ops::Add<CardinalDirection> for [i32; 2] {
    type Output = [i32; 2];

    fn add(self, rhs: CardinalDirection) -> (r: Self::Output) {
        match rhs {
            CardinalDirection::North => [self[0], self[1] + 1],
            CardinalDirection::NorthEast => [self[0] + 1, self[1] + 1],
            CardinalDirection::East => [self[0] + 1, self[1]],
            CardinalDirection::SouthEast => [self[0] + 1, self[1] - 1],
            CardinalDirection::South => [self[0], self[1] - 1],
            CardinalDirection::SouthWest => [self[0] - 1, self[1] - 1],
            CardinalDirection::West => [self[0] - 1, self[1]],
            CardinalDirection::NorthWest => [self[0] - 1, self[1] + 1],
        }
    }
}

/// A grid point plus a direction is the neighbouring point in that direction.
impl vstd::std_specs::ops::AddSpecImpl<CardinalDirection> for [i32; 2] {
    open spec fn obeys_add_spec() -> bool {
        true
    }

    open spec fn add_req(self, rhs: CardinalDirection) -> bool {
        step_fits(self, rhs)
    }

    open spec fn add_spec(self, rhs: CardinalDirection) -> [i32; 2] {
        [(self@[0] + rhs.offset().0) as i32, (self@[1] + rhs.offset().1) as i32]
    }
}

/// `from_index` only depends on its argument modulo 8, and `index` recovers that remainder.
pub proof fn lemma_index_from_index(i: int)
    ensures
        CardinalDirection::from_index(i).index() == i % 8,
{
}

/// Turning `a` and then `b` eighth turns is turning `a + b` eighth turns.
pub proof fn lemma_rotated_twice(d: CardinalDirection, a: int, b: int)
    ensures
        d.rotated(a).rotated(b) == d.rotated(a + b),
{
    lemma_index_from_index(d.index() + a);
    assert((((d.index() + a) % 8) + b) % 8 == (d.index() + a + b) % 8) by (nonlinear_arith);
}

/// Turning one step clockwise and one step counter-clockwise, in either order, gives back the
/// direction one started from.
pub proof fn law_clockwise_inverse(d: CardinalDirection)
    ensures
        d.rotated(1).rotated(-1) == d,
        d.rotated(-1).rotated(1) == d,
{
    lemma_rotated_twice(d, 1, -1);
    lemma_rotated_twice(d, -1, 1);
}

/// Eight eighth turns make a full turn.
pub proof fn law_full_turn(d: CardinalDirection)
    ensures
        d.rotated(8) == d,
{
}

/// The opposite of the opposite of a direction is the direction itself.
pub proof fn law_opposite_involution(d: CardinalDirection)
    ensures
        d.rotated(4).rotated(4) == d,
{
    lemma_rotated_twice(d, 4, 4);
}

/// The opposite direction steps by the negated offset.
pub proof fn law_opposite_offset(d: CardinalDirection)
    ensures
        d.rotated(4).offset() == (-d.offset().0, -d.offset().1),
{
}

/// Stepping from a grid point in a direction and then in the opposite direction returns to the point.
pub proof fn law_step_back(p: [i32; 2], d: CardinalDirection)
    requires
        step_fits(p, d),
    ensures
        step_fits(p.add_spec(d), d.rotated(4)),
        p.add_spec(d).add_spec(d.rotated(4)) == p,
{
    let q = p.add_spec(d);
    let r = q.add_spec(d.rotated(4));
    assert(r@ =~= p@);
    vstd::array::axiom_array_ext_equal(r, p);
}

} // verus!
