use vstd::prelude::*;
use vstd::std_specs::ops::AddSpec;
use vstd::std_specs::ops::NegSpec;
use vstd::std_specs::ops::SubSpec;

use crate::utils::math::{round_to_single, single_rounded};
use crate::utils::vector::{IVec2, IVec3, UVec2};
use crate::world_gen::consts::CHUNK_SIZE;

verus! {

/// A tile position on the ground plane: `x` and `z` of a [`TilePosition`].
pub type TilePosition2D = IVec2;

/// The position of a chunk in the grid of chunks.
#[derive(Clone, Copy, Debug, PartialEq, Eq, Structural, Hash, Default)]
pub struct ChunkPosition {
    pub position: UVec2,
}

/// The position of a tile: `x` and `z` on the ground plane, `y` its layer.
#[derive(Clone, Copy, Debug, PartialEq, Eq, Structural, Hash, Default)]
pub struct TilePosition {
    pub position: IVec3,
}

/// One of the eight compass directions, in clockwise order starting at north.
///
/// On tiles, north is towards growing `x` and east towards growing `z`.
#[derive(Clone, Copy, Debug, PartialEq, Eq, Structural, Hash, PartialOrd, Ord)]
pub enum CardinalDirection {
    North,
    NorthEast,
    East,
    SouthEast,
    South,
    SouthWest,
    West,
    NorthWest,
}

/// One value for each of the eight directions.
#[derive(Clone, Copy, Debug, PartialEq, Eq, Hash)]
pub struct Neighbours<T> {
    values: [T; 8],
}

/// The chunk coordinate counted for a tile coordinate: the coordinate is first rounded to the
/// nearest single-precision value (exact below 2^24), then divided by the chunk size and rounded
/// down; coordinates left of the world count in chunk zero.
pub open spec fn chunk_coordinate(c: int) -> int {
    if c < 0 {
        0
    } else {
        single_rounded(c) / (CHUNK_SIZE as int)
    }
}

/// Whether the chunk counted for a coordinate is the chunk that holds it, which rounding to
/// single precision can break for coordinates of 2^24 and more.
pub open spec fn chunk_exact(c: int) -> bool {
    chunk_coordinate(c) == c / (CHUNK_SIZE as int)
}

/// A tile coordinate relative to its chunk.
pub open spec fn relative_coordinate(c: int) -> int {
    c - chunk_coordinate(c) * (CHUNK_SIZE as int)
}

impl CardinalDirection {
    /// The direction's bearing in whole degrees, clockwise from north, in `-135..=180`.
    pub fn to_angle(&self) -> (r: i32)
        ensures
            r == if self.index() <= 4 {
                45 * self.index()
            } else {
                45 * self.index() - 360
            },
    {
        match self {
            CardinalDirection::North => 0,
            CardinalDirection::NorthEast => 45,
            CardinalDirection::East => 90,
            CardinalDirection::SouthEast => 135,
            CardinalDirection::South => 180,
            CardinalDirection::SouthWest => -135,
            CardinalDirection::West => -90,
            CardinalDirection::NorthWest => -45,
        }
    }

    /// Position of the direction on the compass, counted in eighth turns clockwise from north.
    pub open spec fn index(self) -> int {
        match self {
            CardinalDirection::North => 0,
            CardinalDirection::NorthEast => 1,
            CardinalDirection::East => 2,
            CardinalDirection::SouthEast => 3,
            CardinalDirection::South => 4,
            CardinalDirection::SouthWest => 5,
            CardinalDirection::West => 6,
            CardinalDirection::NorthWest => 7,
        }
    }

    /// The direction `i` eighth turns clockwise from north (any integer, taken modulo 8).
    pub open spec fn from_index(i: int) -> CardinalDirection {
        let k = i % 8;
        if k == 0 {
            CardinalDirection::North
        } else if k == 1 {
            CardinalDirection::NorthEast
        } else if k == 2 {
            CardinalDirection::East
        } else if k == 3 {
            CardinalDirection::SouthEast
        } else if k == 4 {
            CardinalDirection::South
        } else if k == 5 {
            CardinalDirection::SouthWest
        } else if k == 6 {
            CardinalDirection::West
        } else {
            CardinalDirection::NorthWest
        }
    }

    /// The direction reached by turning `k` eighth turns clockwise (negative `k`: counter-clockwise).
    pub open spec fn rotated(self, k: int) -> CardinalDirection {
        CardinalDirection::from_index(self.index() + k)
    }

    /// The unit step of this direction on the tile grid, as `(x, z)`.
    pub open spec fn offset(self) -> (int, int) {
        match self {
            CardinalDirection::North => (1, 0),
            CardinalDirection::NorthEast => (1, 1),
            CardinalDirection::East => (0, 1),
            CardinalDirection::SouthEast => (-1, 1),
            CardinalDirection::South => (-1, 0),
            CardinalDirection::SouthWest => (-1, -1),
            CardinalDirection::West => (0, -1),
            CardinalDirection::NorthWest => (1, -1),
        }
    }

    /// The four directions that are not a combination of two others.
    pub fn non_compound_directions() -> (r: [CardinalDirection; 4])
        ensures
            r@ == seq![
                CardinalDirection::North,
                CardinalDirection::East,
                CardinalDirection::South,
                CardinalDirection::West,
            ],
    {
        [
            CardinalDirection::North,
            CardinalDirection::East,
            CardinalDirection::South,
            CardinalDirection::West,
        ]
    }

    /// The two directions that lie an eighth turn on either side: counter-clockwise first.
    pub fn split_direction(&self) -> (r: [CardinalDirection; 2])
        ensures
            r@ == seq![self.rotated(-1), self.rotated(1)],
    {
        match self {
            CardinalDirection::North => [CardinalDirection::NorthWest, CardinalDirection::NorthEast],
            CardinalDirection::NorthEast => [CardinalDirection::North, CardinalDirection::East],
            CardinalDirection::East => [CardinalDirection::NorthEast, CardinalDirection::SouthEast],
            CardinalDirection::SouthEast => [CardinalDirection::East, CardinalDirection::South],
            CardinalDirection::South => [CardinalDirection::SouthEast, CardinalDirection::SouthWest],
            CardinalDirection::SouthWest => [CardinalDirection::South, CardinalDirection::West],
            CardinalDirection::West => [CardinalDirection::SouthWest, CardinalDirection::NorthWest],
            CardinalDirection::NorthWest => [CardinalDirection::West, CardinalDirection::North],
        }
    }

    /// The direction an eighth turn clockwise.
    pub fn next_clockwise(&self) -> (r: CardinalDirection)
        ensures
            r == self.rotated(1),
    {
        match self {
            CardinalDirection::North => CardinalDirection::NorthEast,
            CardinalDirection::NorthEast => CardinalDirection::East,
            CardinalDirection::East => CardinalDirection::SouthEast,
            CardinalDirection::SouthEast => CardinalDirection::South,
            CardinalDirection::South => CardinalDirection::SouthWest,
            CardinalDirection::SouthWest => CardinalDirection::West,
            CardinalDirection::West => CardinalDirection::NorthWest,
            CardinalDirection::NorthWest => CardinalDirection::North,
        }
    }

    /// The direction an eighth turn counter-clockwise.
    pub fn next_counter_clockwise(&self) -> (r: CardinalDirection)
        ensures
            r == self.rotated(-1),
    {
        match self {
            CardinalDirection::North => CardinalDirection::NorthWest,
            CardinalDirection::NorthEast => CardinalDirection::North,
            CardinalDirection::East => CardinalDirection::NorthEast,
            CardinalDirection::SouthEast => CardinalDirection::East,
            CardinalDirection::South => CardinalDirection::SouthEast,
            CardinalDirection::SouthWest => CardinalDirection::South,
            CardinalDirection::West => CardinalDirection::SouthWest,
            CardinalDirection::NorthWest => CardinalDirection::West,
        }
    }
}

impl core::ops::Neg for CardinalDirection {
    type Output = Self;

    fn neg(self) -> (r: Self::Output) {
        match self {
            CardinalDirection::North => CardinalDirection::South,
            CardinalDirection::NorthEast => CardinalDirection::SouthWest,
            CardinalDirection::East => CardinalDirection::West,
            CardinalDirection::SouthEast => CardinalDirection::NorthWest,
            CardinalDirection::South => CardinalDirection::North,
            CardinalDirection::SouthWest => CardinalDirection::NorthEast,
            CardinalDirection::West => CardinalDirection::East,
            CardinalDirection::NorthWest => CardinalDirection::SouthEast,
        }
    }
}

/// The opposite of a direction is the direction half a turn away.
impl vstd::std_specs::ops::NegSpecImpl for CardinalDirection {
    open spec fn obeys_neg_spec() -> bool {
        true
    }

    open spec fn neg_req(self) -> bool {
        true
    }

    open spec fn neg_spec(self) -> CardinalDirection {
        self.rotated(4)
    }
}

impl<T> Neighbours<T> {
    /// The values, indexed by [`CardinalDirection::index`].
    pub closed spec fn view(&self) -> Seq<T> {
        self.values@
    }

    /// The value kept for one direction.
    pub open spec fn value(&self, direction: CardinalDirection) -> T {
        self@[direction.index()]
    }

    /// Collects the values given in clockwise order starting at north.
    pub fn new(values: [T; 8]) -> (r: Neighbours<T>)
        ensures
            r@ == values@,
    {
        Neighbours { values }
    }

    /// The value kept for one direction.
    pub fn get(&self, direction: CardinalDirection) -> (r: &T)
        ensures
            *r == self.value(direction),
    {
        let i: usize = match direction {
            CardinalDirection::North => 0,
            CardinalDirection::NorthEast => 1,
            CardinalDirection::East => 2,
            CardinalDirection::SouthEast => 3,
            CardinalDirection::South => 4,
            CardinalDirection::SouthWest => 5,
            CardinalDirection::West => 6,
            CardinalDirection::NorthWest => 7,
        };
        &self.values[i]
    }

    /// Replaces the value kept for one direction.
    pub fn set(&mut self, direction: CardinalDirection, value: T)
        ensures
            final(self)@ == old(self)@.update(direction.index(), value),
    {
        let i: usize = match direction {
            CardinalDirection::North => 0,
            CardinalDirection::NorthEast => 1,
            CardinalDirection::East => 2,
            CardinalDirection::SouthEast => 3,
            CardinalDirection::South => 4,
            CardinalDirection::SouthWest => 5,
            CardinalDirection::West => 6,
            CardinalDirection::NorthWest => 7,
        };
        self.values[i] = value;
    }

    /// All values, in clockwise order starting at north.
    pub fn as_array(&self) -> (r: &[T; 8])
        ensures
            r@ == self@,
    {
        &self.values
    }
}

impl ChunkPosition {
    /// Whether stepping in a direction keeps both coordinates within `u32`.
    pub open spec fn step_fits(self, direction: CardinalDirection) -> bool {
        &&& 0 <= self.position.x + direction.offset().0 <= u32::MAX
        &&& 0 <= self.position.y + direction.offset().1 <= u32::MAX
    }

    /// The neighbouring chunk in a direction.
    pub open spec fn stepped(self, direction: CardinalDirection) -> ChunkPosition {
        ChunkPosition {
            position: UVec2 {
                x: (self.position.x + direction.offset().0) as u32,
                y: (self.position.y + direction.offset().1) as u32,
            },
        }
    }

    /// The chunk position as a pair of indices.
    pub fn as_tuple(&self) -> (r: (usize, usize))
        ensures
            r.0 == self.position.x,
            r.1 == self.position.y,
    {
        (self.position.x as usize, self.position.y as usize)
    }
}

impl TilePosition {
    /// Whether stepping in a direction keeps both ground coordinates within `i32`.
    pub open spec fn step_fits(self, direction: CardinalDirection) -> bool {
        &&& i32::MIN <= self.position.x + direction.offset().0 <= i32::MAX
        &&& i32::MIN <= self.position.z + direction.offset().1 <= i32::MAX
    }

    /// The neighbouring tile in a direction, on the same layer.
    pub open spec fn stepped(self, direction: CardinalDirection) -> TilePosition {
        TilePosition {
            position: IVec3 {
                x: (self.position.x + direction.offset().0) as i32,
                y: self.position.y,
                z: (self.position.z + direction.offset().1) as i32,
            },
        }
    }

    /// Whether the tile and all eight of its neighbours have coordinates within `i32`.
    pub open spec fn neighbours_fit(self) -> bool {
        &&& i32::MIN < self.position.x < i32::MAX
        &&& i32::MIN < self.position.z < i32::MAX
    }

    /// The chunk that holds this tile.
    pub open spec fn spec_chunk_position(self) -> ChunkPosition {
        ChunkPosition {
            position: UVec2 {
                x: chunk_coordinate(self.position.x as int) as u32,
                y: chunk_coordinate(self.position.z as int) as u32,
            },
        }
    }

    /// The tile's ground coordinates.
    pub fn position_2d(&self) -> (r: TilePosition2D)
        ensures
            r.x == self.position.x,
            r.y == self.position.z,
    {
        IVec2 { x: self.position.x, y: self.position.z }
    }

    /// The chunk counted for this tile: each coordinate is rounded to single precision and then
    /// divided by the chunk size, rounding down. Tiles with a negative coordinate are counted in
    /// chunk 0 along that axis.
    pub fn chunk_position(&self) -> (r: ChunkPosition)
        ensures
            r == self.spec_chunk_position(),
            r.position.x == chunk_coordinate(self.position.x as int),
            r.position.y == chunk_coordinate(self.position.z as int),
            r.position.x <= 0x200_0000,
            r.position.y <= 0x200_0000,
    {
        let x: u32 = if self.position.x < 0 {
            0
        } else {
            (round_to_single(self.position.x as u64) / (CHUNK_SIZE as u64)) as u32
        };
        let z: u32 = if self.position.z < 0 {
            0
        } else {
            (round_to_single(self.position.z as u64) / (CHUNK_SIZE as u64)) as u32
        };
        ChunkPosition { position: UVec2 { x, y: z } }
    }

    /// The eight neighbouring tiles.
    pub fn tile_neighbours(&self) -> (r: Neighbours<TilePosition>)
        requires
            self.neighbours_fit(),
        ensures
            forall|d: CardinalDirection| #[trigger] r.value(d) == self.stepped(d),
    {
        let me = *self;
        let r = Neighbours::new(
            [
                me + CardinalDirection::North,
                me + CardinalDirection::NorthEast,
                me + CardinalDirection::East,
                me + CardinalDirection::SouthEast,
                me + CardinalDirection::South,
                me + CardinalDirection::SouthWest,
                me + CardinalDirection::West,
                me + CardinalDirection::NorthWest,
            ],
        );
        assert forall|d: CardinalDirection| #[trigger] r.value(d) == self.stepped(d) by {
            match d {
                CardinalDirection::North => {},
                CardinalDirection::NorthEast => {},
                CardinalDirection::East => {},
                CardinalDirection::SouthEast => {},
                CardinalDirection::South => {},
                CardinalDirection::SouthWest => {},
                CardinalDirection::West => {},
                CardinalDirection::NorthWest => {},
            }
        }
        r
    }

    /// The four neighbouring tiles in the non-compound directions; the other four entries hold
    /// the default tile position.
    pub fn non_diagonal_tile_neighbours(&self) -> (r: Neighbours<TilePosition>)
        requires
            self.neighbours_fit(),
        ensures
            forall|d: CardinalDirection| #[trigger] r.value(d) == if d.index() % 2 == 0 {
                self.stepped(d)
            } else {
                TilePosition { position: IVec3 { x: 0, y: 0, z: 0 } }
            },
    {
        let me = *self;
        let zero = TilePosition { position: IVec3 { x: 0, y: 0, z: 0 } };
        let r = Neighbours::new(
            [
                me + CardinalDirection::North,
                zero,
                me + CardinalDirection::East,
                zero,
                me + CardinalDirection::South,
                zero,
                me + CardinalDirection::West,
                zero,
            ],
        );
        assert forall|d: CardinalDirection| #[trigger] r.value(d) == if d.index() % 2 == 0 {
            self.stepped(d)
        } else {
            zero
        } by {
            match d {
                CardinalDirection::North => {},
                CardinalDirection::NorthEast => {},
                CardinalDirection::East => {},
                CardinalDirection::SouthEast => {},
                CardinalDirection::South => {},
                CardinalDirection::SouthWest => {},
                CardinalDirection::West => {},
                CardinalDirection::NorthWest => {},
            }
        }
        r
    }

    /// The eight chunks around the chunk that holds this tile.
    pub fn chunk_neighbours(&self) -> (r: Neighbours<ChunkPosition>)
        requires
            self.spec_chunk_position().position.x >= 1,
            self.spec_chunk_position().position.y >= 1,
        ensures
            forall|d: CardinalDirection| #[trigger] r.value(d) == self.spec_chunk_position().stepped(d),
    {
        let c = self.chunk_position();
        let r = Neighbours::new(
            [
                c + CardinalDirection::North,
                c + CardinalDirection::NorthEast,
                c + CardinalDirection::East,
                c + CardinalDirection::SouthEast,
                c + CardinalDirection::South,
                c + CardinalDirection::SouthWest,
                c + CardinalDirection::West,
                c + CardinalDirection::NorthWest,
            ],
        );
        assert forall|d: CardinalDirection| #[trigger] r.value(d) == c.stepped(d) by {
            match d {
                CardinalDirection::North => {},
                CardinalDirection::NorthEast => {},
                CardinalDirection::East => {},
                CardinalDirection::SouthEast => {},
                CardinalDirection::South => {},
                CardinalDirection::SouthWest => {},
                CardinalDirection::West => {},
                CardinalDirection::NorthWest => {},
            }
        }
        r
    }

    /// The tile position relative to the corner of the chunk counted for it.
    pub fn to_relative_tile_position(&self) -> (r: TilePosition)
        requires
            chunk_coordinate(self.position.x as int) * CHUNK_SIZE <= i32::MAX,
            chunk_coordinate(self.position.z as int) * CHUNK_SIZE <= i32::MAX,
        ensures
            r.position.x == relative_coordinate(self.position.x as int),
            r.position.y == self.position.y,
            r.position.z == relative_coordinate(self.position.z as int),
    {
        let chunk = self.chunk_position();
        let mut position = self.position;
        position.x = position.x - (chunk.position.x * CHUNK_SIZE) as i32;
        position.z = position.z - (chunk.position.y * CHUNK_SIZE) as i32;
        TilePosition { position }
    }

    /// The tile on layer 0 at the given ground coordinates.
    pub fn from_position_2d(position: TilePosition2D) -> (r: TilePosition)
        ensures
            r.position.x == position.x,
            r.position.y == 0,
            r.position.z == position.y,
    {
        TilePosition { position: IVec3 { x: position.x, y: 0, z: position.y } }
    }
}

impl core::ops::Add<CardinalDirection> for TilePosition {
    type Output = TilePosition;

    fn add(self, rhs: CardinalDirection) -> (r: Self::Output) {
        let mut position = self.position;
        match rhs {
            CardinalDirection::North => {
                position.x = position.x + 1;
            },
            CardinalDirection::NorthEast => {
                position.x = position.x + 1;
                position.z = position.z + 1;
            },
            CardinalDirection::East => {
                position.z = position.z + 1;
            },
            CardinalDirection::SouthEast => {
                position.x = position.x - 1;
                position.z = position.z + 1;
            },
            CardinalDirection::South => {
                position.x = position.x - 1;
            },
            CardinalDirection::SouthWest => {
                position.x = position.x - 1;
                position.z = position.z - 1;
            },
            CardinalDirection::West => {
                position.z = position.z - 1;
            },
            CardinalDirection::NorthWest => {
                position.x = position.x + 1;
                position.z = position.z - 1;
            },
        }
        TilePosition { position }
    }
}

/// A tile plus a direction is the neighbouring tile in that direction.
impl vstd::std_specs::ops::AddSpecImpl<CardinalDirection> for TilePosition {
    open spec fn obeys_add_spec() -> bool {
        true
    }

    open spec fn add_req(self, rhs: CardinalDirection) -> bool {
        self.step_fits(rhs)
    }

    open spec fn add_spec(self, rhs: CardinalDirection) -> TilePosition {
        self.stepped(rhs)
    }
}

impl core::ops::Add<CardinalDirection> for ChunkPosition {
    type Output = ChunkPosition;

    fn add(self, rhs: CardinalDirection) -> (r: Self::Output) {
        let mut position = self.position;
        match rhs {
            CardinalDirection::North => {
                position.x = position.x + 1;
            },
            CardinalDirection::NorthEast => {
                position.x = position.x + 1;
                position.y = position.y + 1;
            },
            CardinalDirection::East => {
                position.y = position.y + 1;
            },
            CardinalDirection::SouthEast => {
                position.x = position.x - 1;
                position.y = position.y + 1;
            },
            CardinalDirection::South => {
                position.x = position.x - 1;
            },
            CardinalDirection::SouthWest => {
                position.x = position.x - 1;
                position.y = position.y - 1;
            },
            CardinalDirection::West => {
                position.y = position.y - 1;
            },
            CardinalDirection::NorthWest => {
                position.x = position.x + 1;
                position.y = position.y - 1;
            },
        }
        ChunkPosition { position }
    }
}

/// A chunk plus a direction is the neighbouring chunk in that direction.
impl vstd::std_specs::ops::AddSpecImpl<CardinalDirection> for ChunkPosition {
    open spec fn obeys_add_spec() -> bool {
        true
    }

    open spec fn add_req(self, rhs: CardinalDirection) -> bool {
        self.step_fits(rhs)
    }

    open spec fn add_spec(self, rhs: CardinalDirection) -> ChunkPosition {
        self.stepped(rhs)
    }
}

impl core::ops::Sub<CardinalDirection> for TilePosition {
    type Output = TilePosition;

    fn sub(self, rhs: CardinalDirection) -> (r: Self::Output) {
        self + core::ops::Neg::neg(rhs)
    }
}

/// A tile minus a direction is the neighbouring tile in the opposite direction.
impl vstd::std_specs::ops::SubSpecImpl<CardinalDirection> for TilePosition {
    open spec fn obeys_sub_spec() -> bool {
        true
    }

    open spec fn sub_req(self, rhs: CardinalDirection) -> bool {
        self.step_fits(rhs.rotated(4))
    }

    open spec fn sub_spec(self, rhs: CardinalDirection) -> TilePosition {
        self.stepped(rhs.rotated(4))
    }
}

impl core::ops::Sub<CardinalDirection> for ChunkPosition {
    type Output = ChunkPosition;

    fn sub(self, rhs: CardinalDirection) -> (r: Self::Output) {
        self + core::ops::Neg::neg(rhs)
    }
}

/// A chunk minus a direction is the neighbouring chunk in the opposite direction.
impl vstd::std_specs::ops::SubSpecImpl<CardinalDirection> for ChunkPosition {
    open spec fn obeys_sub_spec() -> bool {
        true
    }

    open spec fn sub_req(self, rhs: CardinalDirection) -> bool {
        self.step_fits(rhs.rotated(4))
    }

    open spec fn sub_spec(self, rhs: CardinalDirection) -> ChunkPosition {
        self.stepped(rhs.rotated(4))
    }
}

/// Turning `a` and then `b` eighth turns is turning `a + b` eighth turns.
pub proof fn lemma_rotated_twice(d: CardinalDirection, a: int, b: int)
    ensures
        d.rotated(a).rotated(b) == d.rotated(a + b),
{
    assert(CardinalDirection::from_index(d.index() + a).index() == (d.index() + a) % 8);
    assert((((d.index() + a) % 8) + b) % 8 == (d.index() + a + b) % 8) by (nonlinear_arith);
}

/// Turning one step clockwise and one step counter-clockwise, in either order, gives back the
/// direction one started from; the opposite of the opposite is the direction itself.
pub proof fn law_rotation_inverses(d: CardinalDirection)
    ensures
        d.rotated(1).rotated(-1) == d,
        d.rotated(-1).rotated(1) == d,
        d.rotated(4).rotated(4) == d,
{
    lemma_rotated_twice(d, 1, -1);
    lemma_rotated_twice(d, -1, 1);
    lemma_rotated_twice(d, 4, 4);
}

/// Every set of neighbours holds exactly one value per direction.
pub proof fn lemma_neighbours_len<T>(n: Neighbours<T>)
    ensures
        n@.len() == 8,
{
}

/// Each direction has its own place on the compass.
pub proof fn lemma_index_injective(a: CardinalDirection, b: CardinalDirection)
    ensures
        0 <= a.index() < 8,
        a.index() == b.index() ==> a == b,
{
}

/// Stepping from a tile in a direction and then in the opposite direction returns to the tile.
pub proof fn law_tile_step_back(t: TilePosition, d: CardinalDirection)
    requires
        t.step_fits(d),
    ensures
        t.stepped(d).step_fits(d.rotated(4)),
        t.stepped(d).stepped(d.rotated(4)) == t,
{
}

/// Stepping from a chunk in a direction and then in the opposite direction returns to the chunk.
pub proof fn law_chunk_step_back(c: ChunkPosition, d: CardinalDirection)
    requires
        c.step_fits(d),
    ensures
        c.stepped(d).step_fits(d.rotated(4)),
        c.stepped(d).stepped(d.rotated(4)) == c,
{
}

/// A tile coordinate is its chunk's corner plus its coordinate relative to the chunk; for
/// coordinates from 0 up to 2^24 the chunk is the one that holds the coordinate, and the relative
/// coordinate lies inside it.
pub proof fn law_relative_coordinate(c: int)
    ensures
        chunk_coordinate(c) * (CHUNK_SIZE as int) + relative_coordinate(c) == c,
        0 <= c < 0x100_0000 ==> 0 <= relative_coordinate(c) < CHUNK_SIZE as int,
        0 <= c < 0x100_0000 ==> chunk_exact(c),
{
    if 0 <= c < 0x100_0000 {
        crate::utils::math::law_single_exact_below_24_bits(c);
    }
}

} // verus!
