use vstd::prelude::*;

use crate::chunk::chunk_tile_position::{
    chunk_coordinate, chunk_exact, relative_coordinate, CardinalDirection, ChunkPosition, TilePosition,
    TilePosition2D,
};
use crate::utils::vector::UVec2;
use crate::world::road::all_directions;
use crate::world::tile_set::holds_tile;
use crate::world::WorldSize;
use crate::world_gen::consts::CHUNK_SIZE;

verus! {

/// The heights of the four corners of a tile, clockwise: `[0]` and `[1]` on the tile's low-`z`
/// side, `[2]` and `[3]` on its high-`z` side. `H` is the type of one height.
#[derive(Clone, Copy, Debug, PartialEq, Default)]
pub struct HeightmapVertex<H>([H; 4]);

/// The corner heights of every tile of one chunk, stored row by row (`x` outer, `z` inner).
#[derive(Clone, Debug, PartialEq)]
pub struct Heightmap<H> {
    heightmap: Vec<HeightmapVertex<H>>,
}

/// The heightmaps of all chunks of the world, and which chunks changed since they were last
/// collected; both stored row by row over the chunk grid (`x` outer, `y` inner).
#[derive(Clone, Debug)]
pub struct HeightmapsResource<H> {
    heightmaps: Vec<Heightmap<H>>,
    dirty_chunks: array2d::Array2D<bool>,
    size: WorldSize,
}

/// A two-dimensional array of the `array2d` crate.
#[verifier::external_type_specification]
#[verifier::external_body]
#[verifier::reject_recursive_types(T)]
pub struct ExArray2D<T>(array2d::Array2D<T>);

/// `Clone::clone` of `Array2D`, derived by the crate: nothing is stated of the copy.
pub assume_specification<T: Clone>[<array2d::Array2D<T> as core::clone::Clone>::clone](a: &array2d::Array2D<T>) -> (r: array2d::Array2D<T>);

/// The flags of a two-dimensional array of flags, row by row.
pub uninterp spec fn grid_flags(grid: array2d::Array2D<bool>) -> Seq<bool>;

/// The number of columns a two-dimensional array of flags was made with.
pub uninterp spec fn grid_columns(grid: array2d::Array2D<bool>) -> nat;

/// `Array2D::filled_with(false, rows, columns)`: an array of `rows` rows of `columns` flags, all
/// unset. The crate computes `rows * columns`, which must fit.
#[verifier::external_body]
fn cleared_grid(rows: usize, columns: usize) -> (r: array2d::Array2D<bool>)
    requires
        rows * columns <= usize::MAX,
    ensures
        grid_flags(r) == Seq::new((rows * columns) as nat, |i: int| false),
        grid_columns(r) == columns,
{
    array2d::Array2D::filled_with(false, rows, columns)
}

/// Reading `grid[(row, column)]`: the flag at position `row * columns + column` row by row. The
/// crate panics outside the array; an array always holds `rows * columns` flags, so the bound on
/// that position stands for the bound on `row`.
#[verifier::external_body]
fn grid_flag(grid: &array2d::Array2D<bool>, row: usize, column: usize) -> (r: bool)
    requires
        column < grid_columns(*grid),
        row * grid_columns(*grid) + column < grid_flags(*grid).len(),
    ensures
        r == grid_flags(*grid)[row * grid_columns(*grid) + column],
{
    grid[(row, column)]
}

/// Writing `grid[(row, column)] = flag`: replaces the flag at position `row * columns + column`
/// row by row and keeps the others and the shape. The crate panics outside the array.
#[verifier::external_body]
fn set_grid_flag(grid: &mut array2d::Array2D<bool>, row: usize, column: usize, flag: bool)
    requires
        column < grid_columns(*old(grid)),
        row * grid_columns(*old(grid)) + column < grid_flags(*old(grid)).len(),
    ensures
        grid_flags(*final(grid)) == grid_flags(*old(grid)).update(row * grid_columns(*old(grid)) + column, flag),
        grid_columns(*final(grid)) == grid_columns(*old(grid)),
{
    grid[(row, column)] = flag;
}

/// Number of tiles of a chunk.
pub open spec fn chunk_tile_count() -> int {
    CHUNK_SIZE * CHUNK_SIZE
}

/// The ground coordinates of a tile.
pub open spec fn xz(t: TilePosition) -> (int, int) {
    (t.position.x as int, t.position.z as int)
}

impl<H: Copy> HeightmapVertex<H> {
    /// The four corner heights.
    pub closed spec fn view(&self) -> Seq<H> {
        self.0@
    }

    /// A tile with the given corner heights.
    pub fn new(heights: [H; 4]) -> (r: HeightmapVertex<H>)
        ensures
            r@ == heights@,
    {
        HeightmapVertex(heights)
    }

    /// A tile from a list of corner heights, which must hold exactly four.
    pub fn try_from(value: Vec<H>) -> (r: Result<HeightmapVertex<H>, &'static str>)
        ensures
            r is Ok <==> value@.len() == 4,
            r is Ok ==> r->Ok_0@ == value@,
            r is Err ==> r->Err_0@ == "Heightmap Vertex must be of length 4"@,
    {
        if value.len() != 4 {
            return Err("Heightmap Vertex must be of length 4");
        }
        let r = HeightmapVertex([value[0], value[1], value[2], value[3]]);
        assert(r@ =~= value@);
        Ok(r)
    }

    /// Levels the tile along a direction: along north–south the corners `[2]` and `[3]` take the
    /// heights of `[1]` and `[0]`, along east–west `[0]` and `[3]` take those of `[1]` and `[2]`.
    /// Along a diagonal two corners take `diagonal_height`, which the caller computes as the mean
    /// of the two corners that stay: for north-east and south-west `[1]` and `[3]` take the mean
    /// of `[0]` and `[2]`; for south-east and north-west `[0]` and `[2]` take the mean of `[1]` and
    /// `[3]`.
    pub fn flatten_with_direction(&mut self, direction: CardinalDirection, diagonal_height: H)
        ensures
            final(self)@ == match direction {
                CardinalDirection::North | CardinalDirection::South => old(self)@.update(2, old(self)@[1]).update(
                    3,
                    old(self)@[0],
                ),
                CardinalDirection::NorthEast | CardinalDirection::SouthWest => old(self)@.update(
                    1,
                    diagonal_height,
                ).update(3, diagonal_height),
                CardinalDirection::East | CardinalDirection::West => old(self)@.update(0, old(self)@[1]).update(
                    3,
                    old(self)@[2],
                ),
                CardinalDirection::SouthEast | CardinalDirection::NorthWest => old(self)@.update(
                    0,
                    diagonal_height,
                ).update(2, diagonal_height),
            },
    {
        match direction {
            CardinalDirection::North | CardinalDirection::South => {
                self.0[2] = self.0[1];
                self.0[3] = self.0[0];
            },
            CardinalDirection::NorthEast | CardinalDirection::SouthWest => {
                self.0[1] = diagonal_height;
                self.0[3] = diagonal_height;
            },
            CardinalDirection::East | CardinalDirection::West => {
                self.0[0] = self.0[1];
                self.0[3] = self.0[2];
            },
            CardinalDirection::SouthEast | CardinalDirection::NorthWest => {
                self.0[0] = diagonal_height;
                self.0[2] = diagonal_height;
            },
        }
    }

    /// The four corner heights.
    pub fn inner(&self) -> (r: [H; 4])
        ensures
            r@ == self@,
    {
        self.0
    }

    /// The height of one corner.
    pub fn corner(&self, i: usize) -> (r: H)
        requires
            i < 4,
        ensures
            r == self@[i as int],
    {
        self.0[i]
    }

    /// Replaces the height of one corner.
    pub fn set_corner(&mut self, i: usize, height: H)
        requires
            i < 4,
        ensures
            final(self)@ == old(self)@.update(i as int, height),
    {
        self.0[i] = height;
    }
}

/// Every tile is described by exactly four corner heights.
pub proof fn lemma_vertex_len<H: Copy>(v: HeightmapVertex<H>)
    ensures
        v@.len() == 4,
{
}

/// The position of the tile at chunk-relative coordinates in a chunk's storage.
fn tile_slot(index: TilePosition2D) -> (r: usize)
    requires
        0 <= index.x < CHUNK_SIZE,
        0 <= index.y < CHUNK_SIZE,
    ensures
        r == index.x * CHUNK_SIZE + index.y,
        r < chunk_tile_count(),
{
    proof {
        lemma_grid_index_bounds(index.x as int, index.y as int, CHUNK_SIZE as int, CHUNK_SIZE as int);
    }
    let x = index.x as u32;
    let y = index.y as u32;
    (x * CHUNK_SIZE + y) as usize
}

impl<H: Copy> Heightmap<H> {
    /// The tiles of the chunk, row by row.
    pub closed spec fn view(&self) -> Seq<HeightmapVertex<H>> {
        self.heightmap@
    }

    /// Whether the chunk holds one entry per tile.
    pub open spec fn wf(&self) -> bool {
        self@.len() == chunk_tile_count()
    }

    /// The tile at chunk-relative coordinates `(x, z)`.
    pub open spec fn tile(&self, x: int, z: int) -> HeightmapVertex<H> {
        self@[x * CHUNK_SIZE + z]
    }

    /// A chunk whose every tile has the given corner heights.
    pub fn new(fill: HeightmapVertex<H>) -> (r: Heightmap<H>)
        ensures
            r.wf(),
            forall|i: int| 0 <= i < chunk_tile_count() ==> #[trigger] r@[i] == fill,
    {
        let mut heightmap: Vec<HeightmapVertex<H>> = Vec::new();
        let count: usize = (CHUNK_SIZE * CHUNK_SIZE) as usize;
        let mut i: usize = 0;
        while i < count
            invariant
                i <= count,
                count == chunk_tile_count(),
                heightmap@.len() == i,
                forall|j: int| 0 <= j < i ==> #[trigger] heightmap@[j] == fill,
            decreases count - i,
        {
            heightmap.push(fill);
            i = i + 1;
        }
        Heightmap { heightmap }
    }

    /// The tile at chunk-relative ground coordinates.
    pub fn get(&self, index: TilePosition2D) -> (r: HeightmapVertex<H>)
        requires
            self.wf(),
            0 <= index.x < CHUNK_SIZE,
            0 <= index.y < CHUNK_SIZE,
        ensures
            r == self.tile(index.x as int, index.y as int),
    {
        let i = tile_slot(index);
        self.heightmap[i]
    }

    /// Replaces the tile at chunk-relative ground coordinates.
    pub fn set(&mut self, index: TilePosition2D, vertex: HeightmapVertex<H>)
        requires
            old(self).wf(),
            0 <= index.x < CHUNK_SIZE,
            0 <= index.y < CHUNK_SIZE,
        ensures
            final(self).wf(),
            final(self)@ == old(self)@.update(index.x * CHUNK_SIZE + index.y, vertex),
    {
        let i = tile_slot(index);
        self.heightmap.set(i, vertex);
    }
}

/// Two positions in a row-major grid of the given width are equal exactly when their rows and
/// columns are.
pub proof fn lemma_grid_index_injective(a: int, b: int, c: int, d: int, width: int)
    requires
        width > 0,
        0 <= b < width,
        0 <= d < width,
        a * width + b == c * width + d,
    ensures
        a == c,
        b == d,
{
    vstd::arithmetic::div_mod::lemma_fundamental_div_mod_converse(a * width + b, width, a, b);
    vstd::arithmetic::div_mod::lemma_fundamental_div_mod_converse(c * width + d, width, c, d);
}

/// A position of a row-major grid lies inside the grid.
pub proof fn lemma_grid_index_bounds(a: int, b: int, rows: int, width: int)
    requires
        0 <= a < rows,
        0 <= b < width,
    ensures
        0 <= a * width + b < rows * width,
{
    assert(0 <= a * width + b < rows * width) by (nonlinear_arith)
        requires
            0 <= a < rows,
            0 <= b < width,
    ;
}

/// Where a tile of the world is stored: its chunk lies in the world, and its chunk-relative
/// coordinates are the remainders of its coordinates.
pub proof fn lemma_world_tile_location(size: WorldSize, position: TilePosition)
    requires
        0 <= position.position.x < size@[0] * CHUNK_SIZE,
        0 <= position.position.z < size@[1] * CHUNK_SIZE,
        chunk_exact(position.position.x as int),
        chunk_exact(position.position.z as int),
    ensures
        0 <= chunk_coordinate(position.position.x as int) < size@[0],
        0 <= chunk_coordinate(position.position.z as int) < size@[1],
        chunk_coordinate(position.position.x as int) == (position.position.x as int) / (CHUNK_SIZE as int),
        chunk_coordinate(position.position.z as int) == (position.position.z as int) / (CHUNK_SIZE as int),
        relative_coordinate(position.position.x as int) == (position.position.x as int) % (CHUNK_SIZE as int),
        relative_coordinate(position.position.z as int) == (position.position.z as int) % (CHUNK_SIZE as int),
{
    let x = position.position.x as int;
    let z = position.position.z as int;
    vstd::arithmetic::div_mod::lemma_fundamental_div_mod(x, CHUNK_SIZE as int);
    vstd::arithmetic::div_mod::lemma_fundamental_div_mod(z, CHUNK_SIZE as int);
    assert(x / (CHUNK_SIZE as int) < size@[0]) by (nonlinear_arith)
        requires
            0 <= x < size@[0] * CHUNK_SIZE,
            x == (CHUNK_SIZE as int) * (x / (CHUNK_SIZE as int)) + x % (CHUNK_SIZE as int),
            0 <= x % (CHUNK_SIZE as int),
    ;
    assert(z / (CHUNK_SIZE as int) < size@[1]) by (nonlinear_arith)
        requires
            0 <= z < size@[1] * CHUNK_SIZE,
            z == (CHUNK_SIZE as int) * (z / (CHUNK_SIZE as int)) + z % (CHUNK_SIZE as int),
            0 <= z % (CHUNK_SIZE as int),
    ;
}

/// Two tiles of the world stored in the same chunk at the same place are the same tile.
pub proof fn lemma_world_cell_injective(size: WorldSize, p: (int, int), q: (int, int))
    requires
        0 <= p.0 < size@[0] * CHUNK_SIZE,
        0 <= p.1 < size@[1] * CHUNK_SIZE,
        0 <= q.0 < size@[0] * CHUNK_SIZE,
        0 <= q.1 < size@[1] * CHUNK_SIZE,
    ensures
        ((p.0 / (CHUNK_SIZE as int)) * size@[1] + p.1 / (CHUNK_SIZE as int) == (q.0 / (CHUNK_SIZE as int)) * size@[1] + q.1 / (CHUNK_SIZE as int)
            && (p.0 % (CHUNK_SIZE as int)) * CHUNK_SIZE + p.1 % (CHUNK_SIZE as int) == (q.0 % (CHUNK_SIZE as int)) * CHUNK_SIZE + q.1 % (CHUNK_SIZE as int))
            ==> p == q,
        0 <= (p.0 / (CHUNK_SIZE as int)) * size@[1] + p.1 / (CHUNK_SIZE as int) < size@[0] * size@[1],
        0 <= (p.0 % (CHUNK_SIZE as int)) * CHUNK_SIZE + p.1 % (CHUNK_SIZE as int) < chunk_tile_count(),
{
    let c = CHUNK_SIZE as int;
    vstd::arithmetic::div_mod::lemma_fundamental_div_mod(p.0, c);
    vstd::arithmetic::div_mod::lemma_fundamental_div_mod(p.1, c);
    vstd::arithmetic::div_mod::lemma_fundamental_div_mod(q.0, c);
    vstd::arithmetic::div_mod::lemma_fundamental_div_mod(q.1, c);
    assert(p.0 / c < size@[0] && p.1 / c < size@[1]) by (nonlinear_arith)
        requires
            0 <= p.0 < size@[0] * c,
            0 <= p.1 < size@[1] * c,
            p.0 == c * (p.0 / c) + p.0 % c,
            p.1 == c * (p.1 / c) + p.1 % c,
            0 <= p.0 % c,
            0 <= p.1 % c,
            c > 0,
    ;
    assert(p.0 / c >= 0 && p.1 / c >= 0) by (nonlinear_arith)
        requires
            0 <= p.0,
            0 <= p.1,
            p.0 == c * (p.0 / c) + p.0 % c,
            p.1 == c * (p.1 / c) + p.1 % c,
            p.0 % c < c,
            p.1 % c < c,
            c > 0,
    ;
    assert(q.0 / c >= 0 && q.1 / c >= 0) by (nonlinear_arith)
        requires
            0 <= q.0,
            0 <= q.1,
            q.0 == c * (q.0 / c) + q.0 % c,
            q.1 == c * (q.1 / c) + q.1 % c,
            q.0 % c < c,
            q.1 % c < c,
            c > 0,
    ;
    assert(q.0 / c < size@[0] && q.1 / c < size@[1]) by (nonlinear_arith)
        requires
            0 <= q.0 < size@[0] * c,
            0 <= q.1 < size@[1] * c,
            q.0 == c * (q.0 / c) + q.0 % c,
            q.1 == c * (q.1 / c) + q.1 % c,
            0 <= q.0 % c,
            0 <= q.1 % c,
            c > 0,
    ;
    lemma_grid_index_bounds(p.0 / c, p.1 / c, size@[0] as int, size@[1] as int);
    lemma_grid_index_bounds(p.0 % c, p.1 % c, c, c);
    if (p.0 / c) * size@[1] + p.1 / c == (q.0 / c) * size@[1] + q.1 / c
        && (p.0 % c) * c + p.1 % c == (q.0 % c) * c + q.1 % c {
        lemma_grid_index_injective(p.0 / c, p.1 / c, q.0 / c, q.1 / c, size@[1] as int);
        lemma_grid_index_injective(p.0 % c, p.1 % c, q.0 % c, q.1 % c, c);
    }
}

impl<H: Copy> HeightmapsResource<H> {
    /// Number of chunks along each axis.
    pub closed spec fn spec_size(&self) -> WorldSize {
        self.size
    }

    /// The chunk heightmaps, row by row.
    pub closed spec fn chunks(&self) -> Seq<Heightmap<H>> {
        self.heightmaps@
    }

    /// The changed-chunk flags, row by row.
    pub closed spec fn dirty_flags(&self) -> Seq<bool> {
        grid_flags(self.dirty_chunks)
    }

    /// Number of changed-chunk flags in each row.
    pub closed spec fn dirty_columns(&self) -> nat {
        grid_columns(self.dirty_chunks)
    }

    /// Number of chunks.
    pub open spec fn chunk_count(&self) -> int {
        self.spec_size()@[0] * self.spec_size()@[1]
    }

    /// Whether there is one heightmap and one flag per chunk, and every heightmap covers its chunk.
    pub open spec fn wf(&self) -> bool {
        &&& self.chunks().len() == self.chunk_count()
        &&& self.dirty_flags().len() == self.chunk_count()
        &&& self.dirty_columns() == self.spec_size()@[1]
        &&& forall|c: int| 0 <= c < self.chunk_count() ==> (#[trigger] self.chunks()[c]).wf()
    }

    /// The position of chunk `(cx, cy)` in the chunk grid.
    pub open spec fn chunk_index(&self, cx: int, cy: int) -> int {
        cx * self.spec_size()@[1] + cy
    }

    /// Whether a chunk lies in the world.
    pub open spec fn has_chunk(&self, c: (int, int)) -> bool {
        0 <= c.0 < self.spec_size()@[0] && 0 <= c.1 < self.spec_size()@[1]
    }

    /// Whether tile ground coordinates lie in the world and are counted in the chunk that holds
    /// them (see [`chunk_exact`]).
    pub open spec fn in_world(&self, p: (int, int)) -> bool {
        &&& 0 <= p.0 < self.spec_size()@[0] * CHUNK_SIZE
        &&& 0 <= p.1 < self.spec_size()@[1] * CHUNK_SIZE
        &&& chunk_exact(p.0)
        &&& chunk_exact(p.1)
    }

    /// The corner heights of the tile at ground coordinates `p`.
    pub open spec fn tile_at(&self, p: (int, int)) -> Seq<H> {
        self.chunks()[self.chunk_index(p.0 / (CHUNK_SIZE as int), p.1 / (CHUNK_SIZE as int))].tile(
            p.0 % (CHUNK_SIZE as int),
            p.1 % (CHUNK_SIZE as int),
        )@
    }

    /// The corner heights of every tile of the world, by ground coordinates.
    pub open spec fn heights(&self) -> Map<(int, int), Seq<H>> {
        Map::new(|p: (int, int)| self.in_world(p), |p: (int, int)| self.tile_at(p))
    }

    /// The chunks marked as changed.
    pub open spec fn dirty(&self) -> Set<(int, int)> {
        Set::new(|c: (int, int)| self.has_chunk(c) && self.dirty_flags()[self.chunk_index(c.0, c.1)])
    }

    /// A world of `world_size` chunks with the given chunk heightmaps (row by row over the chunk
    /// grid) and no chunk marked as changed.
    pub fn new(world_size: WorldSize, heightmaps: Vec<Heightmap<H>>) -> (r: HeightmapsResource<H>)
        requires
            heightmaps@.len() == world_size@[0] * world_size@[1],
            forall|c: int| 0 <= c < heightmaps@.len() ==> (#[trigger] heightmaps@[c]).wf(),
        ensures
            r.wf(),
            r.spec_size() == world_size,
            r.chunks() == heightmaps@,
            r.dirty() == Set::<(int, int)>::empty(),
    {
        let count = heightmaps.len();
        assert(count == world_size@[0] * world_size@[1]);
        let dirty_chunks = cleared_grid(world_size[0] as usize, world_size[1] as usize);
        let r = HeightmapsResource { heightmaps, dirty_chunks, size: world_size };
        assert(r.dirty() =~= Set::<(int, int)>::empty()) by {
            assert forall|c: (int, int)| !r.dirty().contains(c) by {
                if r.has_chunk(c) {
                    lemma_grid_index_bounds(c.0, c.1, world_size@[0] as int, world_size@[1] as int);
                }
            }
        }
        r
    }

    /// A world without chunks.
    pub fn empty() -> (r: HeightmapsResource<H>)
        ensures
            r.wf(),
            r.spec_size()@ == seq![0u32, 0u32],
    {
        let r = HeightmapsResource { heightmaps: Vec::new(), dirty_chunks: cleared_grid(0, 0), size: [0, 0] };
        assert(r.spec_size()@ =~= seq![0u32, 0u32]);
        r
    }

    /// The position of a chunk's heightmap and flag in storage.
    fn chunk_slot(&self, position: ChunkPosition) -> (r: usize)
        requires
            self.wf(),
            self.has_chunk((position.position.x as int, position.position.y as int)),
        ensures
            r == self.chunk_index(position.position.x as int, position.position.y as int),
            r < self.chunk_count(),
    {
        proof {
            lemma_grid_index_bounds(
                position.position.x as int,
                position.position.y as int,
                self.size@[0] as int,
                self.size@[1] as int,
            );
        }
        let n = self.heightmaps.len();
        let x = position.position.x as u64;
        let y = position.position.y as u64;
        let w = self.size[1] as u64;
        assert(x * w + y < n);
        ((x * w + y) as usize)
    }

    /// Number of chunks along each axis.
    pub fn size(&self) -> (r: WorldSize)
        ensures
            r == self.spec_size(),
    {
        self.size
    }

    /// The heightmap of a chunk.
    pub fn chunk(&self, position: ChunkPosition) -> (r: &Heightmap<H>)
        requires
            self.wf(),
            self.has_chunk((position.position.x as int, position.position.y as int)),
        ensures
            *r == self.chunks()[self.chunk_index(position.position.x as int, position.position.y as int)],
    {
        let i = self.chunk_slot(position);
        &self.heightmaps[i]
    }

    /// The corner heights of a tile of the world.
    pub fn get(&self, position: TilePosition) -> (r: HeightmapVertex<H>)
        requires
            self.wf(),
            self.in_world(xz(position)),
        ensures
            r@ == self.tile_at(xz(position)),
            r@ == self.heights()[xz(position)],
    {
        let chunk = position.chunk_position();
        let relative = position.to_relative_tile_position().position_2d();
        let slot = self.chunk_slot(chunk);
        proof {
            lemma_world_tile_location(self.spec_size(), position);
        }
        self.heightmaps[slot].get(relative)
    }

    /// Replaces the corner heights of a tile of the world.
    pub fn set(&mut self, position: TilePosition, vertex: HeightmapVertex<H>)
        requires
            old(self).wf(),
            old(self).in_world(xz(position)),
        ensures
            final(self).wf(),
            final(self).spec_size() == old(self).spec_size(),
            final(self).dirty() == old(self).dirty(),
            final(self).heights() == old(self).heights().insert(xz(position), vertex@),
    {
        let chunk = position.chunk_position();
        let relative = position.to_relative_tile_position().position_2d();
        let slot = self.chunk_slot(chunk);
        proof {
            lemma_world_tile_location(self.spec_size(), position);
        }
        let ghost before = *self;
        self.heightmaps[slot].set(relative, vertex);
        proof {
            assert(self.dirty() =~= before.dirty());
            let c = CHUNK_SIZE as int;
            let pp = xz(position);
            let rel_index = (pp.0 % c) * c + pp.1 % c;
            assert(slot == before.chunk_index(pp.0 / c, pp.1 / c));
            assert(relative.x * CHUNK_SIZE + relative.y == rel_index);
            assert(self.chunks() == before.chunks().update(slot as int, self.chunks()[slot as int]));
            assert(self.chunks()[slot as int]@ == before.chunks()[slot as int]@.update(rel_index, vertex));
            assert forall|q: (int, int)| #![trigger self.heights()[q]] self.in_world(q) implies self.heights()[q] == before.heights().insert(xz(position), vertex@)[q] by {
                lemma_world_cell_injective(self.spec_size(), pp, q);
                lemma_world_cell_injective(self.spec_size(), q, q);
                let cq = before.chunk_index(q.0 / c, q.1 / c);
                let rq = (q.0 % c) * c + q.1 % c;
                assert(self.tile_at(q) == self.chunks()[cq]@[rq]@);
                assert(before.tile_at(q) == before.chunks()[cq]@[rq]@);
                if q == pp {
                } else if cq == slot {
                    assert(rq != rel_index);
                } else {
                }
            }
            assert(self.heights() =~= before.heights().insert(xz(position), vertex@));
        }
    }

    /// Marks a chunk as changed.
    pub fn mark_dirty(&mut self, chunk: ChunkPosition)
        requires
            old(self).wf(),
            old(self).has_chunk((chunk.position.x as int, chunk.position.y as int)),
        ensures
            final(self).wf(),
            final(self).spec_size() == old(self).spec_size(),
            final(self).chunks() == old(self).chunks(),
            final(self).heights() == old(self).heights(),
            final(self).dirty() == old(self).dirty().insert((chunk.position.x as int, chunk.position.y as int)),
    {
        let slot = self.chunk_slot(chunk);
        let ghost before = *self;
        set_grid_flag(&mut self.dirty_chunks, chunk.position.x as usize, chunk.position.y as usize, true);
        proof {
            assert(self.heights() =~= before.heights());
            assert forall|c: (int, int)| #![trigger self.dirty().contains(c)] self.dirty().contains(c) == before.dirty().insert((chunk.position.x as int, chunk.position.y as int)).contains(c) by {
                if self.has_chunk(c) {
                    lemma_grid_index_bounds(c.0, c.1, self.size@[0] as int, self.size@[1] as int);
                    if self.chunk_index(c.0, c.1) == slot {
                        lemma_grid_index_injective(c.0, c.1, chunk.position.x as int, chunk.position.y as int, self.size@[1] as int);
                    }
                }
            }
            assert(self.dirty() =~= before.dirty().insert((chunk.position.x as int, chunk.position.y as int)));
        }
    }
}


/// The chunk that holds a tile, as a pair of chunk coordinates.
pub open spec fn tile_chunk(t: TilePosition) -> (int, int) {
    (chunk_coordinate(t.position.x as int), chunk_coordinate(t.position.z as int))
}

/// The corner heights `v` of a tile after its corners shared with an edited neighbour are made
/// equal to that neighbour's: `direction` leads from the edited tile, whose heights are `h`, to
/// this one.
pub open spec fn conformed<H>(v: Seq<H>, direction: CardinalDirection, h: Seq<H>) -> Seq<H> {
    match direction {
        CardinalDirection::North => v.update(0, h[1]).update(3, h[2]),
        CardinalDirection::NorthEast => v.update(0, h[2]),
        CardinalDirection::East => v.update(0, h[3]).update(1, h[2]),
        CardinalDirection::SouthEast => v.update(1, h[3]),
        CardinalDirection::South => v.update(1, h[0]).update(2, h[3]),
        CardinalDirection::SouthWest => v.update(2, h[0]),
        CardinalDirection::West => v.update(2, h[1]).update(3, h[0]),
        CardinalDirection::NorthWest => v.update(3, h[1]),
    }
}

/// The tile heights and changed chunks after the first `k` neighbours of tile `p` (in compass
/// order from north) that are not themselves among the edited `positions` are made to fit `p`'s
/// new heights `h`; each such neighbour's chunk is marked as changed.
pub open spec fn conform_neighbours<H>(
    state: (Map<(int, int), Seq<H>>, Set<(int, int)>),
    positions: Seq<TilePosition>,
    p: TilePosition,
    h: Seq<H>,
    k: nat,
) -> (Map<(int, int), Seq<H>>, Set<(int, int)>)
    decreases k,
{
    if k == 0 {
        state
    } else {
        let before = conform_neighbours(state, positions, p, h, (k - 1) as nat);
        let d = CardinalDirection::from_index(k - 1);
        let n = p.stepped(d);
        if positions.contains(n) {
            before
        } else {
            (before.0.insert(xz(n), conformed(before.0[xz(n)], d, h)), before.1.insert(tile_chunk(n)))
        }
    }
}

/// The tile heights and changed chunks after the first `k` edits: edit `i` gives tile
/// `positions[i]` the heights `values[i]`, marks its chunk as changed, and makes its neighbours fit.
pub open spec fn edited<H>(
    state: (Map<(int, int), Seq<H>>, Set<(int, int)>),
    positions: Seq<TilePosition>,
    values: Seq<Seq<H>>,
    k: nat,
) -> (Map<(int, int), Seq<H>>, Set<(int, int)>)
    decreases k,
{
    if k == 0 {
        state
    } else {
        let before = edited(state, positions, values, (k - 1) as nat);
        let p = positions[k - 1];
        let h = values[k - 1];
        conform_neighbours(
            (before.0.insert(xz(p), h), before.1.insert(tile_chunk(p))),
            positions,
            p,
            h,
            8,
        )
    }
}

/// The corner heights of each vertex.
pub open spec fn vertex_heights<H: Copy>(vertices: Seq<HeightmapVertex<H>>) -> Seq<Seq<H>> {
    vertices.map_values(|v: HeightmapVertex<H>| v@)
}

/// The chunk coordinates of a chunk position.
pub open spec fn chunk_xy(c: ChunkPosition) -> (int, int) {
    (c.position.x as int, c.position.y as int)
}

impl<H: Copy> HeightmapsResource<H> {
    /// Whether the first `n` edits of `positions` can be made: each edited tile lies in the
    /// world with coordinates away from the `i32` limits, and each of its neighbours lies in the
    /// world unless it is itself among `positions`.
    pub open spec fn edits_fit(&self, positions: Seq<TilePosition>, n: int) -> bool {
        forall|i: int| 0 <= i < n ==> {
            &&& (#[trigger] positions[i]).neighbours_fit()
            &&& self.in_world(xz(positions[i]))
            &&& forall|d: CardinalDirection| #![trigger positions[i].stepped(d)]
                positions.contains(positions[i].stepped(d)) || self.in_world(xz(positions[i].stepped(d)))
        }
    }

    /// Makes the neighbours of an edited tile fit its new corner heights.
    fn conform_neighbours(&mut self, positions: &[TilePosition], position: TilePosition, vertex: HeightmapVertex<H>)
        requires
            old(self).wf(),
            position.neighbours_fit(),
            forall|d: CardinalDirection| #![trigger position.stepped(d)]
                positions@.contains(position.stepped(d)) || old(self).in_world(xz(position.stepped(d))),
        ensures
            final(self).wf(),
            final(self).spec_size() == old(self).spec_size(),
            (final(self).heights(), final(self).dirty()) == conform_neighbours(
                (old(self).heights(), old(self).dirty()),
                positions@,
                position,
                vertex@,
                8,
            ),
    {
        let neighbours = position.tile_neighbours();
        let directions = all_directions();
        let mut k: usize = 0;
        while k < 8
            invariant
                k <= 8,
                self.wf(),
                self.spec_size() == old(self).spec_size(),
                forall|d: CardinalDirection| #[trigger] neighbours.value(d) == position.stepped(d),
                forall|j: int| 0 <= j < 8 ==> #[trigger] directions@[j] == CardinalDirection::from_index(j),
                forall|d: CardinalDirection| #![trigger position.stepped(d)]
                    positions@.contains(position.stepped(d)) || old(self).in_world(xz(position.stepped(d))),
                (self.heights(), self.dirty()) == conform_neighbours(
                    (old(self).heights(), old(self).dirty()),
                    positions@,
                    position,
                    vertex@,
                    k as nat,
                ),
            decreases 8 - k,
        {
            let direction = directions[k];
            let neighbour = *neighbours.get(direction);
            assert(neighbour == position.stepped(direction));
            if !holds_tile(positions, neighbour) {
                proof {
                    lemma_world_tile_location(self.spec_size(), neighbour);
                    lemma_vertex_len(vertex);
                }
                self.mark_dirty(neighbour.chunk_position());
                let mut heights = self.get(neighbour);
                proof {
                    lemma_vertex_len(heights);
                }
                match direction {
                    CardinalDirection::North => {
                        heights.set_corner(0, vertex.corner(1));
                        heights.set_corner(3, vertex.corner(2));
                    },
                    CardinalDirection::NorthEast => {
                        heights.set_corner(0, vertex.corner(2));
                    },
                    CardinalDirection::East => {
                        heights.set_corner(0, vertex.corner(3));
                        heights.set_corner(1, vertex.corner(2));
                    },
                    CardinalDirection::SouthEast => {
                        heights.set_corner(1, vertex.corner(3));
                    },
                    CardinalDirection::South => {
                        heights.set_corner(1, vertex.corner(0));
                        heights.set_corner(2, vertex.corner(3));
                    },
                    CardinalDirection::SouthWest => {
                        heights.set_corner(2, vertex.corner(0));
                    },
                    CardinalDirection::West => {
                        heights.set_corner(2, vertex.corner(1));
                        heights.set_corner(3, vertex.corner(0));
                    },
                    CardinalDirection::NorthWest => {
                        heights.set_corner(3, vertex.corner(1));
                    },
                }
                self.set(neighbour, heights);
            }
            k = k + 1;
        }
    }

    /// Gives one tile new corner heights and makes its neighbours fit them (see
    /// [`HeightmapsResource::edit_tiles`]).
    pub fn edit_tile(&mut self, position: TilePosition, heights: HeightmapVertex<H>)
        requires
            old(self).wf(),
            old(self).edits_fit(seq![position], 1),
        ensures
            final(self).wf(),
            final(self).spec_size() == old(self).spec_size(),
            final(self).chunks().len() == old(self).chunks().len(),
            (final(self).heights(), final(self).dirty()) == edited(
                (old(self).heights(), old(self).dirty()),
                seq![position],
                seq![heights@],
                1,
            ),
    {
        let positions = [position];
        let values = [heights];
        proof {
            assert(positions@ =~= seq![position]);
            assert(vertex_heights(values@) =~= seq![heights@]);
        }
        self.edit_tiles(&positions, &values);
    }

    /// Gives each tile of `positions` the corner heights at the same place of `heights`, as far as
    /// both reach, one after the other. Each edited tile's chunk is marked as changed; each
    /// neighbour of an edited tile that is not itself among `positions` gets the corners it
    /// shares with the edited tile set to the edited tile's, and its chunk is marked as changed.
    pub fn edit_tiles(&mut self, positions: &[TilePosition], heights: &[HeightmapVertex<H>])
        requires
            old(self).wf(),
            old(self).edits_fit(
                positions@,
                if positions@.len() < heights@.len() { positions@.len() as int } else { heights@.len() as int },
            ),
        ensures
            final(self).wf(),
            final(self).spec_size() == old(self).spec_size(),
            final(self).chunks().len() == old(self).chunks().len(),
            (final(self).heights(), final(self).dirty()) == edited(
                (old(self).heights(), old(self).dirty()),
                positions@,
                vertex_heights(heights@),
                if positions@.len() < heights@.len() { positions@.len() as nat } else { heights@.len() as nat },
            ),
    {
        let n = if positions.len() < heights.len() { positions.len() } else { heights.len() };
        let ghost values = vertex_heights(heights@);
        let mut i: usize = 0;
        while i < n
            invariant
                i <= n,
                n <= positions@.len(),
                n <= heights@.len(),
                values == vertex_heights(heights@),
                self.wf(),
                self.spec_size() == old(self).spec_size(),
                old(self).edits_fit(positions@, n as int),
                (self.heights(), self.dirty()) == edited(
                    (old(self).heights(), old(self).dirty()),
                    positions@,
                    values,
                    i as nat,
                ),
            decreases n - i,
        {
            let position = positions[i];
            let vertex = heights[i];
            assert(position == positions@[i as int]);
            proof {
                lemma_world_tile_location(self.spec_size(), position);
            }
            self.mark_dirty(position.chunk_position());
            self.set(position, vertex);
            assert(values[i as int] == vertex@);
            self.conform_neighbours(positions, position, vertex);
            i = i + 1;
        }
    }
}


/// Whether chunk `a` comes before chunk `b` row by row (`x` first, then `y`).
pub open spec fn chunk_before(a: ChunkPosition, b: ChunkPosition) -> bool {
    a.position.x < b.position.x || (a.position.x == b.position.x && a.position.y < b.position.y)
}

impl<H: Copy> HeightmapsResource<H> {
    /// The chunks marked as changed, row by row, after which no chunk is marked any more.
    pub fn get_dirty_chunks(&mut self) -> (r: Vec<ChunkPosition>)
        requires
            old(self).wf(),
        ensures
            final(self).wf(),
            final(self).spec_size() == old(self).spec_size(),
            final(self).chunks() == old(self).chunks(),
            final(self).dirty() == Set::<(int, int)>::empty(),
            forall|i: int| 0 <= i < r@.len() ==> old(self).dirty().contains(#[trigger] chunk_xy(r@[i])),
            forall|c: (int, int)| #[trigger] old(self).dirty().contains(c) ==> exists|i: int|
                0 <= i < r@.len() && chunk_xy(r@[i]) == c,
            forall|i: int, j: int| 0 <= i < j < r@.len() ==> chunk_before(r@[i], r@[j]),
    {
        let ghost dirty = self.dirty();
        let mut result: Vec<ChunkPosition> = Vec::new();
        let rows = self.size[0];
        let columns = self.size[1];
        let mut x: u32 = 0;
        while x < rows
            invariant
                x <= rows,
                rows == self.spec_size()@[0],
                columns == self.spec_size()@[1],
                self.wf(),
                dirty == self.dirty(),
                forall|i: int| 0 <= i < result@.len() ==> dirty.contains(#[trigger] chunk_xy(result@[i])),
                forall|i: int| 0 <= i < result@.len() ==> (#[trigger] result@[i]).position.x < x,
                forall|c: (int, int)| #[trigger] dirty.contains(c) && c.0 < x ==> exists|i: int|
                    0 <= i < result@.len() && chunk_xy(result@[i]) == c,
                forall|i: int, j: int| 0 <= i < j < result@.len() ==> chunk_before(result@[i], result@[j]),
            decreases rows - x,
        {
            let mut y: u32 = 0;
            while y < columns
                invariant
                    x < rows,
                    y <= columns,
                    rows == self.spec_size()@[0],
                    columns == self.spec_size()@[1],
                    self.wf(),
                    dirty == self.dirty(),
                    forall|i: int| 0 <= i < result@.len() ==> dirty.contains(#[trigger] chunk_xy(result@[i])),
                    forall|i: int| 0 <= i < result@.len() ==> chunk_before(#[trigger] result@[i], ChunkPosition { position: UVec2 { x, y } }),
                    forall|c: (int, int)| #[trigger] dirty.contains(c) && (c.0 < x || (c.0 == x && c.1 < y)) ==> exists|i: int|
                        0 <= i < result@.len() && chunk_xy(result@[i]) == c,
                    forall|i: int, j: int| 0 <= i < j < result@.len() ==> chunk_before(result@[i], result@[j]),
                decreases columns - y,
            {
                let chunk = ChunkPosition { position: UVec2 { x, y } };
                let slot = self.chunk_slot(chunk);
                if grid_flag(&self.dirty_chunks, x as usize, y as usize) {
                    let ghost before = result@;
                    result.push(chunk);
                    proof {
                        assert(dirty.contains(chunk_xy(chunk)));
                        assert forall|c: (int, int)| #[trigger] dirty.contains(c) && (c.0 < x || (c.0 == x && c.1 < y + 1)) implies exists|i: int|
                            0 <= i < result@.len() && chunk_xy(result@[i]) == c by {
                            if c.0 == x && c.1 == y {
                                assert(chunk_xy(result@[before.len() as int]) == c);
                            } else {
                                let i = choose|i: int| 0 <= i < before.len() && chunk_xy(before[i]) == c;
                                assert(chunk_xy(result@[i]) == c);
                            }
                        }
                    }
                } else {
                    proof {
                        assert forall|c: (int, int)| #[trigger] dirty.contains(c) && (c.0 < x || (c.0 == x && c.1 < y + 1)) implies exists|i: int|
                            0 <= i < result@.len() && chunk_xy(result@[i]) == c by {
                            if c.0 == x && c.1 == y {
                                assert(!dirty.contains(c));
                            }
                        }
                    }
                }
                y = y + 1;
            }
            x = x + 1;
        }
        let mut k: usize = 0;
        while k < result.len()
            invariant
                k <= result@.len(),
                self.wf(),
                self.spec_size() == old(self).spec_size(),
                self.chunks() == old(self).chunks(),
                dirty == old(self).dirty(),
                forall|i: int| 0 <= i < result@.len() ==> dirty.contains(#[trigger] chunk_xy(result@[i])),
                forall|c: (int, int)| #[trigger] self.dirty().contains(c) <==> (dirty.contains(c)
                    && forall|j: int| 0 <= j < k ==> chunk_xy(#[trigger] result@[j]) != c),
            decreases result@.len() - k,
        {
            let chunk = result[k];
            let ghost before = *self;
            proof {
                assert(dirty.contains(chunk_xy(result@[k as int])));
                lemma_grid_index_bounds(chunk.position.x as int, chunk.position.y as int, self.size@[0] as int, self.size@[1] as int);
            }
            set_grid_flag(&mut self.dirty_chunks, chunk.position.x as usize, chunk.position.y as usize, false);
            proof {
                let slot = before.chunk_index(chunk.position.x as int, chunk.position.y as int);
                assert forall|c: (int, int)| #[trigger] self.dirty().contains(c) <==> (dirty.contains(c)
                    && forall|j: int| 0 <= j < k + 1 ==> chunk_xy(#[trigger] result@[j]) != c) by {
                    if self.has_chunk(c) {
                        lemma_grid_index_bounds(c.0, c.1, self.size@[0] as int, self.size@[1] as int);
                        if self.chunk_index(c.0, c.1) == slot {
                            lemma_grid_index_injective(c.0, c.1, chunk.position.x as int, chunk.position.y as int, self.size@[1] as int);
                        }
                        assert(self.dirty().contains(c) == (before.dirty().contains(c) && c != chunk_xy(chunk)));
                    }
                    if dirty.contains(c) && forall|j: int| 0 <= j < k + 1 ==> chunk_xy(#[trigger] result@[j]) != c {
                        assert(chunk_xy(result@[k as int]) != c);
                    }
                    if !(forall|j: int| 0 <= j < k + 1 ==> chunk_xy(#[trigger] result@[j]) != c) {
                        let j = choose|j: int| 0 <= j < k + 1 && chunk_xy(result@[j]) == c;
                        if j < k {
                            assert(!before.dirty().contains(c));
                        }
                    }
                }
            }
            k = k + 1;
        }
        proof {
            assert forall|c: (int, int)| !#[trigger] self.dirty().contains(c) by {
                if dirty.contains(c) {
                    let i = choose|i: int| 0 <= i < result@.len() && chunk_xy(result@[i]) == c;
                    assert(chunk_xy(result@[i]) == c);
                }
            }
            assert(self.dirty() =~= Set::<(int, int)>::empty());
        }
        result
    }
}


/// Editing one tile: the tile reads back the heights written, each of its eight neighbours gets
/// exactly the corners it shares with the tile set to the tile's, every other tile keeps its
/// heights, and the chunks of the tile and of its neighbours are marked as changed.
pub proof fn law_edit_tile<H>(
    heights: Map<(int, int), Seq<H>>,
    dirty: Set<(int, int)>,
    p: TilePosition,
    h: Seq<H>,
)
    requires
        p.neighbours_fit(),
    ensures
        ({
            let r = edited((heights, dirty), seq![p], seq![h], 1);
            &&& r.0[xz(p)] == h
            &&& r.0.dom().contains(xz(p))
            &&& forall|d: CardinalDirection| #[trigger] r.0.dom().contains(xz(p.stepped(d)))
            &&& forall|d: CardinalDirection| #[trigger] r.0[xz(p.stepped(d))] == conformed(
                heights[xz(p.stepped(d))],
                d,
                h,
            )
            &&& forall|q: (int, int)| q != xz(p) && (forall|d: CardinalDirection| q != #[trigger] xz(p.stepped(d)))
                ==> #[trigger] r.0[q] == heights[q] && (r.0.dom().contains(q) == heights.dom().contains(q))
            &&& r.1 == dirty.insert(tile_chunk(p)).union(
                Set::new(|c: (int, int)| exists|d: CardinalDirection| c == #[trigger] tile_chunk(p.stepped(d))),
            )
        }),
{
    reveal_with_fuel(conform_neighbours, 9);
    let positions = seq![p];
    let start = (heights.insert(xz(p), h), dirty.insert(tile_chunk(p)));
    let dirs = seq![
        CardinalDirection::North,
        CardinalDirection::NorthEast,
        CardinalDirection::East,
        CardinalDirection::SouthEast,
        CardinalDirection::South,
        CardinalDirection::SouthWest,
        CardinalDirection::West,
        CardinalDirection::NorthWest,
    ];
    assert forall|k: int| 0 <= k < 8 implies #[trigger] CardinalDirection::from_index(k) == dirs[k] by {}
    assert forall|d: CardinalDirection| !positions.contains(#[trigger] p.stepped(d)) by {
        if positions.contains(p.stepped(d)) {
            assert(positions[0] == p.stepped(d));
        }
    }
    let r = edited((heights, dirty), positions, seq![h], 1);
    assert(r == conform_neighbours(start, positions, p, h, 8)) by {
        reveal_with_fuel(edited, 2);
        assert(positions[0] == p);
        assert(seq![h][0] == h);
    }
    let extra = Set::new(|c: (int, int)| exists|d: CardinalDirection| c == #[trigger] tile_chunk(p.stepped(d)));
    assert(r.1 =~= dirty.insert(tile_chunk(p)).union(extra)) by {
        assert forall|c: (int, int)| extra.contains(c) implies r.1.contains(c) by {
            let d = choose|d: CardinalDirection| c == #[trigger] tile_chunk(p.stepped(d));
            match d {
                CardinalDirection::North => {},
                CardinalDirection::NorthEast => {},
                CardinalDirection::East => {},
                CardinalDirection::SouthEast => {},
                CardinalDirection::South => {},
                CardinalDirection::SouthWest => {},
                CardinalDirection::West => {},
                CardinalDirection::NorthWest => {},
            }
        }
        assert(extra.contains(tile_chunk(p.stepped(CardinalDirection::North))));
        assert(extra.contains(tile_chunk(p.stepped(CardinalDirection::NorthEast))));
        assert(extra.contains(tile_chunk(p.stepped(CardinalDirection::East))));
        assert(extra.contains(tile_chunk(p.stepped(CardinalDirection::SouthEast))));
        assert(extra.contains(tile_chunk(p.stepped(CardinalDirection::South))));
        assert(extra.contains(tile_chunk(p.stepped(CardinalDirection::SouthWest))));
        assert(extra.contains(tile_chunk(p.stepped(CardinalDirection::West))));
        assert(extra.contains(tile_chunk(p.stepped(CardinalDirection::NorthWest))));
    }
    assert forall|d: CardinalDirection| #[trigger] r.0.dom().contains(xz(p.stepped(d))) by {
        match d {
            CardinalDirection::North => {},
            CardinalDirection::NorthEast => {},
            CardinalDirection::East => {},
            CardinalDirection::SouthEast => {},
            CardinalDirection::South => {},
            CardinalDirection::SouthWest => {},
            CardinalDirection::West => {},
            CardinalDirection::NorthWest => {},
        }
    }
    assert forall|d: CardinalDirection| #[trigger] r.0[xz(p.stepped(d))] == conformed(
        heights[xz(p.stepped(d))],
        d,
        h,
    ) by {
        match d {
            CardinalDirection::North => {},
            CardinalDirection::NorthEast => {},
            CardinalDirection::East => {},
            CardinalDirection::SouthEast => {},
            CardinalDirection::South => {},
            CardinalDirection::SouthWest => {},
            CardinalDirection::West => {},
            CardinalDirection::NorthWest => {},
        }
    }
}


/// Fitting a tile to the same neighbour twice changes nothing more.
proof fn lemma_conformed_twice<H>(v: Seq<H>, d: CardinalDirection, h: Seq<H>)
    requires
        v.len() == 4,
    ensures
        conformed(conformed(v, d, h), d, h) == conformed(v, d, h),
        conformed(v, d, h).len() == 4,
{
    assert(conformed(conformed(v, d, h), d, h) =~= conformed(v, d, h));
}

/// Editing a tile a second time with the same heights changes nothing more: neither the heights
/// of any tile nor the chunks marked as changed.
pub proof fn law_edit_tile_twice<H>(
    heights: Map<(int, int), Seq<H>>,
    dirty: Set<(int, int)>,
    p: TilePosition,
    h: Seq<H>,
)
    requires
        p.neighbours_fit(),
        forall|d: CardinalDirection| #![trigger p.stepped(d)]
            heights.dom().contains(xz(p.stepped(d))) && heights[xz(p.stepped(d))].len() == 4,
    ensures
        ({
            let once = edited((heights, dirty), seq![p], seq![h], 1);
            edited(once, seq![p], seq![h], 1) == once
        }),
{
    let once = edited((heights, dirty), seq![p], seq![h], 1);
    let twice = edited(once, seq![p], seq![h], 1);
    law_edit_tile(heights, dirty, p, h);
    law_edit_tile(once.0, once.1, p, h);
    let extra = Set::new(|c: (int, int)| exists|d: CardinalDirection| c == #[trigger] tile_chunk(p.stepped(d)));
    assert(twice.1 =~= once.1) by {
        assert(once.1 == dirty.insert(tile_chunk(p)).union(extra));
        assert(twice.1 == once.1.insert(tile_chunk(p)).union(extra));
    }
    assert forall|d: CardinalDirection| #[trigger] twice.0[xz(p.stepped(d))] == once.0[xz(p.stepped(d))] by {
        lemma_conformed_twice(heights[xz(p.stepped(d))], d, h);
    }
    assert forall|q: (int, int)| #[trigger] twice.0.dom().contains(q) == once.0.dom().contains(q) by {
        if q == xz(p) {
        } else if exists|d: CardinalDirection| q == #[trigger] xz(p.stepped(d)) {
            let d = choose|d: CardinalDirection| q == #[trigger] xz(p.stepped(d));
            assert(once.0.dom().contains(xz(p.stepped(d))));
            assert(twice.0.dom().contains(xz(p.stepped(d))));
        } else {
            assert(twice.0[q] == once.0[q]);
        }
    }
    assert forall|q: (int, int)| #[trigger] twice.0.dom().contains(q) implies twice.0[q] == once.0[q] by {
        if q == xz(p) {
        } else if exists|d: CardinalDirection| q == #[trigger] xz(p.stepped(d)) {
            let d = choose|d: CardinalDirection| q == #[trigger] xz(p.stepped(d));
            assert(twice.0[xz(p.stepped(d))] == once.0[xz(p.stepped(d))]);
        } else {
            assert(twice.0[q] == once.0[q]);
        }
    }
    assert(twice.0 =~= once.0);
}
/// Making the neighbours of `p` fit leaves every tile alone that is not one of those neighbours,
/// and leaves alone every neighbour that is itself among the edited `positions`.
proof fn lemma_conform_keeps_others<H>(
    state: (Map<(int, int), Seq<H>>, Set<(int, int)>),
    positions: Seq<TilePosition>,
    p: TilePosition,
    h: Seq<H>,
    k: nat,
    q: (int, int),
)
    requires
        k <= 8,
        forall|d: CardinalDirection| #![trigger p.stepped(d)]
            xz(p.stepped(d)) == q ==> positions.contains(p.stepped(d)),
    ensures
        conform_neighbours(state, positions, p, h, k).0[q] == state.0[q],
        conform_neighbours(state, positions, p, h, k).0.dom().contains(q) == state.0.dom().contains(q),
    decreases k,
{
    if k > 0 {
        lemma_conform_keeps_others(state, positions, p, h, (k - 1) as nat, q);
        let d = CardinalDirection::from_index(k - 1);
        assert(xz(p.stepped(d)) == q ==> positions.contains(p.stepped(d)));
    }
}

/// Editing several tiles of one layer one after the other: each edited tile ends with the heights
/// it was given, unless a later edit targets the same tile again. Edits never reshape each other's
/// tiles, because a neighbour that is itself being edited is left alone.
pub proof fn law_edits_keep_their_heights<H>(
    heights: Map<(int, int), Seq<H>>,
    dirty: Set<(int, int)>,
    positions: Seq<TilePosition>,
    values: Seq<Seq<H>>,
    n: nat,
    i: int,
    layer: i32,
)
    requires
        n <= positions.len(),
        n <= values.len(),
        forall|j: int| 0 <= j < positions.len() ==> (#[trigger] positions[j]).position.y == layer,
        forall|j: int| 0 <= j < n ==> (#[trigger] positions[j]).neighbours_fit(),
        0 <= i < n,
        forall|j: int| i < j < n ==> xz(#[trigger] positions[j]) != xz(positions[i]),
    ensures
        edited((heights, dirty), positions, values, n).0[xz(positions[i])] == values[i],
        edited((heights, dirty), positions, values, n).0.dom().contains(xz(positions[i])),
    decreases n,
{
    let m = (n - 1) as nat;
    let before = edited((heights, dirty), positions, values, m);
    let p = positions[m as int];
    let h = values[m as int];
    let start = (before.0.insert(xz(p), h), before.1.insert(tile_chunk(p)));
    let q = xz(positions[i]);
    assert forall|d: CardinalDirection| #![trigger p.stepped(d)] xz(p.stepped(d)) == q implies positions.contains(p.stepped(d)) by {
        assert(positions[i].position.y == layer);
        assert(p.position.y == layer);
        assert(p.stepped(d) == positions[i]);
    }
    lemma_conform_keeps_others(start, positions, p, h, 8, q);
    if i < m {
        law_edits_keep_their_heights(heights, dirty, positions, values, m, i, layer);
        assert(xz(p) != q);
    }
}

/// Reading a tile after writing it gives back the heights written, and every other tile reads as
/// before the write.
pub proof fn law_read_after_write<H: Copy>(
    before: HeightmapsResource<H>,
    after: HeightmapsResource<H>,
    p: (int, int),
    v: Seq<H>,
)
    requires
        before.in_world(p),
        after.heights() == before.heights().insert(p, v),
    ensures
        after.heights()[p] == v,
        forall|q: (int, int)| q != p ==> #[trigger] after.heights()[q] == before.heights()[q],
        after.heights().dom() == before.heights().dom(),
{
    assert(after.heights().dom() =~= before.heights().dom());
}

} // verus!