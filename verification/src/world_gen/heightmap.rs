use vstd::prelude::*;
use vstd::std_specs::ops::AddSpec;

use crate::utils::direction::{step_fits, CardinalDirection};
use crate::world::WorldSize;
use crate::world_gen::consts::HEIGHTMAP_CHUNK_SIZE;

verus! {

/// Height samples of the whole world, stored row by row: the sample at `[x, y]` is
/// `data[x * size[1] + y]`. `H` is the type of one sample.
#[derive(Clone, Debug)]
pub struct Heightmap<H> {
    pub data: Vec<H>,
    size: WorldSize,
}

/// Walks the square of side `2 * radius + 1` around `center` row by row (`dy` outer, `dx` inner,
/// both from `-radius` to `radius`) and yields the points that lie strictly inside the heightmap
/// (coordinates greater than zero and less than the size).
#[derive(Clone, Debug)]
pub struct HeightmapCircle {
    pub center: [i32; 2],
    pub heightmap_size: WorldSize,
    pub radius: u32,
    pub dx: i32,
    pub dy: i32,
}

/// Whether a signed point lies strictly inside a map of the given size: both coordinates greater
/// than zero and less than the size (taken as `i32`, as the map computes it).
pub open spec fn inside(p: (int, int), size: WorldSize) -> bool {
    &&& 0 < p.0 < (size[0] as i32)
    &&& 0 < p.1 < (size[1] as i32)
}

/// A point given by signed coordinates, as unsigned coordinates.
pub open spec fn to_unsigned(p: (int, int)) -> [u32; 2] {
    [p.0 as u32, p.1 as u32]
}

/// Keeps a signed point, converted to unsigned coordinates, when it lies inside the map.
pub open spec fn keep_inside(size: WorldSize) -> spec_fn([i32; 2]) -> Option<[u32; 2]> {
    |p: [i32; 2]|
        if inside((p@[0] as int, p@[1] as int), size) {
            Some(to_unsigned((p@[0] as int, p@[1] as int)))
        } else {
            None
        }
}

/// The eight neighbours of a point, clockwise from north, in signed coordinates.
pub open spec fn neighbour_candidates(point: [u32; 2]) -> Seq<[i32; 2]> {
    let p: [i32; 2] = [point@[0] as i32, point@[1] as i32];
    Seq::new(8, |i: int| p.add_spec(CardinalDirection::from_index(i)))
}

impl<H: Copy> Heightmap<H> {
    /// Number of samples along each axis.
    pub closed spec fn spec_size(&self) -> WorldSize {
        self.size
    }

    /// The stored samples.
    pub closed spec fn samples(&self) -> Seq<H> {
        self.data@
    }

    /// The position in `data` of the sample at `point`.
    pub open spec fn index_of(&self, point: [u32; 2]) -> int {
        point@[0] * self.spec_size()@[1] + point@[1]
    }

    /// Whether `point` names a stored sample.
    pub open spec fn holds(&self, point: [u32; 2]) -> bool {
        0 <= self.index_of(point) < self.samples().len()
    }

    /// A heightmap for a world of `size` chunks, every sample set to `fill`.
    pub fn new(size: WorldSize, fill: H) -> (r: Heightmap<H>)
        requires
            size@[0] * HEIGHTMAP_CHUNK_SIZE <= u32::MAX,
            size@[0] * HEIGHTMAP_CHUNK_SIZE * size@[1] <= u32::MAX,
            size@[0] * HEIGHTMAP_CHUNK_SIZE * size@[1] * HEIGHTMAP_CHUNK_SIZE <= u32::MAX,
            size@[1] * HEIGHTMAP_CHUNK_SIZE <= u32::MAX,
        ensures
            r.spec_size()@ == seq![
                (size@[0] * HEIGHTMAP_CHUNK_SIZE) as u32,
                (size@[1] * HEIGHTMAP_CHUNK_SIZE) as u32,
            ],
            r.samples() == Seq::new(
                (size@[0] * HEIGHTMAP_CHUNK_SIZE * size@[1] * HEIGHTMAP_CHUNK_SIZE) as nat,
                |i: int| fill,
            ),
    {
        let count: u32 = size[0] * HEIGHTMAP_CHUNK_SIZE * size[1] * HEIGHTMAP_CHUNK_SIZE;
        let rows: u32 = size[0] * HEIGHTMAP_CHUNK_SIZE;
        let columns: u32 = size[1] * HEIGHTMAP_CHUNK_SIZE;
        let mut data: Vec<H> = Vec::new();
        let mut i: u32 = 0;
        while i < count
            invariant
                i <= count,
                data@ == Seq::new(i as nat, |j: int| fill),
            decreases count - i,
        {
            data.push(fill);
            i = i + 1;
            assert(data@ =~= Seq::new(i as nat, |j: int| fill));
        }
        let r = Heightmap { data, size: [rows, columns] };
        assert(r.spec_size()@ =~= seq![rows, columns]);
        r
    }

    /// A heightmap of `size` samples along each axis holding the given samples, row by row.
    pub fn from_samples(size: WorldSize, data: Vec<H>) -> (r: Heightmap<H>)
        ensures
            r.spec_size() == size,
            r.samples() == data@,
    {
        Heightmap { data, size }
    }

    /// Number of samples along each axis.
    pub fn size(&self) -> (r: WorldSize)
        ensures
            r == self.spec_size(),
    {
        [self.size[0], self.size[1]]
    }

    /// The sample at `point`, if the heightmap stores one there.
    pub fn get(&self, point: [u32; 2]) -> (r: Option<H>)
        ensures
            r == if self.holds(point) {
                Some(self.samples()[self.index_of(point)])
            } else {
                None
            },
    {
        proof {
            lemma_row_major_index_fits(point[0], self.size[1], point[1]);
        }
        let index: u64 = point[0] as u64 * self.size[1] as u64 + point[1] as u64;
        if index < self.data.len() as u64 {
            Some(self.data[index as usize])
        } else {
            None
        }
    }

    /// Replaces the sample at `point`, which must be stored.
    pub fn set(&mut self, point: [u32; 2], value: H)
        requires
            old(self).holds(point),
        ensures
            final(self).spec_size() == old(self).spec_size(),
            final(self).samples() == old(self).samples().update(old(self).index_of(point), value),
    {
        proof {
            lemma_row_major_index_fits(point[0], self.size[1], point[1]);
        }
        let i: u64 = point[0] as u64 * self.size[1] as u64 + point[1] as u64;
        let len = self.data.len();
        assert(i < len);
        self.data.set(i as usize, value);
    }

    /// The neighbours of `point`, clockwise from north, that lie strictly inside the heightmap.
    pub fn neighbours(&self, point: [u32; 2]) -> (r: Vec<[u32; 2]>)
        requires
            point@[0] < i32::MAX,
            point@[1] < i32::MAX,
        ensures
            r@ == neighbour_candidates(point).filter_map(keep_inside(self.spec_size())),
    {
        let size = self.size();
        let me: [i32; 2] = [point[0] as i32, point[1] as i32];
        let directions: [CardinalDirection; 8] = [
            CardinalDirection::North,
            CardinalDirection::NorthEast,
            CardinalDirection::East,
            CardinalDirection::SouthEast,
            CardinalDirection::South,
            CardinalDirection::SouthWest,
            CardinalDirection::West,
            CardinalDirection::NorthWest,
        ];
        let ghost candidates = neighbour_candidates(point);
        let ghost keep = keep_inside(size);
        let mut result: Vec<[u32; 2]> = Vec::new();
        let mut i: usize = 0;
        while i < 8
            invariant
                i <= 8,
                size == self.spec_size(),
                keep == keep_inside(size),
                me@ == seq![point@[0] as i32, point@[1] as i32],
                point@[0] < i32::MAX,
                point@[1] < i32::MAX,
                candidates == neighbour_candidates(point),
                forall|j: int| 0 <= j < 8 ==> #[trigger] directions@[j] == CardinalDirection::from_index(j),
                result@ == candidates.take(i as int).filter_map(keep),
            decreases 8 - i,
        {
            let direction = directions[i];
            assert(step_fits(me, direction));
            let neighbour = me + direction;
            assert(candidates[i as int] == neighbour) by {
                vstd::array::axiom_array_ext_equal(me, [point@[0] as i32, point@[1] as i32]);
            }
            proof {
                candidates.lemma_filter_map_take_succ(keep, i as int);
            }
            if neighbour[0] < size[0] as i32 && neighbour[0] > 0 && neighbour[1] < size[1] as i32
                && neighbour[1] > 0 {
                result.push([neighbour[0] as u32, neighbour[1] as u32]);
            }
            i = i + 1;
        }
        assert(candidates.take(8) =~= candidates);
        result
    }

    /// Starts a walk over the square of the given radius around `point`.
    pub fn get_circle(&self, point: [u32; 2], radius: u32) -> (r: HeightmapCircle)
        requires
            radius < i32::MAX,
        ensures
            r.center@ == seq![point@[0] as i32, point@[1] as i32],
            r.heightmap_size == self.spec_size(),
            r.radius == radius,
            r.dx == -radius,
            r.dy == -radius,
            r.cursor() == 0,
    {
        let r = HeightmapCircle {
            center: [point[0] as i32, point[1] as i32],
            heightmap_size: self.size(),
            radius,
            dx: -(radius as i32),
            dy: -(radius as i32),
        };
        assert(r.center@ =~= seq![point@[0] as i32, point@[1] as i32]);
        assert(r.cursor() == 0) by (nonlinear_arith)
            requires
                r.dy == -r.radius,
                r.dx == -r.radius,
                r.cursor() == (r.dy + r.radius) * r.width() + (r.dx + r.radius),
        ;
        r
    }
}

impl<H: Copy> core::ops::Index<[u32; 2]> for Heightmap<H> {
    type Output = H;

    fn index(&self, index: [u32; 2]) -> (r: &H)
        ensures
            *r == self.samples()[self.index_of(index)],
    {
        proof {
            lemma_row_major_index_fits(index[0], self.size[1], index[1]);
        }
        let i: u64 = index[0] as u64 * self.size[1] as u64 + index[1] as u64;
        let len = self.data.len();
        assert(i < len);
        &self.data[i as usize]
    }
}

/// Only stored samples can be read by indexing.
impl<H: Copy> vstd::std_specs::core::IndexSpecImpl<[u32; 2]> for Heightmap<H> {
    open spec fn index_req(&self, index: &[u32; 2]) -> bool {
        self.holds(*index)
    }
}

impl HeightmapCircle {
    /// Number of points on one row of the square.
    pub open spec fn width(&self) -> int {
        2 * self.radius + 1
    }

    /// Number of points of the square.
    pub open spec fn total(&self) -> int {
        self.width() * self.width()
    }

    /// Position of the walk in row order: the index of the next point to look at.
    pub open spec fn cursor(&self) -> int {
        (self.dy + self.radius) * self.width() + (self.dx + self.radius)
    }

    /// The point at position `k` of the walk.
    pub open spec fn point_at(&self, k: int) -> (int, int) {
        (
            self.center@[0] + k % self.width() - self.radius,
            self.center@[1] + k / self.width() - self.radius,
        )
    }

    /// Whether the point at position `k` of the walk is yielded.
    pub open spec fn yields_at(&self, k: int) -> bool {
        inside(self.point_at(k), self.heightmap_size)
    }

    /// Whether the walk is in a state from which it can continue: the column lies within the
    /// square, and every point it can still reach has coordinates within `i32`.
    pub open spec fn well_formed(&self) -> bool {
        &&& self.radius < i32::MAX
        &&& -self.radius <= self.dx <= self.radius
        &&& i32::MIN <= self.center@[0] - self.radius
        &&& self.center@[0] + self.radius <= i32::MAX
        &&& i32::MIN <= self.center@[1] + self.dy
        &&& self.center@[1] + self.radius <= i32::MAX
    }

    /// The next point of the walk that lies inside the heightmap, or `None` once the square is
    /// exhausted.
    pub fn next(&mut self) -> (r: Option<[u32; 2]>)
        requires
            old(self).well_formed(),
        ensures
            final(self).well_formed(),
            final(self).center == old(self).center,
            final(self).heightmap_size == old(self).heightmap_size,
            final(self).radius == old(self).radius,
            match r {
                Some(p) => exists|k: int|
                    #![trigger old(self).point_at(k)]
                    old(self).cursor() <= k < old(self).total()
                    && old(self).yields_at(k)
                    && (forall|j: int| old(self).cursor() <= j < k ==> !#[trigger] old(self).yields_at(j))
                    && p == to_unsigned(old(self).point_at(k))
                    && final(self).cursor() == k + 1,
                None => (forall|j: int| old(self).cursor() <= j < old(self).total() ==> !#[trigger] old(self).yields_at(j))
                    && final(self).cursor() >= final(self).total(),
            },
    {
        let x = self.center[0];
        let y = self.center[1];
        let radius = self.radius as i32;
        let ghost start = *old(self);
        let ghost w = start.width();
        loop
            invariant
                start == *old(self),
                self.well_formed(),
                self.center == start.center,
                self.heightmap_size == start.heightmap_size,
                self.radius == start.radius,
                x == self.center@[0],
                y == self.center@[1],
                radius == self.radius,
                w == start.width(),
                start.cursor() <= self.cursor(),
                forall|j: int| start.cursor() <= j < self.cursor() ==> !#[trigger] start.yields_at(j),
            decreases self.radius + 1 - self.dy, self.radius - self.dx,
        {
            if self.dy > radius {
                proof {
                    assert(self.cursor() >= self.total()) by (nonlinear_arith)
                        requires
                            self.dy > self.radius,
                            self.dx + self.radius >= 0,
                            self.cursor() == (self.dy + self.radius) * self.width() + (self.dx + self.radius),
                            self.total() == self.width() * self.width(),
                            self.width() == 2 * self.radius + 1,
                    ;
                    assert forall|j: int| start.cursor() <= j < start.total() implies !#[trigger] start.yields_at(j) by {
                        assert(start.total() == self.total());
                    }
                }
                return None;
            }
            let ghost k = self.cursor();
            let neighbour: [i32; 2] = [x + self.dx, y + self.dy];
            proof {
                vstd::arithmetic::div_mod::lemma_fundamental_div_mod_converse(
                    k,
                    w,
                    self.dy + self.radius,
                    self.dx + self.radius,
                );
                assert(start.point_at(k) == (x + self.dx, y + self.dy));
                assert(k < start.total()) by (nonlinear_arith)
                    requires
                        self.dy <= self.radius,
                        self.dx <= self.radius,
                        k == (self.dy + self.radius) * w + (self.dx + self.radius),
                        start.total() == w * w,
                        w == 2 * self.radius + 1,
                ;
            }
            self.dx = self.dx + 1;
            if self.dx > radius {
                self.dx = -radius;
                self.dy = self.dy + 1;
                proof {
                    assert(self.cursor() == k + 1) by (nonlinear_arith)
                        requires
                            self.dx == -self.radius,
                            self.cursor() == (self.dy + self.radius) * w + (self.dx + self.radius),
                            k == (self.dy - 1 + self.radius) * w + (self.radius + self.radius),
                            w == 2 * self.radius + 1,
                    ;
                }
            } else {
                assert(self.cursor() == k + 1);
            }
            if neighbour[0] < self.heightmap_size[0] as i32 && neighbour[0] > 0 && neighbour[1]
                < self.heightmap_size[1] as i32 && neighbour[1] > 0 {
                return Some([neighbour[0] as u32, neighbour[1] as u32]);
            }
        }
    }
}

/// A row-major index of two `u32` coordinates always fits in a `u64`.
proof fn lemma_row_major_index_fits(row: u32, columns: u32, column: u32)
    ensures
        row * columns + column <= u64::MAX,
{
    assert(row * columns <= (u32::MAX as int) * (u32::MAX as int)) by (nonlinear_arith)
        requires
            row <= u32::MAX,
            columns <= u32::MAX,
            row >= 0,
            columns >= 0,
    ;
}

/// Every point the walk can yield lies within `radius` of the center along both axes.
pub proof fn law_circle_points_near_center(c: HeightmapCircle, k: int)
    requires
        0 <= k < c.total(),
    ensures
        c.center@[0] - c.radius <= c.point_at(k).0 <= c.center@[0] + c.radius,
        c.center@[1] - c.radius <= c.point_at(k).1 <= c.center@[1] + c.radius,
{
    let w = c.width();
    vstd::arithmetic::div_mod::lemma_fundamental_div_mod(k, w);
    assert(0 <= k / w < w) by (nonlinear_arith)
        requires
            0 <= k < w * w,
            w >= 1,
            k == w * (k / w) + k % w,
            0 <= k % w < w,
    ;
}

/// Every neighbour a heightmap reports for a point lies strictly inside the map and one step
/// away from the point along each axis at most.
pub proof fn law_neighbours_adjacent_and_inside(size: WorldSize, point: [u32; 2], q: [u32; 2])
    requires
        point@[0] < i32::MAX,
        point@[1] < i32::MAX,
        neighbour_candidates(point).filter_map(keep_inside(size)).contains(q),
    ensures
        0 < q@[0] < size@[0],
        0 < q@[1] < size@[1],
        point@[0] - 1 <= q@[0] <= point@[0] + 1,
        point@[1] - 1 <= q@[1] <= point@[1] + 1,
{
    let c = neighbour_candidates(point);
    let f = keep_inside(size);
    c.lemma_filter_map_contains(f, q);
    let t = choose|t: [i32; 2]| #[trigger] c.contains(t) && f(t) == Some(q);
    let i = choose|i: int| 0 <= i < c.len() && c[i] == t;
    let d = CardinalDirection::from_index(i);
    assert(c[i] == [point@[0] as i32, point@[1] as i32].add_spec(d));
}


/// The sample points of one chunk of the generated heightmap, `x` outer and `y` inner: the
/// chunk at `chunk` covers `HEIGHTMAP_CHUNK_SIZE` samples along each axis from
/// `chunk * HEIGHTMAP_CHUNK_SIZE`.
pub fn chunk_sample_points(chunk: [u32; 2]) -> (r: Vec<[u32; 2]>)
    requires
        chunk@[0] * HEIGHTMAP_CHUNK_SIZE + HEIGHTMAP_CHUNK_SIZE <= u32::MAX,
        chunk@[1] * HEIGHTMAP_CHUNK_SIZE + HEIGHTMAP_CHUNK_SIZE <= u32::MAX,
    ensures
        r@.len() == HEIGHTMAP_CHUNK_SIZE * HEIGHTMAP_CHUNK_SIZE,
        forall|i: int| 0 <= i < r@.len() ==> #[trigger] r@[i] == [
            (chunk@[0] * HEIGHTMAP_CHUNK_SIZE + i / (HEIGHTMAP_CHUNK_SIZE as int)) as u32,
            (chunk@[1] * HEIGHTMAP_CHUNK_SIZE + i % (HEIGHTMAP_CHUNK_SIZE as int)) as u32,
        ],
{
    let n = HEIGHTMAP_CHUNK_SIZE;
    let mut points: Vec<[u32; 2]> = Vec::new();
    let mut x: u32 = 0;
    while x < n
        invariant
            n == HEIGHTMAP_CHUNK_SIZE,
            x <= n,
            chunk@[0] * n + n <= u32::MAX,
            chunk@[1] * n + n <= u32::MAX,
            points@.len() == x * n,
            forall|i: int| 0 <= i < points@.len() ==> #[trigger] points@[i] == [
                (chunk@[0] * n + i / (n as int)) as u32,
                (chunk@[1] * n + i % (n as int)) as u32,
            ],
        decreases n - x,
    {
        let mut y: u32 = 0;
        while y < n
            invariant
                n == HEIGHTMAP_CHUNK_SIZE,
                x < n,
                y <= n,
                chunk@[0] * n + n <= u32::MAX,
                chunk@[1] * n + n <= u32::MAX,
                points@.len() == x * n + y,
                forall|i: int| 0 <= i < points@.len() ==> #[trigger] points@[i] == [
                    (chunk@[0] * n + i / (n as int)) as u32,
                    (chunk@[1] * n + i % (n as int)) as u32,
                ],
            decreases n - y,
        {
            let point = [chunk[0] * n + x, chunk[1] * n + y];
            proof {
                let k = x * n + y;
                vstd::arithmetic::div_mod::lemma_fundamental_div_mod_converse(k as int, n as int, x as int, y as int);
                assert(point@ =~= [
                    (chunk@[0] * n + k / (n as int)) as u32,
                    (chunk@[1] * n + k % (n as int)) as u32,
                ]@);
            }
            points.push(point);
            y = y + 1;
        }
        assert(x * n + n == (x + 1) * n) by (nonlinear_arith);
        x = x + 1;
    }
    points
}
} // verus!
