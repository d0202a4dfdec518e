use vstd::prelude::*;

use crate::chunk::chunk_tile_position::{CardinalDirection, TilePosition, TilePosition2D};
use crate::utils::vector::{IVec2, IVec3};
use crate::world::road::{
    all_neighbours, keep_if_in, lemma_all_neighbours_index, lemma_kept_prefix, RoadTilesResource,
};

verus! {

/// A number of steps along the road network.
pub type Distance = usize;

/// A route over ground positions, from its start to its end.
pub type Path = Vec<TilePosition2D>;

/// A route being driven, and the position of the next point to drive to.
#[derive(Clone, Debug)]
pub struct Pathfind {
    pub path: Path,
    pub current_index: usize,
}

/// The road tile on the ground layer at a ground position.
pub open spec fn ground_tile(p: IVec2) -> TilePosition {
    TilePosition { position: IVec3 { x: p.x, y: 0, z: p.y } }
}

/// Whether a vehicle can drive from `a` to `b` in one step: `b` is one of the eight positions
/// around `a` and the ground tile there is a road tile.
pub open spec fn road_step(roads: Set<TilePosition>, a: IVec2, b: IVec2) -> bool {
    exists|d: CardinalDirection|
        b.x == a.x + (#[trigger] d.offset()).0 && b.y == a.y + d.offset().1 && roads.contains(ground_tile(b))
}

/// Whether `p` is a route over the roads from `start` to `end`.
pub open spec fn is_road_path(roads: Set<TilePosition>, p: Seq<IVec2>, start: IVec2, end: IVec2) -> bool {
    &&& p.len() >= 1
    &&& p[0] == start
    &&& p[p.len() - 1] == end
    &&& forall|i: int| 0 <= i < p.len() - 1 ==> road_step(roads, #[trigger] p[i], p[i + 1])
}

/// Whether the start and every position the roads reach from it lie away from the ends of the
/// `i32` range, so that the neighbours of every position the search visits can be computed.
pub open spec fn search_fits(roads: Set<TilePosition>, start: IVec2) -> bool {
    &&& ground_tile(start).neighbours_fit()
    &&& forall|q: Seq<IVec2>, p: IVec2| #[trigger] is_road_path(roads, q, start, p) ==> ground_tile(p).neighbours_fit()
}

/// The steps a vehicle can take from a ground position, each costing one.
pub open spec fn spec_road_successors(roads: Set<TilePosition>, p: IVec2) -> Seq<(IVec2, usize)> {
    all_neighbours(ground_tile(p)).filter_map(keep_if_in(roads)).map_values(
        |t: TilePosition| (IVec2 { x: t.position.x, y: t.position.z }, 1usize),
    )
}

/// The steps a vehicle can take from a ground position: to each neighbouring road tile on the
/// ground layer, clockwise from north, at a cost of one.
pub fn road_successors(roads: &RoadTilesResource, p: &IVec2) -> (r: Vec<(IVec2, usize)>)
    requires
        roads.wf(),
        ground_tile(*p).neighbours_fit(),
    ensures
        r@ == spec_road_successors(roads@, *p),
{
    let tile = TilePosition::from_position_2d(*p);
    let neighbours = roads.get_neighbours(tile);
    let mut result: Vec<(IVec2, usize)> = Vec::new();
    let mut i: usize = 0;
    while i < neighbours.len()
        invariant
            i <= neighbours@.len(),
            result@ == neighbours@.take(i as int).map_values(
                |t: TilePosition| (IVec2 { x: t.position.x, y: t.position.z }, 1usize),
            ),
        decreases neighbours@.len() - i,
    {
        let n = neighbours[i];
        result.push((n.position_2d(), 1));
        i = i + 1;
        assert(result@ =~= neighbours@.take(i as int).map_values(
            |t: TilePosition| (IVec2 { x: t.position.x, y: t.position.z }, 1usize),
        ));
    }
    assert(neighbours@.take(neighbours@.len() as int) =~= neighbours@);
    result
}

/// The steps offered from a position are exactly the road steps from it: every successor costs
/// one and leads to a neighbouring road tile on the ground layer, and every neighbouring road tile
/// on the ground layer, in any of the eight directions, is offered.
pub proof fn law_successors_are_the_road_steps(roads: Set<TilePosition>, p: IVec2)
    requires
        ground_tile(p).neighbours_fit(),
    ensures
        forall|q: IVec2, c: usize|
            #[trigger] spec_road_successors(roads, p).contains((q, c)) <==> (c == 1 && road_step(roads, p, q)),
{
    let g = ground_tile(p);
    let s = all_neighbours(g);
    let keep = keep_if_in(roads);
    let found = s.filter_map(keep);
    let step = |t: TilePosition| (IVec2 { x: t.position.x, y: t.position.z }, 1usize);
    let succ = spec_road_successors(roads, p);
    assert(succ == found.map_values(step));
    lemma_kept_prefix(s, roads, 8);
    assert(s.take(8) =~= s);
    assert forall|q: IVec2, c: usize| #[trigger] succ.contains((q, c)) implies (c == 1 && road_step(roads, p, q)) by {
        let idx = choose|idx: int| 0 <= idx < succ.len() && succ[idx] == (q, c);
        let t = found[idx];
        assert(found.contains(t));
        s.lemma_filter_map_contains(keep, t);
        let u = choose|u: TilePosition| #[trigger] s.contains(u) && keep(u) == Some(t);
        let i = choose|i: int| 0 <= i < s.len() && s[i] == u;
        let d = CardinalDirection::from_index(i);
        assert(d.index() == i);
        lemma_all_neighbours_index(g, d);
        assert(u == t);
        assert(ground_tile(q) == t);
        assert(q.x == p.x + d.offset().0 && q.y == p.y + d.offset().1 && roads.contains(ground_tile(q)));
    }
    assert forall|q: IVec2, c: usize| (c == 1 && road_step(roads, p, q)) implies #[trigger] succ.contains((q, c)) by {
        let d = choose|d: CardinalDirection|
            q.x == p.x + (#[trigger] d.offset()).0 && q.y == p.y + d.offset().1 && roads.contains(ground_tile(q));
        lemma_all_neighbours_index(g, d);
        let i = d.index();
        assert(s[i] == ground_tile(q));
        assert(found.contains(s[i]));
        let idx = choose|idx: int| 0 <= idx < found.len() && found[idx] == s[i];
        assert(succ[idx] == (q, c));
    }
}

/// Whether the search has reached its goal.
pub fn reached(p: &IVec2, goal: &IVec2) -> (r: bool)
    ensures
        r == (*p == *goal),
{
    *p == *goal
}

/// `pathfinding::prelude::dijkstra`, searching from `start` with the road steps as successors
/// (cost one each) until `end`. As the crate documents it, the result is a shortest route from
/// the start to the end together with its cost (the number of steps), or `None` when no route
/// exists. When several shortest routes exist, which one is returned is left open.
#[verifier::external_body]
fn shortest_road_path(start: IVec2, end: IVec2, roads: &RoadTilesResource) -> (r: Option<(Vec<IVec2>, usize)>)
    requires
        roads.wf(),
        search_fits(roads@, start),
    ensures
        match r {
            Some((path, cost)) => is_road_path(roads@, path@, start, end)
                && cost == path@.len() - 1
                && forall|q: Seq<IVec2>| #[trigger] is_road_path(roads@, q, start, end) ==> path@.len() <= q.len(),
            None => forall|q: Seq<IVec2>| !#[trigger] is_road_path(roads@, q, start, end),
        },
{
    pathfinding::prelude::dijkstra(&start, |p| road_successors(roads, p), |p| reached(p, &end))
}

/// A shortest route over the road network between the ground positions of two tiles, with its
/// length in steps, or `None` when the roads do not connect them.
pub fn find_path(start: TilePosition, end: TilePosition, roads: &RoadTilesResource) -> (r: Option<(Path, Distance)>)
    requires
        roads.wf(),
        search_fits(roads@, IVec2 { x: start.position.x, y: start.position.z }),
    ensures
        ({
            let s = IVec2 { x: start.position.x, y: start.position.z };
            let e = IVec2 { x: end.position.x, y: end.position.z };
            match r {
                Some((path, distance)) => is_road_path(roads@, path@, s, e)
                    && distance == path@.len() - 1
                    && forall|q: Seq<IVec2>| #[trigger] is_road_path(roads@, q, s, e) ==> path@.len() <= q.len(),
                None => forall|q: Seq<IVec2>| !#[trigger] is_road_path(roads@, q, s, e),
            }
        }),
{
    shortest_road_path(start.position_2d(), end.position_2d(), roads)
}

impl Pathfind {
    /// Starts driving a route from its first point.
    pub fn new(path: Path) -> (r: Pathfind)
        ensures
            r.path@ == path@,
            r.current_index == 0,
    {
        Pathfind { path, current_index: 0 }
    }

    /// Moves on to the next point of the route, staying on the last one at the end.
    pub fn advance(&mut self)
        requires
            old(self).path@.len() >= 1,
        ensures
            final(self).path@ == old(self).path@,
            final(self).current_index == if old(self).current_index + 1 > old(self).path@.len() - 1 {
                old(self).path@.len() - 1
            } else {
                old(self).current_index + 1
            },
    {
        let last = self.path.len() - 1;
        let next = if self.current_index >= last {
            last
        } else {
            self.current_index + 1
        };
        self.current_index = next;
    }

    /// Drives the route back the other way, from its (former) last point.
    pub fn turn_around(&mut self)
        ensures
            final(self).path@ == old(self).path@.reverse(),
            final(self).current_index == 0,
    {
        let mut reversed: Vec<TilePosition2D> = Vec::new();
        let mut i: usize = self.path.len();
        while i > 0
            invariant
                i <= self.path@.len(),
                reversed@ == self.path@.subrange(i as int, self.path@.len() as int).reverse(),
            decreases i,
        {
            i = i - 1;
            reversed.push(self.path[i]);
            assert(reversed@ =~= self.path@.subrange(i as int, self.path@.len() as int).reverse());
        }
        assert(self.path@.subrange(0, self.path@.len() as int) =~= self.path@);
        self.path = reversed;
        self.current_index = 0;
    }
}


/// Turning a route around twice gives back the route as it was.
pub proof fn law_turn_around_twice(path: Seq<TilePosition2D>)
    ensures
        path.reverse().reverse() == path,
{
    assert(path.reverse().reverse() =~= path);
}

} // verus!
