use vstd::prelude::*;

use crate::world::WorldSize;
use crate::world_gen::consts::{CHUNK_SIZE, CHUNK_WORLD_SIZE};

verus! {

/// The side of the world a vertical edge face looks out of.
#[derive(Clone, Copy, Debug, PartialEq, Eq, Structural)]
pub enum FaceDirection {
    North,
    East,
    South,
    West,
}

/// The edge faces a chunk of the world needs: one along the first axis if the chunk lies on the
/// first or last column of chunks, one along the second axis if it lies on the first or last
/// row, each with the offset (within the chunk) of the tiles it runs along.
#[derive(Clone, Copy, Debug, PartialEq, Eq, Structural)]
pub struct ChunkEdges {
    pub x_direction: Option<FaceDirection>,
    pub x_offset: u32,
    pub y_direction: Option<FaceDirection>,
    pub y_offset: u32,
}

/// The edge faces of the chunk at `chunk`: the first column faces east and the last one west
/// (a world one chunk wide counts as its first column); the first row faces south and the last
/// one north. Faces on the last column or row run along the chunk's last tile.
pub open spec fn spec_chunk_edges(chunk: [u32; 2]) -> ChunkEdges {
    let last_x = CHUNK_WORLD_SIZE@[0] - 1;
    let last_y = CHUNK_WORLD_SIZE@[1] - 1;
    ChunkEdges {
        x_direction: if chunk@[0] == 0 {
            Some(FaceDirection::East)
        } else if chunk@[0] == last_x {
            Some(FaceDirection::West)
        } else {
            None
        },
        x_offset: if chunk@[0] != 0 && chunk@[0] == last_x {
            (CHUNK_SIZE - 1) as u32
        } else {
            0
        },
        y_direction: if chunk@[1] == 0 {
            Some(FaceDirection::South)
        } else if chunk@[1] == last_y {
            Some(FaceDirection::North)
        } else {
            None
        },
        y_offset: if chunk@[1] != 0 && chunk@[1] == last_y {
            (CHUNK_SIZE - 1) as u32
        } else {
            0
        },
    }
}

/// The edge faces of a chunk of the world.
pub fn chunk_edges(chunk: [u32; 2]) -> (r: ChunkEdges)
    ensures
        r == spec_chunk_edges(chunk),
{
    let mut x_offset: u32 = 0;
    let mut y_offset: u32 = 0;
    let x_direction = if chunk[0] == 0 {
        Some(FaceDirection::East)
    } else if chunk[0] == CHUNK_WORLD_SIZE[0] - 1 {
        x_offset = CHUNK_SIZE - 1;
        Some(FaceDirection::West)
    } else {
        None
    };
    let y_direction = if chunk[1] == 0 {
        Some(FaceDirection::South)
    } else if chunk[1] == CHUNK_WORLD_SIZE[1] - 1 {
        y_offset = CHUNK_SIZE - 1;
        Some(FaceDirection::North)
    } else {
        None
    };
    ChunkEdges { x_direction, x_offset, y_direction, y_offset }
}

/// The two height samples the top of an edge face spans, for the tile at `starting_position`.
pub open spec fn spec_edge_face_positions(p: [u32; 2], side: FaceDirection) -> Seq<[u32; 2]> {
    let x = p@[0] as int;
    let y = p@[1] as int;
    match side {
        FaceDirection::North => seq![[x as u32, (y + 1) as u32], [(x + 1) as u32, (y + 1) as u32]],
        FaceDirection::East => seq![[x as u32, (y + 1) as u32], [x as u32, y as u32]],
        FaceDirection::South => seq![[x as u32, y as u32], [(x + 1) as u32, y as u32]],
        FaceDirection::West => seq![[(x + 1) as u32, y as u32], [(x + 1) as u32, (y + 1) as u32]],
    }
}

/// The two height samples the top of an edge face spans.
pub fn edge_face_positions(starting_position: [u32; 2], side: FaceDirection) -> (r: [[u32; 2]; 2])
    requires
        starting_position@[0] < u32::MAX,
        starting_position@[1] < u32::MAX,
    ensures
        r@ == spec_edge_face_positions(starting_position, side),
{
    let x = starting_position[0];
    let y = starting_position[1];
    let r = match side {
        FaceDirection::North => [[x, y + 1], [x + 1, y + 1]],
        FaceDirection::East => [[x, y + 1], [x, y]],
        FaceDirection::South => [[x, y], [x + 1, y]],
        FaceDirection::West => [[x + 1, y], [x + 1, y + 1]],
    };
    proof {
        let s = spec_edge_face_positions(starting_position, side);
        assert forall|i: int| 0 <= i < 2 implies #[trigger] r@[i] == s[i] by {
            vstd::array::axiom_array_ext_equal(r@[i], s[i]);
        }
    }
    assert(r@ =~= spec_edge_face_positions(starting_position, side));
    r
}

/// The two triangles of a quad whose four vertices start at `c`, wound so the quad faces up.
pub open spec fn spec_quad_indices(c: int) -> Seq<u32> {
    seq![(c + 2) as u32, (c + 1) as u32, c as u32, c as u32, (c + 3) as u32, (c + 2) as u32]
}

/// The two triangles of a quad whose four vertices start at `c`, wound the other way.
pub open spec fn spec_reversed_quad_indices(c: int) -> Seq<u32> {
    seq![c as u32, (c + 1) as u32, (c + 2) as u32, (c + 2) as u32, (c + 3) as u32, c as u32]
}

/// The two triangles of a terrain quad whose four vertices start at `indices_count`.
pub fn quad_indices(indices_count: u32) -> (r: [u32; 6])
    requires
        indices_count + 3 <= u32::MAX,
    ensures
        r@ == spec_quad_indices(indices_count as int),
{
    let c = indices_count;
    let r = [c + 2, c + 1, c, c, c + 3, c + 2];
    assert(r@ =~= spec_quad_indices(indices_count as int));
    r
}

/// The two triangles of an edge face whose four vertices start at `indices_count`: north faces
/// are wound like terrain quads, the others the opposite way.
pub fn edge_face_indices(indices_count: u32, side: FaceDirection) -> (r: [u32; 6])
    requires
        indices_count + 3 <= u32::MAX,
    ensures
        r@ == match side {
            FaceDirection::North => spec_quad_indices(indices_count as int),
            _ => spec_reversed_quad_indices(indices_count as int),
        },
{
    let c = indices_count;
    match side {
        FaceDirection::North => quad_indices(c),
        FaceDirection::East | FaceDirection::South | FaceDirection::West => {
            let r = [c, c + 1, c + 2, c + 2, c + 3, c];
            assert(r@ =~= spec_reversed_quad_indices(indices_count as int));
            r
        },
    }
}

/// The four height samples a terrain quad of the given level of detail spans, starting at
/// `starting_position`: the far corners are `lod` samples away, clamped to the heightmap size.
pub open spec fn spec_terrain_quad_corners(p: [u32; 2], lod: int, size: WorldSize) -> Seq<[u32; 2]> {
    let far_x = if p@[0] + lod > size@[0] {
        size@[0] as int
    } else {
        p@[0] + lod
    };
    let far_y = if p@[1] + lod > size@[1] {
        size@[1] as int
    } else {
        p@[1] + lod
    };
    seq![
        [p@[0], p@[1]],
        [far_x as u32, p@[1]],
        [far_x as u32, far_y as u32],
        [p@[0], far_y as u32],
    ]
}

/// The four height samples a terrain quad of the given level of detail spans.
pub fn terrain_quad_corners(starting_position: [u32; 2], lod: usize, size: WorldSize) -> (r: [[u32; 2]; 4])
    requires
        1 <= lod,
        starting_position@[0] + lod <= u32::MAX,
        starting_position@[1] + lod <= u32::MAX,
    ensures
        r@ == spec_terrain_quad_corners(starting_position, lod as int, size),
{
    let lod_offset: u32 = (lod - 1) as u32;
    let x = starting_position[0];
    let y = starting_position[1];
    let far_x_unclamped = x + 1 + lod_offset;
    let far_y_unclamped = y + 1 + lod_offset;
    let far_x = if far_x_unclamped > size[0] {
        size[0]
    } else {
        far_x_unclamped
    };
    let far_y = if far_y_unclamped > size[1] {
        size[1]
    } else {
        far_y_unclamped
    };
    let r = [[x, y], [far_x, y], [far_x, far_y], [x, far_y]];
    proof {
        let s = spec_terrain_quad_corners(starting_position, lod as int, size);
        assert forall|i: int| 0 <= i < 4 implies #[trigger] r@[i] == s[i] by {
            vstd::array::axiom_array_ext_equal(r@[i], s[i]);
        }
    }
    assert(r@ =~= spec_terrain_quad_corners(starting_position, lod as int, size));
    r
}

/// A terrain quad starts at its starting sample and reaches `lod` samples further along each
/// axis, but never past the heightmap: each far coordinate is the smaller of the start plus `lod`
/// and the heightmap's size along that axis.
pub proof fn law_terrain_quad_stays_in_heightmap(p: [u32; 2], lod: int, size: WorldSize)
    requires
        1 <= lod,
        p@[0] + lod <= u32::MAX,
        p@[1] + lod <= u32::MAX,
    ensures
        ({
            let c = spec_terrain_quad_corners(p, lod, size);
            &&& c.len() == 4
            &&& c[0] == p
            &&& c[1]@[0] == c[2]@[0] && c[1]@[1] == p@[1]
            &&& c[3]@[0] == p@[0] && c[3]@[1] == c[2]@[1]
            &&& forall|a: int|
                0 <= a < 2 ==> {
                    &&& c[2]@[a] <= p@[a] + lod
                    &&& c[2]@[a] <= size@[a]
                    &&& (c[2]@[a] == p@[a] + lod || c[2]@[a] == size@[a])
                }
        }),
{
    let c = spec_terrain_quad_corners(p, lod, size);
    vstd::array::axiom_array_ext_equal(c[0], p);
}

/// Number of quads of side `step` along one side of a chunk.
pub open spec fn quads_per_side(step: int) -> int {
    (CHUNK_SIZE + step - 1) / step
}

/// The origins of the terrain quads of one chunk when quads are `step` tiles wide, row by row:
/// every multiple of `step` below the chunk size along each axis, offset by the chunk's corner.
pub open spec fn spec_chunk_quad_origins(chunk: [u32; 2], step: int) -> Seq<[u32; 2]> {
    let n = quads_per_side(step);
    Seq::new(
        (n * n) as nat,
        |k: int|
            [
                (chunk@[0] * CHUNK_SIZE + (k % n) * step) as u32,
                (chunk@[1] * CHUNK_SIZE + (k / n) * step) as u32,
            ],
    )
}

/// Every multiple of `step` counted by `quads_per_side` lies inside the chunk.
proof fn lemma_quad_steps_inside_chunk(step: int, i: int)
    requires
        step >= 1,
        0 <= i < quads_per_side(step),
    ensures
        0 <= i * step < CHUNK_SIZE,
        quads_per_side(step) >= 1,
        quads_per_side(step) <= CHUNK_SIZE,
{
    let n = quads_per_side(step);
    let m = CHUNK_SIZE + step - 1;
    vstd::arithmetic::div_mod::lemma_fundamental_div_mod(m, step);
    assert(0 <= i * step < CHUNK_SIZE) by (nonlinear_arith)
        requires
            m == step * n + m % step,
            0 <= m % step < step,
            m == CHUNK_SIZE + step - 1,
            0 <= i < n,
            step >= 1,
    ;
    assert(1 <= n <= CHUNK_SIZE) by (nonlinear_arith)
        requires
            m == step * n + m % step,
            0 <= m % step < step,
            m == CHUNK_SIZE + step - 1,
            step >= 1,
    ;
}

/// The origins of the terrain quads of one chunk when quads are `step` tiles wide.
pub fn chunk_quad_origins(chunk: [u32; 2], step: usize) -> (r: Vec<[u32; 2]>)
    requires
        1 <= step,
        chunk@[0] * CHUNK_SIZE + CHUNK_SIZE <= u32::MAX,
        chunk@[1] * CHUNK_SIZE + CHUNK_SIZE <= u32::MAX,
    ensures
        r@ == spec_chunk_quad_origins(chunk, step as int),
{
    let step32: u32 = if step > CHUNK_SIZE as usize {
        CHUNK_SIZE
    } else {
        step as u32
    };
    let n: u32 = if step > CHUNK_SIZE as usize {
        1
    } else {
        (CHUNK_SIZE + step32 - 1) / step32
    };
    assert(n == quads_per_side(step as int)) by {
        if step > CHUNK_SIZE {
            let m = CHUNK_SIZE + step - 1;
            vstd::arithmetic::div_mod::lemma_fundamental_div_mod_converse(m, step as int, 1, m - step);
        }
    }
    proof {
        lemma_quad_steps_inside_chunk(step as int, 0);
    }
    let base_x = chunk[0] * CHUNK_SIZE;
    let base_y = chunk[1] * CHUNK_SIZE;
    let ghost target = spec_chunk_quad_origins(chunk, step as int);
    let mut origins: Vec<[u32; 2]> = Vec::new();
    let mut row: u32 = 0;
    while row < n
        invariant
            1 <= step,
            1 <= n <= CHUNK_SIZE,
            n == quads_per_side(step as int),
            step > CHUNK_SIZE ==> n == 1,
            step <= CHUNK_SIZE ==> step32 == step,
            base_x == chunk@[0] * CHUNK_SIZE,
            base_y == chunk@[1] * CHUNK_SIZE,
            chunk@[0] * CHUNK_SIZE + CHUNK_SIZE <= u32::MAX,
            chunk@[1] * CHUNK_SIZE + CHUNK_SIZE <= u32::MAX,
            target == spec_chunk_quad_origins(chunk, step as int),
            row <= n,
            origins@.len() == row * n,
            forall|k: int| 0 <= k < origins@.len() ==> #[trigger] origins@[k] == target[k],
        decreases n - row,
    {
        let mut column: u32 = 0;
        proof {
            lemma_quad_steps_inside_chunk(step as int, row as int);
        }
        let y_step: u32 = if n == 1 { 0 } else { row * step32 };
        assert(y_step == row * step) by {
            if n == 1 {
                assert(row == 0);
            }
        }
        while column < n
            invariant
                1 <= step,
                1 <= n <= CHUNK_SIZE,
                n == quads_per_side(step as int),
                step > CHUNK_SIZE ==> n == 1,
                step <= CHUNK_SIZE ==> step32 == step,
                base_x == chunk@[0] * CHUNK_SIZE,
                base_y == chunk@[1] * CHUNK_SIZE,
                chunk@[0] * CHUNK_SIZE + CHUNK_SIZE <= u32::MAX,
                chunk@[1] * CHUNK_SIZE + CHUNK_SIZE <= u32::MAX,
                target == spec_chunk_quad_origins(chunk, step as int),
                row < n,
                y_step == row * step,
                0 <= y_step < CHUNK_SIZE,
                column <= n,
                origins@.len() == row * n + column,
                forall|k: int| 0 <= k < origins@.len() ==> #[trigger] origins@[k] == target[k],
            decreases n - column,
        {
            proof {
                lemma_quad_steps_inside_chunk(step as int, column as int);
            }
            let x_step: u32 = if n == 1 { 0 } else { column * step32 };
            assert(x_step == column * step) by {
                if n == 1 {
                    assert(column == 0);
                }
            }
            let ghost k = row * n + column;
            proof {
                vstd::arithmetic::div_mod::lemma_fundamental_div_mod_converse(k, n as int, row as int, column as int);
                assert(row * n + column < n * n) by (nonlinear_arith)
                    requires
                        row < n,
                        column < n,
                ;
            }
            origins.push([base_x + x_step, base_y + y_step]);
            proof {
                vstd::array::axiom_array_ext_equal(origins@[k], target[k]);
            }
            column = column + 1;
        }
        row = row + 1;
        assert(origins@.len() == row * n) by (nonlinear_arith)
            requires
                origins@.len() == (row - 1) * n + n,
        ;
    }
    assert(origins@.len() == n * n) by (nonlinear_arith)
        requires
            origins@.len() == row * n,
            row == n,
    ;
    assert(origins@ =~= target);
    origins
}

} // verus!
