use vstd::prelude::*;

use crate::utils::vector::IVec2;
use crate::world_gen::consts::CHUNK_SIZE;

verus! {

/// The first vertex index of the quad of the chunk tile at `(x, y)`: tiles are numbered row by
/// row and each has four vertices.
pub open spec fn chunk_tile_first_vertex(x: int, y: int) -> int {
    (x + y * CHUNK_SIZE) * 4
}

/// Whether the vertex indices of the chunk tile at `position` fit in `u32`.
pub open spec fn chunk_tile_fits(position: IVec2) -> bool {
    let c = chunk_tile_first_vertex(position.x as int, position.y as int);
    &&& i32::MIN <= position.y * CHUNK_SIZE <= i32::MAX
    &&& i32::MIN <= position.x + position.y * CHUNK_SIZE <= i32::MAX
    &&& i32::MIN <= c <= i32::MAX
    &&& (c as i32) as u32 + 3 <= u32::MAX
}

/// The two triangles of the quad of a chunk tile.
pub fn chunk_tile_indices(position: IVec2) -> (r: [u32; 6])
    requires
        chunk_tile_fits(position),
    ensures
        ({
            let c = ((chunk_tile_first_vertex(position.x as int, position.y as int)) as i32) as u32 as int;
            r@ == seq![(c + 2) as u32, (c + 1) as u32, c as u32, c as u32, (c + 3) as u32, (c + 2) as u32]
        }),
{
    let indices_count = ((position.x + position.y * CHUNK_SIZE as i32) * 4) as u32;
    let r = [
        indices_count + 2,
        indices_count + 1,
        indices_count + 0,
        indices_count + 0,
        indices_count + 3,
        indices_count + 2,
    ];
    assert(r@ =~= seq![
        (indices_count + 2) as u32,
        (indices_count + 1) as u32,
        indices_count,
        indices_count,
        (indices_count + 3) as u32,
        (indices_count + 2) as u32,
    ]);
    r
}

/// The eight triangles of the outline of a grid tile whose eight vertices (outer square, then
/// inner square) start at `c`: two per side, top, right, bottom, left.
pub open spec fn spec_grid_outline_indices(c: int) -> Seq<u32> {
    seq![
        c as u32, (c + 4) as u32, (c + 1) as u32, (c + 1) as u32, (c + 4) as u32, (c + 5) as u32,
        (c + 1) as u32, (c + 5) as u32, (c + 2) as u32, (c + 2) as u32, (c + 5) as u32, (c + 6) as u32,
        (c + 2) as u32, (c + 6) as u32, (c + 3) as u32, (c + 3) as u32, (c + 6) as u32, (c + 7) as u32,
        (c + 3) as u32, (c + 7) as u32, c as u32, c as u32, (c + 7) as u32, (c + 4) as u32,
    ]
}

/// The triangles of the outline of the grid tile at `position` of a chunk: tiles are numbered
/// row by row and each has eight vertices.
pub fn grid_tile_indices(position: IVec2) -> (r: [u32; 24])
    requires
        0 <= position.x < CHUNK_SIZE,
        0 <= position.y < CHUNK_SIZE,
    ensures
        r@ == spec_grid_outline_indices((position.x + position.y * CHUNK_SIZE) * 8),
{
    let c: u32 = ((position.x as u32) + (position.y as u32) * CHUNK_SIZE) * 8;
    let r = [
        c, c + 4, c + 1, c + 1, c + 4, c + 5,
        c + 1, c + 5, c + 2, c + 2, c + 5, c + 6,
        c + 2, c + 6, c + 3, c + 3, c + 6, c + 7,
        c + 3, c + 7, c, c, c + 7, c + 4,
    ];
    assert(r@ =~= spec_grid_outline_indices((position.x + position.y * CHUNK_SIZE) * 8));
    r
}

/// The triangle indices of one mesh that is merged into a combined mesh, and its number of
/// vertices. Meshes whose indices are not 32-bit carry `None`: they add nothing, not even
/// vertices to count.
#[derive(Clone, Debug)]
pub struct MeshIndices {
    pub indices: Option<Vec<u32>>,
    pub vertex_count: usize,
}

/// A mesh's indices and vertex count, as plain values.
pub open spec fn mesh_view(m: MeshIndices) -> (Option<Seq<u32>>, usize) {
    (
        match m.indices {
            Some(v) => Some(v@),
            None => None,
        },
        m.vertex_count,
    )
}

/// The indices of meshes merged in order, each mesh's indices shifted by the number of vertices
/// of the meshes before it, and that number after the last one.
pub open spec fn combined_indices(meshes: Seq<(Option<Seq<u32>>, usize)>) -> (Seq<u32>, int)
    decreases meshes.len(),
{
    if meshes.len() == 0 {
        (Seq::empty(), 0)
    } else {
        let (before, offset) = combined_indices(meshes.drop_last());
        match meshes.last().0 {
            Some(indices) => (
                before + indices.map_values(|i: u32| (i + offset) as u32),
                offset + (meshes.last().1 as u32),
            ),
            None => (before, offset),
        }
    }
}

/// Whether merging the meshes keeps every shifted index and every vertex count within `u32`.
pub open spec fn combine_fits(meshes: Seq<(Option<Seq<u32>>, usize)>) -> bool
    decreases meshes.len(),
{
    if meshes.len() == 0 {
        true
    } else {
        let offset = combined_indices(meshes.drop_last()).1;
        &&& combine_fits(meshes.drop_last())
        &&& match meshes.last().0 {
            Some(indices) => {
                &&& forall|j: int| 0 <= j < indices.len() ==> #[trigger] indices[j] + offset <= u32::MAX
                &&& offset + (meshes.last().1 as u32) <= u32::MAX
            },
            None => true,
        }
    }
}

/// The triangle indices of several meshes merged into one, each mesh's indices shifted past the
/// vertices of the meshes before it.
pub fn combine_mesh_indices(meshes: &Vec<MeshIndices>) -> (r: Vec<u32>)
    requires
        combine_fits(meshes@.map_values(|m: MeshIndices| mesh_view(m))),
    ensures
        r@ == combined_indices(meshes@.map_values(|m: MeshIndices| mesh_view(m))).0,
{
    let ghost all = meshes@.map_values(|m: MeshIndices| mesh_view(m));
    let mut indices: Vec<u32> = Vec::new();
    let mut indices_offset: u32 = 0;
    let mut k: usize = 0;
    while k < meshes.len()
        invariant
            k <= meshes@.len(),
            all == meshes@.map_values(|m: MeshIndices| mesh_view(m)),
            combine_fits(all),
            indices@ == combined_indices(all.take(k as int)).0,
            indices_offset == combined_indices(all.take(k as int)).1,
        decreases meshes@.len() - k,
    {
        let ghost prefix = all.take(k as int + 1);
        proof {
            assert(prefix.drop_last() =~= all.take(k as int));
            assert(prefix.last() == mesh_view(meshes@[k as int]));
            lemma_combine_fits_prefix(all, k as int + 1);
        }
        match &meshes[k].indices {
            Some(mesh_indices) => {
                proof {
                    assert(prefix.last().0 == Some(mesh_indices@));
                    assert(combined_indices(prefix.drop_last()).1 == indices_offset);
                    assert(combine_fits(prefix));
                    let offset = combined_indices(prefix.drop_last()).1;
                    let ix = prefix.last().0->0;
                    assert(ix == mesh_indices@);
                    assert(forall|j: int| 0 <= j < ix.len() ==> #[trigger] ix[j] + offset <= u32::MAX);
                }
                let ghost before = indices@;
                let mut j: usize = 0;
                while j < mesh_indices.len()
                    invariant
                        j <= mesh_indices@.len(),
                        indices@ == before + mesh_indices@.take(j as int).map_values(
                            |i: u32| (i + indices_offset) as u32,
                        ),
                        forall|t: int| 0 <= t < mesh_indices@.len() ==> #[trigger] mesh_indices@[t] + indices_offset <= u32::MAX,
                    decreases mesh_indices@.len() - j,
                {
                    indices.push(mesh_indices[j] + indices_offset);
                    j = j + 1;
                    assert(indices@ =~= before + mesh_indices@.take(j as int).map_values(
                        |i: u32| (i + indices_offset) as u32,
                    ));
                }
                assert(mesh_indices@.take(mesh_indices@.len() as int) =~= mesh_indices@);
                indices_offset = indices_offset + meshes[k].vertex_count as u32;
            },
            None => {},
        }
        k = k + 1;
    }
    assert(all.take(meshes@.len() as int) =~= all);
    indices
}

/// Merging is possible for every prefix of the meshes when it is possible for all of them.
proof fn lemma_combine_fits_prefix(meshes: Seq<(Option<Seq<u32>>, usize)>, k: int)
    requires
        combine_fits(meshes),
        0 <= k <= meshes.len(),
    ensures
        combine_fits(meshes.take(k)),
    decreases meshes.len() - k,
{
    if k < meshes.len() {
        lemma_combine_fits_prefix(meshes, k + 1);
        assert(meshes.take(k + 1).drop_last() =~= meshes.take(k));
    } else {
        assert(meshes.take(k) =~= meshes);
    }
}


/// Whether every index of every mesh names one of that mesh's own vertices.
pub open spec fn indices_in_range(meshes: Seq<(Option<Seq<u32>>, usize)>) -> bool {
    forall|k: int| #![trigger meshes[k]] 0 <= k < meshes.len() ==> {
        &&& meshes[k].1 <= u32::MAX
        &&& match meshes[k].0 {
            Some(indices) => forall|j: int| 0 <= j < indices.len() ==> #[trigger] indices[j] < meshes[k].1,
            None => true,
        }
    }
}

/// Merged meshes stay valid: when every mesh's indices name its own vertices, every index of
/// the merged mesh names one of the merged vertices.
pub proof fn law_combined_indices_in_range(meshes: Seq<(Option<Seq<u32>>, usize)>)
    requires
        combine_fits(meshes),
        indices_in_range(meshes),
    ensures
        forall|j: int| 0 <= j < combined_indices(meshes).0.len() ==> #[trigger] combined_indices(meshes).0[j]
            < combined_indices(meshes).1,
        combined_indices(meshes).1 >= 0,
    decreases meshes.len(),
{
    if meshes.len() > 0 {
        let rest = meshes.drop_last();
        assert forall|k: int| #![trigger rest[k]] 0 <= k < rest.len() implies {
            &&& rest[k].1 <= u32::MAX
            &&& match rest[k].0 {
                Some(indices) => forall|j: int| 0 <= j < indices.len() ==> #[trigger] indices[j] < rest[k].1,
                None => true,
            }
        } by {
            assert(rest[k] == meshes[k]);
        }
        law_combined_indices_in_range(rest);
        let (before, offset) = combined_indices(rest);
        let last = meshes.last();
        assert(last == meshes[meshes.len() - 1]);
        match last.0 {
            Some(indices) => {
                let shifted = indices.map_values(|i: u32| (i + offset) as u32);
                let total = offset + (last.1 as u32);
                assert forall|j: int| 0 <= j < (before + shifted).len() implies #[trigger] (before + shifted)[j] < total by {
                    if j < before.len() {
                        assert((before + shifted)[j] == before[j]);
                    } else {
                        let i = j - before.len();
                        assert((before + shifted)[j] == shifted[i]);
                        assert(indices[i] + offset <= u32::MAX);
                        assert(indices[i] < last.1);
                    }
                }
            },
            None => {},
        }
    }
}

/// The tiles of a chunk each use their own four vertices: the vertex ranges of two different
/// tiles do not overlap, and all of them lie among the chunk's `4 * CHUNK_SIZE * CHUNK_SIZE`
/// vertices.
pub proof fn law_chunk_tiles_use_their_own_vertices(a: IVec2, b: IVec2)
    requires
        0 <= a.x < CHUNK_SIZE,
        0 <= a.y < CHUNK_SIZE,
        0 <= b.x < CHUNK_SIZE,
        0 <= b.y < CHUNK_SIZE,
    ensures
        0 <= chunk_tile_first_vertex(a.x as int, a.y as int),
        chunk_tile_first_vertex(a.x as int, a.y as int) + 3 < 4 * CHUNK_SIZE * CHUNK_SIZE,
        a != b ==> chunk_tile_first_vertex(a.x as int, a.y as int) + 4 <= chunk_tile_first_vertex(b.x as int, b.y as int)
            || chunk_tile_first_vertex(b.x as int, b.y as int) + 4 <= chunk_tile_first_vertex(a.x as int, a.y as int),
{
    let ta = a.x + a.y * CHUNK_SIZE;
    let tb = b.x + b.y * CHUNK_SIZE;
    assert(0 <= ta < CHUNK_SIZE * CHUNK_SIZE) by (nonlinear_arith)
        requires
            0 <= a.x < CHUNK_SIZE,
            0 <= a.y < CHUNK_SIZE,
            ta == a.x + a.y * CHUNK_SIZE,
    ;
    if a != b {
        if ta == tb {
            vstd::arithmetic::div_mod::lemma_fundamental_div_mod_converse(ta, CHUNK_SIZE as int, a.y as int, a.x as int);
            vstd::arithmetic::div_mod::lemma_fundamental_div_mod_converse(tb, CHUNK_SIZE as int, b.y as int, b.x as int);
        }
    }
}

/// A mesh without 32-bit indices changes nothing when merged: taking it out of the list gives
/// the same merged indices and the same vertex count, and merging fits exactly as before.
pub proof fn law_mesh_without_indices_adds_nothing(meshes: Seq<(Option<Seq<u32>>, usize)>, k: int)
    requires
        0 <= k < meshes.len(),
        meshes[k].0 is None,
    ensures
        combined_indices(meshes.remove(k)) == combined_indices(meshes),
        combine_fits(meshes.remove(k)) == combine_fits(meshes),
    decreases meshes.len(),
{
    if k == meshes.len() - 1 {
        assert(meshes.remove(k) =~= meshes.drop_last());
    } else {
        let rest = meshes.drop_last();
        assert(rest[k] == meshes[k]);
        law_mesh_without_indices_adds_nothing(rest, k);
        let removed = meshes.remove(k);
        assert(removed.drop_last() =~= rest.remove(k));
        assert(removed.last() == meshes.last());
    }
}

} // verus!
