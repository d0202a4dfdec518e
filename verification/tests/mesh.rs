use city_sim::mesh_generator::{chunk_tile_indices, combine_mesh_indices, grid_tile_indices, MeshIndices};
use city_sim::utils::vector::IVec2;
use city_sim::world_gen::mesh_gen::{
    chunk_edges, chunk_quad_origins, edge_face_indices, edge_face_positions, quad_indices,
    terrain_quad_corners, ChunkEdges, FaceDirection,
};

#[test]
fn chunk_tile_quad_indices() {
    assert_eq!(chunk_tile_indices(IVec2 { x: 0, y: 0 }), [2, 1, 0, 0, 3, 2]);
    assert_eq!(
        chunk_tile_indices(IVec2 { x: 1, y: 2 }),
        [1030, 1029, 1028, 1028, 1031, 1030]
    );
}

#[test]
fn grid_tile_outline_indices() {
    assert_eq!(
        grid_tile_indices(IVec2 { x: 1, y: 0 }),
        [8, 12, 9, 9, 12, 13, 9, 13, 10, 10, 13, 14, 10, 14, 11, 11, 14, 15, 11, 15, 8, 8, 15, 12]
    );
    assert_eq!(grid_tile_indices(IVec2 { x: 0, y: 1 })[0], 1024);
    assert_eq!(grid_tile_indices(IVec2 { x: 127, y: 127 })[23], 131068);
}

#[test]
fn combining_meshes_shifts_each_past_the_ones_before() {
    let meshes = vec![
        MeshIndices {
            indices: Some(vec![0, 1, 2]),
            vertex_count: 3,
        },
        MeshIndices {
            indices: None,
            vertex_count: 5,
        },
        MeshIndices {
            indices: Some(vec![0, 2, 1, 3]),
            vertex_count: 4,
        },
        MeshIndices {
            indices: Some(vec![1]),
            vertex_count: 2,
        },
    ];
    assert_eq!(combine_mesh_indices(&meshes), vec![0, 1, 2, 3, 5, 4, 6, 8]);
    assert_eq!(combine_mesh_indices(&vec![]), Vec::<u32>::new());
}

#[test]
fn a_mesh_without_indices_changes_nothing_when_dropped() {
    let with = vec![
        MeshIndices {
            indices: Some(vec![0, 1, 2]),
            vertex_count: 3,
        },
        MeshIndices {
            indices: None,
            vertex_count: 5,
        },
        MeshIndices {
            indices: Some(vec![2, 0]),
            vertex_count: 3,
        },
    ];
    let without = vec![
        MeshIndices {
            indices: Some(vec![0, 1, 2]),
            vertex_count: 3,
        },
        MeshIndices {
            indices: Some(vec![2, 0]),
            vertex_count: 3,
        },
    ];
    assert_eq!(combine_mesh_indices(&with), vec![0, 1, 2, 5, 3]);
    assert_eq!(combine_mesh_indices(&with), combine_mesh_indices(&without));
}

#[test]
fn edges_of_chunks_on_the_border_of_the_world() {
    assert_eq!(
        chunk_edges([0, 0]),
        ChunkEdges {
            x_direction: Some(FaceDirection::East),
            x_offset: 0,
            y_direction: Some(FaceDirection::South),
            y_offset: 0
        }
    );
    assert_eq!(
        chunk_edges([15, 15]),
        ChunkEdges {
            x_direction: Some(FaceDirection::West),
            x_offset: 127,
            y_direction: Some(FaceDirection::North),
            y_offset: 127
        }
    );
    assert_eq!(
        chunk_edges([3, 15]),
        ChunkEdges {
            x_direction: None,
            x_offset: 0,
            y_direction: Some(FaceDirection::North),
            y_offset: 127
        }
    );
    assert_eq!(
        chunk_edges([7, 8]),
        ChunkEdges {
            x_direction: None,
            x_offset: 0,
            y_direction: None,
            y_offset: 0
        }
    );
}

#[test]
fn edge_face_samples_and_indices() {
    assert_eq!(edge_face_positions([5, 7], FaceDirection::North), [[5, 8], [6, 8]]);
    assert_eq!(edge_face_positions([5, 7], FaceDirection::East), [[5, 8], [5, 7]]);
    assert_eq!(edge_face_positions([5, 7], FaceDirection::South), [[5, 7], [6, 7]]);
    assert_eq!(edge_face_positions([5, 7], FaceDirection::West), [[6, 7], [6, 8]]);
    assert_eq!(quad_indices(10), [12, 11, 10, 10, 13, 12]);
    assert_eq!(edge_face_indices(10, FaceDirection::North), [12, 11, 10, 10, 13, 12]);
    assert_eq!(edge_face_indices(10, FaceDirection::West), [10, 11, 12, 12, 13, 10]);
}

#[test]
fn terrain_quads_are_clamped_to_the_heightmap() {
    assert_eq!(
        terrain_quad_corners([4, 6], 2, [129, 129]),
        [[4, 6], [6, 6], [6, 8], [4, 8]]
    );
    assert_eq!(
        terrain_quad_corners([128, 0], 2, [129, 129]),
        [[128, 0], [129, 0], [129, 2], [128, 2]]
    );
}

#[test]
fn quad_origins_of_a_chunk() {
    assert_eq!(
        chunk_quad_origins([1, 0], 64),
        vec![[128, 0], [192, 0], [128, 64], [192, 64]]
    );
    assert_eq!(chunk_quad_origins([1, 2], 200), vec![[128, 256]]);
    let fine = chunk_quad_origins([1, 0], 3);
    assert_eq!(fine.len(), 43 * 43);
    assert_eq!(fine[1], [131, 0]);
    assert_eq!(fine[43], [128, 3]);
    assert_eq!(*fine.last().unwrap(), [254, 126]);
}

#[test]
fn combined_indices_stay_within_the_combined_vertices() {
    let meshes = vec![
        MeshIndices {
            indices: Some(vec![2, 1, 0, 0, 3, 2]),
            vertex_count: 4,
        },
        MeshIndices {
            indices: Some(vec![0, 1, 2]),
            vertex_count: 3,
        },
        MeshIndices {
            indices: Some(vec![4, 4]),
            vertex_count: 5,
        },
    ];
    let combined = combine_mesh_indices(&meshes);
    assert_eq!(combined, vec![2, 1, 0, 0, 3, 2, 4, 5, 6, 11, 11]);
    assert!(combined.iter().all(|&i| i < 12));
}

#[test]
fn chunk_tiles_never_share_vertices() {
    let mut seen = std::collections::HashSet::new();
    for y in 0..128 {
        for x in 0..128 {
            let indices = chunk_tile_indices(IVec2 { x, y });
            let first = *indices.iter().min().unwrap();
            assert_eq!(*indices.iter().max().unwrap(), first + 3);
            assert!(first + 3 < 4 * 128 * 128);
            assert!(seen.insert(first));
            assert_eq!(first % 4, 0);
        }
    }
}
