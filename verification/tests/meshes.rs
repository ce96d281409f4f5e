use voxel_engine::environment::chunk::{BlockType, Chunk};
use voxel_engine::environment::mesher::{chunk_quads, dims, generate_mesh, ChunkNeighborhood, MeshData};

fn corners(mesh: &MeshData, k: usize) -> [(i32, i32, i32); 3] {
    let i = mesh.indices[3 * k] as usize;
    let j = mesh.indices[3 * k + 1] as usize;
    let l = mesh.indices[3 * k + 2] as usize;
    [mesh.vertices[i].position, mesh.vertices[j].position, mesh.vertices[l].position]
}

#[test]
fn the_chunk_has_its_size() {
    assert_eq!(dims(), [16, 64, 16]);
}

#[test]
fn a_lone_block_has_six_faces() {
    let mut chunk = Chunk::empty();
    chunk.set(5, 6, 7, BlockType::Grass);
    let mesh = generate_mesh(&ChunkNeighborhood::isolated(&chunk));
    assert_eq!(mesh.vertices.len(), 24);
    assert_eq!(mesh.indices.len(), 36);
    let quads = chunk_quads(&ChunkNeighborhood::isolated(&chunk));
    assert_eq!(quads.len(), 6);
    assert!(quads.iter().all(|q| q.w == 1 && q.h == 1 && q.block == BlockType::Grass));
    for v in &mesh.vertices {
        assert!(v.position.0 == 5 || v.position.0 == 6);
        assert!(v.position.1 == 6 || v.position.1 == 7);
        assert!(v.position.2 == 7 || v.position.2 == 8);
        assert_eq!(v.drop, 0);
        assert_eq!(v.tile.1, 2);
    }
}

#[test]
fn triangles_turn_towards_their_normal() {
    let mut chunk = Chunk::empty();
    chunk.set(5, 6, 7, BlockType::Stone);
    let mesh = generate_mesh(&ChunkNeighborhood::isolated(&chunk));
    for k in 0..12 {
        let [a, b, c] = corners(&mesh, k);
        let u = (b.0 - a.0, b.1 - a.1, b.2 - a.2);
        let v = (c.0 - a.0, c.1 - a.1, c.2 - a.2);
        let n = (u.1 * v.2 - u.2 * v.1, u.2 * v.0 - u.0 * v.2, u.0 * v.1 - u.1 * v.0);
        let normal = mesh.vertices[mesh.indices[3 * k] as usize].normal;
        assert_eq!(n, normal);
    }
}

#[test]
fn equal_faces_grow_into_one_rectangle() {
    let mut chunk = Chunk::empty();
    for x in 0..16 {
        for z in 0..16 {
            chunk.set(x, 0, z, BlockType::Stone);
        }
    }
    let quads = chunk_quads(&ChunkNeighborhood::isolated(&chunk));
    assert_eq!(quads.len(), 6);
    let top = quads.iter().find(|q| q.axis == 1 && !q.backface).unwrap();
    assert_eq!((top.w, top.h, top.depth), (16, 16, 1));
}

#[test]
fn different_blocks_are_not_merged() {
    let mut chunk = Chunk::empty();
    chunk.set(0, 0, 0, BlockType::Stone);
    chunk.set(1, 0, 0, BlockType::Dirt);
    let quads = chunk_quads(&ChunkNeighborhood::isolated(&chunk));
    // Five faces each: the two that touch are hidden.
    assert_eq!(quads.len(), 10);
}

#[test]
fn faces_towards_a_loaded_neighbour_are_hidden() {
    let mut chunk = Chunk::empty();
    chunk.set(15, 3, 4, BlockType::Stone);
    let mut east = Chunk::empty();
    east.set(0, 3, 4, BlockType::Dirt);
    let alone = chunk_quads(&ChunkNeighborhood::isolated(&chunk));
    assert_eq!(alone.len(), 6);
    let nb = ChunkNeighborhood { center: &chunk, neg_x: None, pos_x: Some(&east), neg_z: None, pos_z: None };
    let beside = chunk_quads(&nb);
    assert_eq!(beside.len(), 5);
    assert!(!beside.iter().any(|q| q.axis == 0 && !q.backface));
    assert_eq!(nb.get(16, 3, 4), BlockType::Dirt);
    assert_eq!(nb.get(15, 3, 4), BlockType::Stone);
}

#[test]
fn water_lies_below_the_top_of_its_cell() {
    let mut chunk = Chunk::empty();
    chunk.set(2, 2, 2, BlockType::Water(0));
    let mesh = generate_mesh(&ChunkNeighborhood::isolated(&chunk));
    // Only the upper face is lowered.
    for v in &mesh.vertices {
        assert_eq!(v.drop, if v.normal == (0, 1, 0) { 1 } else { 0 });
    }
    let mut shallow = Chunk::empty();
    shallow.set(2, 2, 2, BlockType::Water(7));
    let thin = generate_mesh(&ChunkNeighborhood::isolated(&shallow));
    assert!(thin.vertices.iter().filter(|v| v.normal == (0, 1, 0)).all(|v| v.drop == 8));
}

#[test]
fn a_step_between_waters_is_closed() {
    let mut chunk = Chunk::empty();
    chunk.set(2, 2, 2, BlockType::Water(1));
    chunk.set(3, 2, 2, BlockType::Water(3));
    let uneven = chunk_quads(&ChunkNeighborhood::isolated(&chunk));
    // Five faces each towards the air, and one between the two levels.
    assert_eq!(uneven.len(), 11);
    chunk.set(3, 2, 2, BlockType::Water(1));
    let even = chunk_quads(&ChunkNeighborhood::isolated(&chunk));
    assert_eq!(even.len(), 6);
}

#[test]
fn a_mesh_is_the_same_every_time() {
    let mut chunk = Chunk::empty();
    for k in 0..16 {
        chunk.set(k, k, (3 * k) % 16, BlockType::Dirt);
    }
    let a = generate_mesh(&ChunkNeighborhood::isolated(&chunk));
    let b = generate_mesh(&ChunkNeighborhood::isolated(&chunk));
    assert_eq!(a.vertices, b.vertices);
    assert_eq!(a.indices, b.indices);
    assert!(a.indices.iter().all(|i| (*i as usize) < a.vertices.len()));
}

#[test]
fn the_fuller_water_decides_which_side_draws_the_step() {
    for (first, second) in [(0, 3), (3, 0), (2, 2)] {
        let mut chunk = Chunk::empty();
        chunk.set(5, 6, 7, BlockType::Water(first));
        chunk.set(6, 6, 7, BlockType::Water(second));
        let quads = chunk_quads(&ChunkNeighborhood::isolated(&chunk));
        let drawn = |backface: bool| {
            quads.iter().filter(|q| q.axis == 0 && q.backface == backface && q.depth == 6).count()
        };
        assert_eq!(drawn(false), if first < second { 1 } else { 0 });
        assert_eq!(drawn(true), if first > second { 1 } else { 0 });
    }
}
