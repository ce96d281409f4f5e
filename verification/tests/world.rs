use voxel_engine::environment::chunk::{BlockType, Chunk};
use voxel_engine::environment::raycast::{next_axis, raycast, Axis, RayDirection};
use voxel_engine::environment::streaming::{
    may_finalize, ChunkStreaming, MAX_FINALIZED_CHUNKS_PER_FRAME,
};
use voxel_engine::environment::world::{chunks_around, World};

fn floor_chunk() -> Chunk {
    let mut chunk = Chunk::empty();
    for x in 0..16 {
        for z in 0..16 {
            chunk.set(x, 0, z, BlockType::Stone);
        }
    }
    chunk
}

fn world_with(places: &[(i32, i32)]) -> World {
    let mut world = World::new(7, String::from("saves/prueba"));
    for &(cx, cz) in places {
        world.insert_loaded_chunk(cx, cz, floor_chunk());
    }
    world
}

#[test]
fn a_new_world_is_empty() {
    let world = World::new(99, String::from("saves/a"));
    assert_eq!(world.seed(), 99);
    assert_eq!(world.save_dir(), "saves/a");
    assert!(!world.has_chunk(0, 0));
    assert!(world.loaded_chunks().is_empty());
    assert_eq!(world.get_block(3, 5, 3), BlockType::Air);
    assert!(world.chunks_to_save().is_empty());
}

#[test]
fn coordinates_fall_into_chunks() {
    assert_eq!(World::world_pos_to_chunk(0, 0), (0, 0));
    assert_eq!(World::world_pos_to_chunk(15, 16), (0, 1));
    assert_eq!(World::world_pos_to_chunk(-1, -16), (-1, -1));
    assert_eq!(World::world_pos_to_chunk(-17, i32::MIN), (-2, -134217728));
}

#[test]
fn blocks_are_read_back_across_chunks() {
    let mut world = world_with(&[(0, 0), (-1, 0)]);
    world.set_block(-1, 10, 5, BlockType::Wood);
    world.set_block(0, 10, 5, BlockType::Leaves);
    assert_eq!(world.get_block(-1, 10, 5), BlockType::Wood);
    assert_eq!(world.get_block(0, 10, 5), BlockType::Leaves);
    assert_eq!(world.get_block(15, 10, 5), BlockType::Air);
    assert_eq!(world.get_block(-1, 0, 5), BlockType::Stone);
}

#[test]
fn placing_outside_the_height_does_nothing() {
    let mut world = world_with(&[(0, 0)]);
    assert!(world.set_block(1, -1, 1, BlockType::Dirt).is_empty());
    assert!(world.set_block(1, 64, 1, BlockType::Dirt).is_empty());
    assert_eq!(world.get_block(1, 64, 1), BlockType::Air);
    assert!(world.chunks_to_save().is_empty());
}

#[test]
fn placing_into_the_void_makes_a_chunk() {
    let mut world = World::new(1, String::new());
    assert_eq!(world.set_block(40, 3, 40, BlockType::Dirt), vec![(2, 2)]);
    assert!(world.has_chunk(2, 2));
    assert_eq!(world.get_block(40, 3, 40), BlockType::Dirt);
    assert_eq!(world.chunks_to_save(), vec![(2, 2)]);
}

#[test]
fn edits_at_a_border_remesh_the_neighbours() {
    let mut world = world_with(&[(0, 0)]);
    assert_eq!(world.set_block(5, 5, 5, BlockType::Dirt), vec![(0, 0)]);
    assert_eq!(world.set_block(0, 5, 5, BlockType::Dirt), vec![(0, 0), (-1, 0)]);
    assert_eq!(world.set_block(15, 5, 5, BlockType::Dirt), vec![(0, 0), (1, 0)]);
    assert_eq!(world.set_block(0, 5, 15, BlockType::Dirt), vec![(0, 0), (-1, 0), (0, 1)]);
    assert_eq!(world.set_block(15, 5, 0, BlockType::Dirt), vec![(0, 0), (1, 0), (0, -1)]);
}

#[test]
fn neighbours_are_listed_side_by_side() {
    assert_eq!(World::direct_neighbors(2, -3), [(1, -3), (3, -3), (2, -4), (2, -2)]);
    let mut world = world_with(&[(0, 0), (1, 0)]);
    let around = world.chunk_neighborhood(0, 0);
    assert!(around.is_some());
    let nb = around.unwrap();
    assert!(nb.pos_x.is_some());
    assert!(nb.neg_x.is_none());
    assert_eq!(nb.get(16, 0, 3), BlockType::Stone);
    assert_eq!(nb.get(-1, 0, 3), BlockType::Air);
    assert!(world.chunk_neighborhood(5, 5).is_none());
    assert!(world.unload_chunk(1, 0).is_none());
}

#[test]
fn a_loaded_chunk_is_not_replaced() {
    let mut world = world_with(&[(0, 0)]);
    world.load_chunk(0, 0, Chunk::empty());
    assert_eq!(world.get_block(0, 0, 0), BlockType::Stone);
    world.load_chunk(0, 1, floor_chunk());
    assert_eq!(world.get_block(0, 0, 16), BlockType::Stone);
    world.insert_loaded_chunk(0, 1, Chunk::empty());
    assert_eq!(world.get_block(0, 0, 16), BlockType::Air);
}

#[test]
fn an_area_is_filled_in_order() {
    let places = chunks_around((0, 0), 1);
    assert_eq!(
        places,
        vec![(-1, -1), (-1, 0), (-1, 1), (0, -1), (0, 0), (0, 1), (1, -1), (1, 0), (1, 1)]
    );
    let mut chunks = Vec::new();
    for n in 0..9usize {
        let mut chunk = Chunk::empty();
        chunk.set(n, 0, 0, BlockType::Stone);
        chunks.push(chunk);
    }
    let mut world = World::new(3, String::new());
    world.generate_area(1, chunks);
    assert_eq!(world.loaded_chunks().len(), 9);
    assert_eq!(world.chunk(-1, -1).unwrap().get(0, 0, 0), BlockType::Stone);
    assert_eq!(world.chunk(0, 0).unwrap().get(4, 0, 0), BlockType::Stone);
    assert_eq!(world.chunk(1, 1).unwrap().get(8, 0, 0), BlockType::Stone);
}

#[test]
fn saving_counts_what_was_written() {
    let mut world = world_with(&[(0, 0), (3, 3)]);
    assert_eq!(world.save_dirty_chunks(true, &Vec::new()), 0);
    world.set_block(1, 1, 1, BlockType::Dirt);
    world.set_block(50, 1, 50, BlockType::Dirt);
    assert_eq!(world.chunks_to_save().len(), 2);
    // Without a directory nothing is saved and nothing is forgotten.
    assert_eq!(world.save_dirty_chunks(false, &Vec::new()), 0);
    assert_eq!(world.chunks_to_save().len(), 2);
    assert_eq!(world.save_dirty_chunks(true, &vec![true, false]), 1);
    assert!(world.chunks_to_save().is_empty());
}

#[test]
fn unloading_hands_over_unsaved_changes() {
    let mut world = world_with(&[(0, 0), (1, 0)]);
    world.set_block(2, 8, 2, BlockType::Sponge);
    let saved = world.unload_chunk(0, 0);
    assert!(!world.has_chunk(0, 0));
    let chunk = saved.expect("the chunk has changes");
    assert_eq!(chunk.get(2, 8, 2), BlockType::Sponge);
    world.load_chunk(0, 0, chunk);
    assert_eq!(world.get_block(2, 8, 2), BlockType::Sponge);
    assert!(world.chunks_to_save().is_empty());
    assert!(world.unload_chunk(1, 0).is_none());
    assert!(world.unload_chunk(9, 9).is_none());
}

#[test]
fn a_saved_chunk_is_preferred_to_a_new_one() {
    let world = World::new(5, String::from("saves/m"));
    let loader = world.loader();
    assert_eq!(loader.chunk_file_path(-2, 7), "saves/m/chunk_-2_7.bin");
    assert_eq!(loader.generator().seed(), 5);
    let mut saved = Chunk::empty();
    saved.set(1, 2, 3, BlockType::Wood);
    let chunk = loader.load_or_generate(0, 0, Some(saved), &Vec::new());
    assert_eq!(chunk.get(1, 2, 3), BlockType::Wood);
}

#[test]
fn an_empty_chunk_has_nothing_to_show() {
    let mut world = World::new(5, String::new());
    world.insert_loaded_chunk(0, 0, Chunk::empty());
    assert!(world.remesh_chunk(0, 0).is_none());
    assert!(world.remesh_chunk(1, 0).is_none());
    assert!(world.generate_chunk_mesh(0, 0).unwrap().indices.is_empty());
    world.set_block(4, 4, 4, BlockType::Stone);
    assert_eq!(world.remesh_chunk(0, 0).unwrap().indices.len(), 36);
}

#[test]
fn rays_cross_the_nearest_border() {
    assert_eq!(next_axis(true, true, false), Axis::X);
    assert_eq!(next_axis(true, false, true), Axis::Y);
    assert_eq!(next_axis(true, false, false), Axis::Z);
    assert_eq!(next_axis(false, true, true), Axis::Y);
}

#[test]
fn a_ray_stops_at_the_first_block() {
    let mut world = world_with(&[(0, 0)]);
    world.set_block(8, 5, 4, BlockType::Stone);
    let dir = RayDirection { x_forward: true, y_forward: true, z_forward: true };
    let steps = vec![Axis::X, Axis::X, Axis::X, Axis::X];
    let hit = raycast(&world, (5, 5, 4), dir, &steps).unwrap();
    assert_eq!(hit.block_pos, (8, 5, 4));
    assert_eq!(hit.place_pos, (7, 5, 4));
    // One step less and the block is out of reach.
    assert!(raycast(&world, (5, 5, 4), dir, &vec![Axis::X, Axis::X, Axis::X]).is_none());
}

#[test]
fn a_ray_passes_through_water() {
    let mut world = world_with(&[(0, 0)]);
    world.set_block(3, 3, 3, BlockType::Water(0));
    let dir = RayDirection { x_forward: true, y_forward: false, z_forward: true };
    let steps = vec![Axis::Y, Axis::Y, Axis::Y, Axis::Y, Axis::Y];
    let hit = raycast(&world, (3, 4, 3), dir, &steps).unwrap();
    assert_eq!(hit.block_pos, (3, 0, 3));
    assert_eq!(hit.place_pos, (3, 1, 3));
}

#[test]
fn a_ray_that_starts_inside_a_block_hits_it() {
    let world = world_with(&[(0, 0)]);
    let dir = RayDirection { x_forward: false, y_forward: true, z_forward: false };
    let hit = raycast(&world, (2, 0, 2), dir, &vec![Axis::Z]).unwrap();
    assert_eq!(hit.block_pos, (2, 0, 2));
    assert_eq!(hit.place_pos, (2, 0, 2));
}

#[test]
fn streaming_asks_for_the_square_around_the_player() {
    let mut world = World::new(1, String::new());
    let mut streaming = ChunkStreaming::new((0, 0), 1);
    let plan = streaming.update(&mut world, (0, 0), 1, true);
    assert_eq!(plan.requested, chunks_around((0, 0), 1));
    assert!(plan.unloaded.is_empty());
    assert!(streaming.is_pending((1, 1)));
    // The same again asks for nothing: all of it is on its way.
    let again = streaming.update(&mut world, (0, 0), 1, true);
    assert!(again.requested.is_empty());
}

#[test]
fn streaming_stands_still_while_nothing_changes() {
    let mut world = world_with(&[(9, 9)]);
    let mut streaming = ChunkStreaming::new((0, 0), 1);
    let plan = streaming.update(&mut world, (0, 0), 1, false);
    assert!(plan.requested.is_empty());
    assert!(plan.unloaded.is_empty());
    assert!(world.has_chunk(9, 9));
}

#[test]
fn streaming_lets_go_of_what_is_far_away() {
    let mut world = world_with(&[(0, 0), (5, 0), (6, 0)]);
    world.set_block(81, 3, 1, BlockType::Dirt);
    let mut streaming = ChunkStreaming::new((0, 0), 2);
    let plan = streaming.update(&mut world, (0, 0), 1, false);
    let mut gone = plan.unloaded.clone();
    gone.sort();
    assert_eq!(gone, vec![(5, 0), (6, 0)]);
    assert_eq!(plan.to_write.len(), 1);
    assert_eq!(plan.to_write[0].0, (5, 0));
    assert_eq!(plan.to_write[0].1.get(1, 3, 1), BlockType::Dirt);
    assert!(world.has_chunk(0, 0));
    assert_eq!(plan.requested.len(), 8);
    assert!(!plan.requested.contains(&(0, 0)));
}

#[test]
fn an_arrived_chunk_remeshes_its_loaded_neighbours() {
    let mut world = world_with(&[(1, 0), (0, 1)]);
    let mut streaming = ChunkStreaming::new((0, 0), 1);
    streaming.update(&mut world, (0, 0), 1, true);
    let remesh = streaming.chunk_arrived(&mut world, 0, 0, floor_chunk());
    assert_eq!(remesh, vec![(1, 0), (0, 1)]);
    assert!(!streaming.is_pending((0, 0)));
    assert!(world.has_chunk(0, 0));
    // A neighbour that is still on its way will see the new chunk by itself.
    let remesh = streaming.chunk_arrived(&mut world, -1, 0, floor_chunk());
    assert_eq!(remesh, vec![(0, 0)]);
    streaming.forget_pending();
    assert!(!streaming.is_pending((1, 1)));
}

#[test]
fn two_chunks_are_put_in_place_per_frame() {
    assert_eq!(MAX_FINALIZED_CHUNKS_PER_FRAME, 2);
    assert!(may_finalize(0));
    assert!(may_finalize(1));
    assert!(!may_finalize(2));
}
