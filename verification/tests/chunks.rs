use voxel_engine::environment::chunk::{BlockType, Chunk, CHUNK_VOLUME};
use voxel_engine::textures::atlas::{face_for, tile_for, tile_for_row, Face, FACE_COLUMN_ORDER};

#[test]
fn an_empty_chunk_is_air_everywhere() {
    let chunk = Chunk::empty();
    assert_eq!(chunk.blocks.len(), CHUNK_VOLUME);
    assert_eq!(chunk.get(0, 0, 0), BlockType::Air);
    assert_eq!(chunk.get(15, 63, 15), BlockType::Air);
}

#[test]
fn a_block_is_read_back_where_it_was_put() {
    let mut chunk = Chunk::empty();
    chunk.set(3, 40, 9, BlockType::Stone);
    chunk.set(15, 63, 15, BlockType::Water(4));
    assert_eq!(chunk.get(3, 40, 9), BlockType::Stone);
    assert_eq!(chunk.get(15, 63, 15), BlockType::Water(4));
    assert_eq!(chunk.get(9, 40, 3), BlockType::Air);
    assert_eq!(chunk.get(4, 40, 9), BlockType::Air);
}

#[test]
fn outside_the_chunk_there_is_air() {
    let mut chunk = Chunk::empty();
    chunk.set(0, 0, 0, BlockType::Dirt);
    assert_eq!(chunk.get(-1, 0, 0), BlockType::Air);
    assert_eq!(chunk.get(16, 0, 0), BlockType::Air);
    assert_eq!(chunk.get(0, 64, 0), BlockType::Air);
    assert_eq!(chunk.get(0, -1, 0), BlockType::Air);
    assert_eq!(chunk.get(0, 0, 16), BlockType::Air);
}

#[test]
fn cells_have_numbers_of_their_own() {
    assert_eq!(Chunk::index(0, 0, 0), 0);
    assert_eq!(Chunk::index(1, 0, 0), 1);
    assert_eq!(Chunk::index(0, 1, 0), 16);
    assert_eq!(Chunk::index(0, 0, 1), 1024);
    assert_eq!(Chunk::index(15, 63, 15), CHUNK_VOLUME - 1);
}

#[test]
fn a_cloned_chunk_holds_the_same_blocks() {
    let mut chunk = Chunk::empty();
    chunk.set(5, 6, 7, BlockType::Sponge);
    let copy = chunk.clone();
    chunk.set(5, 6, 7, BlockType::Air);
    assert_eq!(copy.get(5, 6, 7), BlockType::Sponge);
}

#[test]
fn water_is_drawn_but_does_not_hold() {
    assert!(BlockType::Water(0).is_solid());
    assert!(!BlockType::Water(0).is_collidable());
    assert!(BlockType::Sponge.is_collidable());
    assert!(BlockType::Leaves.is_collidable());
    assert!(!BlockType::Air.is_solid());
    assert!(!BlockType::Air.is_collidable());
}

#[test]
fn blocks_have_names() {
    assert_eq!(BlockType::Grass.label(), "PASTO");
    assert_eq!(BlockType::Water(3).label(), "AGUA");
    assert_eq!(BlockType::Sponge.label(), "ESPONJA");
    assert_eq!(BlockType::Air.label(), "AIRE");
}

#[test]
fn the_hotbar_has_seven_slots() {
    assert_eq!(BlockType::HOTBAR_SLOTS, 7);
    assert_eq!(BlockType::from_hotbar_slot(1), BlockType::Grass);
    assert_eq!(BlockType::from_hotbar_slot(5), BlockType::Leaves);
    assert_eq!(BlockType::from_hotbar_slot(6), BlockType::Water(0));
    assert_eq!(BlockType::from_hotbar_slot(7), BlockType::Sponge);
}

#[test]
fn faces_point_along_their_axes() {
    assert_eq!(face_for(1, false), Face::Top);
    assert_eq!(face_for(1, true), Face::Bottom);
    assert_eq!(face_for(0, false), Face::East);
    assert_eq!(face_for(0, true), Face::West);
    assert_eq!(face_for(2, false), Face::South);
    assert_eq!(face_for(2, true), Face::North);
    assert!(Face::North.is_side());
    assert!(!Face::Top.is_side());
}

#[test]
fn tiles_follow_the_column_order() {
    for (column, face) in FACE_COLUMN_ORDER.iter().enumerate() {
        assert_eq!(tile_for_row(2, *face), (column as u32, 2));
    }
    assert_eq!(tile_for(BlockType::Stone, Face::Top), (0, 0));
    assert_eq!(tile_for(BlockType::Dirt, Face::West), (5, 1));
    assert_eq!(tile_for(BlockType::Grass, Face::Bottom), (1, 2));
    // Blocks without tiles of their own show stone.
    assert_eq!(tile_for(BlockType::Wood, Face::Top), (0, 0));
    assert_eq!(tile_for(BlockType::Water(0), Face::East), (4, 0));
}
