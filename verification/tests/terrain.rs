use voxel_engine::environment::chunk::BlockType;
use voxel_engine::environment::worldgen::{banded_y, hash_xz, ColumnSample, WorldGenerator};

fn column(height: usize) -> ColumnSample {
    ColumnSample {
        height,
        ravine: false,
        entrance: false,
        cheese: vec![false; 16],
        tunnel: vec![false; 22],
    }
}

fn columns(height: usize) -> Vec<ColumnSample> {
    (0..400).map(|_| column(height)).collect()
}

#[test]
fn columns_hash_to_fixed_numbers() {
    assert_eq!(hash_xz(0, 0, 0), 0);
    assert_eq!(hash_xz(1337, 5, -7), 15072861027891254851);
    assert_eq!(hash_xz(42, -1, -1), 17138524017818319105);
    assert_eq!(hash_xz(0, 1, 0), 17509614380081456743);
}

#[test]
fn heights_fall_into_bands() {
    assert_eq!(banded_y(0, 4), 0);
    assert_eq!(banded_y(7, 4), 4);
    assert_eq!(banded_y(8, 3), 6);
    assert_eq!(banded_y(-1, 4), -4);
}

#[test]
fn seeds_are_kept() {
    let generator = WorldGenerator::new(7);
    assert_eq!(generator.seed(), 7);
    assert_eq!(generator.cave_seed(), 7 ^ 0xCAFE_F00D);
}

#[test]
fn the_ground_is_layered() {
    let chunk = WorldGenerator::new(7).generate_chunk(0, 0, &columns(16));
    assert_eq!(chunk.get(8, 15, 8), BlockType::Grass);
    assert_eq!(chunk.get(8, 14, 8), BlockType::Dirt);
    assert_eq!(chunk.get(8, 12, 8), BlockType::Dirt);
    assert_eq!(chunk.get(8, 11, 8), BlockType::Stone);
    assert_eq!(chunk.get(8, 0, 8), BlockType::Stone);
    // No trees stand at the height of the sea.
    assert_eq!(chunk.get(6, 16, 7), BlockType::Air);
}

#[test]
fn low_ground_lies_under_the_sea() {
    let chunk = WorldGenerator::new(7).generate_chunk(0, 0, &columns(10));
    assert_eq!(chunk.get(3, 9, 3), BlockType::Grass);
    assert_eq!(chunk.get(3, 10, 3), BlockType::Water(0));
    assert_eq!(chunk.get(3, 15, 3), BlockType::Water(0));
    assert_eq!(chunk.get(3, 16, 3), BlockType::Air);
}

#[test]
fn trees_stand_on_scattered_columns() {
    let chunk = WorldGenerator::new(7).generate_chunk(0, 0, &columns(20));
    // The hash puts a tree with a trunk of six on column (13, 11).
    for y in 20..26 {
        assert_eq!(chunk.get(13, y, 11), BlockType::Wood);
    }
    assert_eq!(chunk.get(13, 26, 11), BlockType::Leaves);
    assert_eq!(chunk.get(12, 25, 11), BlockType::Leaves);
    assert_eq!(chunk.get(13, 19, 11), BlockType::Grass);
    assert_eq!(chunk.get(0, 20, 0), BlockType::Air);
    // A crown that came first keeps its leaves where a later trunk passes.
    assert_eq!(chunk.get(6, 20, 7), BlockType::Wood);
    assert_eq!(chunk.get(6, 22, 7), BlockType::Leaves);
}

#[test]
fn trees_outside_reach_into_the_chunk() {
    let chunk = WorldGenerator::new(7).generate_chunk(0, 0, &columns(20));
    // A tree stands on column (-2, 8), outside; its crown ends at x = 0.
    assert_eq!(chunk.get(0, 23, 8), BlockType::Leaves);
    assert_eq!(chunk.get(1, 23, 8), BlockType::Air);
}

#[test]
fn caverns_are_dug_and_flooded_below() {
    let mut cols = columns(40);
    for c in cols.iter_mut() {
        c.cheese[5] = true;
        c.cheese[2] = true;
        c.tunnel[0] = true;
    }
    let chunk = WorldGenerator::new(7).generate_chunk(0, 0, &cols);
    assert_eq!(chunk.get(8, 20, 8), BlockType::Air);
    assert_eq!(chunk.get(8, 23, 8), BlockType::Air);
    assert_eq!(chunk.get(8, 24, 8), BlockType::Stone);
    assert_eq!(chunk.get(8, 10, 8), BlockType::Water(0));
    assert_eq!(chunk.get(8, 11, 8), BlockType::Air);
    assert_eq!(chunk.get(8, 2, 8), BlockType::Water(0));
    // The floor of the world stays.
    assert_eq!(chunk.get(8, 1, 8), BlockType::Stone);
    assert_eq!(chunk.get(8, 0, 8), BlockType::Stone);
}

#[test]
fn caves_keep_their_cover() {
    let mut c = column(30);
    c.cheese = vec![true; 16];
    assert!(c.is_cave(26));
    assert!(!c.is_cave(27));
    c.entrance = true;
    assert!(c.is_cave(29));
    assert!(!c.is_cave(1));
    assert!(ColumnSample::is_mountain(40));
    assert!(!ColumnSample::is_mountain(39));
}

#[test]
fn ravines_are_open_to_the_sky() {
    let mut c = column(30);
    c.ravine = true;
    assert!(c.is_cave(29));
    assert!(c.is_cave(10));
    assert!(!c.is_cave(9));
    let mut low = column(15);
    low.ravine = true;
    assert!(low.is_cave(2));
    assert!(!low.is_cave(1));
}

#[test]
fn chunks_are_the_same_every_time() {
    let generator = WorldGenerator::new(123);
    let a = generator.generate_chunk(-3, 8, &columns(25));
    let b = generator.generate_chunk(-3, 8, &columns(25));
    assert_eq!(a.blocks, b.blocks);
}

#[test]
fn the_floor_is_stone_and_the_water_full() {
    let mut samples = columns(6);
    for sample in &mut samples {
        sample.cheese = vec![true; 16];
        sample.entrance = true;
    }
    let chunk = WorldGenerator::new(3).generate_chunk(0, 0, &samples);
    for x in 0..16 {
        for z in 0..16 {
            assert_eq!(chunk.get(x, 0, z), BlockType::Stone);
            assert_eq!(chunk.get(x, 1, z), BlockType::Stone);
            for y in 2..64 {
                let block = chunk.get(x, y, z);
                assert!(!matches!(block, BlockType::Water(level) if level != 0));
                assert_ne!(block, BlockType::Sponge);
            }
        }
    }
}
