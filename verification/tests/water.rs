use voxel_engine::environment::chunk::{BlockType, Chunk};
use voxel_engine::environment::fluids::FluidSim;
use voxel_engine::environment::world::World;

fn basin() -> World {
    let mut chunk = Chunk::empty();
    for x in 0..16 {
        for z in 0..16 {
            chunk.set(x, 0, z, BlockType::Stone);
        }
    }
    let mut world = World::new(1, String::new());
    world.insert_loaded_chunk(0, 0, chunk);
    world
}

fn change(world: &mut World, sim: &mut FluidSim, pos: (i32, i32, i32), block: BlockType) {
    let was = world.get_block(pos.0, pos.1, pos.2);
    world.set_block(pos.0, pos.1, pos.2, block);
    sim.notify_block_changed(pos, was, block);
}

fn settle(world: &mut World, sim: &mut FluidSim) {
    for _ in 0..60 {
        assert!(sim.has_room());
        sim.tick(world);
    }
}

#[test]
fn nothing_flows_without_a_change() {
    let mut world = basin();
    let mut sim = FluidSim::default();
    assert!(sim.tick(&mut world).is_empty());
    assert_eq!(world.get_block(3, 1, 3), BlockType::Air);
}

#[test]
fn a_spring_spreads_seven_cells() {
    let mut world = basin();
    let mut sim = FluidSim::new();
    change(&mut world, &mut sim, (4, 1, 4), BlockType::Water(0));
    settle(&mut world, &mut sim);
    assert_eq!(world.get_block(4, 1, 4), BlockType::Water(0));
    assert_eq!(world.get_block(5, 1, 4), BlockType::Water(1));
    assert_eq!(world.get_block(5, 1, 5), BlockType::Water(2));
    assert_eq!(world.get_block(11, 1, 4), BlockType::Water(7));
    assert_eq!(world.get_block(12, 1, 4), BlockType::Air);
    assert_eq!(world.get_block(4, 2, 4), BlockType::Air);
}

#[test]
fn water_falls_and_is_full_below() {
    let mut world = basin();
    let mut sim = FluidSim::new();
    change(&mut world, &mut sim, (8, 6, 8), BlockType::Water(0));
    settle(&mut world, &mut sim);
    assert_eq!(world.get_block(8, 5, 8), BlockType::Water(0));
    assert_eq!(world.get_block(8, 1, 8), BlockType::Water(0));
    assert_eq!(world.get_block(8, 0, 8), BlockType::Stone);
}

#[test]
fn flow_dries_up_without_its_spring() {
    let mut world = basin();
    let mut sim = FluidSim::new();
    change(&mut world, &mut sim, (4, 1, 4), BlockType::Water(0));
    settle(&mut world, &mut sim);
    assert_eq!(world.get_block(6, 1, 4), BlockType::Water(2));
    change(&mut world, &mut sim, (4, 1, 4), BlockType::Air);
    settle(&mut world, &mut sim);
    for x in 0..16 {
        assert_eq!(world.get_block(x, 1, 4), BlockType::Air);
    }
}

#[test]
fn a_sponge_soaks_up_what_is_near() {
    let mut world = basin();
    let mut sim = FluidSim::new();
    change(&mut world, &mut sim, (4, 1, 4), BlockType::Water(0));
    settle(&mut world, &mut sim);
    change(&mut world, &mut sim, (6, 1, 4), BlockType::Sponge);
    settle(&mut world, &mut sim);
    assert_eq!(world.get_block(4, 1, 4), BlockType::Air);
    assert_eq!(world.get_block(6, 1, 4), BlockType::Sponge);
    assert_eq!(world.get_block(7, 1, 4), BlockType::Air);
}

#[test]
fn water_leaves_solid_blocks_alone() {
    let mut world = basin();
    let mut sim = FluidSim::new();
    world.set_block(5, 1, 4, BlockType::Wood);
    change(&mut world, &mut sim, (4, 1, 4), BlockType::Water(0));
    settle(&mut world, &mut sim);
    assert_eq!(world.get_block(5, 1, 4), BlockType::Wood);
    assert_eq!(world.get_block(4, 0, 4), BlockType::Stone);
}

#[test]
fn a_tick_reports_the_chunks_it_changed() {
    let mut world = basin();
    let mut sim = FluidSim::new();
    change(&mut world, &mut sim, (8, 1, 8), BlockType::Water(0));
    let dirty = sim.tick(&mut world);
    assert!(dirty.contains(&(0, 0)));
    // The work of one tick is bounded: the far end is not reached at once.
    assert_eq!(world.get_block(15, 1, 8), BlockType::Air);
}

#[test]
fn water_spreads_one_step_per_tick() {
    let mut world = World::new(0, String::new());
    let mut sim = FluidSim::new();
    change(&mut world, &mut sim, (8, 10, 8), BlockType::Water(0));
    sim.tick(&mut world);
    assert_eq!(world.get_block(9, 10, 8), BlockType::Water(1));
    assert_eq!(world.get_block(7, 10, 8), BlockType::Water(1));
    assert_eq!(world.get_block(8, 9, 8), BlockType::Water(0));
    assert_eq!(world.get_block(10, 10, 8), BlockType::Air);
    assert_eq!(world.get_block(9, 10, 9), BlockType::Air);
    assert_eq!(world.get_block(8, 8, 8), BlockType::Air);
    sim.tick(&mut world);
    assert_eq!(world.get_block(10, 10, 8), BlockType::Water(2));
    assert_eq!(world.get_block(11, 10, 8), BlockType::Air);
    assert_eq!(world.get_block(8, 8, 8), BlockType::Water(0));
    assert_eq!(world.get_block(8, 7, 8), BlockType::Air);
}

#[test]
fn a_tick_soaks_up_a_bounded_number_of_cells() {
    let mut world = World::new(0, String::new());
    for x in 4..13 {
        for y in 16..25 {
            for z in 4..13 {
                world.set_block(x, y, z, BlockType::Water(0));
            }
        }
    }
    let mut sim = FluidSim::new();
    change(&mut world, &mut sim, (8, 20, 8), BlockType::Sponge);
    let dry = |world: &World| {
        let mut n = 0;
        for x in 4..13 {
            for y in 16..25 {
                for z in 4..13 {
                    if world.get_block(x, y, z) == BlockType::Air {
                        n += 1;
                    }
                }
            }
        }
        n
    };
    sim.tick(&mut world);
    assert_eq!(dry(&world), 96);
    sim.tick(&mut world);
    assert_eq!(dry(&world), 192);
}

#[test]
fn a_sponge_that_is_gone_soaks_nothing_up() {
    let mut world = basin();
    let mut sim = FluidSim::new();
    change(&mut world, &mut sim, (6, 1, 4), BlockType::Sponge);
    change(&mut world, &mut sim, (6, 1, 4), BlockType::Air);
    change(&mut world, &mut sim, (4, 1, 4), BlockType::Water(0));
    settle(&mut world, &mut sim);
    assert_eq!(world.get_block(4, 1, 4), BlockType::Water(0));
    assert_eq!(world.get_block(6, 1, 4), BlockType::Water(2));
}

#[test]
fn water_flows_next_to_the_end_of_the_coordinates() {
    let mut world = World::new(0, String::new());
    let mut sim = FluidSim::new();
    let x = i32::MAX - 2;
    change(&mut world, &mut sim, (x, 10, 8), BlockType::Water(0));
    assert!(sim.has_room());
    sim.tick(&mut world);
    assert_eq!(world.get_block(x + 1, 10, 8), BlockType::Water(1));
    // The outermost cell waits now; its neighbour would lie past the end.
    assert!(!sim.has_room());
}
