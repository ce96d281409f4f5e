use voxel_engine::environment::chunk::{BlockType, Chunk};
use voxel_engine::environment::world::World;
use voxel_engine::logic::game::{safe_spawn, Rescue, RescueOutcome, Spawn, RESCUE_COOLDOWN_MS};
use voxel_engine::physics::player::{
    collides_at, is_grounded_at, occupies_block, CellBox, Footing, SearchArea, Step, StepOutcome,
    Vertical,
};

fn flat_world() -> World {
    let mut chunk = Chunk::empty();
    for x in 0..16 {
        for z in 0..16 {
            chunk.set(x, 0, z, BlockType::Stone);
        }
    }
    let mut world = World::new(1, String::new());
    world.insert_loaded_chunk(0, 0, chunk);
    world
}

fn body(x: i32, y: i32, z: i32) -> CellBox {
    CellBox { min_x: x, max_x: x, min_y: y, max_y: y + 1, min_z: z, max_z: z }
}

fn spans(center: i32, radius: i32, height: i32) -> Vec<(i32, i32)> {
    (center - radius..=center + radius).map(|c| (c, c + height)).collect()
}

fn area(x: i32, y: i32, z: i32, radius: i32) -> SearchArea {
    SearchArea {
        origin: (x, y, z),
        radius,
        spans_x: spans(x, radius, 0),
        spans_y: spans(y, radius, 1),
        spans_z: spans(z, radius, 0),
    }
}

#[test]
fn bodies_collide_with_blocks() {
    let mut world = flat_world();
    assert!(!collides_at(&world, &body(4, 1, 4)));
    assert!(collides_at(&world, &body(4, 0, 4)));
    world.set_block(4, 2, 4, BlockType::Wood);
    assert!(collides_at(&world, &body(4, 1, 4)));
    world.set_block(4, 2, 4, BlockType::Water(0));
    assert!(!collides_at(&world, &body(4, 1, 4)));
}

#[test]
fn the_ground_is_what_lies_below() {
    let world = flat_world();
    assert!(is_grounded_at(&world, &body(4, 1, 4)));
    assert!(!is_grounded_at(&world, &body(4, 2, 4)));
    assert!(!is_grounded_at(&world, &body(40, 1, 4)));
}

#[test]
fn a_body_knows_its_cells() {
    let b = CellBox { min_x: 0, max_x: 1, min_y: 5, max_y: 6, min_z: -1, max_z: 0 };
    assert!(occupies_block(&b, 0, 5, -1));
    assert!(occupies_block(&b, 1, 6, 0));
    assert!(!occupies_block(&b, 2, 5, 0));
    assert!(!occupies_block(&b, 0, 7, 0));
    assert!(!occupies_block(&b, 0, 5, 1));
}

#[test]
fn jumping_needs_ground() {
    let mut footing = Footing { on_ground: true };
    assert!(footing.jump());
    assert!(!footing.on_ground);
    assert!(!footing.jump());
}

#[test]
fn a_fall_ends_on_the_ground() {
    let world = flat_world();
    let mut footing = Footing { on_ground: false };
    let free = footing.move_axis(&world, &body(3, 2, 3), Vertical::Down);
    assert!(free.moves && !free.stops);
    assert!(!footing.on_ground);
    let landed = footing.move_axis(&world, &body(3, 0, 3), Vertical::Down);
    assert!(!landed.moves && landed.stops);
    assert!(footing.on_ground);
}

#[test]
fn walls_and_ceilings_stop_without_ground() {
    let mut world = flat_world();
    world.set_block(5, 1, 3, BlockType::Stone);
    world.set_block(3, 3, 3, BlockType::Stone);
    let mut footing = Footing { on_ground: false };
    let wall = footing.move_axis(&world, &body(5, 1, 3), Vertical::Level);
    assert!(!wall.moves && !wall.stops);
    let ceiling = footing.move_axis(&world, &body(3, 2, 3), Vertical::Up);
    assert!(!ceiling.moves && ceiling.stops);
    assert!(!footing.on_ground);
}

#[test]
fn crouching_holds_at_the_edge() {
    let world = flat_world();
    let standing = Footing { on_ground: true };
    let over_the_edge = body(16, 1, 3);
    assert!(standing.holds_at_edge(&world, true, &over_the_edge));
    assert!(!standing.holds_at_edge(&world, false, &over_the_edge));
    assert!(!standing.holds_at_edge(&world, true, &body(4, 1, 3)));
    assert!(!Footing { on_ground: false }.holds_at_edge(&world, true, &over_the_edge));
}

/// A step of a body one cell wide and two tall.
fn step(from: (i32, i32, i32), to: (i32, i32, i32)) -> Step {
    Step {
        x: (from.0, from.0),
        next_x: (to.0, to.0),
        y: (from.1, from.1 + 1),
        next_y: (to.1, to.1 + 1),
        z: (from.2, from.2),
        next_z: (to.2, to.2),
        moves_x: from.0 != to.0,
        moves_z: from.2 != to.2,
        vertical: if to.1 < from.1 {
            Vertical::Down
        } else if to.1 > from.1 {
            Vertical::Up
        } else {
            Vertical::Level
        },
    }
}

#[test]
fn walkers_slide_along_walls_and_land() {
    let mut world = flat_world();
    world.set_block(5, 1, 4, BlockType::Stone);
    let mut footing = Footing { on_ground: true };
    let r = footing.walk(&world, &step((4, 1, 4), (5, 0, 5)), false);
    assert_eq!(r, StepOutcome { x: false, y: false, z: true, stops: true });
    assert!(footing.on_ground);
    // In the air nothing stops the fall.
    let r = footing.walk(&world, &step((8, 4, 8), (9, 3, 8)), false);
    assert_eq!(r, StepOutcome { x: true, y: true, z: true, stops: false });
    assert!(!footing.on_ground);
}

#[test]
fn each_axis_starts_where_the_last_one_led() {
    let mut world = flat_world();
    // Moving along X opens the way down, and the lower layer is closed along Z.
    world.set_block(4, 2, 4, BlockType::Stone);
    world.set_block(5, 2, 5, BlockType::Stone);
    let mut footing = Footing { on_ground: false };
    let r = footing.fly(&world, &step((4, 3, 4), (5, 2, 5)));
    assert_eq!(r, StepOutcome { x: true, y: true, z: false, stops: false });
    assert!(!footing.on_ground);
}

#[test]
fn crouching_walkers_stop_at_the_edge() {
    let world = flat_world();
    let mut footing = Footing { on_ground: true };
    let r = footing.walk(&world, &step((15, 1, 3), (16, 0, 3)), true);
    assert_eq!(r, StepOutcome { x: false, y: false, z: true, stops: true });
    assert!(footing.on_ground);
    let r = footing.walk(&world, &step((3, 1, 15), (3, 0, 16)), true);
    assert_eq!(r, StepOutcome { x: true, y: false, z: false, stops: true });
    assert!(footing.on_ground);
    // Upright the same step leads over the edge.
    let r = footing.walk(&world, &step((15, 1, 3), (16, 0, 3)), false);
    assert_eq!(r, StepOutcome { x: true, y: true, z: true, stops: false });
    assert!(!footing.on_ground);
}

#[test]
fn fliers_do_not_pass_through_blocks() {
    let world = flat_world();
    let mut footing = Footing { on_ground: false };
    let r = footing.fly(&world, &step((3, 1, 3), (3, 0, 3)));
    assert_eq!(r, StepOutcome { x: true, y: false, z: true, stops: true });
    assert!(footing.on_ground);
    // Fliers mind no edges.
    let r = footing.fly(&world, &step((15, 1, 3), (16, 1, 3)));
    assert_eq!(r, StepOutcome { x: true, y: true, z: true, stops: false });
    assert!(!footing.on_ground);
}

#[test]
fn the_search_starts_where_the_player_is() {
    let world = flat_world();
    assert_eq!(area(4, 1, 4, 2).find_nearest_free_position(&world), Some((4, 1, 4)));
}

#[test]
fn the_search_prefers_ground_on_the_nearest_shell() {
    let mut world = flat_world();
    for y in 1..4 {
        world.set_block(4, y, 4, BlockType::Stone);
    }
    // Shell one holds free places; the first with a floor comes first.
    assert_eq!(area(4, 1, 4, 3).find_nearest_free_position(&world), Some((3, 1, 3)));
}

#[test]
fn the_search_takes_a_floating_place_if_it_must() {
    let mut world = World::new(1, String::new());
    world.set_block(4, 21, 4, BlockType::Stone);
    assert_eq!(area(4, 20, 4, 2).find_nearest_free_position(&world), Some((3, 19, 3)));
}

#[test]
fn a_buried_player_finds_nothing() {
    let mut world = World::new(1, String::new());
    for x in 2..=6 {
        for y in 18..=24 {
            for z in 2..=6 {
                world.set_block(x, y, z, BlockType::Stone);
            }
        }
    }
    assert_eq!(area(4, 20, 4, 1).find_nearest_free_position(&world), None);
    assert_eq!(safe_spawn(&world, &body(4, 20, 4), &area(4, 20, 4, 1)), Spawn::Buried);
}

#[test]
fn players_do_not_enter_inside_a_block() {
    let mut world = flat_world();
    assert_eq!(safe_spawn(&world, &body(4, 1, 4), &area(4, 1, 4, 2)), Spawn::AsPlanned);
    world.set_block(4, 1, 4, BlockType::Stone);
    assert_eq!(safe_spawn(&world, &body(4, 1, 4), &area(4, 1, 4, 2)), Spawn::Moved((3, 1, 3)));
}

#[test]
fn a_rescue_runs_once_and_then_rests() {
    let mut world = flat_world();
    let mut rescue = Rescue::new();
    let search = area(4, 1, 4, 2);
    assert_eq!(rescue.maybe_rescue_player(&world, &body(4, 1, 4), &search, 0), RescueOutcome::Idle);
    world.set_block(4, 1, 4, BlockType::Stone);
    let started = rescue.maybe_rescue_player(&world, &body(4, 1, 4), &search, 10);
    assert_eq!(started, RescueOutcome::Started);
    assert_eq!(rescue.target, Some((3, 1, 3)));
    // Already pulling.
    assert_eq!(rescue.maybe_rescue_player(&world, &body(4, 1, 4), &search, 20), RescueOutcome::Idle);
    rescue.arrived(100);
    assert_eq!(rescue.target, None);
    // Resting.
    let rest = 100 + RESCUE_COOLDOWN_MS;
    assert_eq!(rescue.maybe_rescue_player(&world, &body(4, 1, 4), &search, rest - 1), RescueOutcome::Idle);
    assert_eq!(rescue.maybe_rescue_player(&world, &body(4, 1, 4), &search, rest), RescueOutcome::Started);
}

#[test]
fn a_rescue_without_room_waits() {
    let mut world = World::new(1, String::new());
    for x in 3..=5 {
        for y in 19..=23 {
            for z in 3..=5 {
                world.set_block(x, y, z, BlockType::Stone);
            }
        }
    }
    let mut rescue = Rescue::new();
    let outcome = rescue.maybe_rescue_player(&world, &body(4, 20, 4), &area(4, 20, 4, 1), 1000);
    assert_eq!(outcome, RescueOutcome::NoRoom);
    assert_eq!(rescue.cooldown_until, Some(1500));
    assert_eq!(rescue.target, None);
}
