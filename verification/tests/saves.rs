use voxel_engine::environment::save_manager::{
    chunk_file_path, clock_seed, create_world, list_worlds, meta_path, name_candidate, next_free_name,
    now_secs, sanitize, save_player_state, saves_root, set_saves_root, unique_name, world_dir,
    PlayerState, WorldMeta,
};

fn meta(name: &str, created_at: u64) -> WorldMeta {
    WorldMeta { name: String::from(name), seed: 1, created_at, player_state: None }
}

#[test]
fn folder_names_are_plain() {
    assert_eq!(sanitize("Mi mundo!"), "Mi_mundo_");
    assert_eq!(sanitize("a-b_9"), "a-b_9");
    assert_eq!(sanitize("../x"), "___x");
    assert_eq!(sanitize("ñandú"), "ñandú");
    assert_eq!(sanitize("★"), "_");
    assert_eq!(sanitize(""), "mundo");
}

#[test]
fn folder_names_do_not_change_again() {
    for name in ["Mi mundo!", "../../etc", "año 1", "", "a b\tc"] {
        let once = sanitize(name);
        assert_eq!(sanitize(&once), once);
    }
}

#[test]
fn the_saves_folder_is_set_once() {
    assert_eq!(saves_root(&None), "saves");
    let first = set_saves_root(None, String::from("/datos/saves"));
    assert_eq!(saves_root(&first), "/datos/saves");
    let second = set_saves_root(first, String::from("/otra"));
    assert_eq!(saves_root(&second), "/datos/saves");
}

#[test]
fn files_lie_in_the_folder_of_their_world() {
    assert_eq!(world_dir("saves", "Mi mundo"), "saves/Mi_mundo");
    assert_eq!(meta_path("saves/", "A"), "saves/A/meta.bin");
    assert_eq!(world_dir("", "A"), "A");
    assert_eq!(chunk_file_path("saves/A", -3, 12), "saves/A/chunk_-3_12.bin");
}

#[test]
fn every_chunk_has_a_file_of_its_own() {
    let mut seen: Vec<String> = Vec::new();
    for cx in -12..=12 {
        for cz in -12..=12 {
            let path = chunk_file_path("w", cx, cz);
            assert!(!seen.contains(&path));
            seen.push(path);
        }
    }
}

#[test]
fn the_clock_gives_times_and_seeds() {
    assert_eq!(now_secs(Some(1700000000)), 1700000000);
    assert_eq!(now_secs(None), 0);
    assert_eq!(clock_seed(Some(987)), 987);
    assert_eq!(clock_seed(None), 1337);
}

#[test]
fn the_first_free_name_is_proposed() {
    assert_eq!(next_free_name(&Vec::new()), "Mundo 1");
    let worlds = vec![meta("Mundo 1", 0), meta("Mundo 3", 0), meta("otro", 0)];
    assert_eq!(next_free_name(&worlds), "Mundo 2");
    let full = vec![meta("Mundo 3", 0), meta("a", 0)];
    assert_eq!(next_free_name(&full), "Mundo 1");
    assert_eq!(next_free_name(&vec![meta("Mundo 5", 0)]), "Mundo 1");
    let dense = vec![meta("Mundo 2", 0), meta("Mundo 1", 0)];
    assert_eq!(next_free_name(&dense), "Mundo 3");
}

#[test]
fn taken_names_get_a_number() {
    let worlds = vec![meta("Isla", 0)];
    assert_eq!(name_candidate("Isla", 0), "Isla");
    assert_eq!(name_candidate("Isla", 1), "Isla (2)");
    assert_eq!(unique_name("Isla", &worlds, &vec![false, false]), Some(String::from("Isla (2)")));
    assert_eq!(unique_name("Cabo", &worlds, &vec![false]), Some(String::from("Cabo")));
    // A folder that is in the way counts as well.
    assert_eq!(unique_name("Cabo", &worlds, &vec![true, false]), Some(String::from("Cabo (2)")));
    assert_eq!(unique_name("Cabo", &worlds, &vec![true]), None);
}

#[test]
fn a_new_world_has_no_player_yet() {
    let m = create_world(String::from("Valle"), 55, 1000);
    assert_eq!(m.name, "Valle");
    assert_eq!(m.seed, 55);
    assert_eq!(m.created_at, 1000);
    assert!(m.player_state.is_none());
}

#[test]
fn the_player_is_written_into_the_description() {
    let state = PlayerState { feet_x: 1, feet_y: 2, feet_z: 3, yaw: 4, pitch: 5 };
    let m = save_player_state(Some(meta("Valle", 9)), state).unwrap();
    assert_eq!(m.name, "Valle");
    assert_eq!(m.created_at, 9);
    assert_eq!(m.player_state, Some(state));
    assert!(save_player_state(None, state).is_none());
}

#[test]
fn worlds_are_listed_newest_first() {
    let found = vec![meta("a", 10), meta("b", 30), meta("c", 20), meta("d", 30)];
    let names: Vec<String> = list_worlds(found).iter().map(|m| m.name.clone()).collect();
    assert_eq!(names, vec!["b", "d", "c", "a"]);
    assert!(list_worlds(Vec::new()).is_empty());
}
