use voxel_engine::environment::chunk::{BlockType, Chunk};
use voxel_engine::environment::fluids::FluidSim;
use voxel_engine::environment::raycast::RaycastHit;
use voxel_engine::environment::save_manager::WorldMeta;
use voxel_engine::environment::world::World;
use voxel_engine::logic::game::{
    handle_click, session_screen, ClickButton, FrameStep, ImeChange, Key, KeyDecision, MouseDecision,
    Movement,
};
use voxel_engine::logic::hud::{FrameCounter, Overlay};
use voxel_engine::logic::menu::{
    autosave_label, cycle_autosave, GameMode, GameScreen, GameState, MenuEffect, MAX_RENDER_RADIUS,
    MIN_RENDER_RADIUS,
};
use voxel_engine::logic::touch::{TouchAction, NAME_INPUT_MAX_CHARS};
use voxel_engine::physics::player::CellBox;

fn playing() -> GameState {
    let mut s = GameState::new();
    s.world_started();
    s
}

#[test]
fn the_program_starts_in_the_main_menu() {
    let s = GameState::new();
    assert_eq!(s.game_screen, GameScreen::MainMenu);
    assert_eq!(s.game_mode, GameMode::Survival);
    assert_eq!(s.selected_block, BlockType::Stone);
    assert_eq!(s.render_radius, 4);
    assert_eq!(s.autosave_interval_secs, 60);
    assert!(s.show_fps && s.show_clouds && s.show_fog && s.show_build_info);
    assert!(!s.show_debug_panel);
}

#[test]
fn playing_leads_through_the_list_of_worlds() {
    let mut s = GameState::new();
    assert!(matches!(s.apply_menu_action(TouchAction::PlayGame, 0), MenuEffect::ListWorlds));
    assert_eq!(s.game_screen, GameScreen::WorldList);
    assert!(matches!(s.apply_menu_action(TouchAction::SelectWorld(1), 2), MenuEffect::StartWorld(1)));
    assert!(matches!(s.apply_menu_action(TouchAction::SelectWorld(2), 2), MenuEffect::Nothing));
    s.world_started();
    assert_eq!(s.game_screen, GameScreen::Playing);
}

#[test]
fn a_new_world_is_named() {
    let mut s = GameState::new();
    s.apply_menu_action(TouchAction::PlayGame, 0);
    assert!(matches!(s.apply_menu_action(TouchAction::OpenNameWorld, 0), MenuEffect::ProposeName));
    s.name_proposed(String::from("Mundo 1"));
    s.apply_menu_action(TouchAction::KeyboardBackspace, 0);
    s.apply_menu_action(TouchAction::KeyboardChar('7'), 0);
    assert_eq!(s.name_input, "Mundo 7");
    match s.apply_menu_action(TouchAction::ConfirmNameWorld, 0) {
        MenuEffect::CreateWorld(Some(name)) => assert_eq!(name, "Mundo 7"),
        _ => panic!("the world is created"),
    }
    assert_eq!(s.name_input, "");
}

#[test]
fn a_blank_name_is_replaced() {
    let mut s = GameState::new();
    s.apply_menu_action(TouchAction::OpenNameWorld, 0);
    s.name_proposed(String::from("   "));
    assert!(matches!(
        s.apply_menu_action(TouchAction::ConfirmNameWorld, 0),
        MenuEffect::CreateWorld(None)
    ));
}

#[test]
fn names_have_a_limit() {
    let mut s = GameState::new();
    s.apply_menu_action(TouchAction::OpenNameWorld, 0);
    for _ in 0..40 {
        s.apply_menu_action(TouchAction::KeyboardChar('ñ'), 0);
    }
    assert_eq!(s.name_input.chars().count(), NAME_INPUT_MAX_CHARS);
    s.name_proposed(String::new());
    s.apply_menu_action(TouchAction::KeyboardBackspace, 0);
    assert_eq!(s.name_input, "");
}

#[test]
fn deleting_asks_first() {
    let mut s = GameState::new();
    s.apply_menu_action(TouchAction::PlayGame, 3);
    s.apply_menu_action(TouchAction::RequestDeleteWorld(1), 3);
    assert_eq!(s.game_screen, GameScreen::ConfirmDeleteWorld);
    let worlds = vec![
        WorldMeta { name: String::from("a"), seed: 0, created_at: 0, player_state: None },
        WorldMeta { name: String::from("b"), seed: 0, created_at: 0, player_state: None },
    ];
    assert_eq!(s.delete_prompt(&worlds), "b");
    assert!(matches!(s.apply_menu_action(TouchAction::ConfirmDeleteWorld, 3), MenuEffect::DeleteWorld(1)));
    assert_eq!(s.game_screen, GameScreen::WorldList);
    assert_eq!(s.delete_prompt(&worlds), "");
    s.apply_menu_action(TouchAction::RequestDeleteWorld(2), 3);
    s.apply_menu_action(TouchAction::Back, 3);
    assert_eq!(s.pending_delete_index, None);
    assert_eq!(s.game_screen, GameScreen::WorldList);
}

#[test]
fn back_climbs_one_level() {
    let mut s = playing();
    s.apply_menu_action(TouchAction::OpenPause, 0);
    s.apply_menu_action(TouchAction::OpenGameModeScreen, 0);
    s.apply_menu_action(TouchAction::Back, 0);
    assert_eq!(s.game_screen, GameScreen::Pause);
    s.apply_menu_action(TouchAction::OpenSettingsScreen, 0);
    s.apply_menu_action(TouchAction::OpenSettingsMore, 0);
    s.apply_menu_action(TouchAction::Back, 0);
    assert_eq!(s.game_screen, GameScreen::Settings);
    s.apply_menu_action(TouchAction::Back, 0);
    assert_eq!(s.game_screen, GameScreen::Pause);
    assert!(matches!(s.apply_menu_action(TouchAction::Back, 0), MenuEffect::ResumeClock));
    assert_eq!(s.game_screen, GameScreen::Playing);
    let mut menu = GameState::new();
    menu.apply_menu_action(TouchAction::OpenSettingsScreen, 0);
    menu.apply_menu_action(TouchAction::Back, 0);
    assert_eq!(menu.game_screen, GameScreen::MainMenu);
}

#[test]
fn leaving_a_game_takes_two_frames() {
    let mut s = playing();
    s.apply_menu_action(TouchAction::ExitGame, 0);
    assert_eq!(s.begin_frame(), FrameStep::ShowSaving);
    assert_eq!(s.on_key(Key::Escape, true), KeyDecision::Nothing);
    assert_eq!(s.begin_frame(), FrameStep::SaveAndLeave);
    assert_eq!(s.game_screen, GameScreen::MainMenu);
    assert_eq!(s.begin_frame(), FrameStep::Paused);
    assert_eq!(playing().begin_frame(), FrameStep::Play);
}

#[test]
fn switches_flip_and_values_stay_in_range() {
    let mut s = playing();
    s.apply_menu_action(TouchAction::ToggleFps, 0);
    s.apply_menu_action(TouchAction::ToggleClouds, 0);
    s.apply_menu_action(TouchAction::ToggleFog, 0);
    s.apply_menu_action(TouchAction::ToggleBuildInfo, 0);
    s.apply_menu_action(TouchAction::ToggleDebugPanel, 0);
    assert!(!s.show_fps && !s.show_clouds && !s.show_fog && !s.show_build_info && s.show_debug_panel);
    for _ in 0..10 {
        s.apply_menu_action(TouchAction::DecreaseRenderRadius, 0);
    }
    assert_eq!(s.render_radius, MIN_RENDER_RADIUS);
    for _ in 0..200 {
        s.apply_menu_action(TouchAction::IncreaseRenderRadius, 0);
    }
    assert_eq!(s.render_radius, MAX_RENDER_RADIUS);
}

#[test]
fn autosave_intervals_go_round() {
    assert_eq!(cycle_autosave(15), 30);
    assert_eq!(cycle_autosave(120), 300);
    assert_eq!(cycle_autosave(300), 15);
    assert_eq!(cycle_autosave(77), 30);
    assert_eq!(autosave_label(30), "30 S");
    assert_eq!(autosave_label(300), "5 MIN");
    let s = playing();
    assert!(!s.autosave_due(59));
    assert!(s.autosave_due(60));
}

#[test]
fn modes_change_how_the_player_moves() {
    let mut s = playing();
    assert_eq!(s.movement(false), Movement::Walking);
    assert!(matches!(s.apply_menu_action(TouchAction::SetGameMode(1), 0), MenuEffect::SyncPlayer));
    assert_eq!(s.movement(false), Movement::Flying);
    assert_eq!(s.movement(true), Movement::Dragged);
    assert!(matches!(s.apply_menu_action(TouchAction::SetGameMode(2), 0), MenuEffect::Nothing));
    assert_eq!(s.movement(false), Movement::Ghosting);
    assert!(matches!(s.apply_menu_action(TouchAction::SetGameMode(2), 0), MenuEffect::Nothing));
    assert_eq!(GameMode::from_index(GameMode::Spectator.index()), GameMode::Spectator);
    assert_eq!(GameMode::from_index(9), GameMode::Survival);
    assert_eq!(GameMode::Creative.label(), "CREATIVO");
    assert!(GameMode::Creative.auto_rescue() && !GameMode::Survival.auto_rescue());
    assert!(!GameMode::Spectator.has_collision());
}

#[test]
fn escape_pauses_and_resumes() {
    let mut s = playing();
    s.mouse_captured = true;
    assert_eq!(s.on_key(Key::Escape, true), KeyDecision::ReleaseMouse);
    assert_eq!(s.game_screen, GameScreen::Pause);
    assert!(!s.mouse_captured);
    s.apply_menu_action(TouchAction::OpenSettingsScreen, 0);
    assert_eq!(s.on_key(Key::Escape, true), KeyDecision::Resume);
    assert_eq!(s.game_screen, GameScreen::Playing);
    assert!(s.mouse_captured);
    let mut menu = GameState::new();
    assert_eq!(menu.on_key(Key::Escape, true), KeyDecision::Nothing);
    menu.apply_menu_action(TouchAction::OpenSettingsScreen, 0);
    assert_eq!(menu.on_key(Key::Escape, true), KeyDecision::Nothing);
    assert_eq!(menu.game_screen, GameScreen::MainMenu);
}

#[test]
fn escape_starts_no_game() {
    let mut s = GameState::new();
    s.apply_menu_action(TouchAction::PlayGame, 1);
    s.apply_menu_action(TouchAction::RequestDeleteWorld(0), 1);
    assert_eq!(s.on_key(Key::Escape, true), KeyDecision::Nothing);
    assert_eq!(s.game_screen, GameScreen::WorldList);
    assert_eq!(s.pending_delete_index, None);
    assert_eq!(s.on_key(Key::Escape, true), KeyDecision::Nothing);
    assert_eq!(s.game_screen, GameScreen::MainMenu);
    s.apply_menu_action(TouchAction::OpenSettingsScreen, 0);
    s.apply_menu_action(TouchAction::OpenSettingsMore, 0);
    assert_eq!(s.on_key(Key::Escape, true), KeyDecision::Nothing);
    assert_eq!(s.game_screen, GameScreen::Settings);
}

#[test]
fn keys_have_their_meanings() {
    let mut s = playing();
    assert_eq!(s.on_key(Key::F5, true), KeyDecision::Save);
    assert_eq!(s.on_key(Key::F4, true), KeyDecision::ToCamera);
    s.on_key(Key::F3, true);
    assert!(s.show_debug_panel);
    assert_eq!(s.on_key(Key::F4, true), KeyDecision::CopyDebugSnapshot);
    s.on_key(Key::Digit(6), true);
    assert_eq!(s.selected_block, BlockType::Water(0));
    assert_eq!(s.on_key(Key::Other, true), KeyDecision::ToCamera);
    assert_eq!(s.on_key(Key::F5, false), KeyDecision::ToCamera);
}

#[test]
fn typing_a_name_keeps_other_keys_quiet() {
    let mut s = GameState::new();
    s.apply_menu_action(TouchAction::OpenNameWorld, 0);
    assert_eq!(s.on_key(Key::F3, true), KeyDecision::Nothing);
    assert!(!s.show_debug_panel);
    assert_eq!(s.on_key(Key::Enter, true), KeyDecision::Menu(TouchAction::ConfirmNameWorld));
    assert_eq!(s.on_key(Key::Backspace, true), KeyDecision::Menu(TouchAction::KeyboardBackspace));
    assert_eq!(s.on_key(Key::Escape, true), KeyDecision::Menu(TouchAction::Back));
    assert_eq!(s.on_key(Key::Enter, false), KeyDecision::Nothing);
}

#[test]
fn the_text_keyboard_follows_the_name_screen() {
    let mut s = GameState::new();
    s.ime_preedit(String::from("x"));
    assert_eq!(s.name_preedit, "");
    assert!(!s.ime_settled());
    s.apply_menu_action(TouchAction::OpenNameWorld, 0);
    assert_eq!(s.ime_after(false), ImeChange::Open);
    s.ime_preedit(String::from("か"));
    assert_eq!(s.name_preedit, "か");
    assert_eq!(s.ime_after(true), ImeChange::Keep);
    assert!(s.ime_settled());
    assert_eq!(s.name_preedit, "");
    s.ime_preedit(String::from("y"));
    s.apply_menu_action(TouchAction::Back, 0);
    assert_eq!(s.ime_after(true), ImeChange::Close);
    assert_eq!(s.name_preedit, "");
}

#[test]
fn the_first_click_only_grabs_the_mouse() {
    let mut s = playing();
    assert_eq!(s.on_mouse(false, ClickButton::Left), MouseDecision::Nothing);
    assert_eq!(s.on_mouse(true, ClickButton::Left), MouseDecision::Grab);
    assert_eq!(s.on_mouse(true, ClickButton::Right), MouseDecision::World(ClickButton::Right));
    let mut menu = GameState::new();
    assert_eq!(menu.on_mouse(true, ClickButton::Left), MouseDecision::MenuClick);
    assert_eq!(menu.on_mouse(true, ClickButton::Right), MouseDecision::Nothing);
}

fn click_setup() -> (World, FluidSim, RaycastHit, CellBox) {
    let mut world = World::new(1, String::new());
    world.insert_loaded_chunk(0, 0, Chunk::empty());
    world.set_block(5, 5, 5, BlockType::Stone);
    let hit = RaycastHit { block_pos: (5, 5, 5), place_pos: (5, 6, 5) };
    let far = CellBox { min_x: 0, max_x: 0, min_y: 0, max_y: 1, min_z: 0, max_z: 0 };
    (world, FluidSim::new(), hit, far)
}

#[test]
fn clicks_break_and_place() {
    let (mut world, mut fluids, hit, far) = click_setup();
    let dirty = handle_click(
        &mut world,
        &mut fluids,
        Some(hit),
        ClickButton::Right,
        GameMode::Survival,
        &far,
        BlockType::Dirt,
    );
    assert_eq!(dirty, vec![(0, 0)]);
    assert_eq!(world.get_block(5, 6, 5), BlockType::Dirt);
    handle_click(&mut world, &mut fluids, Some(hit), ClickButton::Left, GameMode::Survival, &far, BlockType::Dirt);
    assert_eq!(world.get_block(5, 5, 5), BlockType::Air);
    let none = handle_click(&mut world, &mut fluids, None, ClickButton::Left, GameMode::Survival, &far, BlockType::Dirt);
    assert!(none.is_empty());
}

#[test]
fn nobody_builds_into_themselves() {
    let (mut world, mut fluids, hit, _) = click_setup();
    let body = CellBox { min_x: 5, max_x: 5, min_y: 6, max_y: 7, min_z: 5, max_z: 5 };
    for mode in [GameMode::Survival, GameMode::Creative] {
        let dirty = handle_click(&mut world, &mut fluids, Some(hit), ClickButton::Right, mode, &body, BlockType::Dirt);
        assert!(dirty.is_empty());
        assert_eq!(world.get_block(5, 6, 5), BlockType::Air);
    }
    handle_click(&mut world, &mut fluids, Some(hit), ClickButton::Right, GameMode::Spectator, &body, BlockType::Dirt);
    assert_eq!(world.get_block(5, 6, 5), BlockType::Dirt);
}

#[test]
fn placed_water_flows_afterwards() {
    let (mut world, mut fluids, hit, far) = click_setup();
    handle_click(
        &mut world,
        &mut fluids,
        Some(hit),
        ClickButton::Right,
        GameMode::Creative,
        &far,
        BlockType::Water(0),
    );
    fluids.tick(&mut world);
    assert_eq!(world.get_block(6, 6, 5), BlockType::Water(1));
}

#[test]
fn sessions_come_back_paused() {
    assert_eq!(session_screen(GameScreen::Playing), GameScreen::Pause);
    assert_eq!(session_screen(GameScreen::Saving), GameScreen::Pause);
    assert_eq!(session_screen(GameScreen::Settings), GameScreen::Settings);
    let mut s = playing();
    s.apply_menu_action(TouchAction::SetGameMode(1), 0);
    s.apply_menu_action(TouchAction::IncreaseRenderRadius, 0);
    s.mouse_captured = true;
    s.name_proposed(String::from("resto"));
    let back = s.resumed();
    assert_eq!(back.game_screen, GameScreen::Pause);
    assert_eq!(back.game_mode, GameMode::Creative);
    assert_eq!(back.render_radius, 5);
    assert!(!back.mouse_captured);
    assert_eq!(back.name_input, "");
}

#[test]
fn overlays_follow_the_screen() {
    let mut s = GameState::new();
    assert_eq!(s.overlays(true), vec![Overlay::MainMenu]);
    s.world_started();
    assert_eq!(s.overlays(false), vec![Overlay::Crosshair, Overlay::Hotbar, Overlay::FpsCounter, Overlay::BuildInfo]);
    s.apply_menu_action(TouchAction::ToggleDebugPanel, 0);
    s.apply_menu_action(TouchAction::ToggleFps, 0);
    assert_eq!(
        s.overlays(true),
        vec![
            Overlay::Crosshair,
            Overlay::TouchControls,
            Overlay::BuildInfo,
            Overlay::DebugPanel { below_build_info: true },
        ]
    );
    s.apply_menu_action(TouchAction::ToggleBuildInfo, 0);
    assert_eq!(s.overlays(false), vec![Overlay::Crosshair, Overlay::Hotbar, Overlay::DebugPanel { below_build_info: false }]);
    s.apply_menu_action(TouchAction::ExitGame, 0);
    assert_eq!(s.overlays(false), vec![Overlay::Saving]);
}

#[test]
fn fog_ends_with_the_loaded_chunks() {
    let mut s = playing();
    assert_eq!(s.fog_distance(), Some(64));
    s.apply_menu_action(TouchAction::ToggleFog, 0);
    assert_eq!(s.fog_distance(), None);
}

#[test]
fn frames_are_counted_per_second() {
    let mut c = FrameCounter::new();
    assert_eq!(c.tick(false), None);
    assert_eq!(c.tick(false), None);
    assert_eq!(c.tick(true), Some(3));
    assert_eq!(c.tick(true), Some(1));
}
