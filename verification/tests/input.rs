use voxel_engine::logic::touch::{
    ConfirmDeleteHits, GameHits, GameModeHits, MainMenuHits, NameWorldHits, PauseHits, Phase,
    SettingsHits, SettingsMoreHits, TouchAction, TouchController, WorldListHits, Zone,
    HOLD_BREAK_REPEAT_MS, TAP_MAX_MS,
};

fn nothing() -> GameHits {
    GameHits {
        copy: false,
        pause: false,
        hotbar: [false; 7],
        jump: false,
        crouch: false,
        left_half: false,
    }
}

#[test]
fn the_main_menu_has_three_buttons() {
    let t = TouchController::new();
    let play = MainMenuHits { play: true, settings: false, exit: false };
    assert_eq!(t.on_click_main_menu(play), Some(TouchAction::PlayGame));
    assert_eq!(t.on_touch_main_menu(Phase::Started, play), Some(TouchAction::PlayGame));
    assert_eq!(t.on_touch_main_menu(Phase::Ended, play), None);
    let settings = MainMenuHits { play: false, settings: true, exit: true };
    assert_eq!(t.on_click_main_menu(settings), Some(TouchAction::OpenSettingsScreen));
    let exit = MainMenuHits { play: false, settings: false, exit: true };
    assert_eq!(t.on_click_main_menu(exit), Some(TouchAction::ExitApp));
    let none = MainMenuHits { play: false, settings: false, exit: false };
    assert_eq!(t.on_click_main_menu(none), None);
}

#[test]
fn the_pause_menu_leaves_the_game() {
    let t = TouchController::new();
    let exit = PauseHits { back: false, game_mode: false, settings: false, exit: true };
    assert_eq!(t.on_click_pause(exit), Some(TouchAction::ExitGame));
    let back = PauseHits { back: true, game_mode: true, settings: true, exit: true };
    assert_eq!(t.on_touch_pause(Phase::Started, back), Some(TouchAction::Back));
    assert_eq!(t.on_touch_pause(Phase::Moved, back), None);
    let mode = PauseHits { back: false, game_mode: true, settings: false, exit: false };
    assert_eq!(t.on_click_pause(mode), Some(TouchAction::OpenGameModeScreen));
}

#[test]
fn the_name_screen_edits_and_confirms() {
    let t = TouchController::new();
    let erase = NameWorldHits { back: false, backspace: true, confirm: false };
    assert_eq!(t.on_click_nameworld(erase), Some(TouchAction::KeyboardBackspace));
    let confirm = NameWorldHits { back: false, backspace: false, confirm: true };
    assert_eq!(t.on_touch_nameworld(Phase::Started, confirm), Some(TouchAction::ConfirmNameWorld));
    assert_eq!(t.on_touch_nameworld(Phase::Cancelled, confirm), None);
}

#[test]
fn only_the_delete_button_deletes() {
    let t = TouchController::new();
    let cancel = ConfirmDeleteHits { back: false, cancel: true, confirm: true };
    assert_eq!(t.on_click_confirmdelete(cancel), Some(TouchAction::Back));
    let confirm = ConfirmDeleteHits { back: false, cancel: false, confirm: true };
    assert_eq!(t.on_touch_confirmdelete(Phase::Started, confirm), Some(TouchAction::ConfirmDeleteWorld));
}

#[test]
fn rows_past_the_last_world_do_not_count() {
    let t = TouchController::new();
    let hits = WorldListHits {
        back: false,
        create: false,
        delete: vec![false, false, true, false, false, false],
        row: vec![false, false, true, false, false, false],
    };
    assert_eq!(t.on_click_worldlist(&hits, 3), Some(TouchAction::RequestDeleteWorld(2)));
    assert_eq!(t.on_click_worldlist(&hits, 2), None);
    let row = WorldListHits {
        back: false,
        create: false,
        delete: vec![false; 6],
        row: vec![false, true, false, false, false, true],
    };
    assert_eq!(t.on_touch_worldlist(Phase::Started, &row, 10), Some(TouchAction::SelectWorld(1)));
    let create = WorldListHits { back: false, create: true, delete: Vec::new(), row: Vec::new() };
    assert_eq!(t.on_click_worldlist(&create, 0), Some(TouchAction::OpenNameWorld));
}

#[test]
fn modes_are_picked_by_number() {
    let t = TouchController::new();
    let third = GameModeHits { back: false, options: [false, false, true] };
    assert_eq!(t.on_click_gamemode(third), Some(TouchAction::SetGameMode(2)));
    let first = GameModeHits { back: false, options: [true, true, false] };
    assert_eq!(t.on_touch_gamemode(Phase::Started, first), Some(TouchAction::SetGameMode(0)));
}

#[test]
fn settings_have_their_switches() {
    let t = TouchController::new();
    let off = SettingsHits {
        back: false,
        fps: false,
        radius_minus: false,
        radius_plus: false,
        clouds: false,
        fog: false,
        more: false,
    };
    assert_eq!(t.on_click_settings(off), None);
    assert_eq!(
        t.on_click_settings(SettingsHits { radius_plus: true, ..off }),
        Some(TouchAction::IncreaseRenderRadius)
    );
    assert_eq!(
        t.on_touch_settings(Phase::Started, SettingsHits { fog: true, more: true, ..off }),
        Some(TouchAction::ToggleFog)
    );
    let more = SettingsMoreHits { back: false, build_info: false, debug_panel: false, autosave: true };
    assert_eq!(t.on_click_settings_more(more), Some(TouchAction::CycleAutosaveInterval));
    assert_eq!(t.on_touch_settings_more(Phase::Ended, more), None);
}

#[test]
fn a_short_touch_places_a_block() {
    let mut t = TouchController::new();
    assert_eq!(t.on_touch_game(1, Phase::Started, nothing(), true, 1000), None);
    assert_eq!(t.drag_zone(1), Some(Zone::Look));
    assert_eq!(
        t.on_touch_game(1, Phase::Ended, nothing(), true, 1000 + TAP_MAX_MS),
        Some(TouchAction::Place)
    );
    assert_eq!(t.drag_zone(1), None);
}

#[test]
fn a_long_or_moving_or_cancelled_touch_places_nothing() {
    let mut t = TouchController::new();
    t.on_touch_game(1, Phase::Started, nothing(), true, 0);
    assert_eq!(t.on_touch_game(1, Phase::Ended, nothing(), true, TAP_MAX_MS + 1), None);
    t.on_touch_game(2, Phase::Started, nothing(), true, 0);
    assert_eq!(t.on_touch_game(2, Phase::Ended, nothing(), false, 10), None);
    t.on_touch_game(3, Phase::Started, nothing(), true, 0);
    assert_eq!(t.on_touch_game(3, Phase::Cancelled, nothing(), true, 10), None);
    assert_eq!(t.on_touch_game(9, Phase::Ended, nothing(), true, 10), None);
}

#[test]
fn holding_breaks_again_and_again() {
    let mut t = TouchController::new();
    t.on_touch_game(1, Phase::Started, nothing(), true, 0);
    assert!(!t.poll_hold_break(TAP_MAX_MS - 1));
    assert!(t.poll_hold_break(TAP_MAX_MS));
    assert!(!t.poll_hold_break(TAP_MAX_MS + HOLD_BREAK_REPEAT_MS - 1));
    assert!(t.poll_hold_break(TAP_MAX_MS + HOLD_BREAK_REPEAT_MS));
    // A finger that moves the player breaks nothing.
    let mut other = TouchController::new();
    other.on_touch_game(1, Phase::Started, GameHits { left_half: true, ..nothing() }, true, 0);
    assert!(!other.poll_hold_break(10_000));
    assert_eq!(other.movement_drag(), Some(1));
}

#[test]
fn buttons_are_held_as_long_as_the_finger_stays() {
    let mut t = TouchController::new();
    t.on_touch_game(1, Phase::Started, GameHits { jump: true, left_half: true, ..nothing() }, true, 0);
    t.on_touch_game(2, Phase::Started, GameHits { crouch: true, ..nothing() }, true, 0);
    assert!(t.jump_held());
    assert!(t.crouch_held());
    t.on_touch_game(1, Phase::Ended, nothing(), true, 5);
    assert!(!t.jump_held());
    assert!(t.crouch_held());
}

#[test]
fn pausing_lets_go_of_everything() {
    let mut t = TouchController::new();
    t.on_touch_game(1, Phase::Started, GameHits { jump: true, ..nothing() }, true, 0);
    t.on_touch_game(2, Phase::Started, GameHits { left_half: true, ..nothing() }, true, 0);
    let pause = GameHits { pause: true, ..nothing() };
    assert_eq!(t.on_touch_game(3, Phase::Started, pause, true, 1), Some(TouchAction::OpenPause));
    assert!(!t.jump_held());
    assert_eq!(t.movement_drag(), None);
    assert_eq!(t.drag_zone(2), None);
}

#[test]
fn the_hotbar_is_touched_slot_by_slot() {
    let mut t = TouchController::new();
    let mut slots = [false; 7];
    slots[5] = true;
    slots[6] = true;
    let hits = GameHits { hotbar: slots, ..nothing() };
    assert_eq!(t.on_touch_game(1, Phase::Started, hits, true, 0), Some(TouchAction::SelectBlock(6)));
    // The copy button of the debug panel comes before all others.
    let copy = GameHits { copy: true, pause: true, hotbar: slots, ..nothing() };
    assert_eq!(t.on_touch_game(1, Phase::Started, copy, true, 0), Some(TouchAction::CopyDebugSnapshot));
}
