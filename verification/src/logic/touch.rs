//! What touches and clicks mean: which button was hit on which screen, and the
//! fingers that rest on the screen during the game.
//!
//! Where the buttons are is the caller's part. It says which of them lie under
//! the finger; the order in which they are asked decides here.
use std::collections::HashMap;
use vstd::prelude::*;

verus! {

broadcast use vstd::std_specs::hash::group_hash_axioms;

/// A finger that leaves within this time, in milliseconds, has tapped.
pub const TAP_MAX_MS: u64 = 220;

/// While a finger is held down a block breaks every so many milliseconds.
pub const HOLD_BREAK_REPEAT_MS: u64 = 200;

/// How many worlds the list shows.
pub const WORLDLIST_MAX_ROWS: usize = 6;

/// How many characters the name of a world can have when it is typed.
pub const NAME_INPUT_MAX_CHARS: usize = 18;

/// What a touch or a click asks for.
#[derive(Debug, Clone, Copy, PartialEq, Eq, Structural)]
pub enum TouchAction {
    Place,
    /// A hotbar slot, counted from one.
    SelectBlock(u8),
    OpenPause,
    PlayGame,
    SelectWorld(usize),
    OpenNameWorld,
    KeyboardChar(char),
    KeyboardBackspace,
    ConfirmNameWorld,
    RequestDeleteWorld(usize),
    ConfirmDeleteWorld,
    ExitApp,
    OpenGameModeScreen,
    OpenSettingsScreen,
    OpenSettingsMore,
    ExitGame,
    Back,
    ToggleFps,
    SetGameMode(usize),
    ToggleClouds,
    ToggleFog,
    DecreaseRenderRadius,
    IncreaseRenderRadius,
    ToggleBuildInfo,
    ToggleDebugPanel,
    CycleAutosaveInterval,
    CopyDebugSnapshot,
}

/// Where a touch is in its life.
#[derive(Debug, Clone, Copy, PartialEq, Eq, Structural)]
pub enum Phase {
    Started,
    Moved,
    Ended,
    Cancelled,
}

/// What a finger resting on the screen does.
#[derive(Debug, Clone, Copy, PartialEq, Eq, Structural)]
pub enum Zone {
    Movement,
    Look,
    Jump,
    Crouch,
}

/// The first of the flags that is set, counted from zero, up to `n` of them.
pub open spec fn first_set(flags: Seq<bool>, n: int) -> Option<int>
    decreases n,
{
    if n <= 0 {
        None
    } else {
        match first_set(flags, n - 1) {
            Some(k) => Some(k),
            None => if flags[n - 1] {
                Some(n - 1)
            } else {
                None
            },
        }
    }
}

fn first_of(flags: &[bool], n: usize) -> (r: Option<usize>)
    requires
        n <= flags@.len(),
    ensures
        r is Some <==> first_set(flags@, n as int) is Some,
        r matches Some(k) ==> k < n && first_set(flags@, n as int) == Some(k as int),
{
    let mut i: usize = 0;
    while i < n
        invariant
            i <= n,
            n <= flags@.len(),
            first_set(flags@, i as int) is None,
        decreases n - i,
    {
        if flags[i] {
            proof {
                lemma_first_set_stays(flags@, i + 1, n as int);
            }
            return Some(i);
        }
        i = i + 1;
    }
    None
}

proof fn lemma_first_set_stays(flags: Seq<bool>, a: int, b: int)
    requires
        0 <= a <= b,
        first_set(flags, a) is Some,
    ensures
        first_set(flags, b) == first_set(flags, a),
    decreases b - a,
{
    if a < b {
        lemma_first_set_stays(flags, a, b - 1);
    }
}

/// The first set flag is set, and none before it is.
pub proof fn law_first_set_is_first(flags: Seq<bool>, n: int)
    requires
        0 <= n,
    ensures
        first_set(flags, n) matches Some(k) ==> 0 <= k < n && flags[k] && forall|j: int|
            0 <= j < k ==> !#[trigger] flags[j],
        first_set(flags, n) is None ==> forall|j: int| 0 <= j < n ==> !#[trigger] flags[j],
    decreases n,
{
    if n > 0 {
        law_first_set_is_first(flags, n - 1);
    }
}

/// Buttons of the main menu under the finger: play, settings, exit.
#[derive(Debug, Clone, Copy)]
pub struct MainMenuHits {
    pub play: bool,
    pub settings: bool,
    pub exit: bool,
}

pub open spec fn main_menu_hit(h: MainMenuHits) -> Option<TouchAction> {
    if h.play {
        Some(TouchAction::PlayGame)
    } else if h.settings {
        Some(TouchAction::OpenSettingsScreen)
    } else if h.exit {
        Some(TouchAction::ExitApp)
    } else {
        None
    }
}

/// What a click on the main menu asks for.
fn hit_main_menu(h: MainMenuHits) -> (r: Option<TouchAction>)
    ensures
        r == main_menu_hit(h),
{
    if h.play {
        return Some(TouchAction::PlayGame);
    }
    if h.settings {
        return Some(TouchAction::OpenSettingsScreen);
    }
    if h.exit {
        return Some(TouchAction::ExitApp);
    }
    None
}

/// Buttons of the pause menu under the finger.
#[derive(Debug, Clone, Copy)]
pub struct PauseHits {
    pub back: bool,
    pub game_mode: bool,
    pub settings: bool,
    pub exit: bool,
}

pub open spec fn pause_hit(h: PauseHits) -> Option<TouchAction> {
    if h.back {
        Some(TouchAction::Back)
    } else if h.game_mode {
        Some(TouchAction::OpenGameModeScreen)
    } else if h.settings {
        Some(TouchAction::OpenSettingsScreen)
    } else if h.exit {
        Some(TouchAction::ExitGame)
    } else {
        None
    }
}

/// What a click on the pause menu asks for.
fn hit_pause(h: PauseHits) -> (r: Option<TouchAction>)
    ensures
        r == pause_hit(h),
{
    if h.back {
        return Some(TouchAction::Back);
    }
    if h.game_mode {
        return Some(TouchAction::OpenGameModeScreen);
    }
    if h.settings {
        return Some(TouchAction::OpenSettingsScreen);
    }
    if h.exit {
        return Some(TouchAction::ExitGame);
    }
    None
}

/// Buttons of the screen that asks for a world's name.
#[derive(Debug, Clone, Copy)]
pub struct NameWorldHits {
    pub back: bool,
    pub backspace: bool,
    pub confirm: bool,
}

pub open spec fn nameworld_hit(h: NameWorldHits) -> Option<TouchAction> {
    if h.back {
        Some(TouchAction::Back)
    } else if h.backspace {
        Some(TouchAction::KeyboardBackspace)
    } else if h.confirm {
        Some(TouchAction::ConfirmNameWorld)
    } else {
        None
    }
}

/// What a click on the name screen asks for.
fn hit_nameworld(h: NameWorldHits) -> (r: Option<TouchAction>)
    ensures
        r == nameworld_hit(h),
{
    if h.back {
        return Some(TouchAction::Back);
    }
    if h.backspace {
        return Some(TouchAction::KeyboardBackspace);
    }
    if h.confirm {
        return Some(TouchAction::ConfirmNameWorld);
    }
    None
}

/// Buttons of the screen that asks before a world is deleted.
#[derive(Debug, Clone, Copy)]
pub struct ConfirmDeleteHits {
    pub back: bool,
    pub cancel: bool,
    pub confirm: bool,
}

/// Cancelling is going back; only the delete button deletes.
pub open spec fn confirmdelete_hit(h: ConfirmDeleteHits) -> Option<TouchAction> {
    if h.back || h.cancel {
        Some(TouchAction::Back)
    } else if h.confirm {
        Some(TouchAction::ConfirmDeleteWorld)
    } else {
        None
    }
}

/// What a click on the delete screen asks for.
fn hit_confirmdelete(h: ConfirmDeleteHits) -> (r: Option<TouchAction>)
    ensures
        r == confirmdelete_hit(h),
{
    if h.back {
        return Some(TouchAction::Back);
    }
    if h.cancel {
        return Some(TouchAction::Back);
    }
    if h.confirm {
        return Some(TouchAction::ConfirmDeleteWorld);
    }
    None
}

/// Buttons of the world list: going back, a new world, and for each row its
/// delete button and the row itself.
pub struct WorldListHits {
    pub back: bool,
    pub create: bool,
    pub delete: Vec<bool>,
    pub row: Vec<bool>,
}

/// What the rows up to `n` ask for: the first row hit, its delete button before
/// the row.
pub open spec fn row_hit(delete: Seq<bool>, row: Seq<bool>, n: int) -> Option<TouchAction>
    decreases n,
{
    if n <= 0 {
        None
    } else {
        match row_hit(delete, row, n - 1) {
            Some(a) => Some(a),
            None => if delete[n - 1] {
                Some(TouchAction::RequestDeleteWorld((n - 1) as usize))
            } else if row[n - 1] {
                Some(TouchAction::SelectWorld((n - 1) as usize))
            } else {
                None
            },
        }
    }
}

pub open spec fn shown_rows(world_count: int) -> int {
    if world_count < WORLDLIST_MAX_ROWS {
        world_count
    } else {
        WORLDLIST_MAX_ROWS as int
    }
}

pub open spec fn worldlist_hit(h: WorldListHits, world_count: int) -> Option<TouchAction> {
    if h.back {
        Some(TouchAction::Back)
    } else if h.create {
        Some(TouchAction::OpenNameWorld)
    } else {
        row_hit(h.delete@, h.row@, shown_rows(world_count))
    }
}

proof fn lemma_row_hit_stays(delete: Seq<bool>, row: Seq<bool>, a: int, b: int)
    requires
        0 <= a <= b,
        row_hit(delete, row, a) is Some,
    ensures
        row_hit(delete, row, b) == row_hit(delete, row, a),
    decreases b - a,
{
    if a < b {
        lemma_row_hit_stays(delete, row, a, b - 1);
    }
}

/// What a click on the world list asks for. Rows past the last world do not count.
fn hit_worldlist(h: &WorldListHits, world_count: usize) -> (r: Option<TouchAction>)
    requires
        h.delete@.len() >= shown_rows(world_count as int),
        h.row@.len() >= shown_rows(world_count as int),
    ensures
        r == worldlist_hit(*h, world_count as int),
{
    if h.back {
        return Some(TouchAction::Back);
    }
    if h.create {
        return Some(TouchAction::OpenNameWorld);
    }
    let rows: usize = if world_count < WORLDLIST_MAX_ROWS {
        world_count
    } else {
        WORLDLIST_MAX_ROWS
    };
    let mut i: usize = 0;
    while i < rows
        invariant
            i <= rows,
            rows == shown_rows(world_count as int),
            h.delete@.len() >= rows,
            h.row@.len() >= rows,
            row_hit(h.delete@, h.row@, i as int) is None,
            !h.back,
            !h.create,
        decreases rows - i,
    {
        if h.delete[i] {
            proof {
                lemma_row_hit_stays(h.delete@, h.row@, i + 1, rows as int);
            }
            return Some(TouchAction::RequestDeleteWorld(i));
        }
        if h.row[i] {
            proof {
                lemma_row_hit_stays(h.delete@, h.row@, i + 1, rows as int);
            }
            return Some(TouchAction::SelectWorld(i));
        }
        i = i + 1;
    }
    None
}

/// Buttons of the game mode screen: going back and the three modes.
#[derive(Debug, Clone, Copy)]
pub struct GameModeHits {
    pub back: bool,
    pub options: [bool; 3],
}

pub open spec fn gamemode_hit(h: GameModeHits) -> Option<TouchAction> {
    if h.back {
        Some(TouchAction::Back)
    } else if h.options@[0] {
        Some(TouchAction::SetGameMode(0))
    } else if h.options@[1] {
        Some(TouchAction::SetGameMode(1))
    } else if h.options@[2] {
        Some(TouchAction::SetGameMode(2))
    } else {
        None
    }
}

/// What a click on the game mode screen asks for.
fn hit_gamemode(h: GameModeHits) -> (r: Option<TouchAction>)
    ensures
        r == gamemode_hit(h),
{
    if h.back {
        return Some(TouchAction::Back);
    }
    let mut i: usize = 0;
    while i < 3
        invariant
            i <= 3,
            !h.back,
            forall|j: int| 0 <= j < i ==> !#[trigger] h.options@[j],
        decreases 3 - i,
    {
        if h.options[i] {
            return Some(TouchAction::SetGameMode(i));
        }
        i = i + 1;
    }
    None
}

/// Controls of the settings screen.
#[derive(Debug, Clone, Copy)]
pub struct SettingsHits {
    pub back: bool,
    pub fps: bool,
    pub radius_minus: bool,
    pub radius_plus: bool,
    pub clouds: bool,
    pub fog: bool,
    pub more: bool,
}

pub open spec fn settings_hit(h: SettingsHits) -> Option<TouchAction> {
    if h.back {
        Some(TouchAction::Back)
    } else if h.fps {
        Some(TouchAction::ToggleFps)
    } else if h.radius_minus {
        Some(TouchAction::DecreaseRenderRadius)
    } else if h.radius_plus {
        Some(TouchAction::IncreaseRenderRadius)
    } else if h.clouds {
        Some(TouchAction::ToggleClouds)
    } else if h.fog {
        Some(TouchAction::ToggleFog)
    } else if h.more {
        Some(TouchAction::OpenSettingsMore)
    } else {
        None
    }
}

/// What a click on the settings screen asks for.
fn hit_settings(h: SettingsHits) -> (r: Option<TouchAction>)
    ensures
        r == settings_hit(h),
{
    if h.back {
        return Some(TouchAction::Back);
    }
    if h.fps {
        return Some(TouchAction::ToggleFps);
    }
    if h.radius_minus {
        return Some(TouchAction::DecreaseRenderRadius);
    }
    if h.radius_plus {
        return Some(TouchAction::IncreaseRenderRadius);
    }
    if h.clouds {
        return Some(TouchAction::ToggleClouds);
    }
    if h.fog {
        return Some(TouchAction::ToggleFog);
    }
    if h.more {
        return Some(TouchAction::OpenSettingsMore);
    }
    None
}

/// Controls of the screen with the further settings.
#[derive(Debug, Clone, Copy)]
pub struct SettingsMoreHits {
    pub back: bool,
    pub build_info: bool,
    pub debug_panel: bool,
    pub autosave: bool,
}

pub open spec fn settings_more_hit(h: SettingsMoreHits) -> Option<TouchAction> {
    if h.back {
        Some(TouchAction::Back)
    } else if h.build_info {
        Some(TouchAction::ToggleBuildInfo)
    } else if h.debug_panel {
        Some(TouchAction::ToggleDebugPanel)
    } else if h.autosave {
        Some(TouchAction::CycleAutosaveInterval)
    } else {
        None
    }
}

/// What a click on the further settings asks for.
fn hit_settings_more(h: SettingsMoreHits) -> (r: Option<TouchAction>)
    ensures
        r == settings_more_hit(h),
{
    if h.back {
        return Some(TouchAction::Back);
    }
    if h.build_info {
        return Some(TouchAction::ToggleBuildInfo);
    }
    if h.debug_panel {
        return Some(TouchAction::ToggleDebugPanel);
    }
    if h.autosave {
        return Some(TouchAction::CycleAutosaveInterval);
    }
    None
}

/// A finger resting on the screen during the game.
#[derive(Debug, Clone, Copy, PartialEq, Eq)]
pub struct ActiveDrag {
    pub zone: Zone,
    /// When the finger came down, in milliseconds.
    pub started_at: u64,
    /// When it last broke a block.
    pub last_break_at: Option<u64>,
}

/// What lies under a finger during the game.
#[derive(Debug, Clone, Copy)]
pub struct GameHits {
    /// The copy button of the debug panel, where the panel is shown.
    pub copy: bool,
    pub pause: bool,
    pub hotbar: [bool; 7],
    pub jump: bool,
    pub crouch: bool,
    pub left_half: bool,
}

pub open spec fn elapsed(now: u64, since: u64) -> int {
    if now >= since {
        now - since
    } else {
        0
    }
}

fn elapsed_ms(now: u64, since: u64) -> (r: u64)
    ensures
        r == elapsed(now, since),
{
    if now >= since {
        now - since
    } else {
        0
    }
}

/// The part of the screen under the finger, buttons first.
pub open spec fn zone_at(h: GameHits) -> Zone {
    if h.jump {
        Zone::Jump
    } else if h.crouch {
        Zone::Crouch
    } else if h.left_half {
        Zone::Movement
    } else {
        Zone::Look
    }
}

/// What the fingers on the screen are doing.
#[verifier::ext_equal]
pub struct TouchView {
    pub drags: Map<u64, ActiveDrag>,
    pub jump_held: bool,
    pub crouch_held: bool,
}

impl TouchView {
    /// A finger comes down. Buttons are asked first; a finger on none of them
    /// starts to drag. Opening the pause menu lets go of everything.
    pub open spec fn after_start(self, id: u64, h: GameHits, now: u64) -> (
        TouchView,
        Option<TouchAction>,
    ) {
        if h.copy {
            (self, Some(TouchAction::CopyDebugSnapshot))
        } else if h.pause {
            (
                TouchView { drags: Map::empty(), jump_held: false, crouch_held: false },
                Some(TouchAction::OpenPause),
            )
        } else {
            match first_set(h.hotbar@, 7) {
                Some(k) => (self, Some(TouchAction::SelectBlock((k + 1) as u8))),
                None => (
                    TouchView {
                        drags: self.drags.insert(
                            id,
                            ActiveDrag {
                                zone: zone_at(h),
                                started_at: now,
                                last_break_at: None,
                            },
                        ),
                        jump_held: self.jump_held || zone_at(h) == Zone::Jump,
                        crouch_held: self.crouch_held || zone_at(h) == Zone::Crouch,
                    },
                    None,
                ),
            }
        }
    }

    /// A finger leaves. A short touch in the looking zone that stayed where it
    /// was is a tap and places a block.
    pub open spec fn after_end(self, id: u64, cancelled: bool, still: bool, now: u64) -> (
        TouchView,
        Option<TouchAction>,
    ) {
        if self.drags.contains_key(id) {
            let drag = self.drags[id];
            (
                TouchView {
                    drags: self.drags.remove(id),
                    jump_held: self.jump_held && drag.zone != Zone::Jump,
                    crouch_held: self.crouch_held && drag.zone != Zone::Crouch,
                },
                if drag.zone == Zone::Look && !cancelled && still && elapsed(now, drag.started_at)
                    <= TAP_MAX_MS {
                    Some(TouchAction::Place)
                } else {
                    None
                },
            )
        } else {
            (self, None)
        }
    }
}

/// A finger in the looking zone breaks a block now: it has been down too long
/// for a tap, and long enough since the last block.
pub open spec fn breaks_now(d: ActiveDrag, now: u64) -> bool {
    &&& d.zone == Zone::Look
    &&& elapsed(now, d.started_at) >= TAP_MAX_MS
    &&& match d.last_break_at {
        None => true,
        Some(t) => elapsed(now, t) >= HOLD_BREAK_REPEAT_MS,
    }
}

pub open spec fn after_poll(d: ActiveDrag, now: u64) -> ActiveDrag {
    if breaks_now(d, now) {
        ActiveDrag { last_break_at: Some(now), ..d }
    } else {
        d
    }
}

/// Keeps track of the fingers on the screen.
pub struct TouchController {
    drags: HashMap<u64, ActiveDrag>,
    jump_held: bool,
    crouch_held: bool,
}

impl View for TouchController {
    type V = TouchView;

    closed spec fn view(&self) -> TouchView {
        TouchView {
            drags: self.drags@,
            jump_held: self.jump_held,
            crouch_held: self.crouch_held,
        }
    }
}

impl TouchController {
    /// No finger on the screen.
    pub fn new() -> (r: Self)
        ensures
            r@ == (TouchView { drags: Map::empty(), jump_held: false, crouch_held: false }),
    {
        TouchController { drags: HashMap::new(), jump_held: false, crouch_held: false }
    }

    pub fn jump_held(&self) -> (r: bool)
        ensures
            r == self@.jump_held,
    {
        self.jump_held
    }

    pub fn crouch_held(&self) -> (r: bool)
        ensures
            r == self@.crouch_held,
    {
        self.crouch_held
    }

    /// What a touch on the main menu asks for: at its start, what a click there does.
    pub fn on_touch_main_menu(&self, phase: Phase, h: MainMenuHits) -> (r: Option<TouchAction>)
        ensures
            r == if phase == Phase::Started {
                main_menu_hit(h)
            } else {
                None
            },
    {
        if phase != Phase::Started {
            return None;
        }
        hit_main_menu(h)
    }

    /// What a click on the main menu asks for.
    pub fn on_click_main_menu(&self, h: MainMenuHits) -> (r: Option<TouchAction>)
        ensures
            r == main_menu_hit(h),
    {
        hit_main_menu(h)
    }

    /// What a touch on the pause menu asks for: at its start, what a click there does.
    pub fn on_touch_pause(&self, phase: Phase, h: PauseHits) -> (r: Option<TouchAction>)
        ensures
            r == if phase == Phase::Started {
                pause_hit(h)
            } else {
                None
            },
    {
        if phase != Phase::Started {
            return None;
        }
        hit_pause(h)
    }

    /// What a click on the pause menu asks for.
    pub fn on_click_pause(&self, h: PauseHits) -> (r: Option<TouchAction>)
        ensures
            r == pause_hit(h),
    {
        hit_pause(h)
    }

    /// What a touch on the name screen asks for: at its start, what a click there does.
    pub fn on_touch_nameworld(&self, phase: Phase, h: NameWorldHits) -> (r: Option<TouchAction>)
        ensures
            r == if phase == Phase::Started {
                nameworld_hit(h)
            } else {
                None
            },
    {
        if phase != Phase::Started {
            return None;
        }
        hit_nameworld(h)
    }

    /// What a click on the name screen asks for.
    pub fn on_click_nameworld(&self, h: NameWorldHits) -> (r: Option<TouchAction>)
        ensures
            r == nameworld_hit(h),
    {
        hit_nameworld(h)
    }

    /// What a touch on the delete screen asks for: at its start, what a click there does.
    pub fn on_touch_confirmdelete(&self, phase: Phase, h: ConfirmDeleteHits) -> (r: Option<TouchAction>)
        ensures
            r == if phase == Phase::Started {
                confirmdelete_hit(h)
            } else {
                None
            },
    {
        if phase != Phase::Started {
            return None;
        }
        hit_confirmdelete(h)
    }

    /// What a click on the delete screen asks for.
    pub fn on_click_confirmdelete(&self, h: ConfirmDeleteHits) -> (r: Option<TouchAction>)
        ensures
            r == confirmdelete_hit(h),
    {
        hit_confirmdelete(h)
    }

    /// What a touch on the game mode screen asks for: at its start, what a click there does.
    pub fn on_touch_gamemode(&self, phase: Phase, h: GameModeHits) -> (r: Option<TouchAction>)
        ensures
            r == if phase == Phase::Started {
                gamemode_hit(h)
            } else {
                None
            },
    {
        if phase != Phase::Started {
            return None;
        }
        hit_gamemode(h)
    }

    /// What a click on the game mode screen asks for.
    pub fn on_click_gamemode(&self, h: GameModeHits) -> (r: Option<TouchAction>)
        ensures
            r == gamemode_hit(h),
    {
        hit_gamemode(h)
    }

    /// What a touch on the settings screen asks for: at its start, what a click there does.
    pub fn on_touch_settings(&self, phase: Phase, h: SettingsHits) -> (r: Option<TouchAction>)
        ensures
            r == if phase == Phase::Started {
                settings_hit(h)
            } else {
                None
            },
    {
        if phase != Phase::Started {
            return None;
        }
        hit_settings(h)
    }

    /// What a click on the settings screen asks for.
    pub fn on_click_settings(&self, h: SettingsHits) -> (r: Option<TouchAction>)
        ensures
            r == settings_hit(h),
    {
        hit_settings(h)
    }

    /// What a touch on the further settings asks for: at its start, what a click there does.
    pub fn on_touch_settings_more(&self, phase: Phase, h: SettingsMoreHits) -> (r: Option<TouchAction>)
        ensures
            r == if phase == Phase::Started {
                settings_more_hit(h)
            } else {
                None
            },
    {
        if phase != Phase::Started {
            return None;
        }
        hit_settings_more(h)
    }

    /// What a click on the further settings asks for.
    pub fn on_click_settings_more(&self, h: SettingsMoreHits) -> (r: Option<TouchAction>)
        ensures
            r == settings_more_hit(h),
    {
        hit_settings_more(h)
    }

    /// What a touch on the world list asks for: at its start, what a click there does.
    pub fn on_touch_worldlist(&self, phase: Phase, h: &WorldListHits, world_count: usize) -> (r:
        Option<TouchAction>)
        requires
            h.delete@.len() >= shown_rows(world_count as int),
            h.row@.len() >= shown_rows(world_count as int),
        ensures
            r == if phase == Phase::Started {
                worldlist_hit(*h, world_count as int)
            } else {
                None
            },
    {
        if phase != Phase::Started {
            return None;
        }
        hit_worldlist(h, world_count)
    }

    /// What a click on the world list asks for.
    pub fn on_click_worldlist(&self, h: &WorldListHits, world_count: usize) -> (r: Option<
        TouchAction,
    >)
        requires
            h.delete@.len() >= shown_rows(world_count as int),
            h.row@.len() >= shown_rows(world_count as int),
        ensures
            r == worldlist_hit(*h, world_count as int),
    {
        hit_worldlist(h, world_count)
    }

    /// The zone of a finger, if it rests on the screen.
    pub fn drag_zone(&self, id: u64) -> (r: Option<Zone>)
        ensures
            r == if self@.drags.contains_key(id) {
                Some(self@.drags[id].zone)
            } else {
                None
            },
    {
        match self.drags.get(&id) {
            Some(d) => Some(d.zone),
            None => None,
        }
    }

    fn zone_for(h: GameHits) -> (r: Zone)
        ensures
            r == zone_at(h),
    {
        if h.jump {
            return Zone::Jump;
        }
        if h.crouch {
            return Zone::Crouch;
        }
        if h.left_half {
            Zone::Movement
        } else {
            Zone::Look
        }
    }

    /// Handles a touch during the game. `still` says of a finger that leaves
    /// whether it stayed near where it came down.
    pub fn on_touch_game(&mut self, id: u64, phase: Phase, h: GameHits, still: bool, now: u64) -> (r:
        Option<TouchAction>)
        ensures
            (final(self)@, r) == match phase {
                Phase::Started => old(self)@.after_start(id, h, now),
                Phase::Moved => (old(self)@, None),
                Phase::Ended => old(self)@.after_end(id, false, still, now),
                Phase::Cancelled => old(self)@.after_end(id, true, still, now),
            },
    {
        match phase {
            Phase::Started => {
                if h.copy {
                    return Some(TouchAction::CopyDebugSnapshot);
                }
                if h.pause {
                    self.drags.clear();
                    self.jump_held = false;
                    self.crouch_held = false;
                    return Some(TouchAction::OpenPause);
                }
                if let Some(k) = first_of(&h.hotbar, 7) {
                    return Some(TouchAction::SelectBlock((k + 1) as u8));
                }
                let zone: Zone = Self::zone_for(h);
                if zone == Zone::Jump {
                    self.jump_held = true;
                }
                if zone == Zone::Crouch {
                    self.crouch_held = true;
                }
                self.drags.insert(id, ActiveDrag { zone, started_at: now, last_break_at: None });
                None
            },
            Phase::Moved => None,
            Phase::Ended => self.lift(id, false, still, now),
            Phase::Cancelled => self.lift(id, true, still, now),
        }
    }

    fn lift(&mut self, id: u64, cancelled: bool, still: bool, now: u64) -> (r: Option<TouchAction>)
        ensures
            (final(self)@, r) == old(self)@.after_end(id, cancelled, still, now),
    {
        match self.drags.remove(&id) {
            Some(drag) => {
                if drag.zone == Zone::Jump {
                    self.jump_held = false;
                }
                if drag.zone == Zone::Crouch {
                    self.crouch_held = false;
                }
                if drag.zone == Zone::Look && !cancelled && elapsed_ms(now, drag.started_at)
                    <= TAP_MAX_MS && still {
                    return Some(TouchAction::Place);
                }
                None
            },
            None => {
                assert(self@ =~= old(self)@);
                None
            },
        }
    }

    fn drag_ids(&self) -> (r: Vec<u64>)
        ensures
            r@.no_duplicates(),
            forall|k: u64| #[trigger] r@.contains(k) <==> self@.drags.contains_key(k),
    {
        let mut out: Vec<u64> = Vec::new();
        for k in it: self.drags.keys()
            invariant
                out@.len() == it.index(),
                forall|j: int| 0 <= j < out@.len() ==> #[trigger] out@[j] == *it.seq()[j],
                it.seq().no_duplicates(),
                it.index() == it.seq().len() ==> out@ == it.seq().unref(),
                it.seq().unref().to_set() == self.drags@.dom(),
        {
            out.push(*k);
        }
        assert(out@.to_set() == self.drags@.dom());
        assert forall|k: u64| #[trigger] out@.contains(k) <==> self@.drags.contains_key(k) by {
            assert(out@.contains(k) <==> out@.to_set().contains(k));
        }
        out
    }

    /// The finger that moves the player, if one rests in that zone.
    pub fn movement_drag(&self) -> (r: Option<u64>)
        ensures
            r matches Some(id) ==> self@.drags.contains_key(id) && self@.drags[id].zone
                == Zone::Movement,
            r is None ==> forall|id: u64| #[trigger]
                self@.drags.contains_key(id) ==> self@.drags[id].zone != Zone::Movement,
    {
        let ids = self.drag_ids();
        let mut i: usize = 0;
        while i < ids.len()
            invariant
                i <= ids@.len(),
                forall|k: u64| #[trigger] ids@.contains(k) <==> self@.drags.contains_key(k),
                forall|j: int|
                    0 <= j < i ==> self@.drags[#[trigger] ids@[j]].zone != Zone::Movement,
            decreases ids@.len() - i,
        {
            let id: u64 = ids[i];
            assert(ids@.contains(id));
            if let Some(zone) = self.drag_zone(id) {
                if zone == Zone::Movement {
                    return Some(id);
                }
            }
            i = i + 1;
        }
        proof {
            assert forall|id: u64| #[trigger] self@.drags.contains_key(
                id,
            ) implies self@.drags[id].zone != Zone::Movement by {
                assert(ids@.contains(id));
                let j = choose|j: int| 0 <= j < ids@.len() && ids@[j] == id;
                assert(self@.drags[ids@[j]].zone != Zone::Movement);
            }
        }
        None
    }

    /// Whether a finger held down breaks a block now. Each finger that does
    /// remembers the moment.
    pub fn poll_hold_break(&mut self, now: u64) -> (r: bool)
        ensures
            r <==> exists|id: u64| #[trigger]
                old(self)@.drags.contains_key(id) && breaks_now(old(self)@.drags[id], now),
            final(self)@.jump_held == old(self)@.jump_held,
            final(self)@.crouch_held == old(self)@.crouch_held,
            final(self)@.drags == old(self)@.drags.map_values(|d: ActiveDrag| after_poll(d, now)),
    {
        let ids = self.drag_ids();
        let ghost before = self.drags@;
        let mut should_break: bool = false;
        let mut i: usize = 0;
        while i < ids.len()
            invariant
                i <= ids@.len(),
                before == old(self)@.drags,
                ids@.no_duplicates(),
                forall|k: u64| #[trigger] ids@.contains(k) <==> before.contains_key(k),
                self.jump_held == old(self)@.jump_held,
                self.crouch_held == old(self)@.crouch_held,
                self.drags@.dom() == before.dom(),
                forall|j: int|
                    0 <= j < i ==> self.drags@[#[trigger] ids@[j]] == after_poll(
                        before[ids@[j]],
                        now,
                    ),
                forall|j: int| i <= j < ids@.len() ==> self.drags@[#[trigger] ids@[j]]
                    == before[ids@[j]],
                should_break <==> exists|j: int|
                    0 <= j < i && breaks_now(before[#[trigger] ids@[j]], now),
            decreases ids@.len() - i,
        {
            let id: u64 = ids[i];
            assert(ids@.contains(id));
            let ghost prior = self.drags@;
            match self.drags.get(&id) {
                Some(d) => {
                    let drag: ActiveDrag = *d;
                    let ready: bool = match drag.last_break_at {
                        None => true,
                        Some(t) => elapsed_ms(now, t) >= HOLD_BREAK_REPEAT_MS,
                    };
                    if drag.zone == Zone::Look && elapsed_ms(now, drag.started_at) >= TAP_MAX_MS
                        && ready {
                        self.drags.insert(
                            id,
                            ActiveDrag {
                                zone: drag.zone,
                                started_at: drag.started_at,
                                last_break_at: Some(now),
                            },
                        );
                        should_break = true;
                        assert(breaks_now(before[ids@[i as int]], now));
                    }
                },
                None => {},
            }
            assert(self.drags@.dom() =~= before.dom());
            i = i + 1;
        }
        proof {
            let after = before.map_values(|d: ActiveDrag| after_poll(d, now));
            assert forall|k: u64| before.contains_key(k) implies self.drags@[k] == after[k] by {
                assert(ids@.contains(k));
                let j = choose|j: int| 0 <= j < ids@.len() && ids@[j] == k;
                assert(self.drags@[ids@[j]] == after_poll(before[ids@[j]], now));
            }
            assert(self.drags@ =~= after);
            if should_break {
                let j = choose|j: int|
                    0 <= j < ids@.len() && breaks_now(before[#[trigger] ids@[j]], now);
                assert(ids@.contains(ids@[j]));
                assert(before.contains_key(ids@[j]));
            }
            if exists|id: u64| #[trigger] before.contains_key(id) && breaks_now(before[id], now) {
                let id = choose|id: u64| #[trigger]
                    before.contains_key(id) && breaks_now(before[id], now);
                assert(ids@.contains(id));
                let j = choose|j: int| 0 <= j < ids@.len() && ids@[j] == id;
                assert(breaks_now(before[ids@[j]], now));
            }
        }
        should_break
    }
}

/// The world list only ever names worlds that it shows.
pub proof fn law_world_rows_are_shown(h: WorldListHits, world_count: int)
    requires
        0 <= world_count,
    ensures
        worldlist_hit(h, world_count) matches Some(TouchAction::SelectWorld(i)) ==> i < world_count
            && i < WORLDLIST_MAX_ROWS,
        worldlist_hit(h, world_count) matches Some(TouchAction::RequestDeleteWorld(i)) ==> i
            < world_count && i < WORLDLIST_MAX_ROWS,
{
    lemma_row_hit_index(h.delete@, h.row@, shown_rows(world_count));
}

proof fn lemma_row_hit_index(delete: Seq<bool>, row: Seq<bool>, n: int)
    requires
        0 <= n <= WORLDLIST_MAX_ROWS,
    ensures
        row_hit(delete, row, n) matches Some(a) ==> (a matches TouchAction::SelectWorld(i) ==> i
            < n) && (a matches TouchAction::RequestDeleteWorld(i) ==> i < n),
    decreases n,
{
    if n > 0 {
        lemma_row_hit_index(delete, row, n - 1);
    }
}

/// A finger never both taps and breaks: one that broke a block in the looking
/// zone has been down for the time of a tap, and only at that very moment does
/// lifting it still count as a tap.
pub proof fn law_tap_or_hold(v: TouchView, id: u64, broke_at: u64, now: u64, still: bool)
    requires
        v.drags.contains_key(id),
        breaks_now(v.drags[id], broke_at),
        broke_at <= now,
        elapsed(now, v.drags[id].started_at) != TAP_MAX_MS,
    ensures
        v.after_end(id, false, still, now).1 is None,
{
}

/// Opening the pause menu lets go of every finger and every held button.
pub proof fn law_pausing_lets_go(v: TouchView, id: u64, h: GameHits, now: u64)
    requires
        v.after_start(id, h, now).1 == Some(TouchAction::OpenPause),
    ensures
        v.after_start(id, h, now).0 == (TouchView {
            drags: Map::empty(),
            jump_held: false,
            crouch_held: false,
        }),
{
}

/// A finger on one button of the main menu or of the pause menu asks for what
/// the button says, and one beside all buttons asks for nothing.
pub proof fn law_menu_buttons_do_what_they_say(m: MainMenuHits, p: PauseHits)
    ensures
        m.play && !m.settings && !m.exit ==> main_menu_hit(m) == Some(TouchAction::PlayGame),
        !m.play && m.settings && !m.exit ==> main_menu_hit(m) == Some(
            TouchAction::OpenSettingsScreen,
        ),
        !m.play && !m.settings && m.exit ==> main_menu_hit(m) == Some(TouchAction::ExitApp),
        main_menu_hit(m) is None <==> !m.play && !m.settings && !m.exit,
        p.back && !p.game_mode && !p.settings && !p.exit ==> pause_hit(p) == Some(
            TouchAction::Back,
        ),
        !p.back && p.game_mode && !p.settings && !p.exit ==> pause_hit(p) == Some(
            TouchAction::OpenGameModeScreen,
        ),
        !p.back && !p.game_mode && p.settings && !p.exit ==> pause_hit(p) == Some(
            TouchAction::OpenSettingsScreen,
        ),
        !p.back && !p.game_mode && !p.settings && p.exit ==> pause_hit(p) == Some(
            TouchAction::ExitGame,
        ),
        pause_hit(p) is None <==> !p.back && !p.game_mode && !p.settings && !p.exit,
{
}

/// On the screens about worlds each button does what it says, and a world is
/// deleted only by the button that says so.
pub proof fn law_world_buttons_do_what_they_say(n: NameWorldHits, d: ConfirmDeleteHits)
    ensures
        n.back ==> nameworld_hit(n) == Some(TouchAction::Back),
        !n.back && n.backspace && !n.confirm ==> nameworld_hit(n) == Some(
            TouchAction::KeyboardBackspace,
        ),
        !n.back && !n.backspace && n.confirm ==> nameworld_hit(n) == Some(
            TouchAction::ConfirmNameWorld,
        ),
        nameworld_hit(n) is None <==> !n.back && !n.backspace && !n.confirm,
        confirmdelete_hit(d) == Some(TouchAction::ConfirmDeleteWorld) <==> d.confirm && !d.back
            && !d.cancel,
        confirmdelete_hit(d) == Some(TouchAction::Back) <==> d.back || d.cancel,
        confirmdelete_hit(d) is None <==> !d.back && !d.cancel && !d.confirm,
{
}

/// On the settings screens a finger on one button alone works that setting.
pub proof fn law_settings_buttons_do_what_they_say(s: SettingsHits, m: SettingsMoreHits)
    ensures
        s.back ==> settings_hit(s) == Some(TouchAction::Back),
        !s.back ==> {
            &&& s.fps && !s.radius_minus && !s.radius_plus && !s.clouds && !s.fog && !s.more
                ==> settings_hit(s) == Some(TouchAction::ToggleFps)
            &&& !s.fps && s.radius_minus && !s.radius_plus && !s.clouds && !s.fog && !s.more
                ==> settings_hit(s) == Some(TouchAction::DecreaseRenderRadius)
            &&& !s.fps && !s.radius_minus && s.radius_plus && !s.clouds && !s.fog && !s.more
                ==> settings_hit(s) == Some(TouchAction::IncreaseRenderRadius)
            &&& !s.fps && !s.radius_minus && !s.radius_plus && s.clouds && !s.fog && !s.more
                ==> settings_hit(s) == Some(TouchAction::ToggleClouds)
            &&& !s.fps && !s.radius_minus && !s.radius_plus && !s.clouds && s.fog && !s.more
                ==> settings_hit(s) == Some(TouchAction::ToggleFog)
            &&& !s.fps && !s.radius_minus && !s.radius_plus && !s.clouds && !s.fog && s.more
                ==> settings_hit(s) == Some(TouchAction::OpenSettingsMore)
        },
        settings_hit(s) is None <==> !s.back && !s.fps && !s.radius_minus && !s.radius_plus
            && !s.clouds && !s.fog && !s.more,
        m.back ==> settings_more_hit(m) == Some(TouchAction::Back),
        !m.back && m.build_info && !m.debug_panel && !m.autosave ==> settings_more_hit(m) == Some(
            TouchAction::ToggleBuildInfo,
        ),
        !m.back && !m.build_info && m.debug_panel && !m.autosave ==> settings_more_hit(m) == Some(
            TouchAction::ToggleDebugPanel,
        ),
        !m.back && !m.build_info && !m.debug_panel && m.autosave ==> settings_more_hit(m) == Some(
            TouchAction::CycleAutosaveInterval,
        ),
        settings_more_hit(m) is None <==> !m.back && !m.build_info && !m.debug_panel
            && !m.autosave,
{
}

/// On the mode screen the option under the finger is the one that is chosen.
pub proof fn law_mode_options_choose_themselves(h: GameModeHits, i: int)
    requires
        0 <= i < 3,
        h.options@[i],
        forall|j: int| 0 <= j < 3 && j != i ==> !#[trigger] h.options@[j],
    ensures
        h.back ==> gamemode_hit(h) == Some(TouchAction::Back),
        !h.back ==> gamemode_hit(h) == Some(TouchAction::SetGameMode(i as usize)),
{
    assert(h.options@.len() == 3);
    assert(i != 0 ==> !h.options@[0]);
    assert(i != 1 ==> !h.options@[1]);
    assert(i != 2 ==> !h.options@[2]);
}

/// On the world list a finger on one row of at most six works that row: its
/// delete button asks to delete that world, the rest of it enters the world.
pub proof fn law_world_rows_work_their_world(h: WorldListHits, world_count: int, i: int)
    requires
        !h.back && !h.create,
        0 <= i < world_count,
        i < 6,
        h.delete@.len() >= 6 && h.row@.len() >= 6,
        forall|j: int| 0 <= j < i ==> !#[trigger] h.delete@[j] && !h.row@[j],
    ensures
        h.delete@[i] ==> worldlist_hit(h, world_count) == Some(
            TouchAction::RequestDeleteWorld(i as usize),
        ),
        !h.delete@[i] && h.row@[i] ==> worldlist_hit(h, world_count) == Some(
            TouchAction::SelectWorld(i as usize),
        ),
{
    if h.delete@[i] || h.row@[i] {
        lemma_no_row_before(h.delete@, h.row@, i);
        lemma_row_decides(h.delete@, h.row@, i, shown_rows(world_count));
    }
}

proof fn lemma_no_row_before(delete: Seq<bool>, row: Seq<bool>, i: int)
    requires
        forall|j: int| 0 <= j < i ==> !#[trigger] delete[j] && !row[j],
    ensures
        row_hit(delete, row, i) is None,
    decreases i,
{
    if i > 0 {
        lemma_no_row_before(delete, row, i - 1);
        assert(!delete[i - 1]);
    }
}

proof fn lemma_row_decides(delete: Seq<bool>, row: Seq<bool>, i: int, n: int)
    requires
        0 <= i < n,
        row_hit(delete, row, i) is None,
        delete[i] || row[i],
    ensures
        row_hit(delete, row, n) == row_hit(delete, row, i + 1),
        row_hit(delete, row, i + 1) is Some,
    decreases n,
{
    if n > i + 1 {
        lemma_row_decides(delete, row, i, n - 1);
    }
}

/// The buttons above the world list come first.
pub proof fn law_list_buttons_come_first(h: WorldListHits, world_count: int)
    ensures
        h.back ==> worldlist_hit(h, world_count) == Some(TouchAction::Back),
        !h.back && h.create ==> worldlist_hit(h, world_count) == Some(TouchAction::OpenNameWorld),
{
}

/// A finger that comes down holds what it is on: the jump button, the crouch
/// button, the stick on the left, and everywhere else the view. Coming up it
/// lets go of exactly that, and the other fingers stay.
pub proof fn law_fingers_hold_and_let_go(
    v: TouchView,
    id: u64,
    h: GameHits,
    now: u64,
    later: u64,
    still: bool,
    other: u64,
)
    requires
        !h.copy && !h.pause,
        forall|k: int| 0 <= k < 7 ==> !#[trigger] h.hotbar@[k],
        other != id,
    ensures
        ({
            let (down, action) = v.after_start(id, h, now);
            let up = down.after_end(id, false, still, later).0;
            &&& action is None
            &&& down.drags.contains_key(id) && down.drags[id].started_at == now
            &&& down.drags[id].last_break_at is None
            &&& h.jump ==> down.drags[id].zone == Zone::Jump && down.jump_held && !up.jump_held
            &&& !h.jump ==> down.jump_held == v.jump_held && up.jump_held == v.jump_held
            &&& !h.jump && h.crouch ==> down.drags[id].zone == Zone::Crouch && down.crouch_held
                && !up.crouch_held
            &&& h.jump || !h.crouch ==> down.crouch_held == v.crouch_held && up.crouch_held
                == v.crouch_held
            &&& !h.jump && !h.crouch && h.left_half ==> down.drags[id].zone == Zone::Movement
            &&& !h.jump && !h.crouch && !h.left_half ==> down.drags[id].zone == Zone::Look
            &&& !up.drags.contains_key(id)
            &&& down.drags.contains_key(other) <==> v.drags.contains_key(other)
            &&& up.drags.contains_key(other) <==> v.drags.contains_key(other)
            &&& v.drags.contains_key(other) ==> up.drags[other] == v.drags[other]
        }),
{
    law_first_set_is_first(h.hotbar@, 7);
}

/// The buttons of the running game do what they say and start no drag: the slot
/// under the finger is selected, counted from one, the pause button pauses.
pub proof fn law_game_buttons_do_what_they_say(
    v: TouchView,
    id: u64,
    h: GameHits,
    now: u64,
    k: int,
)
    requires
        0 <= k < 7,
    ensures
        h.copy ==> v.after_start(id, h, now) == (v, Some(TouchAction::CopyDebugSnapshot)),
        !h.copy && h.pause ==> v.after_start(id, h, now).1 == Some(TouchAction::OpenPause)
            && v.after_start(id, h, now).0.drags.len() == 0 && !v.after_start(
            id,
            h,
            now,
        ).0.jump_held && !v.after_start(id, h, now).0.crouch_held,
        !h.copy && !h.pause && h.hotbar@[k] && (forall|j: int|
            0 <= j < k ==> !#[trigger] h.hotbar@[j]) ==> v.after_start(id, h, now) == (
            v,
            Some(TouchAction::SelectBlock((k + 1) as u8)),
        ),
{
    law_first_set_is_first(h.hotbar@, 7);
}

/// A tap in the looking zone that stays in place for at most 220 milliseconds
/// places a block. Anything longer, further, cancelled or elsewhere does not.
pub proof fn law_only_taps_place(v: TouchView, id: u64, cancelled: bool, still: bool, now: u64)
    requires
        v.drags.contains_key(id),
        v.drags[id].started_at <= now,
    ensures
        v.after_end(id, cancelled, still, now).1 == Some(TouchAction::Place) <==> {
            &&& v.drags[id].zone == Zone::Look
            &&& !cancelled
            &&& still
            &&& now - v.drags[id].started_at <= 220
        },
        v.after_end(id, cancelled, still, now).1 is Some ==> v.after_end(
            id,
            cancelled,
            still,
            now,
        ).1 == Some(TouchAction::Place),
{
}

/// A finger held in the looking zone breaks its first block after 220
/// milliseconds and the next ones every 200, and fingers elsewhere break none.
pub proof fn law_holding_breaks_again_and_again(d: ActiveDrag, now: u64, later: u64)
    requires
        d.started_at <= now <= later,
        d.last_break_at is None,
    ensures
        breaks_now(d, now) <==> d.zone == Zone::Look && now - d.started_at >= 220,
        breaks_now(d, now) ==> {
            let broke = after_poll(d, now);
            &&& broke.zone == d.zone && broke.started_at == d.started_at
            &&& breaks_now(broke, later) <==> later - now >= 200
        },
        !breaks_now(d, now) ==> after_poll(d, now) == d,
{
}

} // verus!
