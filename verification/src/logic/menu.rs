//! The screens of the game, the settings, and what every action does to them.
//!
//! ```text
//! MainMenu
//!   Settings            (also below Pause; remembers where it was opened)
//!   WorldList
//!     NameWorld
//!     ConfirmDeleteWorld
//!   Playing
//!     Pause
//!       GameMode
//!       Settings
//!         SettingsMore
//! ```
use crate::environment::chunk::BlockType;
use crate::logic::touch::{TouchAction, NAME_INPUT_MAX_CHARS};
use crate::text::{push_decimal, decimal, trim, trimmed};
use vstd::prelude::*;
use vstd::string::StrSliceExecFns;
use vstd::string::StringExecFns;

verus! {

/// Which screen is shown.
#[derive(Debug, Clone, Copy, PartialEq, Eq, Structural)]
pub enum GameScreen {
    MainMenu,
    WorldList,
    NameWorld,
    ConfirmDeleteWorld,
    Playing,
    Pause,
    GameMode,
    Settings,
    SettingsMore,
    /// Shown for one frame before the world is saved and left.
    Saving,
}

/// How the player moves: on foot, flying with collision, or through everything.
#[derive(Debug, Clone, Copy, PartialEq, Eq, Structural)]
pub enum GameMode {
    Survival,
    Creative,
    Spectator,
}

impl GameMode {
    pub open spec fn name(self) -> Seq<char> {
        match self {
            GameMode::Survival => "SUPERVIVENCIA"@,
            GameMode::Creative => "CREATIVO"@,
            GameMode::Spectator => "ESPECTADOR"@,
        }
    }

    pub open spec fn number(self) -> usize {
        match self {
            GameMode::Survival => 0,
            GameMode::Creative => 1,
            GameMode::Spectator => 2,
        }
    }

    pub open spec fn numbered(index: usize) -> GameMode {
        if index == 1 {
            GameMode::Creative
        } else if index == 2 {
            GameMode::Spectator
        } else {
            GameMode::Survival
        }
    }

    /// The mode's name on screen.
    pub fn label(self) -> (r: &'static str)
        ensures
            r@ == self.name(),
    {
        match self {
            GameMode::Survival => "SUPERVIVENCIA",
            GameMode::Creative => "CREATIVO",
            GameMode::Spectator => "ESPECTADOR",
        }
    }

    /// Whether blocks stop the player.
    pub fn has_collision(self) -> (r: bool)
        ensures
            r == (self != GameMode::Spectator),
    {
        !matches!(self, GameMode::Spectator)
    }

    /// Whether the player is kept from building into their own body.
    pub fn blocks_self_placement(self) -> (r: bool)
        ensures
            r == (self != GameMode::Spectator),
    {
        !matches!(self, GameMode::Spectator)
    }

    /// Whether a player stuck in a block is pulled out.
    pub fn auto_rescue(self) -> (r: bool)
        ensures
            r == (self == GameMode::Creative),
    {
        matches!(self, GameMode::Creative)
    }

    /// The mode's place in the selector.
    pub fn index(self) -> (r: usize)
        ensures
            r == self.number(),
    {
        match self {
            GameMode::Survival => 0,
            GameMode::Creative => 1,
            GameMode::Spectator => 2,
        }
    }

    /// The mode at a place in the selector; every other number is survival.
    pub fn from_index(index: usize) -> (r: Self)
        ensures
            r == GameMode::numbered(index),
    {
        match index {
            1 => GameMode::Creative,
            2 => GameMode::Spectator,
            _ => GameMode::Survival,
        }
    }
}

/// A mode's place in the selector gives back the mode, and the other way round.
pub proof fn law_mode_numbers_round_trip(mode: GameMode, index: usize)
    ensures
        GameMode::numbered(mode.number()) == mode,
        index < 3 ==> GameMode::numbered(index).number() == index,
{
}

pub const DEFAULT_RENDER_RADIUS: i32 = 4;

pub const MIN_RENDER_RADIUS: i32 = 1;

pub const MAX_RENDER_RADIUS: i32 = 128;

/// The autosave intervals to choose from, in seconds.
pub const AUTOSAVE_OPTIONS_SECS: [u32; 5] = [15, 30, 60, 120, 300];

pub const DEFAULT_AUTOSAVE_SECS: u32 = 60;

/// The interval after the given one, starting over after the longest. One that
/// is not on the list counts as the first.
pub open spec fn next_autosave(secs: u32) -> u32 {
    if secs == 30 {
        60
    } else if secs == 60 {
        120
    } else if secs == 120 {
        300
    } else if secs == 300 {
        15
    } else {
        30
    }
}

/// The autosave interval after one more tap.
pub fn cycle_autosave(secs: u32) -> (r: u32)
    ensures
        r == next_autosave(secs),
{
    let mut i: usize = 0;
    while i < 5 && AUTOSAVE_OPTIONS_SECS[i] != secs
        invariant
            i <= 5,
            forall|j: int| 0 <= j < i ==> AUTOSAVE_OPTIONS_SECS@[j] != secs,
        decreases 5 - i,
    {
        i = i + 1;
    }
    let current: usize = if i < 5 {
        i
    } else {
        0
    };
    assert(i == 5 ==> AUTOSAVE_OPTIONS_SECS@[0] != secs && AUTOSAVE_OPTIONS_SECS@[1] != secs
        && AUTOSAVE_OPTIONS_SECS@[2] != secs && AUTOSAVE_OPTIONS_SECS@[3] != secs
        && AUTOSAVE_OPTIONS_SECS@[4] != secs);
    AUTOSAVE_OPTIONS_SECS[(current + 1) % 5]
}

/// Tapping five times comes back to the same interval.
pub proof fn law_autosave_intervals_cycle(i: int)
    requires
        0 <= i < 5,
    ensures
        next_autosave(AUTOSAVE_OPTIONS_SECS@[i]) == AUTOSAVE_OPTIONS_SECS@[(i + 1) % 5],
{
}

/// How an autosave interval is shown: whole minutes from a minute on.
pub open spec fn autosave_text(secs: u32) -> Seq<char> {
    if secs >= 60 {
        decimal((secs / 60) as nat) + " MIN"@
    } else {
        decimal(secs as nat) + " S"@
    }
}

/// The autosave interval as shown on the settings screen.
pub fn autosave_label(secs: u32) -> (r: String)
    ensures
        r@ == autosave_text(secs),
{
    let mut out: String = String::new();
    if secs >= 60 {
        push_decimal(&mut out, (secs / 60) as u64);
        out.append(" MIN");
    } else {
        push_decimal(&mut out, secs as u64);
        out.append(" S");
    }
    assert(out@ =~= autosave_text(secs));
    out
}

/// Everything that the menus show and change.
pub struct GameState {
    pub game_screen: GameScreen,
    /// Where "back" leads from the settings.
    pub settings_return: GameScreen,
    pub game_mode: GameMode,
    pub selected_block: BlockType,
    pub render_radius: i32,
    pub show_fps: bool,
    pub show_clouds: bool,
    pub show_fog: bool,
    pub show_build_info: bool,
    pub show_debug_panel: bool,
    pub autosave_interval_secs: u32,
    /// The name typed for a new world, and what the keyboard is composing.
    pub name_input: String,
    pub name_preedit: String,
    pub pending_delete_index: Option<usize>,
    pub saving_started: bool,
    pub mouse_captured: bool,
}

/// What a `GameState` holds.
#[verifier::ext_equal]
pub struct GameView {
    pub game_screen: GameScreen,
    pub settings_return: GameScreen,
    pub game_mode: GameMode,
    pub selected_block: BlockType,
    pub render_radius: i32,
    pub show_fps: bool,
    pub show_clouds: bool,
    pub show_fog: bool,
    pub show_build_info: bool,
    pub show_debug_panel: bool,
    pub autosave_interval_secs: u32,
    pub name_input: Seq<char>,
    pub name_preedit: Seq<char>,
    pub pending_delete_index: Option<usize>,
    pub saving_started: bool,
    pub mouse_captured: bool,
}

impl View for GameState {
    type V = GameView;

    open spec fn view(&self) -> GameView {
        GameView {
            game_screen: self.game_screen,
            settings_return: self.settings_return,
            game_mode: self.game_mode,
            selected_block: self.selected_block,
            render_radius: self.render_radius,
            show_fps: self.show_fps,
            show_clouds: self.show_clouds,
            show_fog: self.show_fog,
            show_build_info: self.show_build_info,
            show_debug_panel: self.show_debug_panel,
            autosave_interval_secs: self.autosave_interval_secs,
            name_input: self.name_input@,
            name_preedit: self.name_preedit@,
            pending_delete_index: self.pending_delete_index,
            saving_started: self.saving_started,
            mouse_captured: self.mouse_captured,
        }
    }
}

/// What the program does after an action.
pub enum MenuEffect {
    Nothing,
    /// Place a block where the player looks.
    PlaceBlock,
    /// Read the list of worlds from disk.
    ListWorlds,
    /// Load and enter the world at this place of the list.
    StartWorld(usize),
    /// Work out the first free name and hand it back.
    ProposeName,
    /// Create and enter a world, with the first free name if none is given.
    CreateWorld(Option<String>),
    /// Delete the world at this place of the list, then read the list again.
    DeleteWorld(usize),
    ExitApp,
    /// Start the frame clock anew, so that the pause does not count.
    ResumeClock,
    /// Put the player's body where the camera is, at rest.
    SyncPlayer,
    CopyDebugSnapshot,
}

/// What a `MenuEffect` says.
pub enum EffectView {
    Nothing,
    PlaceBlock,
    ListWorlds,
    StartWorld(usize),
    ProposeName,
    CreateWorld(Option<Seq<char>>),
    DeleteWorld(usize),
    ExitApp,
    ResumeClock,
    SyncPlayer,
    CopyDebugSnapshot,
}

impl View for MenuEffect {
    type V = EffectView;

    open spec fn view(&self) -> EffectView {
        match *self {
            MenuEffect::Nothing => EffectView::Nothing,
            MenuEffect::PlaceBlock => EffectView::PlaceBlock,
            MenuEffect::ListWorlds => EffectView::ListWorlds,
            MenuEffect::StartWorld(i) => EffectView::StartWorld(i),
            MenuEffect::ProposeName => EffectView::ProposeName,
            MenuEffect::CreateWorld(name) => EffectView::CreateWorld(
                match name {
                    Some(n) => Some(n@),
                    None => None,
                },
            ),
            MenuEffect::DeleteWorld(i) => EffectView::DeleteWorld(i),
            MenuEffect::ExitApp => EffectView::ExitApp,
            MenuEffect::ResumeClock => EffectView::ResumeClock,
            MenuEffect::SyncPlayer => EffectView::SyncPlayer,
            MenuEffect::CopyDebugSnapshot => EffectView::CopyDebugSnapshot,
        }
    }
}

/// The screen above a screen.
pub open spec fn screen_above(screen: GameScreen, settings_return: GameScreen) -> GameScreen {
    match screen {
        GameScreen::GameMode => GameScreen::Pause,
        GameScreen::Settings => settings_return,
        GameScreen::SettingsMore => GameScreen::Settings,
        GameScreen::Pause => GameScreen::Playing,
        GameScreen::WorldList => GameScreen::MainMenu,
        GameScreen::NameWorld => GameScreen::WorldList,
        GameScreen::ConfirmDeleteWorld => GameScreen::WorldList,
        GameScreen::MainMenu => GameScreen::MainMenu,
        GameScreen::Playing => GameScreen::Playing,
        GameScreen::Saving => GameScreen::Saving,
    }
}

fn go_back(screen: GameScreen, settings_return: GameScreen) -> (r: GameScreen)
    ensures
        r == screen_above(screen, settings_return),
{
    match screen {
        GameScreen::GameMode => GameScreen::Pause,
        GameScreen::Settings => settings_return,
        GameScreen::SettingsMore => GameScreen::Settings,
        GameScreen::Pause => GameScreen::Playing,
        GameScreen::WorldList => GameScreen::MainMenu,
        GameScreen::NameWorld => GameScreen::WorldList,
        GameScreen::ConfirmDeleteWorld => GameScreen::WorldList,
        GameScreen::MainMenu => GameScreen::MainMenu,
        GameScreen::Playing => GameScreen::Playing,
        GameScreen::Saving => GameScreen::Saving,
    }
}

impl GameView {
    /// The radius stays within what the settings offer.
    pub open spec fn wf(self) -> bool {
        MIN_RENDER_RADIUS <= self.render_radius <= MAX_RENDER_RADIUS
    }

    /// The state and the effect after an action, with so many worlds on the list.
    pub open spec fn after(self, action: TouchAction, world_count: int) -> (GameView, EffectView) {
        match action {
            TouchAction::Place => (self, EffectView::PlaceBlock),
            TouchAction::SelectBlock(n) => (
                GameView { selected_block: BlockType::hotbar(n), ..self },
                EffectView::Nothing,
            ),
            TouchAction::PlayGame => (
                GameView { game_screen: GameScreen::WorldList, ..self },
                EffectView::ListWorlds,
            ),
            TouchAction::SelectWorld(i) => (
                self,
                if i < world_count {
                    EffectView::StartWorld(i)
                } else {
                    EffectView::Nothing
                },
            ),
            TouchAction::OpenNameWorld => (
                GameView { game_screen: GameScreen::NameWorld, name_preedit: Seq::empty(), ..self },
                EffectView::ProposeName,
            ),
            TouchAction::KeyboardChar(c) => (
                GameView {
                    name_input: if self.name_input.len() < NAME_INPUT_MAX_CHARS {
                        self.name_input.push(c)
                    } else {
                        self.name_input
                    },
                    ..self
                },
                EffectView::Nothing,
            ),
            TouchAction::KeyboardBackspace => (
                GameView {
                    name_input: if self.name_input.len() > 0 {
                        self.name_input.drop_last()
                    } else {
                        self.name_input
                    },
                    ..self
                },
                EffectView::Nothing,
            ),
            TouchAction::ConfirmNameWorld => (
                GameView { name_input: Seq::empty(), name_preedit: Seq::empty(), ..self },
                EffectView::CreateWorld(
                    if trimmed(self.name_input).len() == 0 {
                        None
                    } else {
                        Some(trimmed(self.name_input))
                    },
                ),
            ),
            TouchAction::RequestDeleteWorld(i) => (
                GameView {
                    game_screen: GameScreen::ConfirmDeleteWorld,
                    pending_delete_index: Some(i),
                    ..self
                },
                EffectView::Nothing,
            ),
            TouchAction::ConfirmDeleteWorld => (
                GameView {
                    game_screen: GameScreen::WorldList,
                    pending_delete_index: None,
                    ..self
                },
                match self.pending_delete_index {
                    Some(i) => if i < world_count {
                        EffectView::DeleteWorld(i)
                    } else {
                        EffectView::ListWorlds
                    },
                    None => EffectView::Nothing,
                },
            ),
            TouchAction::OpenPause => (
                GameView { game_screen: GameScreen::Pause, ..self },
                EffectView::Nothing,
            ),
            TouchAction::OpenGameModeScreen => (
                GameView { game_screen: GameScreen::GameMode, ..self },
                EffectView::Nothing,
            ),
            TouchAction::OpenSettingsScreen => (
                GameView {
                    game_screen: GameScreen::Settings,
                    settings_return: self.game_screen,
                    ..self
                },
                EffectView::Nothing,
            ),
            TouchAction::OpenSettingsMore => (
                GameView { game_screen: GameScreen::SettingsMore, ..self },
                EffectView::Nothing,
            ),
            TouchAction::ExitGame => (
                GameView { game_screen: GameScreen::Saving, saving_started: false, ..self },
                EffectView::Nothing,
            ),
            TouchAction::ExitApp => (self, EffectView::ExitApp),
            TouchAction::Back => (
                GameView {
                    game_screen: screen_above(self.game_screen, self.settings_return),
                    name_input: Seq::empty(),
                    name_preedit: Seq::empty(),
                    pending_delete_index: None,
                    ..self
                },
                if screen_above(self.game_screen, self.settings_return) == GameScreen::Playing {
                    EffectView::ResumeClock
                } else {
                    EffectView::Nothing
                },
            ),
            TouchAction::ToggleFps => (
                GameView { show_fps: !self.show_fps, ..self },
                EffectView::Nothing,
            ),
            TouchAction::SetGameMode(i) => self.with_mode(GameMode::numbered(i)),
            TouchAction::DecreaseRenderRadius => (
                GameView {
                    render_radius: if self.render_radius > MIN_RENDER_RADIUS {
                        (self.render_radius - 1) as i32
                    } else {
                        MIN_RENDER_RADIUS
                    },
                    ..self
                },
                EffectView::Nothing,
            ),
            TouchAction::IncreaseRenderRadius => (
                GameView {
                    render_radius: if self.render_radius < MAX_RENDER_RADIUS {
                        (self.render_radius + 1) as i32
                    } else {
                        MAX_RENDER_RADIUS
                    },
                    ..self
                },
                EffectView::Nothing,
            ),
            TouchAction::ToggleClouds => (
                GameView { show_clouds: !self.show_clouds, ..self },
                EffectView::Nothing,
            ),
            TouchAction::ToggleFog => (
                GameView { show_fog: !self.show_fog, ..self },
                EffectView::Nothing,
            ),
            TouchAction::ToggleBuildInfo => (
                GameView { show_build_info: !self.show_build_info, ..self },
                EffectView::Nothing,
            ),
            TouchAction::ToggleDebugPanel => (
                GameView { show_debug_panel: !self.show_debug_panel, ..self },
                EffectView::Nothing,
            ),
            TouchAction::CycleAutosaveInterval => (
                GameView {
                    autosave_interval_secs: next_autosave(self.autosave_interval_secs),
                    ..self
                },
                EffectView::Nothing,
            ),
            TouchAction::CopyDebugSnapshot => (self, EffectView::CopyDebugSnapshot),
        }
    }

    /// A change of mode. Modes with a body take it up where the camera is.
    pub open spec fn with_mode(self, mode: GameMode) -> (GameView, EffectView) {
        if self.game_mode == mode {
            (self, EffectView::Nothing)
        } else {
            (
                GameView { game_mode: mode, ..self },
                if mode == GameMode::Spectator {
                    EffectView::Nothing
                } else {
                    EffectView::SyncPlayer
                },
            )
        }
    }
}

impl GameState {
    /// The state at the start of the program.
    pub fn new() -> (r: Self)
        ensures
            r@.wf(),
            r@ == (GameView {
                game_screen: GameScreen::MainMenu,
                settings_return: GameScreen::MainMenu,
                game_mode: GameMode::Survival,
                selected_block: BlockType::Stone,
                render_radius: DEFAULT_RENDER_RADIUS,
                show_fps: true,
                show_clouds: true,
                show_fog: true,
                show_build_info: true,
                show_debug_panel: false,
                autosave_interval_secs: DEFAULT_AUTOSAVE_SECS,
                name_input: Seq::empty(),
                name_preedit: Seq::empty(),
                pending_delete_index: None,
                saving_started: false,
                mouse_captured: false,
            }),
    {
        GameState {
            game_screen: GameScreen::MainMenu,
            settings_return: GameScreen::MainMenu,
            game_mode: GameMode::Survival,
            selected_block: BlockType::Stone,
            render_radius: DEFAULT_RENDER_RADIUS,
            show_fps: true,
            show_clouds: true,
            show_fog: true,
            show_build_info: true,
            show_debug_panel: false,
            autosave_interval_secs: DEFAULT_AUTOSAVE_SECS,
            name_input: String::new(),
            name_preedit: String::new(),
            pending_delete_index: None,
            saving_started: false,
            mouse_captured: false,
        }
    }

    fn set_game_mode(&mut self, mode: GameMode) -> (effect: MenuEffect)
        ensures
            (final(self)@, effect@) == old(self)@.with_mode(mode),
    {
        if self.game_mode == mode {
            return MenuEffect::Nothing;
        }
        self.game_mode = mode;
        if matches!(mode, GameMode::Survival | GameMode::Creative) {
            MenuEffect::SyncPlayer
        } else {
            MenuEffect::Nothing
        }
    }

    fn type_char(&mut self, c: char)
        ensures
            final(self)@ == old(self)@.after(TouchAction::KeyboardChar(c), 0).0,
    {
        if self.name_input.as_str().unicode_len() < NAME_INPUT_MAX_CHARS {
            self.name_input.push(c);
        }
    }

    fn erase_char(&mut self)
        ensures
            final(self)@ == old(self)@.after(TouchAction::KeyboardBackspace, 0).0,
    {
        let ghost before = self.name_input@;
        let gone: Option<char> = self.name_input.pop();
        proof {
            if before.len() > 0 {
                assert(self.name_input@ =~= before.drop_last());
            }
        }
    }

    /// Takes the typed name, without white space around it, and empties the
    /// field. Nothing is returned if no name is left.
    fn take_name(&mut self) -> (r: Option<String>)
        ensures
            final(self)@ == (GameView {
                name_input: Seq::empty(),
                name_preedit: Seq::empty(),
                ..old(self)@
            }),
            r is None <==> trimmed(old(self)@.name_input).len() == 0,
            r matches Some(n) ==> n@ == trimmed(old(self)@.name_input),
    {
        let name = trim(self.name_input.as_str());
        self.name_input = String::new();
        self.name_preedit = String::new();
        if name.as_str().is_empty() {
            None
        } else {
            Some(name)
        }
    }

    /// Carries out an action and says what else the program has to do.
    #[verifier::rlimit(60)]
    pub fn apply_menu_action(&mut self, action: TouchAction, world_count: usize) -> (effect:
        MenuEffect)
        requires
            old(self)@.wf(),
        ensures
            final(self)@.wf(),
            final(self)@ == old(self)@.after(action, world_count as int).0,
            effect@ == old(self)@.after(action, world_count as int).1,
    {
        match action {
            TouchAction::Place => MenuEffect::PlaceBlock,
            TouchAction::SelectBlock(n) => {
                self.selected_block = BlockType::from_hotbar_slot(n);
                MenuEffect::Nothing
            },
            TouchAction::PlayGame => {
                self.game_screen = GameScreen::WorldList;
                MenuEffect::ListWorlds
            },
            TouchAction::SelectWorld(index) => {
                if index < world_count {
                    MenuEffect::StartWorld(index)
                } else {
                    MenuEffect::Nothing
                }
            },
            TouchAction::OpenNameWorld => {
                self.name_preedit = String::new();
                self.game_screen = GameScreen::NameWorld;
                MenuEffect::ProposeName
            },
            TouchAction::KeyboardChar(c) => {
                self.type_char(c);
                MenuEffect::Nothing
            },
            TouchAction::KeyboardBackspace => {
                self.erase_char();
                MenuEffect::Nothing
            },
            TouchAction::ConfirmNameWorld => {
                let name = self.take_name();
                MenuEffect::CreateWorld(name)
            },
            TouchAction::RequestDeleteWorld(index) => {
                self.pending_delete_index = Some(index);
                self.game_screen = GameScreen::ConfirmDeleteWorld;
                MenuEffect::Nothing
            },
            TouchAction::ConfirmDeleteWorld => {
                let pending: Option<usize> = self.pending_delete_index;
                self.pending_delete_index = None;
                self.game_screen = GameScreen::WorldList;
                match pending {
                    Some(index) => if index < world_count {
                        MenuEffect::DeleteWorld(index)
                    } else {
                        MenuEffect::ListWorlds
                    },
                    None => MenuEffect::Nothing,
                }
            },
            TouchAction::OpenPause => {
                self.game_screen = GameScreen::Pause;
                MenuEffect::Nothing
            },
            TouchAction::OpenGameModeScreen => {
                self.game_screen = GameScreen::GameMode;
                MenuEffect::Nothing
            },
            TouchAction::OpenSettingsScreen => {
                self.settings_return = self.game_screen;
                self.game_screen = GameScreen::Settings;
                MenuEffect::Nothing
            },
            TouchAction::OpenSettingsMore => {
                self.game_screen = GameScreen::SettingsMore;
                MenuEffect::Nothing
            },
            TouchAction::ExitGame => {
                self.saving_started = false;
                self.game_screen = GameScreen::Saving;
                MenuEffect::Nothing
            },
            TouchAction::ExitApp => MenuEffect::ExitApp,
            TouchAction::Back => {
                self.name_input = String::new();
                self.name_preedit = String::new();
                self.pending_delete_index = None;
                self.game_screen = go_back(self.game_screen, self.settings_return);
                if self.game_screen == GameScreen::Playing {
                    MenuEffect::ResumeClock
                } else {
                    MenuEffect::Nothing
                }
            },
            TouchAction::ToggleFps => {
                self.show_fps = !self.show_fps;
                MenuEffect::Nothing
            },
            TouchAction::SetGameMode(index) => self.set_game_mode(GameMode::from_index(index)),
            TouchAction::DecreaseRenderRadius => {
                if self.render_radius > MIN_RENDER_RADIUS {
                    self.render_radius = self.render_radius - 1;
                }
                MenuEffect::Nothing
            },
            TouchAction::IncreaseRenderRadius => {
                if self.render_radius < MAX_RENDER_RADIUS {
                    self.render_radius = self.render_radius + 1;
                }
                MenuEffect::Nothing
            },
            TouchAction::ToggleClouds => {
                self.show_clouds = !self.show_clouds;
                MenuEffect::Nothing
            },
            TouchAction::ToggleFog => {
                self.show_fog = !self.show_fog;
                MenuEffect::Nothing
            },
            TouchAction::ToggleBuildInfo => {
                self.show_build_info = !self.show_build_info;
                MenuEffect::Nothing
            },
            TouchAction::ToggleDebugPanel => {
                self.show_debug_panel = !self.show_debug_panel;
                MenuEffect::Nothing
            },
            TouchAction::CycleAutosaveInterval => {
                self.autosave_interval_secs = cycle_autosave(self.autosave_interval_secs);
                MenuEffect::Nothing
            },
            TouchAction::CopyDebugSnapshot => MenuEffect::CopyDebugSnapshot,
        }
    }
}

/// Every switch of the settings turns its own setting over and nothing else, so
/// that tapping it twice changes nothing.
pub proof fn law_switches_turn_over(v: GameView, n: int)
    ensures
        v.after(TouchAction::ToggleFps, n).0 == (GameView { show_fps: !v.show_fps, ..v }),
        v.after(TouchAction::ToggleClouds, n).0 == (GameView { show_clouds: !v.show_clouds, ..v }),
        v.after(TouchAction::ToggleFog, n).0 == (GameView { show_fog: !v.show_fog, ..v }),
        v.after(TouchAction::ToggleBuildInfo, n).0 == (GameView {
            show_build_info: !v.show_build_info,
            ..v
        }),
        v.after(TouchAction::ToggleDebugPanel, n).0 == (GameView {
            show_debug_panel: !v.show_debug_panel,
            ..v
        }),
        v.after(TouchAction::ToggleFps, n).0.after(TouchAction::ToggleFps, n).0 == v,
        v.after(TouchAction::ToggleFog, n).0.after(TouchAction::ToggleFog, n).0 == v,
{
}

/// The radius buttons are each other's undoing: one step up and one down leads
/// back, except at the end that stops the first step.
pub proof fn law_radius_buttons_undo_each_other(v: GameView, n: int)
    requires
        1 <= v.render_radius <= 128,
    ensures
        ({
            let more = v.after(TouchAction::IncreaseRenderRadius, n).0;
            let less = v.after(TouchAction::DecreaseRenderRadius, n).0;
            &&& v.render_radius < 128 ==> more.render_radius == v.render_radius + 1 && more.after(
                TouchAction::DecreaseRenderRadius,
                n,
            ).0 == v
            &&& v.render_radius > 1 ==> less.render_radius == v.render_radius - 1 && less.after(
                TouchAction::IncreaseRenderRadius,
                n,
            ).0 == v
            &&& v.render_radius == 128 ==> more == v
            &&& v.render_radius == 1 ==> less == v
        }),
{
}

/// A typed character is the last one of the name, and the backspace takes it off
/// again. A full name takes no more, and an empty one has nothing to lose.
pub proof fn law_backspace_undoes_typing(v: GameView, c: char, n: int)
    ensures
        ({
            let typed = v.after(TouchAction::KeyboardChar(c), n).0;
            &&& v.name_input.len() < 18 ==> typed.name_input == v.name_input.push(c)
            &&& v.name_input.len() < 18 ==> typed.after(TouchAction::KeyboardBackspace, n).0 == v
            &&& v.name_input.len() >= 18 ==> typed == v
            &&& v.name_input.len() == 0 ==> v.after(TouchAction::KeyboardBackspace, n).0 == v
        }),
{
    if v.name_input.len() < 18 {
        assert(v.name_input.push(c).drop_last() =~= v.name_input);
    }
}

/// Confirming a name asks for a world of that name without the space around it,
/// or for one with a proposed name if nothing is left, and clears the field.
pub proof fn law_confirming_creates_the_named_world(v: GameView, n: int)
    ensures
        ({
            let (after, effect) = v.after(TouchAction::ConfirmNameWorld, n);
            &&& after.name_input.len() == 0 && after.name_preedit.len() == 0
            &&& trimmed(v.name_input).len() == 0 ==> effect == EffectView::CreateWorld(None)
            &&& trimmed(v.name_input).len() > 0 ==> effect == EffectView::CreateWorld(
                Some(trimmed(v.name_input)),
            )
        }),
{
}

/// Picking a row of the world list enters the world of that row, and only one
/// that is on the list.
pub proof fn law_rows_enter_their_world(v: GameView, i: usize, n: int)
    ensures
        v.after(TouchAction::SelectWorld(i), n).0 == v,
        i < n ==> v.after(TouchAction::SelectWorld(i), n).1 == EffectView::StartWorld(i),
        i >= n ==> v.after(TouchAction::SelectWorld(i), n).1 == EffectView::Nothing,
{
}

/// A world is deleted only after it was asked for and confirmed, and then it is
/// that one. Going back instead deletes nothing, nor does confirming afterwards.
pub proof fn law_deleting_takes_a_confirmation(v: GameView, i: usize, n: int)
    requires
        i < n,
    ensures
        ({
            let (asked, first) = v.after(TouchAction::RequestDeleteWorld(i), n);
            let (done, second) = asked.after(TouchAction::ConfirmDeleteWorld, n);
            let (left, third) = asked.after(TouchAction::Back, n);
            &&& asked.game_screen == GameScreen::ConfirmDeleteWorld && first == EffectView::Nothing
            &&& second == EffectView::DeleteWorld(i)
            &&& done.game_screen == GameScreen::WorldList && done.pending_delete_index is None
            &&& third == EffectView::Nothing
            &&& left.game_screen == GameScreen::WorldList && left.pending_delete_index is None
            &&& left.after(TouchAction::ConfirmDeleteWorld, n).1 == EffectView::Nothing
            &&& done.after(TouchAction::ConfirmDeleteWorld, n).1 == EffectView::Nothing
        }),
{
}

/// No other action than the confirmation deletes a world, no other than the
/// picked row or a confirmed name starts one, and only the exit buttons leave.
pub proof fn law_effects_come_from_their_buttons(v: GameView, action: TouchAction, n: int)
    ensures
        v.after(action, n).1 is DeleteWorld ==> action == TouchAction::ConfirmDeleteWorld,
        v.after(action, n).1 is StartWorld ==> action is SelectWorld,
        v.after(action, n).1 is CreateWorld ==> action == TouchAction::ConfirmNameWorld,
        v.after(action, n).1 == EffectView::ExitApp <==> action == TouchAction::ExitApp,
        v.after(action, n).1 == EffectView::PlaceBlock <==> action == TouchAction::Place,
        v.after(action, n).1 == EffectView::CopyDebugSnapshot <==> action
            == TouchAction::CopyDebugSnapshot,
        v.after(action, n).1 == EffectView::ProposeName <==> action == TouchAction::OpenNameWorld,
        v.after(TouchAction::PlayGame, n).1 == EffectView::ListWorlds,
        v.after(action, n).1 == EffectView::ResumeClock ==> action == TouchAction::Back && v.after(
            action,
            n,
        ).0.game_screen == GameScreen::Playing,
{
}

/// The buttons that open a screen open theirs, and "back" leads up again.
pub proof fn law_buttons_open_their_screens(v: GameView, n: int)
    ensures
        v.after(TouchAction::PlayGame, n).0.game_screen == GameScreen::WorldList,
        v.after(TouchAction::OpenNameWorld, n).0.game_screen == GameScreen::NameWorld,
        v.after(TouchAction::OpenPause, n).0.game_screen == GameScreen::Pause,
        v.after(TouchAction::OpenGameModeScreen, n).0.game_screen == GameScreen::GameMode,
        v.after(TouchAction::OpenSettingsScreen, n).0.game_screen == GameScreen::Settings,
        v.after(TouchAction::OpenSettingsMore, n).0.game_screen == GameScreen::SettingsMore,
        v.after(TouchAction::ExitGame, n).0.game_screen == GameScreen::Saving,
        v.after(TouchAction::OpenPause, n).0.after(TouchAction::Back, n).0.game_screen
            == GameScreen::Playing,
        v.after(TouchAction::OpenPause, n).0.after(TouchAction::Back, n).1
            == EffectView::ResumeClock,
        v.after(TouchAction::OpenGameModeScreen, n).0.after(TouchAction::Back, n).0.game_screen
            == GameScreen::Pause,
        v.after(TouchAction::PlayGame, n).0.after(TouchAction::Back, n).0.game_screen
            == GameScreen::MainMenu,
        v.after(TouchAction::OpenNameWorld, n).0.after(TouchAction::Back, n).0.game_screen
            == GameScreen::WorldList,
{
}

/// Choosing a mode sets it. A player who takes up a body, walking or flying,
/// does so where the camera is; choosing the present mode changes nothing. A
/// number that no mode has stands for walking.
pub proof fn law_choosing_a_mode_sets_it(v: GameView, i: usize, n: int)
    ensures
        ({
            let (after, effect) = v.after(TouchAction::SetGameMode(i), n);
            &&& i == 0 || i > 2 ==> after.game_mode == GameMode::Survival
            &&& i == 1 ==> after.game_mode == GameMode::Creative
            &&& i == 2 ==> after.game_mode == GameMode::Spectator
            &&& after == (GameView { game_mode: after.game_mode, ..v })
            &&& effect == EffectView::SyncPlayer <==> after.game_mode != v.game_mode && i != 2
            &&& effect == EffectView::SyncPlayer || effect == EffectView::Nothing
        }),
{
}

/// A hotbar slot takes its block in hand.
pub proof fn law_slots_select_their_block(v: GameView, slot: u8, n: int)
    requires
        1 <= slot <= 7,
    ensures
        ({
            let after = v.after(TouchAction::SelectBlock(slot), n).0;
            &&& after == (GameView { selected_block: after.selected_block, ..v })
            &&& slot == 1 <==> after.selected_block == BlockType::Grass
            &&& slot == 2 <==> after.selected_block == BlockType::Dirt
            &&& slot == 3 <==> after.selected_block == BlockType::Stone
            &&& slot == 4 <==> after.selected_block == BlockType::Wood
            &&& slot == 5 <==> after.selected_block == BlockType::Leaves
            &&& slot == 6 <==> after.selected_block == BlockType::Water(0)
            &&& slot == 7 <==> after.selected_block == BlockType::Sponge
        }),
{
}

/// Cycling the autosave interval runs through 15, 30, 60, 120 and 300 seconds,
/// longer each time until it starts over. Any other interval counts as the first.
pub proof fn law_autosave_cycles_upwards(v: GameView, n: int)
    ensures
        ({
            let next = v.after(TouchAction::CycleAutosaveInterval, n).0;
            &&& next == (GameView { autosave_interval_secs: next.autosave_interval_secs, ..v })
            &&& v.autosave_interval_secs == 15 ==> next.autosave_interval_secs == 30
            &&& v.autosave_interval_secs == 30 ==> next.autosave_interval_secs == 60
            &&& v.autosave_interval_secs == 60 ==> next.autosave_interval_secs == 120
            &&& v.autosave_interval_secs == 120 ==> next.autosave_interval_secs == 300
            &&& v.autosave_interval_secs == 300 ==> next.autosave_interval_secs == 15
            &&& (forall|i: int|
                0 <= i < 5 ==> #[trigger] AUTOSAVE_OPTIONS_SECS@[i] != v.autosave_interval_secs)
                ==> next.autosave_interval_secs == 30
        }),
{
    let secs = v.autosave_interval_secs;
    assert(AUTOSAVE_OPTIONS_SECS@[0] == 15 && AUTOSAVE_OPTIONS_SECS@[1] == 30
        && AUTOSAVE_OPTIONS_SECS@[2] == 60 && AUTOSAVE_OPTIONS_SECS@[3] == 120
        && AUTOSAVE_OPTIONS_SECS@[4] == 300);
}

/// Every mode is called by its own name.
pub proof fn law_modes_are_called_by_name()
    ensures
        GameMode::Survival.name() == "SUPERVIVENCIA"@,
        GameMode::Creative.name() == "CREATIVO"@,
        GameMode::Spectator.name() == "ESPECTADOR"@,
{
}

/// An interval below a minute is shown in seconds, any other in whole minutes.
pub proof fn law_intervals_are_shown_in_minutes(n: u32)
    ensures
        n < 60 ==> autosave_text(n) == decimal(n as nat) + " S"@,
        1 <= n <= 1000 ==> autosave_text((60 * n) as u32) == decimal(n as nat) + " MIN"@,
{
    assert(1 <= n <= 1000 ==> (60 * n) as u32 / 60 == n);
}

/// Buttons that act on the world or the program leave the menus as they are, and
/// the settings need nothing done beyond themselves.
pub proof fn law_actions_keep_to_their_own(v: GameView, action: TouchAction, n: int)
    ensures
        action == TouchAction::Place || action == TouchAction::ExitApp || action
            == TouchAction::CopyDebugSnapshot || action is SelectWorld ==> v.after(action, n).0
            == v,
        action == TouchAction::ToggleFps || action == TouchAction::ToggleClouds || action
            == TouchAction::ToggleFog || action == TouchAction::ToggleBuildInfo || action
            == TouchAction::ToggleDebugPanel || action == TouchAction::CycleAutosaveInterval
            || action == TouchAction::IncreaseRenderRadius || action
            == TouchAction::DecreaseRenderRadius || action is SelectBlock || action is KeyboardChar
            || action == TouchAction::KeyboardBackspace || action == TouchAction::OpenPause
            || action == TouchAction::OpenSettingsScreen || action == TouchAction::OpenSettingsMore
            || action == TouchAction::OpenGameModeScreen || action == TouchAction::ExitGame
            || action is RequestDeleteWorld ==> v.after(action, n).1 == EffectView::Nothing,
{
}

/// Going from screen to screen changes no setting, no mode and no block in hand.
pub proof fn law_screens_do_not_change_settings(v: GameView, action: TouchAction, n: int)
    requires
        action == TouchAction::Back || action == TouchAction::PlayGame || action
            == TouchAction::OpenNameWorld || action == TouchAction::OpenPause || action
            == TouchAction::OpenGameModeScreen || action == TouchAction::OpenSettingsScreen
            || action == TouchAction::OpenSettingsMore || action == TouchAction::ExitGame || action
            is RequestDeleteWorld || action == TouchAction::ConfirmDeleteWorld || action
            == TouchAction::ConfirmNameWorld,
    ensures
        ({
            let after = v.after(action, n).0;
            after == (GameView {
                game_screen: after.game_screen,
                settings_return: after.settings_return,
                name_input: after.name_input,
                name_preedit: after.name_preedit,
                pending_delete_index: after.pending_delete_index,
                saving_started: after.saving_started,
                ..v
            })
        }),
        action == TouchAction::OpenSettingsScreen ==> v.after(action, n).0.settings_return
            == v.game_screen,
        action != TouchAction::OpenSettingsScreen ==> v.after(action, n).0.settings_return
            == v.settings_return,
{
}

/// "Back" leads one screen up: from the mode screen to the pause menu, from the
/// further settings to the settings, from those to where they were opened, from
/// the pause menu to the game, and through the screens about worlds to the main
/// menu. The main menu, the game and a save have nothing above them.
pub proof fn law_back_leads_up(v: GameView, n: int)
    ensures
        ({
            let up = v.after(TouchAction::Back, n).0.game_screen;
            &&& v.game_screen == GameScreen::GameMode ==> up == GameScreen::Pause
            &&& v.game_screen == GameScreen::SettingsMore ==> up == GameScreen::Settings
            &&& v.game_screen == GameScreen::Settings ==> up == v.settings_return
            &&& v.game_screen == GameScreen::Pause ==> up == GameScreen::Playing
            &&& v.game_screen == GameScreen::NameWorld ==> up == GameScreen::WorldList
            &&& v.game_screen == GameScreen::ConfirmDeleteWorld ==> up == GameScreen::WorldList
            &&& v.game_screen == GameScreen::WorldList ==> up == GameScreen::MainMenu
            &&& v.game_screen == GameScreen::MainMenu || v.game_screen == GameScreen::Playing
                || v.game_screen == GameScreen::Saving ==> up == v.game_screen
        }),
        v.after(TouchAction::Back, n).0.name_input.len() == 0,
        v.after(TouchAction::Back, n).0.pending_delete_index is None,
{
}

} // verus!
