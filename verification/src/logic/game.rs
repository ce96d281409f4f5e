//! The running game: frames, keys and clicks, breaking and placing blocks, and
//! pulling a stuck player out.
use crate::environment::chunk::BlockType;
use crate::environment::fluids::{
    has_margin, queue_after_change, sponges_after, CellPos, FluidSim,
};
use crate::environment::raycast::RaycastHit;
use crate::environment::world::{
    law_get_after_set_block, remesh_after, ChunkPos, World, WorldState,
};
use crate::logic::menu::{GameMode, GameScreen, GameState, GameView};
use crate::logic::touch::{TouchAction, NAME_INPUT_MAX_CHARS};
use crate::physics::player::{blocked, collides_at, occupies_block, CellBox, SearchArea};
use vstd::prelude::*;

verus! {

/// What a frame does before it is drawn.
#[derive(Debug, Clone, Copy, PartialEq, Eq, Structural)]
pub enum FrameStep {
    /// Only draw the notice that the world is being saved.
    ShowSaving,
    /// Save the world and leave it.
    SaveAndLeave,
    /// A menu is open: the game stands still.
    Paused,
    /// The game runs.
    Play,
}

/// The state and the step of a frame. Saving takes two frames, so that its
/// notice is drawn before the world is written.
pub open spec fn frame_after(v: GameView) -> (GameView, FrameStep) {
    if v.game_screen == GameScreen::Saving {
        if v.saving_started {
            (GameView { game_screen: GameScreen::MainMenu, ..v }, FrameStep::SaveAndLeave)
        } else {
            (GameView { saving_started: true, ..v }, FrameStep::ShowSaving)
        }
    } else if v.game_screen == GameScreen::Playing {
        (v, FrameStep::Play)
    } else {
        (v, FrameStep::Paused)
    }
}

/// How the player moves this frame.
#[derive(Debug, Clone, Copy, PartialEq, Eq, Structural)]
pub enum Movement {
    /// Pulled towards free space.
    Dragged,
    Walking,
    Flying,
    Ghosting,
}

/// A physical key, as far as the game looks at it itself.
#[derive(Debug, Clone, Copy, PartialEq, Eq, Structural)]
pub enum Key {
    Backspace,
    Enter,
    Escape,
    F3,
    F4,
    F5,
    /// A number key, one to seven.
    Digit(u8),
    Other,
}

/// What the program does about a key.
#[derive(Debug, Clone, Copy, PartialEq, Eq, Structural)]
pub enum KeyDecision {
    Nothing,
    /// Carry out the action.
    Menu(TouchAction),
    /// The game was paused: let go of the mouse.
    ReleaseMouse,
    /// The game goes on: grab the mouse and start the frame clock anew.
    Resume,
    Save,
    CopyDebugSnapshot,
    /// The key moves the camera.
    ToCamera,
}

/// How a player moves in a mode, unless a rescue pulls them.
pub open spec fn movement_in(mode: GameMode, rescue_runs: bool) -> Movement {
    if rescue_runs {
        Movement::Dragged
    } else {
        match mode {
            GameMode::Survival => Movement::Walking,
            GameMode::Creative => Movement::Flying,
            GameMode::Spectator => Movement::Ghosting,
        }
    }
}

/// Escape, pressed outside the name screen. It opens the pause menu, climbs
/// one step where no game runs, and returns to the game at once from the screens
/// below the pause menu.
pub open spec fn after_escape(v: GameView) -> (GameView, KeyDecision) {
    match v.game_screen {
        GameScreen::Playing => (
            GameView { game_screen: GameScreen::Pause, mouse_captured: false, ..v },
            KeyDecision::ReleaseMouse,
        ),
        GameScreen::MainMenu => (v, KeyDecision::Nothing),
        GameScreen::Saving => (v, KeyDecision::Nothing),
        GameScreen::WorldList => (
            GameView { game_screen: GameScreen::MainMenu, ..v },
            KeyDecision::Nothing,
        ),
        GameScreen::ConfirmDeleteWorld => (
            GameView { game_screen: GameScreen::WorldList, pending_delete_index: None, ..v },
            KeyDecision::Nothing,
        ),
        _ => if v.game_screen == GameScreen::Settings && v.settings_return == GameScreen::MainMenu {
            (GameView { game_screen: GameScreen::MainMenu, ..v }, KeyDecision::Nothing)
        } else if v.game_screen == GameScreen::SettingsMore && v.settings_return
            == GameScreen::MainMenu {
            (GameView { game_screen: GameScreen::Settings, ..v }, KeyDecision::Nothing)
        } else {
            (
                GameView { game_screen: GameScreen::Playing, mouse_captured: true, ..v },
                KeyDecision::Resume,
            )
        },
    }
}

/// The state and the decision after a key. While a name is typed only the keys
/// that edit, confirm and cancel it count.
pub open spec fn after_key(v: GameView, key: Key, pressed: bool) -> (GameView, KeyDecision) {
    if v.game_screen == GameScreen::NameWorld {
        (
            v,
            if pressed {
                match key {
                    Key::Backspace => KeyDecision::Menu(TouchAction::KeyboardBackspace),
                    Key::Enter => KeyDecision::Menu(TouchAction::ConfirmNameWorld),
                    Key::Escape => KeyDecision::Menu(TouchAction::Back),
                    _ => KeyDecision::Nothing,
                }
            } else {
                KeyDecision::Nothing
            },
        )
    } else if !pressed {
        (v, KeyDecision::ToCamera)
    } else {
        match key {
            Key::Escape => after_escape(v),
            Key::F5 => (v, KeyDecision::Save),
            Key::F3 => (
                GameView { show_debug_panel: !v.show_debug_panel, ..v },
                KeyDecision::Nothing,
            ),
            Key::F4 => (
                v,
                if v.show_debug_panel {
                    KeyDecision::CopyDebugSnapshot
                } else {
                    KeyDecision::ToCamera
                },
            ),
            Key::Digit(n) => (
                GameView { selected_block: BlockType::hotbar(n), ..v },
                KeyDecision::Nothing,
            ),
            _ => (v, KeyDecision::ToCamera),
        }
    }
}

/// A button of the mouse.
#[derive(Debug, Clone, Copy, PartialEq, Eq, Structural)]
pub enum ClickButton {
    Left,
    Right,
    Other,
}

/// What the program does about a mouse button.
#[derive(Debug, Clone, Copy, PartialEq, Eq, Structural)]
pub enum MouseDecision {
    Nothing,
    /// Look up which button of the menu was clicked.
    MenuClick,
    /// Grab the mouse; the click does nothing else.
    Grab,
    /// Break or place a block.
    World(ClickButton),
}

/// The state and the decision after a mouse button.
pub open spec fn after_mouse(v: GameView, pressed: bool, button: ClickButton) -> (
    GameView,
    MouseDecision,
) {
    if !pressed {
        (v, MouseDecision::Nothing)
    } else if v.game_screen != GameScreen::Playing {
        (
            v,
            if button == ClickButton::Left {
                MouseDecision::MenuClick
            } else {
                MouseDecision::Nothing
            },
        )
    } else if !v.mouse_captured {
        (GameView { mouse_captured: true, ..v }, MouseDecision::Grab)
    } else {
        (v, MouseDecision::World(button))
    }
}

/// A change of the text keyboard.
#[derive(Debug, Clone, Copy, PartialEq, Eq, Structural)]
pub enum ImeChange {
    Keep,
    /// Show the keyboard at the name field.
    Open,
    Close,
}

impl GameState {
    /// Starts a frame.
    pub fn begin_frame(&mut self) -> (r: FrameStep)
        ensures
            final(self)@ == frame_after(old(self)@).0,
            r == frame_after(old(self)@).1,
    {
        if self.game_screen == GameScreen::Saving {
            if !self.saving_started {
                self.saving_started = true;
                return FrameStep::ShowSaving;
            }
            self.game_screen = GameScreen::MainMenu;
            return FrameStep::SaveAndLeave;
        }
        if self.game_screen != GameScreen::Playing {
            return FrameStep::Paused;
        }
        FrameStep::Play
    }

    /// How the player moves: a rescue takes precedence over the mode.
    pub fn movement(&self, rescue_runs: bool) -> (r: Movement)
        ensures
            r == movement_in(self.game_mode, rescue_runs),
    {
        if rescue_runs {
            return Movement::Dragged;
        }
        match self.game_mode {
            GameMode::Survival => Movement::Walking,
            GameMode::Creative => Movement::Flying,
            GameMode::Spectator => Movement::Ghosting,
        }
    }

    /// Whether so many seconds after the last autosave another one is due.
    pub fn autosave_due(&self, elapsed_secs: u64) -> (r: bool)
        ensures
            r == (elapsed_secs >= self.autosave_interval_secs),
    {
        elapsed_secs >= self.autosave_interval_secs as u64
    }

    /// Fills the name field with a proposed name.
    pub fn name_proposed(&mut self, name: String)
        ensures
            final(self)@ == (GameView { name_input: name@, ..old(self)@ }),
    {
        self.name_input = name;
    }

    /// A world was loaded: the game starts, on foot.
    pub fn world_started(&mut self)
        ensures
            final(self)@ == (GameView {
                game_screen: GameScreen::Playing,
                game_mode: GameMode::Survival,
                ..old(self)@
            }),
    {
        self.game_mode = GameMode::Survival;
        self.game_screen = GameScreen::Playing;
    }

    fn escape(&mut self) -> (r: KeyDecision)
        ensures
            final(self)@ == after_escape(old(self)@).0,
            r == after_escape(old(self)@).1,
    {
        if self.game_screen == GameScreen::Playing {
            self.game_screen = GameScreen::Pause;
            self.mouse_captured = false;
            KeyDecision::ReleaseMouse
        } else if self.game_screen == GameScreen::MainMenu {
            KeyDecision::Nothing
        } else if self.game_screen == GameScreen::WorldList {
            self.game_screen = GameScreen::MainMenu;
            KeyDecision::Nothing
        } else if self.game_screen == GameScreen::Settings && self.settings_return
            == GameScreen::MainMenu {
            self.game_screen = GameScreen::MainMenu;
            KeyDecision::Nothing
        } else if self.game_screen == GameScreen::SettingsMore && self.settings_return
            == GameScreen::MainMenu {
            self.game_screen = GameScreen::Settings;
            KeyDecision::Nothing
        } else if self.game_screen == GameScreen::ConfirmDeleteWorld {
            self.game_screen = GameScreen::WorldList;
            self.pending_delete_index = None;
            KeyDecision::Nothing
        } else if self.game_screen == GameScreen::Saving {
            KeyDecision::Nothing
        } else {
            self.game_screen = GameScreen::Playing;
            self.mouse_captured = true;
            KeyDecision::Resume
        }
    }

    /// Handles a key.
    pub fn on_key(&mut self, key: Key, pressed: bool) -> (r: KeyDecision)
        ensures
            final(self)@ == after_key(old(self)@, key, pressed).0,
            r == after_key(old(self)@, key, pressed).1,
    {
        if self.game_screen == GameScreen::NameWorld {
            if !pressed {
                return KeyDecision::Nothing;
            }
            return match key {
                Key::Backspace => KeyDecision::Menu(TouchAction::KeyboardBackspace),
                Key::Enter => KeyDecision::Menu(TouchAction::ConfirmNameWorld),
                Key::Escape => KeyDecision::Menu(TouchAction::Back),
                _ => KeyDecision::Nothing,
            };
        }
        if !pressed {
            return KeyDecision::ToCamera;
        }
        match key {
            Key::Escape => self.escape(),
            Key::F5 => KeyDecision::Save,
            Key::F3 => {
                self.show_debug_panel = !self.show_debug_panel;
                KeyDecision::Nothing
            },
            Key::F4 => if self.show_debug_panel {
                KeyDecision::CopyDebugSnapshot
            } else {
                KeyDecision::ToCamera
            },
            Key::Digit(n) => {
                self.selected_block = BlockType::from_hotbar_slot(n);
                KeyDecision::Nothing
            },
            _ => KeyDecision::ToCamera,
        }
    }

    /// Handles a mouse button.
    pub fn on_mouse(&mut self, pressed: bool, button: ClickButton) -> (r: MouseDecision)
        ensures
            final(self)@ == after_mouse(old(self)@, pressed, button).0,
            r == after_mouse(old(self)@, pressed, button).1,
    {
        if self.game_screen != GameScreen::Playing {
            if pressed && button == ClickButton::Left {
                return MouseDecision::MenuClick;
            }
            return MouseDecision::Nothing;
        }
        if !self.mouse_captured {
            if pressed {
                self.mouse_captured = true;
                return MouseDecision::Grab;
            }
            return MouseDecision::Nothing;
        }
        if pressed {
            MouseDecision::World(button)
        } else {
            MouseDecision::Nothing
        }
    }

    /// The text keyboard shows what it is composing. Outside the name screen it
    /// is ignored.
    pub fn ime_preedit(&mut self, text: String)
        ensures
            final(self)@ == if old(self)@.game_screen == GameScreen::NameWorld {
                GameView { name_preedit: text@, ..old(self)@ }
            } else {
                old(self)@
            },
    {
        if self.game_screen == GameScreen::NameWorld {
            self.name_preedit = text;
        }
    }

    /// The text keyboard finished or was closed: nothing is being composed. Says
    /// whether what it typed belongs to the name.
    pub fn ime_settled(&mut self) -> (r: bool)
        ensures
            r == (old(self)@.game_screen == GameScreen::NameWorld),
            final(self)@ == if old(self)@.game_screen == GameScreen::NameWorld {
                GameView { name_preedit: Seq::empty(), ..old(self)@ }
            } else {
                old(self)@
            },
    {
        if self.game_screen == GameScreen::NameWorld {
            self.name_preedit = String::new();
            true
        } else {
            false
        }
    }

    /// What happens to the text keyboard after an action: it is open exactly
    /// while the name screen is shown. Leaving that screen drops what was being
    /// composed.
    pub fn ime_after(&mut self, was_naming: bool) -> (r: ImeChange)
        ensures
            r == if was_naming == (old(self)@.game_screen == GameScreen::NameWorld) {
                ImeChange::Keep
            } else if was_naming {
                ImeChange::Close
            } else {
                ImeChange::Open
            },
            final(self)@ == if r == ImeChange::Close {
                GameView { name_preedit: Seq::empty(), ..old(self)@ }
            } else {
                old(self)@
            },
    {
        let naming: bool = self.game_screen == GameScreen::NameWorld;
        if was_naming == naming {
            return ImeChange::Keep;
        }
        if naming {
            ImeChange::Open
        } else {
            self.name_preedit = String::new();
            ImeChange::Close
        }
    }
}

/// The screen that a session comes back to after the program was in the
/// background: a running game comes back paused.
pub open spec fn resumed_screen(screen: GameScreen) -> GameScreen {
    if screen == GameScreen::Playing || screen == GameScreen::Saving {
        GameScreen::Pause
    } else {
        screen
    }
}

/// The screen to come back to.
pub fn session_screen(screen: GameScreen) -> (r: GameScreen)
    ensures
        r == resumed_screen(screen),
{
    if screen == GameScreen::Playing || screen == GameScreen::Saving {
        GameScreen::Pause
    } else {
        screen
    }
}

/// The state that a session comes back to: its settings as they were, nothing
/// typed or about to be deleted, and the mouse free.
pub open spec fn resumed_state(v: GameView) -> GameView {
    GameView {
        game_screen: resumed_screen(v.game_screen),
        name_input: Seq::empty(),
        name_preedit: Seq::empty(),
        pending_delete_index: None,
        saving_started: false,
        mouse_captured: false,
        ..v
    }
}

impl GameState {
    /// The state to come back to after the program was in the background.
    pub fn resumed(&self) -> (r: Self)
        ensures
            r@ == resumed_state(self@),
    {
        GameState {
            game_screen: session_screen(self.game_screen),
            settings_return: self.settings_return,
            game_mode: self.game_mode,
            selected_block: self.selected_block,
            render_radius: self.render_radius,
            show_fps: self.show_fps,
            show_clouds: self.show_clouds,
            show_fog: self.show_fog,
            show_build_info: self.show_build_info,
            show_debug_panel: self.show_debug_panel,
            autosave_interval_secs: self.autosave_interval_secs,
            name_input: String::new(),
            name_preedit: String::new(),
            pending_delete_index: None,
            saving_started: false,
            mouse_captured: false,
        }
    }
}

/// Where a player enters a world.
#[derive(Debug, Clone, Copy, PartialEq, Eq)]
pub enum Spawn {
    /// Where they were going to.
    AsPlanned,
    /// In the nearest room, because the place was inside a block.
    Moved((i32, i32, i32)),
    /// Inside a block, because there is no room around.
    Buried,
}

/// Keeps a player from entering a world inside a block.
pub fn safe_spawn(world: &World, body: &CellBox, area: &SearchArea) -> (r: Spawn)
    requires
        world@.wf(),
        area.wf(),
    ensures
        match r {
            Spawn::AsPlanned => !blocked(world@, *body),
            Spawn::Moved(p) => blocked(world@, *body) && area.finds(world@, p),
            Spawn::Buried => blocked(world@, *body) && forall|q: int|
                0 <= q <= area.radius ==> #[trigger] area.shell_is_full(world@, q, false),
        },
{
    if !collides_at(world, body) {
        return Spawn::AsPlanned;
    }
    match area.find_nearest_free_position(world) {
        Some(p) => Spawn::Moved(p),
        None => Spawn::Buried,
    }
}

/// The edit that a click makes: the left button clears the block that the ray
/// met, the right button fills the cell before it, unless that would build into
/// the player's own body.
pub open spec fn click_edit(
    hit: Option<RaycastHit>,
    button: ClickButton,
    mode: GameMode,
    body: CellBox,
    selected: BlockType,
) -> Option<(CellPos, BlockType)> {
    match hit {
        None => None,
        Some(h) => match button {
            ClickButton::Left => Some((h.block_pos, BlockType::Air)),
            ClickButton::Right => if mode != GameMode::Spectator && body.holds(
                h.place_pos.0 as int,
                h.place_pos.1 as int,
                h.place_pos.2 as int,
            ) {
                None
            } else {
                Some((h.place_pos, selected))
            },
            ClickButton::Other => None,
        },
    }
}

fn edit_for_click(
    hit: Option<RaycastHit>,
    button: ClickButton,
    mode: GameMode,
    body: &CellBox,
    selected: BlockType,
) -> (r: Option<(CellPos, BlockType)>)
    ensures
        r == click_edit(hit, button, mode, *body, selected),
{
    match hit {
        None => None,
        Some(h) => match button {
            ClickButton::Left => Some((h.block_pos, BlockType::Air)),
            ClickButton::Right => {
                let (x, y, z) = h.place_pos;
                if mode.blocks_self_placement() && occupies_block(body, x, y, z) {
                    return None;
                }
                Some((h.place_pos, selected))
            },
            ClickButton::Other => None,
        },
    }
}

/// Breaks or places a block where a click hit, tells the water about it, and
/// returns the chunks to mesh again.
pub fn handle_click(
    world: &mut World,
    fluids: &mut FluidSim,
    hit: Option<RaycastHit>,
    button: ClickButton,
    mode: GameMode,
    body: &CellBox,
    selected: BlockType,
) -> (dirty: Vec<ChunkPos>)
    requires
        old(world)@.wf(),
        old(fluids).wf(),
        hit matches Some(h) ==> has_margin(h.block_pos, 1) && has_margin(
            h.place_pos,
            if selected == BlockType::Sponge {
                4
            } else {
                1
            },
        ),
    ensures
        final(world)@.wf(),
        final(fluids).wf(),
        final(world).terrain_seed() == old(world).terrain_seed(),
        final(world).directory() == old(world).directory(),
        click_edit(hit, button, mode, *body, selected) is None ==> {
            &&& final(world)@ == old(world)@
            &&& final(fluids).queue() == old(fluids).queue()
            &&& final(fluids).sponge_cells() == old(fluids).sponge_cells()
            &&& dirty@ == Seq::<ChunkPos>::empty()
        },
        click_edit(hit, button, mode, *body, selected) matches Some((p, block)) ==> {
            &&& final(world)@ == old(world)@.with_block(p.0 as int, p.1 as int, p.2 as int, block)
            &&& final(fluids).queue() == queue_after_change(old(fluids).queue(), p, block)
            &&& final(fluids).sponge_cells() == sponges_after(
                old(fluids).sponge_cells(),
                p,
                old(world)@.block_at(p.0 as int, p.1 as int, p.2 as int),
                block,
            )
            &&& dirty@ == remesh_after(p.0 as int, p.1 as int, p.2 as int)
        },
{
    match edit_for_click(hit, button, mode, body, selected) {
        None => Vec::new(),
        Some((pos, block)) => {
            let was = world.get_block(pos.0, pos.1, pos.2);
            let dirty = world.set_block(pos.0, pos.1, pos.2, block);
            fluids.notify_block_changed(pos, was, block);
            dirty
        },
    }
}

/// In survival and creative mode a click never fills a cell that the player's
/// body is in.
pub proof fn law_clicks_do_not_bury_the_player(
    hit: Option<RaycastHit>,
    mode: GameMode,
    body: CellBox,
    selected: BlockType,
)
    requires
        mode != GameMode::Spectator,
    ensures
        click_edit(hit, ClickButton::Right, mode, body, selected) matches Some((p, b))
            ==> !body.holds(p.0 as int, p.1 as int, p.2 as int),
{
}

/// How long the rescue waits before it looks again, in milliseconds.
pub const RESCUE_COOLDOWN_MS: u64 = 500;

/// How far around the player the rescue looks for room.
pub const RESCUE_RADIUS: i32 = 8;

/// A player being pulled out of the blocks they are stuck in.
#[derive(Debug, Clone, Copy, PartialEq, Eq)]
pub struct Rescue {
    /// Where the player is pulled to.
    pub target: Option<(i32, i32, i32)>,
    /// When the next search may start, in milliseconds.
    pub cooldown_until: Option<u64>,
}

/// What an attempt to rescue came to.
#[derive(Debug, Clone, Copy, PartialEq, Eq, Structural)]
pub enum RescueOutcome {
    /// Nothing to do: already being pulled, waiting, or not stuck.
    Idle,
    /// The player is being pulled from now on.
    Started,
    /// Stuck with no room around; try again later.
    NoRoom,
}

impl Rescue {
    /// The rescue may look for room: it is not pulling and not waiting.
    pub open spec fn ready(self, now: u64) -> bool {
        self.target is None && (self.cooldown_until matches Some(until) ==> now >= until)
    }

    pub fn new() -> (r: Self)
        ensures
            r.target is None,
            r.cooldown_until is None,
    {
        Rescue { target: None, cooldown_until: None }
    }

    /// Starts to pull a stuck player to the nearest room. Where there is none
    /// the next attempt waits a little.
    pub fn maybe_rescue_player(
        &mut self,
        world: &World,
        body: &CellBox,
        area: &SearchArea,
        now: u64,
    ) -> (r: RescueOutcome)
        requires
            world@.wf(),
            area.wf(),
            now <= u64::MAX - RESCUE_COOLDOWN_MS,
        ensures
            r == RescueOutcome::Idle <==> !old(self).ready(now) || !blocked(world@, *body),
            r == RescueOutcome::Idle ==> *final(self) == *old(self),
            r == RescueOutcome::Started ==> {
                &&& final(self).target is Some
                &&& area.finds(world@, final(self).target->0)
                &&& final(self).cooldown_until == old(self).cooldown_until
            },
            r == RescueOutcome::NoRoom ==> {
                &&& forall|q: int|
                    0 <= q <= area.radius ==> #[trigger] area.shell_is_full(world@, q, false)
                &&& final(self).target is None
                &&& final(self).cooldown_until == Some((now + RESCUE_COOLDOWN_MS) as u64)
            },
    {
        if self.target.is_some() {
            return RescueOutcome::Idle;
        }
        if let Some(until) = self.cooldown_until {
            if now < until {
                return RescueOutcome::Idle;
            }
        }
        if !collides_at(world, body) {
            return RescueOutcome::Idle;
        }
        match area.find_nearest_free_position(world) {
            Some(p) => {
                self.target = Some(p);
                RescueOutcome::Started
            },
            None => {
                self.cooldown_until = Some(now + RESCUE_COOLDOWN_MS);
                RescueOutcome::NoRoom
            },
        }
    }

    /// The player has arrived: the pull ends, and a pause follows.
    pub fn arrived(&mut self, now: u64)
        requires
            now <= u64::MAX - RESCUE_COOLDOWN_MS,
        ensures
            final(self).target is None,
            final(self).cooldown_until == Some((now + RESCUE_COOLDOWN_MS) as u64),
    {
        self.target = None;
        self.cooldown_until = Some(now + RESCUE_COOLDOWN_MS);
    }
}

/// Leaving a game takes exactly two frames: the first only shows the notice, the
/// second saves and ends on the main menu.
pub proof fn law_leaving_takes_two_frames(v: GameView, world_count: int)
    ensures
        ({
            let asked = v.after(TouchAction::ExitGame, world_count).0;
            let first = frame_after(asked);
            let second = frame_after(first.0);
            &&& first.1 == FrameStep::ShowSaving
            &&& first.0.game_screen == GameScreen::Saving
            &&& second.1 == FrameStep::SaveAndLeave
            &&& second.0.game_screen == GameScreen::MainMenu
        }),
{
}

/// "Back" from the settings returns to the screen they were opened from, also
/// by way of the further settings.
pub proof fn law_settings_return_to_their_opener(v: GameView, world_count: int)
    ensures
        ({
            let opened = v.after(TouchAction::OpenSettingsScreen, world_count).0;
            let more = opened.after(TouchAction::OpenSettingsMore, world_count).0;
            let less = more.after(TouchAction::Back, world_count).0;
            &&& opened.after(TouchAction::Back, world_count).0.game_screen == v.game_screen
            &&& less.game_screen == GameScreen::Settings
            &&& less.after(TouchAction::Back, world_count).0.game_screen == v.game_screen
        }),
{
}

/// While the world is being saved no key resumes the game.
pub proof fn law_saving_cannot_be_interrupted(v: GameView, key: Key, pressed: bool)
    requires
        v.game_screen == GameScreen::Saving,
    ensures
        after_key(v, key, pressed).0.game_screen == GameScreen::Saving,
        after_key(v, key, pressed).0.saving_started == v.saving_started,
{
}

/// A screen that is reached without a game: the main menu, the screens about
/// worlds, and the settings opened from the main menu.
pub open spec fn outside_a_game(v: GameView) -> bool {
    match v.game_screen {
        GameScreen::MainMenu => true,
        GameScreen::WorldList => true,
        GameScreen::NameWorld => true,
        GameScreen::ConfirmDeleteWorld => true,
        GameScreen::Settings => v.settings_return == GameScreen::MainMenu,
        GameScreen::SettingsMore => v.settings_return == GameScreen::MainMenu,
        _ => false,
    }
}

/// Where no game runs, no key enters one: the screens that keys lead to are
/// outside a game as well.
pub proof fn law_keys_start_no_game(v: GameView, key: Key, pressed: bool)
    requires
        outside_a_game(v),
    ensures
        outside_a_game(after_key(v, key, pressed).0),
{
}

/// A session never comes back into a running game or a save.
pub proof fn law_sessions_come_back_paused(screen: GameScreen)
    ensures
        resumed_screen(screen) != GameScreen::Playing,
        resumed_screen(screen) != GameScreen::Saving,
        resumed_screen(resumed_screen(screen)) == resumed_screen(screen),
{
}

/// Settings survive the background, and coming back twice changes no more than
/// coming back once.
pub proof fn law_sessions_keep_their_settings(v: GameView)
    requires
        v.wf(),
    ensures
        resumed_state(v).wf(),
        resumed_state(resumed_state(v)) == resumed_state(v),
        resumed_state(v).game_mode == v.game_mode && resumed_state(v).render_radius
            == v.render_radius && resumed_state(v).selected_block == v.selected_block,
{
}

/// A typed name never grows past its limit, whatever is typed.
pub proof fn law_names_stay_short(v: GameView, action: TouchAction, world_count: int)
    requires
        v.name_input.len() <= NAME_INPUT_MAX_CHARS,
    ensures
        v.after(action, world_count).0.name_input.len() <= NAME_INPUT_MAX_CHARS,
{
}

/// The render radius stays between its limits under every action.
pub proof fn law_radius_stays_in_its_limits(v: GameView, action: TouchAction, world_count: int)
    requires
        v.wf(),
    ensures
        v.after(action, world_count).0.wf(),
{
}

/// A left click clears the block that the player looks at, whatever the mode,
/// the body and the block in hand; a right click puts the block in hand into the
/// cell before it, unless the body of a player with a body is in that cell. The
/// cell's own chunk is meshed again. Other buttons do nothing, and neither does a
/// click without a block in view.
pub proof fn law_clicks_break_and_place(
    w: WorldState,
    h: RaycastHit,
    mode: GameMode,
    body: CellBox,
    selected: BlockType,
)
    requires
        w.wf(),
        0 <= h.block_pos.1 < 64,
        0 <= h.place_pos.1 < 64,
    ensures
        click_edit(Some(h), ClickButton::Left, mode, body, selected) matches Some((p, b)) && {
            let after = w.with_block(p.0 as int, p.1 as int, p.2 as int, b);
            &&& after.block_at(
                h.block_pos.0 as int,
                h.block_pos.1 as int,
                h.block_pos.2 as int,
            ) == BlockType::Air
            &&& p == h.block_pos
            &&& remesh_after(p.0 as int, p.1 as int, p.2 as int)[0] == (
                (h.block_pos.0 as int / 16) as i32,
                (h.block_pos.2 as int / 16) as i32,
            )
        },
        mode == GameMode::Spectator || !body.holds(
            h.place_pos.0 as int,
            h.place_pos.1 as int,
            h.place_pos.2 as int,
        ) ==> (click_edit(Some(h), ClickButton::Right, mode, body, selected) matches Some((p, b))
            && {
            let after = w.with_block(p.0 as int, p.1 as int, p.2 as int, b);
            &&& after.block_at(
                h.place_pos.0 as int,
                h.place_pos.1 as int,
                h.place_pos.2 as int,
            ) == selected
            &&& p == h.place_pos
            &&& remesh_after(p.0 as int, p.1 as int, p.2 as int)[0] == (
                (h.place_pos.0 as int / 16) as i32,
                (h.place_pos.2 as int / 16) as i32,
            )
        }),
        click_edit(Some(h), ClickButton::Other, mode, body, selected) is None,
        forall|button: ClickButton| #[trigger]
            click_edit(None, button, mode, body, selected) is None,
{
    law_get_after_set_block(
        w,
        h.block_pos.0 as int,
        h.block_pos.1 as int,
        h.block_pos.2 as int,
        BlockType::Air,
    );
    law_get_after_set_block(
        w,
        h.place_pos.0 as int,
        h.place_pos.1 as int,
        h.place_pos.2 as int,
        selected,
    );
}

/// Breaking undoes placing: a block that a right click put into a free cell is
/// gone after a left click on it.
pub proof fn law_breaking_undoes_placing(
    w: WorldState,
    h: RaycastHit,
    again: RaycastHit,
    mode: GameMode,
    body: CellBox,
    selected: BlockType,
    x: int,
    y: int,
    z: int,
)
    requires
        w.wf(),
        0 <= h.place_pos.1 < 64,
        w.block_at(h.place_pos.0 as int, h.place_pos.1 as int, h.place_pos.2 as int)
            == BlockType::Air,
        again.block_pos == h.place_pos,
        i32::MIN <= x <= i32::MAX,
        i32::MIN <= z <= i32::MAX,
        click_edit(Some(h), ClickButton::Right, mode, body, selected) is Some,
    ensures
        ({
            let (p, b) = click_edit(Some(h), ClickButton::Right, mode, body, selected)->0;
            let placed = w.with_block(p.0 as int, p.1 as int, p.2 as int, b);
            let (q, c) = click_edit(Some(again), ClickButton::Left, mode, body, selected)->0;
            placed.with_block(q.0 as int, q.1 as int, q.2 as int, c).block_at(x, y, z)
                == w.block_at(x, y, z)
        }),
{
    let (p, b) = click_edit(Some(h), ClickButton::Right, mode, body, selected)->0;
    let (px, py, pz) = (p.0 as int, p.1 as int, p.2 as int);
    law_get_after_set_block(w, px, py, pz, b);
    law_get_after_set_block(w.with_block(px, py, pz, b), px, py, pz, BlockType::Air);
}

/// A frame plays the game while it is shown, stands still on every menu, and
/// changes nothing but what saving needs.
pub proof fn law_only_the_game_plays(v: GameView)
    ensures
        frame_after(v).1 == FrameStep::Play <==> v.game_screen == GameScreen::Playing,
        frame_after(v).1 == FrameStep::Paused <==> v.game_screen != GameScreen::Playing
            && v.game_screen != GameScreen::Saving,
        v.game_screen != GameScreen::Saving ==> frame_after(v).0 == v,
        frame_after(v).0 == (GameView {
            game_screen: frame_after(v).0.game_screen,
            saving_started: frame_after(v).0.saving_started,
            ..v
        }),
        frame_after(v).1 == FrameStep::SaveAndLeave ==> v.saving_started && v.game_screen
            == GameScreen::Saving,
{
}

/// Each mode has its own way to move, and a rescue is stronger than all of them.
pub proof fn law_modes_move_differently(mode: GameMode, other: GameMode)
    ensures
        movement_in(mode, true) == Movement::Dragged,
        movement_in(mode, false) == Movement::Walking <==> mode == GameMode::Survival,
        movement_in(mode, false) == Movement::Flying <==> mode == GameMode::Creative,
        movement_in(mode, false) == Movement::Ghosting <==> mode == GameMode::Spectator,
{
}

/// The number keys take the block of their hotbar slot in hand, on every screen
/// but the one where a name is typed, and touch nothing else.
pub proof fn law_number_keys_select(v: GameView, n: u8)
    requires
        v.game_screen != GameScreen::NameWorld,
    ensures
        ({
            let after = after_key(v, Key::Digit(n), true).0;
            &&& after == (GameView { selected_block: after.selected_block, ..v })
            &&& n == 1 ==> after.selected_block == BlockType::Grass
            &&& n == 2 ==> after.selected_block == BlockType::Dirt
            &&& n == 3 ==> after.selected_block == BlockType::Stone
            &&& n == 4 ==> after.selected_block == BlockType::Wood
            &&& n == 5 ==> after.selected_block == BlockType::Leaves
            &&& n == 6 ==> after.selected_block == BlockType::Water(0)
            &&& n == 7 ==> after.selected_block == BlockType::Sponge
        }),
{
}

/// Escape pauses a running game and lets go of the mouse; a second Escape goes
/// back to the game as it was, mouse and all.
pub proof fn law_escape_pauses_and_resumes(v: GameView)
    requires
        v.game_screen == GameScreen::Playing,
    ensures
        ({
            let (paused, first) = after_key(v, Key::Escape, true);
            let (back, second) = after_key(paused, Key::Escape, true);
            &&& paused.game_screen == GameScreen::Pause && !paused.mouse_captured
            &&& first == KeyDecision::ReleaseMouse
            &&& second == KeyDecision::Resume
            &&& back.mouse_captured
            &&& back == (GameView { mouse_captured: true, ..v })
        }),
{
}

/// From the screens around worlds Escape climbs one step, up to the main menu,
/// and starts nothing; below the pause menu it goes back to the game at once.
pub proof fn law_escape_climbs(v: GameView)
    ensures
        ({
            let (after, decision) = after_key(v, Key::Escape, true);
            &&& v.game_screen == GameScreen::WorldList || v.game_screen == GameScreen::MainMenu
                ==> after.game_screen == GameScreen::MainMenu && decision == KeyDecision::Nothing
            &&& v.game_screen == GameScreen::ConfirmDeleteWorld ==> after.game_screen
                == GameScreen::WorldList && after.pending_delete_index is None && decision
                == KeyDecision::Nothing
            &&& v.game_screen == GameScreen::Pause || v.game_screen == GameScreen::GameMode
                ==> after.game_screen == GameScreen::Playing && decision == KeyDecision::Resume
            &&& v.settings_return != GameScreen::MainMenu && (v.game_screen == GameScreen::Settings
                || v.game_screen == GameScreen::SettingsMore) ==> after.game_screen
                == GameScreen::Playing && decision == KeyDecision::Resume
            &&& v.settings_return == GameScreen::MainMenu && v.game_screen == GameScreen::Settings
                ==> after.game_screen == GameScreen::MainMenu
            &&& v.settings_return == GameScreen::MainMenu && v.game_screen
                == GameScreen::SettingsMore ==> after.game_screen == GameScreen::Settings
            &&& v.game_screen == GameScreen::NameWorld ==> decision == KeyDecision::Menu(
                TouchAction::Back,
            ) && after == v
            &&& after == (GameView {
                game_screen: after.game_screen,
                mouse_captured: after.mouse_captured,
                pending_delete_index: after.pending_delete_index,
                ..v
            })
            &&& after.mouse_captured == (if decision == KeyDecision::Resume {
                true
            } else if decision == KeyDecision::ReleaseMouse {
                false
            } else {
                v.mouse_captured
            })
        }),
{
}

/// Outside the name screen the save key saves, the debug key shows and hides the
/// panel, the copy key copies only while the panel is shown, and every key that
/// is let go belongs to the camera. While a name is typed none of them counts.
pub proof fn law_function_keys_work_everywhere(v: GameView, key: Key)
    ensures
        v.game_screen != GameScreen::NameWorld ==> {
            &&& after_key(v, Key::F5, true) == (v, KeyDecision::Save)
            &&& after_key(v, Key::F3, true).0.show_debug_panel == !v.show_debug_panel
            &&& after_key(after_key(v, Key::F3, true).0, Key::F3, true).0 == v
            &&& after_key(v, Key::F4, true).0 == v
            &&& after_key(v, Key::F4, true).1 == KeyDecision::CopyDebugSnapshot
                <==> v.show_debug_panel
            &&& after_key(v, key, false) == (v, KeyDecision::ToCamera)
            &&& after_key(v, Key::Other, true) == (v, KeyDecision::ToCamera)
        },
        v.game_screen == GameScreen::NameWorld ==> {
            &&& after_key(v, key, true).0 == v
            &&& after_key(v, key, false) == (v, KeyDecision::Nothing)
            &&& after_key(v, Key::Enter, true).1 == KeyDecision::Menu(
                TouchAction::ConfirmNameWorld,
            )
            &&& after_key(v, Key::Backspace, true).1 == KeyDecision::Menu(
                TouchAction::KeyboardBackspace,
            )
            &&& after_key(v, Key::F5, true).1 == KeyDecision::Nothing
        },
{
}

/// In the game the first click only grabs the mouse, and from then on every
/// button works on the world. On a menu only the left button counts. Letting go
/// of a button does nothing.
pub proof fn law_first_click_grabs_the_mouse(v: GameView, button: ClickButton)
    ensures
        after_mouse(v, false, button) == (v, MouseDecision::Nothing),
        v.game_screen == GameScreen::Playing && !v.mouse_captured ==> {
            let (grabbed, decision) = after_mouse(v, true, button);
            &&& decision == MouseDecision::Grab
            &&& grabbed.mouse_captured
            &&& after_mouse(grabbed, true, button) == (grabbed, MouseDecision::World(button))
        },
        v.game_screen == GameScreen::Playing && v.mouse_captured ==> after_mouse(v, true, button)
            == (v, MouseDecision::World(button)),
        v.game_screen != GameScreen::Playing ==> after_mouse(v, true, ClickButton::Left) == (
            v,
            MouseDecision::MenuClick,
        ) && after_mouse(v, true, ClickButton::Right) == (v, MouseDecision::Nothing),
{
}

/// A session comes back to the menu that it was on, a running game paused, with
/// all its settings; the mouse is free and nothing half done is left.
pub proof fn law_sessions_come_back_whole(v: GameView)
    ensures
        ({
            let r = resumed_state(v);
            &&& v.game_screen == GameScreen::Playing || v.game_screen == GameScreen::Saving
                ==> r.game_screen == GameScreen::Pause
            &&& v.game_screen != GameScreen::Playing && v.game_screen != GameScreen::Saving
                ==> r.game_screen == v.game_screen
            &&& !r.mouse_captured && !r.saving_started && r.pending_delete_index is None
            &&& r.name_input.len() == 0 && r.name_preedit.len() == 0
            &&& r.game_mode == v.game_mode && r.settings_return == v.settings_return
            &&& r.selected_block == v.selected_block && r.render_radius == v.render_radius
            &&& r.show_fps == v.show_fps && r.show_clouds == v.show_clouds
            &&& r.show_fog == v.show_fog && r.show_build_info == v.show_build_info
            &&& r.show_debug_panel == v.show_debug_panel
            &&& r.autosave_interval_secs == v.autosave_interval_secs
        }),
{
}

/// A rescue starts only when none runs and its rest is over.
pub proof fn law_rescues_rest(rescue: Rescue, now: u64, later: u64)
    ensures
        rescue.target is Some ==> !rescue.ready(now),
        rescue.target is None && rescue.cooldown_until is None ==> rescue.ready(now),
        rescue.target is None ==> (rescue.cooldown_until matches Some(until) ==> (rescue.ready(now)
            <==> now >= until)),
        rescue.ready(now) && later >= now ==> rescue.ready(later),
{
}

/// A rescue looks eight blocks around and rests for half a second.
pub proof fn law_rescues_stay_near(rescue: Rescue, ended: u64, now: u64)
    requires
        rescue.target is None,
        ended <= u64::MAX - 500,
        rescue.cooldown_until == Some((ended + RESCUE_COOLDOWN_MS) as u64),
    ensures
        rescue.ready(now) <==> now >= ended + 500,
        RESCUE_RADIUS == 8,
{
}

} // verus!
