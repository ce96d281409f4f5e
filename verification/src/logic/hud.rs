//! What is drawn over the world, screen by screen, and the numbers that go with
//! it.
use crate::environment::chunk::CHUNK_SIZE_X;
use crate::environment::save_manager::WorldMeta;
use crate::logic::menu::{GameScreen, GameState, GameView};
use vstd::prelude::*;

verus! {

/// A part of what is drawn over the world.
#[derive(Clone, Copy, Debug, PartialEq, Eq, Structural)]
pub enum Overlay {
    MainMenu,
    WorldList,
    NameWorld,
    ConfirmDelete,
    Pause,
    GameMode,
    Settings,
    SettingsMore,
    Saving,
    Crosshair,
    /// The stick, the buttons and the hotbar of a phone.
    TouchControls,
    /// The hotbar alone.
    Hotbar,
    FpsCounter,
    BuildInfo,
    /// The debug panel, further down where the build info is above it.
    DebugPanel { below_build_info: bool },
}

/// The parts over a running game, from the back to the front.
pub open spec fn game_overlays(v: GameView, on_phone: bool) -> Seq<Overlay> {
    let a = seq![Overlay::Crosshair];
    let b = if on_phone {
        a.push(Overlay::TouchControls)
    } else {
        a.push(Overlay::Hotbar)
    };
    let c = if v.show_fps {
        b.push(Overlay::FpsCounter)
    } else {
        b
    };
    let d = if v.show_build_info {
        c.push(Overlay::BuildInfo)
    } else {
        c
    };
    if v.show_debug_panel {
        d.push(Overlay::DebugPanel { below_build_info: v.show_build_info })
    } else {
        d
    }
}

/// What is drawn over the world: a menu fills the screen, a running game has
/// its own parts.
pub open spec fn overlays_of(v: GameView, on_phone: bool) -> Seq<Overlay> {
    match v.game_screen {
        GameScreen::MainMenu => seq![Overlay::MainMenu],
        GameScreen::WorldList => seq![Overlay::WorldList],
        GameScreen::NameWorld => seq![Overlay::NameWorld],
        GameScreen::ConfirmDeleteWorld => seq![Overlay::ConfirmDelete],
        GameScreen::Pause => seq![Overlay::Pause],
        GameScreen::GameMode => seq![Overlay::GameMode],
        GameScreen::Settings => seq![Overlay::Settings],
        GameScreen::SettingsMore => seq![Overlay::SettingsMore],
        GameScreen::Saving => seq![Overlay::Saving],
        GameScreen::Playing => game_overlays(v, on_phone),
    }
}

impl GameState {
    /// What is drawn over the world, from the back to the front.
    pub fn overlays(&self, on_phone: bool) -> (r: Vec<Overlay>)
        ensures
            r@ == overlays_of(self@, on_phone),
    {
        let mut out: Vec<Overlay> = Vec::new();
        match self.game_screen {
            GameScreen::MainMenu => out.push(Overlay::MainMenu),
            GameScreen::WorldList => out.push(Overlay::WorldList),
            GameScreen::NameWorld => out.push(Overlay::NameWorld),
            GameScreen::ConfirmDeleteWorld => out.push(Overlay::ConfirmDelete),
            GameScreen::Pause => out.push(Overlay::Pause),
            GameScreen::GameMode => out.push(Overlay::GameMode),
            GameScreen::Settings => out.push(Overlay::Settings),
            GameScreen::SettingsMore => out.push(Overlay::SettingsMore),
            GameScreen::Saving => out.push(Overlay::Saving),
            GameScreen::Playing => {
                out.push(Overlay::Crosshair);
                if on_phone {
                    out.push(Overlay::TouchControls);
                } else {
                    out.push(Overlay::Hotbar);
                }
                if self.show_fps {
                    out.push(Overlay::FpsCounter);
                }
                if self.show_build_info {
                    out.push(Overlay::BuildInfo);
                }
                if self.show_debug_panel {
                    out.push(Overlay::DebugPanel { below_build_info: self.show_build_info });
                }
            },
        }
        out
    }

    /// The name of the world that is about to be deleted; empty if there is
    /// none.
    pub fn delete_prompt(&self, worlds: &Vec<WorldMeta>) -> (r: String)
        ensures
            r@ == match self.pending_delete_index {
                Some(i) => if i < worlds@.len() {
                    worlds@[i as int].name@
                } else {
                    Seq::empty()
                },
                None => Seq::empty(),
            },
    {
        if let Some(i) = self.pending_delete_index {
            if i < worlds.len() {
                return worlds[i].name.clone();
            }
        }
        String::new()
    }

    /// How far the fog reaches, in blocks: to the edge of the loaded chunks.
    /// `None` where the fog is switched off.
    pub fn fog_distance(&self) -> (r: Option<i32>)
        requires
            self@.wf(),
        ensures
            r is Some <==> self.show_fog,
            r matches Some(d) ==> d == self.render_radius * CHUNK_SIZE_X,
            r matches Some(d) ==> d == 16 * self.render_radius,
    {
        if self.show_fog {
            Some(self.render_radius * CHUNK_SIZE_X as i32)
        } else {
            None
        }
    }
}

/// A menu hides the parts of the running game, and in the game the aim is
/// always shown.
pub proof fn law_menus_fill_the_screen(v: GameView, on_phone: bool)
    ensures
        v.game_screen != GameScreen::Playing ==> overlays_of(v, on_phone).len() == 1
            && !overlays_of(v, on_phone).contains(Overlay::Crosshair),
        v.game_screen == GameScreen::Playing ==> overlays_of(v, on_phone)[0] == Overlay::Crosshair,
{
}

/// Counts frames between two readings of the clock.
#[derive(Clone, Copy, Debug, PartialEq, Eq, Structural)]
pub struct FrameCounter {
    pub frames: u32,
}

impl FrameCounter {
    pub fn new() -> (r: Self)
        ensures
            r.frames == 0,
    {
        FrameCounter { frames: 0 }
    }

    /// Counts a frame. Once a second is over the count is handed out and starts
    /// again.
    pub fn tick(&mut self, second_over: bool) -> (r: Option<u32>)
        requires
            old(self).frames < u32::MAX,
        ensures
            second_over ==> r == Some((old(self).frames + 1) as u32) && final(self).frames == 0,
            !second_over ==> r is None && final(self).frames == old(self).frames + 1,
    {
        self.frames = self.frames + 1;
        if second_over {
            let counted: u32 = self.frames;
            self.frames = 0;
            Some(counted)
        } else {
            None
        }
    }
}

/// Over a running game each part is shown exactly if it is switched on: the frame
/// counter, the build info and the debug panel. A phone has its touch controls,
/// a computer the hotbar alone.
pub proof fn law_switches_decide_what_is_shown(v: GameView, on_phone: bool)
    requires
        v.game_screen == GameScreen::Playing,
    ensures
        ({
            let shown = overlays_of(v, on_phone);
            &&& shown.contains(Overlay::Crosshair)
            &&& shown.contains(Overlay::FpsCounter) <==> v.show_fps
            &&& shown.contains(Overlay::BuildInfo) <==> v.show_build_info
            &&& shown.contains(Overlay::DebugPanel { below_build_info: v.show_build_info })
                <==> v.show_debug_panel
            &&& !shown.contains(Overlay::DebugPanel { below_build_info: !v.show_build_info })
            &&& shown.contains(Overlay::TouchControls) <==> on_phone
            &&& shown.contains(Overlay::Hotbar) <==> !on_phone
            &&& !shown.contains(Overlay::Pause)
        }),
{
    let a = seq![Overlay::Crosshair];
    let b = if on_phone {
        a.push(Overlay::TouchControls)
    } else {
        a.push(Overlay::Hotbar)
    };
    let c = if v.show_fps {
        b.push(Overlay::FpsCounter)
    } else {
        b
    };
    let d = if v.show_build_info {
        c.push(Overlay::BuildInfo)
    } else {
        c
    };
    let all = overlays_of(v, on_phone);
    assert(all[0] == Overlay::Crosshair);
    assert(all[1] == if on_phone {
        Overlay::TouchControls
    } else {
        Overlay::Hotbar
    });
    if v.show_fps {
        assert(all[2] == Overlay::FpsCounter);
    }
    if v.show_build_info {
        assert(all[c.len() as int] == Overlay::BuildInfo);
    }
    if v.show_debug_panel {
        assert(all[d.len() as int] == Overlay::DebugPanel { below_build_info: v.show_build_info });
    }
}

/// Every menu has its own picture.
pub proof fn law_each_menu_is_drawn_as_itself(v: GameView, w: GameView, on_phone: bool)
    requires
        v.game_screen != GameScreen::Playing,
        w.game_screen != GameScreen::Playing,
    ensures
        overlays_of(v, on_phone) == overlays_of(w, on_phone) <==> v.game_screen == w.game_screen,
        v.game_screen == GameScreen::Pause ==> overlays_of(v, on_phone)[0] == Overlay::Pause,
        v.game_screen == GameScreen::MainMenu ==> overlays_of(v, on_phone)[0] == Overlay::MainMenu,
        v.game_screen == GameScreen::WorldList ==> overlays_of(v, on_phone)[0]
            == Overlay::WorldList,
        v.game_screen == GameScreen::NameWorld ==> overlays_of(v, on_phone)[0]
            == Overlay::NameWorld,
        v.game_screen == GameScreen::ConfirmDeleteWorld ==> overlays_of(v, on_phone)[0]
            == Overlay::ConfirmDelete,
        v.game_screen == GameScreen::GameMode ==> overlays_of(v, on_phone)[0] == Overlay::GameMode,
        v.game_screen == GameScreen::Settings ==> overlays_of(v, on_phone)[0] == Overlay::Settings,
        v.game_screen == GameScreen::SettingsMore ==> overlays_of(v, on_phone)[0]
            == Overlay::SettingsMore,
        v.game_screen == GameScreen::Saving ==> overlays_of(v, on_phone)[0] == Overlay::Saving,
{
    assert(overlays_of(v, on_phone)[0] == overlays_of(w, on_phone)[0] || overlays_of(v, on_phone)
        != overlays_of(w, on_phone));
}

/// The parts lie over one another in a fixed order: the aim at the very back,
/// then the controls, the frame counter, the build info and the debug panel.
pub proof fn law_parts_lie_in_order(v: GameView, on_phone: bool)
    requires
        v.game_screen == GameScreen::Playing,
    ensures
        ({
            let shown = overlays_of(v, on_phone);
            let fps: int = if v.show_fps {
                1
            } else {
                0
            };
            &&& shown[0] == Overlay::Crosshair
            &&& shown[1] == if on_phone {
                Overlay::TouchControls
            } else {
                Overlay::Hotbar
            }
            &&& v.show_fps ==> shown[2] == Overlay::FpsCounter
            &&& v.show_build_info ==> shown[2 + fps] == Overlay::BuildInfo
            &&& v.show_debug_panel ==> shown.last() == (Overlay::DebugPanel {
                below_build_info: v.show_build_info,
            })
        }),
{
}

} // verus!
