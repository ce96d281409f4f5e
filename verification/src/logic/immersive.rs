//! Full screen on a phone: which calls into the system are made, and what
//! their answers lead to.
//!
//! Newer systems hide the bars through an insets controller. Makers of phones
//! change the system enough that each of its calls may be missing, so the older
//! view flags are tried whenever an essential call fails.
use vstd::prelude::*;

verus! {

/// The oldest system version whose insets controller is tried.
pub const INSETS_SDK: i32 = 30;

/// The view flags of the older way: stable layout, layout behind both bars,
/// both bars hidden, and they go away again by themselves.
pub const IMMERSIVE_FLAGS: i32 = 0x1706;

/// A call into the system.
#[derive(Clone, Copy, Debug, PartialEq, Eq, Structural)]
pub enum SystemCall {
    GetWindow,
    ReadSdk,
    SetDecorFitsSystemWindows,
    GetInsetsController,
    ReadStatusBars,
    ReadNavigationBars,
    Hide(i32),
    ReadSwipeBehavior,
    SetSwipeBehavior(i32),
    GetDecorView,
    SetSystemUiVisibility(i32),
}

/// The answer to a call.
#[derive(Clone, Copy, Debug, PartialEq, Eq, Structural)]
pub enum Reply {
    /// The call is missing, failed or left an exception.
    Failed,
    /// The call went through; an object that it was to give is null.
    Null,
    /// The call went through.
    Done,
    /// The call went through and gave a number.
    Number(i32),
}

/// How the attempt ended.
#[derive(Clone, Copy, Debug, PartialEq, Eq, Structural)]
pub enum Outcome {
    Hidden,
    /// There is no window to work on.
    NoWindow,
    /// Neither way worked.
    NeitherWay,
}

/// Where the attempt stands: waiting for the answer to a call, or over.
#[derive(Clone, Copy, Debug, PartialEq, Eq, Structural)]
pub enum Attempt {
    Window,
    Sdk,
    Decor,
    Controller,
    StatusBars,
    NavigationBars { status: i32 },
    Hide { mask: i32 },
    Behavior,
    SetBehavior { behavior: i32 },
    DecorView,
    Flags,
    Over(Outcome),
}

pub open spec fn number(reply: Reply) -> i32 {
    match reply {
        Reply::Number(n) => n,
        _ => 0,
    }
}

fn number_of(reply: Reply) -> (r: i32)
    ensures
        r == number(reply),
{
    match reply {
        Reply::Number(n) => n,
        _ => 0,
    }
}

impl Attempt {
    /// The call whose answer is waited for.
    pub open spec fn pending(self) -> Option<SystemCall> {
        match self {
            Attempt::Window => Some(SystemCall::GetWindow),
            Attempt::Sdk => Some(SystemCall::ReadSdk),
            Attempt::Decor => Some(SystemCall::SetDecorFitsSystemWindows),
            Attempt::Controller => Some(SystemCall::GetInsetsController),
            Attempt::StatusBars => Some(SystemCall::ReadStatusBars),
            Attempt::NavigationBars { status } => Some(SystemCall::ReadNavigationBars),
            Attempt::Hide { mask } => Some(SystemCall::Hide(mask)),
            Attempt::Behavior => Some(SystemCall::ReadSwipeBehavior),
            Attempt::SetBehavior { behavior } => Some(SystemCall::SetSwipeBehavior(behavior)),
            Attempt::DecorView => Some(SystemCall::GetDecorView),
            Attempt::Flags => Some(SystemCall::SetSystemUiVisibility(IMMERSIVE_FLAGS)),
            Attempt::Over(_) => None,
        }
    }

    /// Where the answer to the pending call leads.
    pub open spec fn after(self, reply: Reply) -> Attempt {
        match self {
            Attempt::Window => if reply == Reply::Failed {
                Attempt::Over(Outcome::NoWindow)
            } else {
                Attempt::Sdk
            },
            Attempt::Sdk => if number(reply) >= INSETS_SDK {
                Attempt::Decor
            } else {
                Attempt::DecorView
            },
            Attempt::Decor => Attempt::Controller,
            Attempt::Controller => if reply == Reply::Failed || reply == Reply::Null {
                Attempt::DecorView
            } else {
                Attempt::StatusBars
            },
            Attempt::StatusBars => Attempt::NavigationBars { status: number(reply) },
            Attempt::NavigationBars { status } => if status == 0 && number(reply) == 0 {
                Attempt::DecorView
            } else {
                Attempt::Hide { mask: status | number(reply) }
            },
            Attempt::Hide { mask } => if reply == Reply::Failed {
                Attempt::DecorView
            } else {
                Attempt::Behavior
            },
            Attempt::Behavior => match reply {
                Reply::Number(n) => Attempt::SetBehavior { behavior: n },
                _ => Attempt::Over(Outcome::Hidden),
            },
            Attempt::SetBehavior { behavior } => Attempt::Over(Outcome::Hidden),
            Attempt::DecorView => if reply == Reply::Failed {
                Attempt::Over(Outcome::NeitherWay)
            } else {
                Attempt::Flags
            },
            Attempt::Flags => if reply == Reply::Failed {
                Attempt::Over(Outcome::NeitherWay)
            } else {
                Attempt::Over(Outcome::Hidden)
            },
            Attempt::Over(outcome) => Attempt::Over(outcome),
        }
    }

    /// The start of an attempt.
    pub fn new() -> (r: Self)
        ensures
            r == Attempt::Window,
    {
        Attempt::Window
    }

    /// The call to make next. `None` once the attempt is over.
    pub fn call(self) -> (r: Option<SystemCall>)
        ensures
            r == self.pending(),
    {
        match self {
            Attempt::Window => Some(SystemCall::GetWindow),
            Attempt::Sdk => Some(SystemCall::ReadSdk),
            Attempt::Decor => Some(SystemCall::SetDecorFitsSystemWindows),
            Attempt::Controller => Some(SystemCall::GetInsetsController),
            Attempt::StatusBars => Some(SystemCall::ReadStatusBars),
            Attempt::NavigationBars { .. } => Some(SystemCall::ReadNavigationBars),
            Attempt::Hide { mask } => Some(SystemCall::Hide(mask)),
            Attempt::Behavior => Some(SystemCall::ReadSwipeBehavior),
            Attempt::SetBehavior { behavior } => Some(SystemCall::SetSwipeBehavior(behavior)),
            Attempt::DecorView => Some(SystemCall::GetDecorView),
            Attempt::Flags => Some(SystemCall::SetSystemUiVisibility(IMMERSIVE_FLAGS)),
            Attempt::Over(_) => None,
        }
    }

    /// Goes on with the answer to the call.
    pub fn answered(self, reply: Reply) -> (r: Self)
        ensures
            r == self.after(reply),
    {
        match self {
            Attempt::Window => if matches!(reply, Reply::Failed) {
                Attempt::Over(Outcome::NoWindow)
            } else {
                Attempt::Sdk
            },
            Attempt::Sdk => if number_of(reply) >= INSETS_SDK {
                Attempt::Decor
            } else {
                Attempt::DecorView
            },
            Attempt::Decor => Attempt::Controller,
            Attempt::Controller => match reply {
                Reply::Failed | Reply::Null => Attempt::DecorView,
                _ => Attempt::StatusBars,
            },
            Attempt::StatusBars => Attempt::NavigationBars { status: number_of(reply) },
            Attempt::NavigationBars { status } => {
                let navigation: i32 = number_of(reply);
                if status == 0 && navigation == 0 {
                    Attempt::DecorView
                } else {
                    Attempt::Hide { mask: status | navigation }
                }
            },
            Attempt::Hide { .. } => if matches!(reply, Reply::Failed) {
                Attempt::DecorView
            } else {
                Attempt::Behavior
            },
            Attempt::Behavior => match reply {
                Reply::Number(n) => Attempt::SetBehavior { behavior: n },
                _ => Attempt::Over(Outcome::Hidden),
            },
            Attempt::SetBehavior { .. } => Attempt::Over(Outcome::Hidden),
            Attempt::DecorView => if matches!(reply, Reply::Failed) {
                Attempt::Over(Outcome::NeitherWay)
            } else {
                Attempt::Flags
            },
            Attempt::Flags => if matches!(reply, Reply::Failed) {
                Attempt::Over(Outcome::NeitherWay)
            } else {
                Attempt::Over(Outcome::Hidden)
            },
            Attempt::Over(outcome) => Attempt::Over(outcome),
        }
    }
}

/// What a failed attempt is logged as.
pub fn failure_text(outcome: Outcome) -> (r: Option<&'static str>)
    ensures
        r is None <==> outcome == Outcome::Hidden,
        outcome == Outcome::NoWindow ==> r->0@
            == "no se pudo obtener Window en este dispositivo"@,
        outcome == Outcome::NeitherWay ==> r->0@
            == "ninguna de las dos APIs de pantalla completa inmersiva funcionó en este dispositivo"@,
{
    match outcome {
        Outcome::Hidden => None,
        Outcome::NoWindow => Some("no se pudo obtener Window en este dispositivo"),
        Outcome::NeitherWay => Some(
            "ninguna de las dos APIs de pantalla completa inmersiva funcionó en este dispositivo",
        ),
    }
}

/// Where an attempt stands after a number of calls to a system that gives every
/// call the same answer each time.
pub open spec fn played(system: spec_fn(SystemCall) -> Reply, start: Attempt, calls: nat) -> Attempt
    decreases calls,
{
    if calls == 0 {
        start
    } else {
        let before = played(system, start, (calls - 1) as nat);
        match before.pending() {
            Some(call) => before.after(system(call)),
            None => before,
        }
    }
}

/// The insets controller works on a system: it is there, at least one bar is
/// known, and hiding the known bars goes through.
pub open spec fn controller_works(system: spec_fn(SystemCall) -> Reply) -> bool {
    let status = number(system(SystemCall::ReadStatusBars));
    let navigation = number(system(SystemCall::ReadNavigationBars));
    &&& number(system(SystemCall::ReadSdk)) >= INSETS_SDK
    &&& system(SystemCall::GetInsetsController) != Reply::Failed
    &&& system(SystemCall::GetInsetsController) != Reply::Null
    &&& (status != 0 || navigation != 0)
    &&& system(SystemCall::Hide(status | navigation)) != Reply::Failed
}

/// The older flags work on a system.
pub open spec fn flags_work(system: spec_fn(SystemCall) -> Reply) -> bool {
    &&& system(SystemCall::GetDecorView) != Reply::Failed
    &&& system(SystemCall::SetSystemUiVisibility(IMMERSIVE_FLAGS)) != Reply::Failed
}

/// An attempt makes at most nine calls and then is over. It ends with the
/// bars hidden exactly if there is a window and one of the two ways works; what
/// is only nice to have does not decide.
pub proof fn law_either_way_is_enough(system: spec_fn(SystemCall) -> Reply)
    ensures
        played(system, Attempt::Window, 9) == Attempt::Over(
            if system(SystemCall::GetWindow) == Reply::Failed {
                Outcome::NoWindow
            } else if controller_works(system) || flags_work(system) {
                Outcome::Hidden
            } else {
                Outcome::NeitherWay
            },
        ),
{
    reveal_with_fuel(played, 10);
}

/// The older flags are tried whenever the newer way does not lead on, the bars
/// that are hidden are exactly those that the system knows, and the swipe
/// behaviour that is set is the one that the system names.
pub proof fn law_attempts_fall_back(status: i32, navigation: i32, behavior: i32)
    ensures
        Attempt::Sdk.after(Reply::Number(29)) == Attempt::DecorView,
        Attempt::Sdk.after(Reply::Number(30)) == Attempt::Decor,
        Attempt::Controller.after(Reply::Failed).pending() == Some(SystemCall::GetDecorView),
        Attempt::Controller.after(Reply::Null).pending() == Some(SystemCall::GetDecorView),
        Attempt::StatusBars.after(Reply::Number(status)).after(Reply::Number(navigation)).pending()
            == if status == 0 && navigation == 0 {
            Some(SystemCall::GetDecorView)
        } else {
            Some(SystemCall::Hide(status | navigation))
        },
        Attempt::Behavior.after(Reply::Number(behavior)).pending() == Some(
            SystemCall::SetSwipeBehavior(behavior),
        ),
        Attempt::DecorView.after(Reply::Done).pending() == Some(
            SystemCall::SetSystemUiVisibility(0x1706),
        ),
{
}

} // verus!
