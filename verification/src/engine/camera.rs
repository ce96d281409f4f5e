//! The keys and buttons that move the camera.
use vstd::prelude::*;

verus! {

/// A key that moves the camera.
#[derive(Clone, Copy, Debug, PartialEq, Eq, Structural)]
pub enum MoveKey {
    Forward,
    Backward,
    Left,
    Right,
    Up,
    Down,
}

/// Which keys and buttons are held.
#[derive(Clone, Copy, Debug, PartialEq, Eq, Structural)]
pub struct HeldKeys {
    pub forward: bool,
    pub backward: bool,
    pub left: bool,
    pub right: bool,
    pub up: bool,
    pub down: bool,
    /// The jump button on the screen.
    pub touch_jump: bool,
    /// The crouch button on the screen.
    pub touch_down: bool,
}

/// One step along an axis for each of two opposite keys that is held.
pub open spec fn axis(plus: bool, minus: bool) -> int {
    (if plus {
        1int
    } else {
        0
    }) - (if minus {
        1int
    } else {
        0
    })
}

fn axis_of(plus: bool, minus: bool) -> (r: i8)
    ensures
        r == axis(plus, minus),
{
    if plus == minus {
        0
    } else if plus {
        1
    } else {
        -1
    }
}

impl HeldKeys {
    /// The keys that are held after one went down or up.
    pub open spec fn after_key(self, key: MoveKey, pressed: bool) -> HeldKeys {
        match key {
            MoveKey::Forward => HeldKeys { forward: pressed, ..self },
            MoveKey::Backward => HeldKeys { backward: pressed, ..self },
            MoveKey::Left => HeldKeys { left: pressed, ..self },
            MoveKey::Right => HeldKeys { right: pressed, ..self },
            MoveKey::Up => HeldKeys { up: pressed, ..self },
            MoveKey::Down => HeldKeys { down: pressed, ..self },
        }
    }

    /// Nothing is held.
    pub fn new() -> (r: Self)
        ensures
            r == (HeldKeys {
                forward: false,
                backward: false,
                left: false,
                right: false,
                up: false,
                down: false,
                touch_jump: false,
                touch_down: false,
            }),
    {
        HeldKeys {
            forward: false,
            backward: false,
            left: false,
            right: false,
            up: false,
            down: false,
            touch_jump: false,
            touch_down: false,
        }
    }

    /// Takes note of a key that went down or up.
    pub fn process_key(&mut self, key: MoveKey, pressed: bool)
        ensures
            *final(self) == old(self).after_key(key, pressed),
    {
        match key {
            MoveKey::Forward => self.forward = pressed,
            MoveKey::Backward => self.backward = pressed,
            MoveKey::Left => self.left = pressed,
            MoveKey::Right => self.right = pressed,
            MoveKey::Up => self.up = pressed,
            MoveKey::Down => self.down = pressed,
        }
    }

    /// Holds or lets go of the jump button on the screen.
    pub fn set_touch_jump(&mut self, held: bool)
        ensures
            *final(self) == (HeldKeys { touch_jump: held, ..*old(self) }),
    {
        self.touch_jump = held;
    }

    /// Holds or lets go of the crouch button on the screen.
    pub fn set_touch_down(&mut self, held: bool)
        ensures
            *final(self) == (HeldKeys { touch_down: held, ..*old(self) }),
    {
        self.touch_down = held;
    }

    /// Whether the player wants to jump or rise.
    pub fn wants_jump(&self) -> (r: bool)
        ensures
            r == (self.up || self.touch_jump),
    {
        self.up || self.touch_jump
    }

    /// Whether the player wants to crouch or sink.
    pub fn wants_crouch(&self) -> (r: bool)
        ensures
            r == (self.down || self.touch_down),
    {
        self.down || self.touch_down
    }

    /// Steps ahead: one, none or one back.
    pub fn ahead(&self) -> (r: i8)
        ensures
            r == axis(self.forward, self.backward),
    {
        axis_of(self.forward, self.backward)
    }

    /// Steps to the right: one, none or one to the left.
    pub fn sideways(&self) -> (r: i8)
        ensures
            r == axis(self.right, self.left),
    {
        axis_of(self.right, self.left)
    }

    /// Steps up: one, none or one down.
    pub fn upwards(&self) -> (r: i8)
        ensures
            r == axis(self.up || self.touch_jump, self.down || self.touch_down),
    {
        axis_of(self.wants_jump(), self.wants_crouch())
    }
}

/// Opposite keys cancel each other, and either alone moves its way.
pub proof fn law_opposite_keys_cancel(a: bool, b: bool)
    ensures
        axis(a, b) == -axis(b, a),
        axis(a, a) == 0,
        axis(true, false) == 1,
        axis(false, true) == -1,
{
}

/// A key is held from when it goes down until it goes up, and no other key is
/// touched by it.
pub proof fn law_keys_are_held_until_let_go(keys: HeldKeys, key: MoveKey)
    ensures
        keys.after_key(MoveKey::Forward, true).forward && !keys.after_key(
            MoveKey::Forward,
            false,
        ).forward,
        keys.after_key(MoveKey::Backward, true).backward && !keys.after_key(
            MoveKey::Backward,
            false,
        ).backward,
        keys.after_key(MoveKey::Left, true).left && !keys.after_key(MoveKey::Left, false).left,
        keys.after_key(MoveKey::Right, true).right && !keys.after_key(MoveKey::Right, false).right,
        keys.after_key(MoveKey::Up, true).up && !keys.after_key(MoveKey::Up, false).up,
        keys.after_key(MoveKey::Down, true).down && !keys.after_key(MoveKey::Down, false).down,
        keys.after_key(key, true).touch_jump == keys.touch_jump,
        keys.after_key(key, true).touch_down == keys.touch_down,
        keys.after_key(key, true).after_key(key, false) == keys.after_key(key, false),
        key != MoveKey::Forward ==> keys.after_key(key, true).forward == keys.forward,
        key != MoveKey::Backward ==> keys.after_key(key, true).backward == keys.backward,
        key != MoveKey::Left ==> keys.after_key(key, true).left == keys.left,
        key != MoveKey::Right ==> keys.after_key(key, true).right == keys.right,
        key != MoveKey::Up ==> keys.after_key(key, true).up == keys.up,
        key != MoveKey::Down ==> keys.after_key(key, true).down == keys.down,
{
}

} // verus!
