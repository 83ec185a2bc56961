//! The state of the keys that steer the player.

use vstd::prelude::*;

verus! {

/// A key of the keyboard, as far as the game tells keys apart.
#[derive(Clone, Copy, Debug, PartialEq, Eq, Structural)]
pub enum Key {
    Space,
    A,
    D,
    S,
    W,
    /// Any key that steers nothing.
    Other,
}

/// Which of the steering keys are held down.
#[derive(Clone, Copy, Debug, PartialEq, Eq, Structural)]
pub struct Keys {
    /// Jump.
    pub space: bool,
    /// Walk left.
    pub a: bool,
    /// Walk right.
    pub d: bool,
    /// Slide down a wall.
    pub s: bool,
    /// Held or not, it steers nothing so far.
    pub w: bool,
}

/// Where the held keys steer the player.
#[derive(Clone, Copy, Debug, PartialEq, Eq, Structural)]
pub enum Steering {
    Right,
    Left,
    /// Neither way: the player coasts.
    Coast,
}

impl Keys {
    /// The key state `self` with the flag of `key` set to `held`; a key that
    /// steers nothing leaves every flag as it is.
    pub open spec fn with(self, key: Key, held: bool) -> Keys {
        match key {
            Key::Space => Keys { space: held, ..self },
            Key::A => Keys { a: held, ..self },
            Key::D => Keys { d: held, ..self },
            Key::S => Keys { s: held, ..self },
            Key::W => Keys { w: held, ..self },
            Key::Other => self,
        }
    }

    /// Whether the flag of `key` is set; never for a key that steers nothing.
    pub open spec fn holds(self, key: Key) -> bool {
        match key {
            Key::Space => self.space,
            Key::A => self.a,
            Key::D => self.d,
            Key::S => self.s,
            Key::W => self.w,
            Key::Other => false,
        }
    }

    /// Right wins over left.
    pub open spec fn steers(self) -> Steering {
        if self.d {
            Steering::Right
        } else if self.a {
            Steering::Left
        } else {
            Steering::Coast
        }
    }

    /// The state in which no key is held.
    pub open spec fn idle() -> Keys {
        Keys { space: false, a: false, d: false, s: false, w: false }
    }

    /// No key is held.
    pub fn new() -> (keys: Keys)
        ensures
            keys == Keys::idle(),
    {
        Keys { space: false, a: false, d: false, s: false, w: false }
    }

    /// Records that `key` went down.
    pub fn btn_press(&mut self, key: Key)
        ensures
            *final(self) == old(self).with(key, true),
    {
        match key {
            Key::Space => {
                self.space = true;
            },
            Key::A => {
                self.a = true;
            },
            Key::D => {
                self.d = true;
            },
            Key::S => {
                self.s = true;
            },
            Key::W => {
                self.w = true;
            },
            Key::Other => {},
        }
    }

    /// Records that `key` came up.
    pub fn btn_release(&mut self, key: Key)
        ensures
            *final(self) == old(self).with(key, false),
    {
        match key {
            Key::Space => {
                self.space = false;
            },
            Key::A => {
                self.a = false;
            },
            Key::D => {
                self.d = false;
            },
            Key::S => {
                self.s = false;
            },
            Key::W => {
                self.w = false;
            },
            Key::Other => {},
        }
    }

    /// Which way the player is steered this frame.
    pub fn steering(&self) -> (way: Steering)
        ensures
            way == self.steers(),
    {
        if self.d {
            Steering::Right
        } else if self.a {
            Steering::Left
        } else {
            Steering::Coast
        }
    }

    /// Whether the player leaves the ground this frame: jump is held and the
    /// player stands on something.
    pub fn jumps(&self, on_ground: bool) -> (launch: bool)
        ensures
            launch == (self.space && on_ground),
    {
        self.space && on_ground
    }
}

/// A key that is pressed is held afterwards, one that is released is not,
/// and neither touches the flag of another key.
pub proof fn lemma_with_holds(keys: Keys, key: Key, held: bool, other: Key)
    ensures
        key != Key::Other ==> keys.with(key, held).holds(key) == held,
        other != key ==> keys.with(key, held).holds(other) == keys.holds(other),
{
}

} // verus!
