//! A scripted jump: what is decided when the watched key moves and when
//! the watched value changes. Pressing the key for the player is the
//! caller's.

use vstd::prelude::*;

verus! {

/// The watched value while the figure is in the air.
pub const IN_AIR: u32 = 256;

/// The watched value while the figure stands on the ground.
pub const ON_GROUND: u32 = 257;

/// Whether to jump: the key is held and the figure stands on the ground.
pub fn try_jump(space: bool, ground: bool) -> (jump: bool)
    ensures
        jump == (space && ground),
{
    space && ground
}

/// What the script knows: whether the key is held, whether the figure
/// stands on the ground, and what the key last did.
#[derive(Debug, Clone, Copy, PartialEq, Eq, Structural)]
pub struct Bhop {
    pub is_space_pressed: bool,
    pub is_on_ground: bool,
    pub is_pressed: bool,
}

impl Bhop {
    /// The script at its start: the key is up and the figure on the ground.
    pub fn new() -> (script: Bhop)
        ensures
            script == (Bhop { is_space_pressed: false, is_on_ground: true, is_pressed: false }),
    {
        Bhop { is_space_pressed: false, is_on_ground: true, is_pressed: false }
    }

    /// The script after the key has reported `press`, and whether to jump.
    /// Only a change of the key counts: going down, it is held from then
    /// on, and the figure jumps if it stands on the ground; coming up, it
    /// is held no more.
    pub open spec fn after_key(self, press: bool) -> (Bhop, bool) {
        if press && !self.is_pressed {
            (
                Bhop { is_space_pressed: true, is_on_ground: self.is_on_ground, is_pressed: true },
                self.is_on_ground,
            )
        } else if !press && self.is_pressed {
            (
                Bhop { is_space_pressed: false, is_on_ground: self.is_on_ground, is_pressed: false },
                false,
            )
        } else {
            (self, false)
        }
    }

    /// The script after the watched value has become `value`, and whether
    /// to jump. In the air the figure leaves the ground; on landing it
    /// jumps again if the key is held.
    pub open spec fn after_value(self, value: u32) -> (Bhop, bool) {
        if value == IN_AIR {
            (
                Bhop {
                    is_space_pressed: self.is_space_pressed,
                    is_on_ground: false,
                    is_pressed: self.is_pressed,
                },
                false,
            )
        } else if value == ON_GROUND {
            (
                Bhop {
                    is_space_pressed: self.is_space_pressed,
                    is_on_ground: true,
                    is_pressed: self.is_pressed,
                },
                self.is_space_pressed,
            )
        } else {
            (self, false)
        }
    }

    /// Takes a report of the key and says whether to jump.
    pub fn on_key(&mut self, press: bool) -> (jump: bool)
        ensures
            (*final(self), jump) == old(self).after_key(press),
    {
        let mut jump = false;
        if !press && self.is_pressed {
            self.is_space_pressed = press;
        }
        if press && !self.is_pressed {
            jump = try_jump(press, self.is_on_ground);
            self.is_space_pressed = press;
        }
        self.is_pressed = press;
        jump
    }

    /// Takes a change of the watched value and says whether to jump.
    pub fn on_value(&mut self, value: u32) -> (jump: bool)
        ensures
            (*final(self), jump) == old(self).after_value(value),
    {
        let mut jump = false;
        if value == IN_AIR {
            self.is_on_ground = false;
        }
        if value == ON_GROUND {
            if self.is_space_pressed {
                jump = try_jump(self.is_space_pressed, true);
            }
            self.is_on_ground = true;
        }
        jump
    }
}

} // verus!
