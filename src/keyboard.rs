use vstd::prelude::*;

verus! {

/// A key of the PS/2 keyboard, after translation of its scancode.
#[derive(Clone, Copy, Debug, PartialEq, Eq, Structural)]
pub enum KeyCode {
    Char(u8),
    Escape,
    Backspace,
    Tab,
    Enter,
    LeftShift,
    RightShift,
    LeftCtrl,
    LeftAlt,
    CapsLock,
    F1,
    F2,
    F3,
    F4,
    F5,
    F6,
    F7,
    F8,
    F9,
    F10,
    F11,
    F12,
    NumLock,
    ScrollLock,
    Home,
    Up,
    PageUp,
    Left,
    Right,
    End,
    Down,
    PageDown,
    Insert,
    Delete,
    Unknown(u8),
}

/// A key going down or coming up.
#[derive(Clone, Copy, Debug, PartialEq, Eq, Structural)]
pub enum KeyEvent {
    Pressed(KeyCode),
    Released(KeyCode),
}

/// Which modifier keys are held, and whether caps lock is on.
#[derive(Clone, Copy, Debug, PartialEq, Eq, Structural)]
pub struct KeyboardState {
    pub left_shift: bool,
    pub right_shift: bool,
    pub caps_lock: bool,
    pub left_ctrl: bool,
    pub left_alt: bool,
}

impl KeyboardState {
    /// No modifier held, caps lock off.
    pub fn new() -> (r: KeyboardState)
        ensures
            !r.left_shift && !r.right_shift && !r.caps_lock && !r.left_ctrl && !r.left_alt,
    {
        KeyboardState {
            left_shift: false,
            right_shift: false,
            caps_lock: false,
            left_ctrl: false,
            left_alt: false,
        }
    }

    /// Either shift key is held.
    pub fn shift_pressed(&self) -> (r: bool)
        ensures
            r == (self.left_shift || self.right_shift),
    {
        self.left_shift || self.right_shift
    }

    /// Letters come out upper case: shift held or caps lock on, not both.
    pub fn uppercase(&self) -> (r: bool)
        ensures
            r == ((self.left_shift || self.right_shift) != self.caps_lock),
    {
        self.shift_pressed() ^ self.caps_lock
    }

    /// The control key is held.
    pub fn ctrl_pressed(&self) -> (r: bool)
        ensures
            r == self.left_ctrl,
    {
        self.left_ctrl
    }

    /// The alt key is held.
    pub fn alt_pressed(&self) -> (r: bool)
        ensures
            r == self.left_alt,
    {
        self.left_alt
    }

    /// Records a key going down (`released == false`) or up: a modifier is
    /// held while down, caps lock toggles on each press, other keys change
    /// nothing.
    pub fn update_modifiers(&mut self, key: KeyCode, released: bool)
        ensures
            final(self).left_shift == if key == KeyCode::LeftShift {
                !released
            } else {
                old(self).left_shift
            },
            final(self).right_shift == if key == KeyCode::RightShift {
                !released
            } else {
                old(self).right_shift
            },
            final(self).left_ctrl == if key == KeyCode::LeftCtrl {
                !released
            } else {
                old(self).left_ctrl
            },
            final(self).left_alt == if key == KeyCode::LeftAlt {
                !released
            } else {
                old(self).left_alt
            },
            final(self).caps_lock == if key == KeyCode::CapsLock && !released {
                !old(self).caps_lock
            } else {
                old(self).caps_lock
            },
    {
        match key {
            KeyCode::LeftShift => self.left_shift = !released,
            KeyCode::RightShift => self.right_shift = !released,
            KeyCode::LeftCtrl => self.left_ctrl = !released,
            KeyCode::LeftAlt => self.left_alt = !released,
            KeyCode::CapsLock => {
                if !released {
                    self.caps_lock = !self.caps_lock;
                }
            },
            _ => {},
        }
    }
}

} // verus!
