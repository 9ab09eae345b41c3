//! Which way the viewer wants to move: the state of the movement keys.
use vstd::prelude::*;

verus! {

/// A key of the keyboard, as far as the camera tells keys apart.
#[derive(Clone, Copy, Debug, PartialEq, Eq)]
pub enum Key {
    W,
    A,
    S,
    D,
    Up,
    Down,
    Left,
    Right,
    Space,
    LShift,
    /// Any key that does not move the camera.
    Other,
}

/// A direction of movement that a key stands for.
#[derive(Clone, Copy, Debug, PartialEq, Eq)]
pub enum Movement {
    Forward,
    Backward,
    Left,
    Right,
    Up,
    Down,
}

/// The movement keys that are held down.
#[derive(Clone, Copy, Debug, PartialEq, Eq)]
pub struct CameraController {
    pub is_forward_pressed: bool,
    pub is_backward_pressed: bool,
    pub is_left_pressed: bool,
    pub is_right_pressed: bool,
    pub is_up_pressed: bool,
    pub is_down_pressed: bool,
}

impl Key {
    /// The movement a key is bound to: `W` and the up arrow move forward,
    /// `S` and the down arrow backward, `A` and the left arrow left, `D` and
    /// the right arrow right, the space bar up and the left shift key down.
    pub open spec fn binding(self) -> Option<Movement> {
        match self {
            Key::W | Key::Up => Some(Movement::Forward),
            Key::S | Key::Down => Some(Movement::Backward),
            Key::A | Key::Left => Some(Movement::Left),
            Key::D | Key::Right => Some(Movement::Right),
            Key::Space => Some(Movement::Up),
            Key::LShift => Some(Movement::Down),
            Key::Other => None,
        }
    }
}

impl CameraController {
    /// Whether the key for the movement `m` is held down.
    pub open spec fn holds(self, m: Movement) -> bool {
        match m {
            Movement::Forward => self.is_forward_pressed,
            Movement::Backward => self.is_backward_pressed,
            Movement::Left => self.is_left_pressed,
            Movement::Right => self.is_right_pressed,
            Movement::Up => self.is_up_pressed,
            Movement::Down => self.is_down_pressed,
        }
    }

    /// A controller with no key held down.
    pub fn new() -> (controller: Self)
        ensures
            forall|m: Movement| !controller.holds(m),
    {
        Self {
            is_forward_pressed: false,
            is_backward_pressed: false,
            is_left_pressed: false,
            is_right_pressed: false,
            is_up_pressed: false,
            is_down_pressed: false,
        }
    }

    /// Takes note of `key` going down (`is_pressed`) or up. A key that is
    /// bound to a movement sets that movement and leaves the others as they
    /// were; any other key changes nothing. Says whether the key was bound.
    pub fn process_keyboard(&mut self, key: Key, is_pressed: bool) -> (handled: bool)
        ensures
            handled == key.binding().is_some(),
            forall|m: Movement|
                final(self).holds(m) == if key.binding() == Some(m) {
                    is_pressed
                } else {
                    old(self).holds(m)
                },
    {
        match key {
            Key::W | Key::Up => {
                self.is_forward_pressed = is_pressed;
                true
            },
            Key::S | Key::Down => {
                self.is_backward_pressed = is_pressed;
                true
            },
            Key::A | Key::Left => {
                self.is_left_pressed = is_pressed;
                true
            },
            Key::D | Key::Right => {
                self.is_right_pressed = is_pressed;
                true
            },
            Key::Space => {
                self.is_up_pressed = is_pressed;
                true
            },
            Key::LShift => {
                self.is_down_pressed = is_pressed;
                true
            },
            Key::Other => false,
        }
    }
}

} // verus!
