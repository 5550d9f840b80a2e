//! Unified input handling: mouse, touch and scroll events normalised by
//! the platform layer, folded into a small pointer state.

use vstd::prelude::*;
use crate::geom::{Coord, Point};

verus! {

/// Mouse buttons.
#[derive(Clone, Copy, PartialEq, Eq, Structural, Hash, Debug)]
pub enum MouseButton {
    /// Left button.
    Left,
    /// Right button.
    Right,
    /// Middle button.
    Middle,
}

/// Phases of a touch.
#[derive(Clone, Copy, PartialEq, Eq, Structural, Debug)]
pub enum TouchPhase {
    /// Touch started.
    Started,
    /// Touch moved.
    Moved,
    /// Touch ended.
    Ended,
    /// Touch cancelled.
    Cancelled,
}

/// A normalised input event, coordinates in sub-pixel units.
#[derive(Clone, Copy, PartialEq, Eq, Structural, Debug)]
pub enum InputEvent {
    /// Pointer moved.
    MouseMove {
        /// New horizontal position.
        x: Coord,
        /// New vertical position.
        y: Coord,
    },
    /// Button pressed.
    MouseDown {
        /// The button.
        button: MouseButton,
        /// Horizontal position.
        x: Coord,
        /// Vertical position.
        y: Coord,
    },
    /// Button released.
    MouseUp {
        /// The button.
        button: MouseButton,
        /// Horizontal position.
        x: Coord,
        /// Vertical position.
        y: Coord,
    },
    /// Wheel scrolled.
    Scroll {
        /// Horizontal delta.
        delta_x: Coord,
        /// Vertical delta.
        delta_y: Coord,
    },
    /// Touch contact.
    Touch {
        /// Contact identifier.
        id: u64,
        /// Phase.
        phase: TouchPhase,
        /// Horizontal position.
        x: Coord,
        /// Vertical position.
        y: Coord,
    },
}

/// Which mouse buttons are held down, one flag per button.
#[derive(Clone, Copy, PartialEq, Eq, Structural, Debug)]
pub struct PressedButtons {
    /// Left button held.
    pub left: bool,
    /// Right button held.
    pub right: bool,
    /// Middle button held.
    pub middle: bool,
}

/// The flags with one button set to `v`.
pub open spec fn spec_with_button(p: PressedButtons, b: MouseButton, v: bool) -> PressedButtons {
    match b {
        MouseButton::Left => PressedButtons { left: v, ..p },
        MouseButton::Right => PressedButtons { right: v, ..p },
        MouseButton::Middle => PressedButtons { middle: v, ..p },
    }
}

/// The pointer state: position and held buttons.
#[derive(Clone, Copy, PartialEq, Eq, Structural, Debug)]
pub struct InputState {
    /// Current pointer position.
    pub mouse_pos: Point,
    /// Buttons currently held.
    pub pressed_buttons: PressedButtons,
}

impl InputState {
    /// Pointer at the origin, nothing held.
    pub fn new() -> (r: InputState)
        ensures
            r.mouse_pos == (Point { x: 0, y: 0 }),
            r.pressed_buttons == (PressedButtons { left: false, right: false, middle: false }),
    {
        InputState {
            mouse_pos: Point { x: 0, y: 0 },
            pressed_buttons: PressedButtons { left: false, right: false, middle: false },
        }
    }

    /// Fold one event in: a move updates the position, a press or a
    /// release flips its button's flag, anything else changes nothing.
    pub fn update(&mut self, event: &InputEvent)
        ensures
            match *event {
                InputEvent::MouseMove { x, y } => *final(self) == (InputState {
                    mouse_pos: Point { x, y },
                    ..*old(self)
                }),
                InputEvent::MouseDown { button, .. } => *final(self) == (InputState {
                    pressed_buttons: spec_with_button(old(self).pressed_buttons, button, true),
                    ..*old(self)
                }),
                InputEvent::MouseUp { button, .. } => *final(self) == (InputState {
                    pressed_buttons: spec_with_button(old(self).pressed_buttons, button, false),
                    ..*old(self)
                }),
                _ => *final(self) == *old(self),
            },
    {
        match event {
            InputEvent::MouseMove { x, y } => {
                self.mouse_pos = Point { x: *x, y: *y };
            },
            InputEvent::MouseDown { button, .. } => {
                match button {
                    MouseButton::Left => self.pressed_buttons.left = true,
                    MouseButton::Right => self.pressed_buttons.right = true,
                    MouseButton::Middle => self.pressed_buttons.middle = true,
                }
            },
            InputEvent::MouseUp { button, .. } => {
                match button {
                    MouseButton::Left => self.pressed_buttons.left = false,
                    MouseButton::Right => self.pressed_buttons.right = false,
                    MouseButton::Middle => self.pressed_buttons.middle = false,
                }
            },
            _ => {},
        }
    }

    /// Whether a button is held.
    pub fn is_pressed(&self, button: MouseButton) -> (r: bool)
        ensures
            r == match button {
                MouseButton::Left => self.pressed_buttons.left,
                MouseButton::Right => self.pressed_buttons.right,
                MouseButton::Middle => self.pressed_buttons.middle,
            },
    {
        match button {
            MouseButton::Left => self.pressed_buttons.left,
            MouseButton::Right => self.pressed_buttons.right,
            MouseButton::Middle => self.pressed_buttons.middle,
        }
    }
}

} // verus!
