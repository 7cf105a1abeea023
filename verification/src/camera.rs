//! The decisions of the orbit camera's mouse controls: which buttons and
//! modifier keys are held, and whether a mouse move pans, rotates or does
//! nothing.  The camera's angles and distances themselves are floating
//! point and are updated by the caller with the move's delta.
use vstd::prelude::*;

verus! {

/// A mouse button.
#[derive(Clone, Copy, Debug, PartialEq, Eq, Structural)]
pub enum MouseButton {
    Left,
    Middle,
    Right,
    /// Any other button; the camera ignores it.
    Other,
}

/// What a mouse move does to the camera.
#[derive(Clone, Copy, Debug, PartialEq, Eq, Structural)]
pub enum DragAction {
    /// Moves the camera's target by the move's delta.
    Pan,
    /// Turns the camera around its target by the move's delta.
    Rotate,
    /// Nothing.
    Idle,
}

/// The state of the camera's mouse controls.
#[derive(Clone, Copy, Debug, PartialEq, Eq, Structural)]
pub struct CameraInput {
    pub left_pressed: bool,
    pub middle_pressed: bool,
    pub right_pressed: bool,
    pub alt_pressed: bool,
    pub shift_pressed: bool,
    /// Whether the last mouse position is remembered, so that the next move
    /// has a delta.
    pub anchored: bool,
}

/// The controls with no button or key held.
pub open spec fn released() -> CameraInput {
    CameraInput {
        left_pressed: false,
        middle_pressed: false,
        right_pressed: false,
        alt_pressed: false,
        shift_pressed: false,
        anchored: false,
    }
}

/// What dragging does with the buttons and keys held: the middle button, or
/// Shift with the right one, pans; otherwise the right button, or Alt with
/// the left one, rotates.
pub open spec fn drag_mode_of(s: CameraInput) -> DragAction {
    if s.middle_pressed || (s.shift_pressed && s.right_pressed) {
        DragAction::Pan
    } else if s.right_pressed || (s.alt_pressed && s.left_pressed) {
        DragAction::Rotate
    } else {
        DragAction::Idle
    }
}

/// The controls after a button is pressed or released: releasing one of the
/// three buttons forgets the last mouse position.
pub open spec fn after_button(s: CameraInput, b: MouseButton, pressed: bool) -> CameraInput {
    match b {
        MouseButton::Left => CameraInput { left_pressed: pressed, anchored: s.anchored && pressed, ..s },
        MouseButton::Middle => CameraInput {
            middle_pressed: pressed,
            anchored: s.anchored && pressed,
            ..s
        },
        MouseButton::Right => CameraInput { right_pressed: pressed, anchored: s.anchored && pressed, ..s },
        MouseButton::Other => s,
    }
}

/// The controls after a mouse move, and what the move does: while a drag
/// mode is active the position is remembered, and the move acts only when
/// a previous position was; otherwise the position is forgotten.
pub open spec fn after_move(s: CameraInput) -> (CameraInput, DragAction) {
    let mode = drag_mode_of(s);
    if mode == DragAction::Idle {
        (CameraInput { anchored: false, ..s }, DragAction::Idle)
    } else {
        (CameraInput { anchored: true, ..s }, if s.anchored {
            mode
        } else {
            DragAction::Idle
        })
    }
}

impl CameraInput {
    /// Controls with nothing held.
    pub fn new() -> (r: CameraInput)
        ensures
            r == released(),
    {
        CameraInput {
            left_pressed: false,
            middle_pressed: false,
            right_pressed: false,
            alt_pressed: false,
            shift_pressed: false,
            anchored: false,
        }
    }

    /// What dragging does now (see [`drag_mode_of`]).
    pub fn drag_mode(&self) -> (r: DragAction)
        ensures
            r == drag_mode_of(*self),
    {
        if self.middle_pressed || (self.shift_pressed && self.right_pressed) {
            DragAction::Pan
        } else if self.right_pressed || (self.alt_pressed && self.left_pressed) {
            DragAction::Rotate
        } else {
            DragAction::Idle
        }
    }

    /// A mouse button is pressed or released (see [`after_button`]).
    pub fn on_mouse_button(&mut self, button: MouseButton, pressed: bool)
        ensures
            *final(self) == after_button(*old(self), button, pressed),
    {
        match button {
            MouseButton::Left => {
                self.left_pressed = pressed;
                if !pressed {
                    self.anchored = false;
                }
            },
            MouseButton::Middle => {
                self.middle_pressed = pressed;
                if !pressed {
                    self.anchored = false;
                }
            },
            MouseButton::Right => {
                self.right_pressed = pressed;
                if !pressed {
                    self.anchored = false;
                }
            },
            MouseButton::Other => {},
        }
    }

    /// The Shift and Alt keys are now held or not.
    pub fn on_modifiers(&mut self, shift: bool, alt: bool)
        ensures
            *final(self) == (CameraInput { shift_pressed: shift, alt_pressed: alt, ..*old(self) }),
    {
        self.shift_pressed = shift;
        self.alt_pressed = alt;
    }

    /// The mouse moves: returns what the move does to the camera (see
    /// [`after_move`]); the move's delta is measured from the position of
    /// the previous move.
    pub fn on_mouse_move(&mut self) -> (r: DragAction)
        ensures
            (*final(self), r) == after_move(*old(self)),
    {
        let mode = self.drag_mode();
        match mode {
            DragAction::Idle => {
                self.anchored = false;
                DragAction::Idle
            },
            _ => {
                let acts = self.anchored;
                self.anchored = true;
                if acts {
                    mode
                } else {
                    DragAction::Idle
                }
            },
        }
    }

    /// The camera is reset: the last mouse position is forgotten.
    pub fn reset(&mut self)
        ensures
            *final(self) == (CameraInput { anchored: false, ..*old(self) }),
    {
        self.anchored = false;
    }
}

/// A drag acts from its second move on: after one move, a second move with
/// the same buttons and keys held does what they select.
pub proof fn law_second_move_acts(s: CameraInput)
    ensures
        after_move(after_move(s).0).1 == drag_mode_of(s),
{
}

/// Releasing any of the three buttons ends the drag: the next move does
/// nothing, whatever is still held.
pub proof fn law_release_ends_drag(s: CameraInput, b: MouseButton)
    requires
        b != MouseButton::Other,
    ensures
        after_move(after_button(s, b, false)).1 == DragAction::Idle,
{
}

/// Panning wins over rotating: with the middle button held, a drag pans
/// whatever else is held.
pub proof fn law_middle_button_pans(s: CameraInput)
    requires
        s.middle_pressed,
    ensures
        drag_mode_of(s) == DragAction::Pan,
{
}

/// Modifier keys and the other buttons do not move the camera by
/// themselves: with no button held, no move acts.
pub proof fn law_no_button_no_drag(s: CameraInput)
    requires
        !s.left_pressed,
        !s.middle_pressed,
        !s.right_pressed,
    ensures
        after_move(s).1 == DragAction::Idle,
        !after_move(s).0.anchored,
{
}

} // verus!
