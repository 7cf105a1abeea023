//! How the viewer answers a window event: whether it exits or repaints, how
//! the camera's controls change, and what floating-point or window work the
//! caller then performs.
use crate::camera::{after_button, after_move, CameraInput, DragAction, MouseButton};
use vstd::prelude::*;

verus! {

/// The viewer's answer to a window event.
#[derive(Clone, Copy, Debug, PartialEq, Eq, Structural)]
pub struct EventResponse {
    pub repaint: bool,
    pub exit: bool,
}

/// A window event, as far as the viewer's decisions depend on it.
#[derive(Clone, Copy, Debug, PartialEq, Eq, Structural)]
pub enum ViewerEvent {
    CloseRequested,
    /// A key was pressed or released; `escape` when it is the Escape key.
    Key { escape: bool },
    Resized,
    MouseInput { button: MouseButton, pressed: bool },
    ModifiersChanged { shift: bool, alt: bool },
    CursorMoved,
    MouseWheel,
    PinchGesture,
    RotationGesture,
    /// A two-finger drag; `moved` when it is in its moving phase.
    PanGesture { moved: bool },
    Other,
}

/// What the caller does after the viewer has decided on an event.
#[derive(Clone, Copy, Debug, PartialEq, Eq, Structural)]
pub enum ViewerAction {
    Nothing,
    /// Resize the drawing surface to the window.
    Resize,
    /// Remember the cursor position, and move the camera as the drag
    /// action says by the cursor's delta.
    MoveCursor(DragAction),
    /// Zoom towards the cursor by the event's amount.
    Zoom,
    /// Turn the camera by the gesture's amount.
    TurnCamera,
}

/// The answer to an event, the controls after it and the caller's work:
/// `gui_consumed` and `gui_repaint` are what the user interface made of the
/// event before the viewer.
pub open spec fn on_event(c: CameraInput, e: ViewerEvent, gui_consumed: bool, gui_repaint: bool) -> (
    EventResponse,
    CameraInput,
    ViewerAction,
) {
    let keep = EventResponse { repaint: false, exit: false };
    match e {
        ViewerEvent::CloseRequested => (EventResponse { repaint: false, exit: true }, c, ViewerAction::Nothing),
        ViewerEvent::Key { escape } => if gui_consumed {
            (EventResponse { repaint: gui_repaint, exit: false }, c, ViewerAction::Nothing)
        } else if escape {
            (EventResponse { repaint: false, exit: true }, c, ViewerAction::Nothing)
        } else {
            (keep, c, ViewerAction::Nothing)
        },
        ViewerEvent::Resized => (keep, c, ViewerAction::Resize),
        ViewerEvent::MouseInput { button, pressed } => (
            keep,
            after_button(c, button, pressed),
            ViewerAction::Nothing,
        ),
        ViewerEvent::ModifiersChanged { shift, alt } => (
            keep,
            CameraInput { shift_pressed: shift, alt_pressed: alt, ..c },
            ViewerAction::Nothing,
        ),
        ViewerEvent::CursorMoved => (keep, after_move(c).0, ViewerAction::MoveCursor(after_move(c).1)),
        ViewerEvent::MouseWheel => (keep, c, ViewerAction::Zoom),
        ViewerEvent::PinchGesture => (keep, c, ViewerAction::Zoom),
        ViewerEvent::RotationGesture => (keep, c, ViewerAction::TurnCamera),
        ViewerEvent::PanGesture { moved } => (keep, c, if moved {
            ViewerAction::TurnCamera
        } else {
            ViewerAction::Nothing
        }),
        ViewerEvent::Other => (keep, c, ViewerAction::Nothing),
    }
}

/// Decides on a window event (see [`on_event`]).
pub fn handle_event(camera: &mut CameraInput, event: ViewerEvent, gui_consumed: bool, gui_repaint: bool) -> (r: (
    EventResponse,
    ViewerAction,
))
    ensures
        on_event(*old(camera), event, gui_consumed, gui_repaint) == (r.0, *final(camera), r.1),
{
    let keep = EventResponse { repaint: false, exit: false };
    match event {
        ViewerEvent::CloseRequested => (EventResponse { repaint: false, exit: true }, ViewerAction::Nothing),
        ViewerEvent::Key { escape } => {
            if gui_consumed {
                (EventResponse { repaint: gui_repaint, exit: false }, ViewerAction::Nothing)
            } else if escape {
                (EventResponse { repaint: false, exit: true }, ViewerAction::Nothing)
            } else {
                (keep, ViewerAction::Nothing)
            }
        },
        ViewerEvent::Resized => (keep, ViewerAction::Resize),
        ViewerEvent::MouseInput { button, pressed } => {
            camera.on_mouse_button(button, pressed);
            (keep, ViewerAction::Nothing)
        },
        ViewerEvent::ModifiersChanged { shift, alt } => {
            camera.on_modifiers(shift, alt);
            (keep, ViewerAction::Nothing)
        },
        ViewerEvent::CursorMoved => {
            let act = camera.on_mouse_move();
            (keep, ViewerAction::MoveCursor(act))
        },
        ViewerEvent::MouseWheel => (keep, ViewerAction::Zoom),
        ViewerEvent::PinchGesture => (keep, ViewerAction::Zoom),
        ViewerEvent::RotationGesture => (keep, ViewerAction::TurnCamera),
        ViewerEvent::PanGesture { moved } => {
            if moved {
                (keep, ViewerAction::TurnCamera)
            } else {
                (keep, ViewerAction::Nothing)
            }
        },
        ViewerEvent::Other => (keep, ViewerAction::Nothing),
    }
}

/// The viewer exits exactly on a close request and on Escape that the user
/// interface did not take; it asks for a repaint only for a key the user
/// interface took and wants redrawn.
pub proof fn law_exit_only_on_close_or_escape(
    c: CameraInput,
    e: ViewerEvent,
    gui_consumed: bool,
    gui_repaint: bool,
)
    ensures
        on_event(c, e, gui_consumed, gui_repaint).0.exit <==> (e == ViewerEvent::CloseRequested || (e
            == ViewerEvent::Key { escape: true } && !gui_consumed)),
        on_event(c, e, gui_consumed, gui_repaint).0.repaint <==> (e is Key && gui_consumed
            && gui_repaint),
        on_event(c, e, gui_consumed, gui_repaint).0.exit ==> !on_event(
            c,
            e,
            gui_consumed,
            gui_repaint,
        ).0.repaint,
{
}

/// Only mouse and modifier events change the camera's controls.
pub proof fn law_controls_change_only_on_mouse_and_modifiers(
    c: CameraInput,
    e: ViewerEvent,
    gui_consumed: bool,
    gui_repaint: bool,
)
    requires
        !(e is MouseInput || e is ModifiersChanged || e is CursorMoved),
    ensures
        on_event(c, e, gui_consumed, gui_repaint).1 == c,
{
}

} // verus!
