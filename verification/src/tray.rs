//! The tray icon: which of its events count as a click for the window.

use vstd::prelude::*;

verus! {

/// A mouse button.
#[derive(Clone, Copy, Debug, PartialEq, Eq, Structural)]
pub enum MouseButton {
    Left,
    Right,
    Middle,
}

/// Whether a mouse button went down or came up.
#[derive(Clone, Copy, Debug, PartialEq, Eq, Structural)]
pub enum MouseButtonState {
    Up,
    Down,
}

/// An event of the tray icon, as far as the application tells them apart.
#[derive(Clone, Copy, Debug, PartialEq, Eq, Structural)]
pub enum TrayEvent {
    /// A button was pressed or released over the icon.
    Click { button: MouseButton, state: MouseButtonState },
    /// Anything else.
    Other,
}

/// The name under which every tray event is passed to the window.
pub const TRAY_EVENT: &'static str = "tray_event";

/// The name under which a left click is passed to the window.
pub const TRAY_LEFT_CLICK: &'static str = "tray_left_click";

/// Whether `event` is the release of the left button.
pub open spec fn is_left_click(event: TrayEvent) -> bool {
    event == (TrayEvent::Click { button: MouseButton::Left, state: MouseButtonState::Up })
}

/// Whether `event` is passed on as a left click: it is when the left button
/// is released over the icon.
pub fn emits_left_click(event: TrayEvent) -> (emits: bool)
    ensures
        emits == is_left_click(event),
{
    match event {
        TrayEvent::Click { button: MouseButton::Left, state: MouseButtonState::Up } => true,
        _ => false,
    }
}

} // verus!
