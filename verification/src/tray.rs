//! System-tray events and what the application makes of them.

use vstd::prelude::*;

use crate::text::{chars_of, range_equals_str};

verus! {

/// What the system-tray icon asks of the application.
#[derive(Debug, Clone, Copy, PartialEq, Eq)]
pub enum TrayEvent {
    /// Left-click on the tray icon: bring the window forward.
    Activated,
    /// The user picked the "終了" (quit) menu item.
    QuitRequested,
}

/// An event on the tray icon itself.
#[derive(Debug, Clone, Copy, PartialEq, Eq)]
pub enum IconEvent {
    /// A click, with whether it was the left button and whether the button
    /// went up.
    Click { left_button: bool, button_up: bool },
    /// Anything else (moves, enters, leaves, double clicks).
    Other,
}

/// A menu event quits exactly when it comes from the quit item.
pub fn menu_event_action(event_id: &str, quit_id: &str) -> (r: Option<TrayEvent>)
    ensures
        r == (if event_id@ == quit_id@ {
            Some(TrayEvent::QuitRequested)
        } else {
            None
        }),
{
    let v = chars_of(event_id);
    assert(v@.subrange(0, v@.len() as int) =~= v@);
    if range_equals_str(&v, 0, v.len(), quit_id) {
        Some(TrayEvent::QuitRequested)
    } else {
        None
    }
}

/// A left-button-up click on the icon brings the window forward; other
/// icon events do nothing.
pub fn icon_event_action(ev: IconEvent) -> (r: Option<TrayEvent>)
    ensures
        r == (if ev == (IconEvent::Click { left_button: true, button_up: true }) {
            Some(TrayEvent::Activated)
        } else {
            None
        }),
{
    match ev {
        IconEvent::Click { left_button: true, button_up: true } => Some(TrayEvent::Activated),
        _ => None,
    }
}

} // verus!
