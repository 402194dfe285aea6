//! Global hotkey helpers.

use vstd::prelude::*;

verus! {

/// The hint shown in the input footer for the global hotkey:
/// `⌘⇧J` on macOS, `Ctrl+Shift+J` everywhere else.
pub fn hotkey_hint(macos: bool) -> (hint: &'static str)
    ensures
        hint@ == (if macos { "⌘⇧J"@ } else { "Ctrl+Shift+J"@ }),
{
    if macos {
        "⌘⇧J"
    } else {
        "Ctrl+Shift+J"
    }
}

} // verus!

verus! {

/// Was the hotkey with this id pressed, given the events drained from the
/// hotkey event queue since the previous poll (each an id and whether it
/// was a press)?
pub fn hotkey_fired(events: &Vec<(u32, bool)>, id: u32) -> (fired: bool)
    ensures
        fired == exists|i: int| 0 <= i < events@.len() && #[trigger] events@[i] == (id, true),
{
    let mut fired = false;
    let n = events.len();
    let mut i: usize = 0;
    while i < n
        invariant
            n == events@.len(),
            i <= n,
            fired == exists|j: int| 0 <= j < i && #[trigger] events@[j] == (id, true),
        decreases n - i,
    {
        let (ev_id, pressed) = events[i];
        if ev_id == id && pressed {
            fired = true;
        }
        i = i + 1;
    }
    fired
}

} // verus!
