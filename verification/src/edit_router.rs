//! Where an edit goes.
//!
//! Panels state what the user did; this module decides what that means in the
//! current work mode. In Setup an edit changes the rig's setup data; in Animate
//! it writes keys on the active animation at the playhead — or, with auto-key
//! off, is held as a preview until the user keys it.

use vstd::prelude::*;

verus! {

/// What the router decided for one edit.
#[derive(Debug, Clone, Copy, PartialEq, Eq)]
pub enum Route {
    /// Setup mode: dispatch the setup command for the edit.
    Setup,
    /// Animate mode with keying on: dispatch key commands at the playhead.
    Key,
    /// Animate mode with auto-key off: hold the value as a viewport preview
    /// until the user presses `K`. Nothing is committed.
    Pending,
    /// Refused, with a reason for the status bar.
    Refused(&'static str),
}

/// The refusal for an Animate-mode edit with no animation to key.
pub open spec fn no_animation_message() -> Seq<char> {
    "No animation selected — pick or create one first"@
}

/// Route an edit through the current mode. `force` is the explicit "key this
/// now" path, which keys even with auto-key off.
pub fn route(animating: bool, has_active_animation: bool, auto_key: bool, force: bool) -> (r: Route)
    ensures
        !animating ==> r == Route::Setup,
        animating && !has_active_animation ==> (r matches Route::Refused(m) && m@ == no_animation_message()),
        animating && has_active_animation && !(auto_key || force) ==> r == Route::Pending,
        animating && has_active_animation && (auto_key || force) ==> r == Route::Key,
{
    if !animating {
        return Route::Setup;
    }
    if !has_active_animation {
        return Route::Refused("No animation selected — pick or create one first");
    }
    if !(auto_key || force) {
        return Route::Pending;
    }
    Route::Key
}

/// What the animation says about one property, at the playhead.
#[derive(Debug, Clone, Copy, PartialEq, Eq, Structural)]
pub enum KeyState {
    /// Nothing animates this property in this clip.
    NoTimeline,
    /// A timeline exists, but there is no key at this exact time.
    Unkeyed,
    /// Keyed here — the index is what a delete would remove.
    Keyed(usize),
    /// Posed but not committed: an unkeyed edit is pending.
    Modified,
}

/// The key state from what the inspector found: no timeline, a timeline
/// without a key at the playhead, or the index of the key there.
pub fn key_state(timeline_found: bool, key_at_playhead: Option<usize>) -> (s: KeyState)
    ensures
        !timeline_found ==> s == KeyState::NoTimeline,
        timeline_found ==> s == match key_at_playhead {
            Some(i) => KeyState::Keyed(i),
            None => KeyState::Unkeyed,
        },
{
    if !timeline_found {
        return KeyState::NoTimeline;
    }
    match key_at_playhead {
        Some(i) => KeyState::Keyed(i),
        None => KeyState::Unkeyed,
    }
}

} // verus!
