//! The app's own windows, as far as operators and menus reach them.
//!
//! Operators cannot open windows themselves; they return a [`UiRequest`] and
//! this is the single place a request becomes an open window, so a plugin
//! never reaches the frame loop.

use crate::args::{ArgError, Args, JsonValue};
use crate::registry::{OpResult, Operator, Registry, UiRequest};
use vstd::prelude::*;

verus! {

/// Which of the operator-reachable windows are showing.
#[derive(Debug, Clone, Copy, Default, PartialEq, Eq, Structural)]
pub struct Chrome {
    pub show_settings: bool,
    pub show_rename: bool,
    pub show_startup: bool,
}

/// The windows after honouring `request`: settings toggles, rename and the
/// startup page open, and no request changes nothing.
pub open spec fn honoured(c: Chrome, request: Option<UiRequest>) -> Chrome {
    match request {
        Some(UiRequest::Settings) => Chrome { show_settings: !c.show_settings, ..c },
        Some(UiRequest::Rename) => Chrome { show_rename: true, ..c },
        Some(UiRequest::Startup) => Chrome { show_startup: true, ..c },
        None => c,
    }
}

impl Chrome {
    /// Open (or, for settings, toggle) the window an operator asked for.
    pub fn honour(&mut self, request: Option<UiRequest>)
        ensures
            *final(self) == honoured(*old(self), request),
    {
        match request {
            Some(UiRequest::Settings) => self.show_settings = !self.show_settings,
            Some(UiRequest::Rename) => self.show_rename = true,
            Some(UiRequest::Startup) => self.show_startup = true,
            None => {}
        }
    }
}

/// Run the operator `id` names with no arguments and honour whatever window
/// it asked for. `false`, with the windows and the state untouched, when no
/// operator answers to `id` or the one that does is disabled; `false` too,
/// with the windows untouched, when it could not run without arguments.
/// Otherwise `true`, with the state as the operator left it and the window
/// it asked for honoured.
pub fn run_operator<S, O: Operator<S>>(registry: &Registry<O>, chrome: &mut Chrome, state: &mut S, id: &str) -> (ran: bool)
    ensures
        registry.stack(id@).len() == 0 ==> !ran && *final(chrome) == *old(chrome) && *final(state) == *old(state),
        registry.stack(id@).len() > 0 && !registry.stack(id@).last().spec_enabled(*old(state)) ==> !ran
            && *final(chrome) == *old(chrome) && *final(state) == *old(state),
        !ran ==> *final(chrome) == *old(chrome),
        registry.stack(id@).len() > 0 && registry.stack(id@).last().spec_enabled(*old(state)) ==> {
            &&& ran ==> exists|o: OpResult|
                #[trigger] registry.stack(id@).last().spec_invoke(*old(state), Args(JsonValue::Null), *final(state), Ok(o))
                    && *final(chrome) == honoured(*old(chrome), o.ui)
            &&& !ran ==> exists|e: ArgError|
                #[trigger] registry.stack(id@).last().spec_invoke(*old(state), Args(JsonValue::Null), *final(state), Err(e))
        },
{
    match registry.invoke(id, state) {
        Some(result) => {
            chrome.honour(result.ui);
            true
        }
        None => false,
    }
}

/// A menu entry's text: the operator's own label, followed by `suffix` when
/// there is one ("Undo" and "Move Bone" make "Undo Move Bone").
pub fn menu_label(label: &str, suffix: Option<&str>) -> (text: String)
    ensures
        text@ == match suffix {
            Some(extra) => label@ + " "@ + extra@,
            None => label@,
        },
{
    let mut out = label.to_owned();
    match suffix {
        Some(extra) => {
            out.append(" ");
            out.append(extra);
        }
        None => {}
    }
    out
}

} // verus!
