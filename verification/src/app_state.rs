//! The mode rules the editor state applies around every dispatch.

use crate::history::WorkMode;
use vstd::prelude::*;

verus! {

impl WorkMode {
    /// The other mode: what Tab switches to.
    pub fn toggled(self) -> (m: WorkMode)
        ensures
            m != self,
    {
        match self {
            WorkMode::Setup => WorkMode::Animate,
            WorkMode::Animate => WorkMode::Setup,
        }
    }
}

/// The status line for a command refused by the current mode: Setup-only
/// edits say how to get to Setup.
pub fn refusal_hint(required: Option<WorkMode>) -> (hint: &'static str)
    ensures
        required == Some(WorkMode::Setup) ==> hint@ == "Switch to Setup mode to edit the rig (Tab)"@,
        required != Some(WorkMode::Setup) ==> hint@ == "Not available in this mode"@,
{
    match required {
        Some(WorkMode::Setup) => "Switch to Setup mode to edit the rig (Tab)",
        _ => "Not available in this mode",
    }
}

/// Which clip entering Animate mode works on.
#[derive(Debug, Clone, Copy, PartialEq, Eq)]
pub enum ClipChoice<T> {
    /// Keep the clip already selected.
    Keep,
    /// Select this existing clip.
    Select(T),
    /// There is none: create one.
    Create,
}

/// Entering Animate needs a clip: keep the selected one, else pick the first
/// existing one, else create one — never a mode where every edit goes nowhere.
pub fn clip_for_animate<T: Copy>(active: Option<T>, first_existing: Option<T>) -> (c: ClipChoice<T>)
    ensures
        active is Some ==> c == ClipChoice::<T>::Keep,
        active is None ==> c == match first_existing {
            Some(id) => ClipChoice::Select(id),
            None => ClipChoice::<T>::Create,
        },
{
    match active {
        Some(_) => ClipChoice::Keep,
        None => match first_existing {
            Some(id) => ClipChoice::Select(id),
            None => ClipChoice::Create,
        },
    }
}

/// The bones a pose tool acts on: the selection, or the whole rig (in update
/// order) when nothing is selected.
pub fn target_bones<T: Copy>(selected: &Vec<T>, update_order: &Vec<T>) -> (bones: Vec<T>)
    ensures
        selected@.len() > 0 ==> bones@ == selected@,
        selected@.len() == 0 ==> bones@ == update_order@,
{
    let source = if selected.len() == 0 { update_order } else { selected };
    let mut out: Vec<T> = Vec::new();
    let mut i: usize = 0;
    while i < source.len()
        invariant
            i <= source.len(),
            out@ == source@.take(i as int),
        decreases source.len() - i,
    {
        out.push(source[i]);
        proof {
            assert(out@ =~= source@.take(i + 1));
        }
        i += 1;
    }
    proof {
        assert(source@.take(source.len() as int) =~= source@);
    }
    out
}

} // verus!
