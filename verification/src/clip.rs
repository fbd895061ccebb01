//! Editing a clipping attachment — a mask polygon on a slot that clips the
//! slots drawn after it, up to an end slot — as an undoable command. The
//! gestures are those of a bounding box; a clip also has a range.

use crate::bbox::{copy_vec, keep_unlisted, min_of, move_vertices, moved, without_indices, ClipEdit};
use crate::history::{EditCommand, IdRemap, WorkMode};
use crate::ids::{BoneId, SkinId, SlotId};
use vstd::prelude::*;

verus! {

/// A clip's polygon in perimeter order, and the name of the slot it stops
/// after (`None`: it clips to the end of the draw order).
#[derive(Debug)]
pub struct ClipGeometry<V> {
    pub vertices: Vec<V>,
    pub end_slot: Option<String>,
}

/// An optional name as a value.
pub open spec fn opt_text(o: Option<String>) -> Option<Seq<char>> {
    match o {
        Some(s) => Some(s@),
        None => None,
    }
}

impl<V> View for ClipGeometry<V> {
    type V = (Seq<V>, Option<Seq<char>>);

    open spec fn view(&self) -> (Seq<V>, Option<Seq<char>>) {
        (self.vertices@, opt_text(self.end_slot))
    }
}

fn copy_text(o: &Option<String>) -> (r: Option<String>)
    ensures
        opt_text(r) == opt_text(*o),
{
    match o {
        Some(s) => Some(s.clone()),
        None => None,
    }
}

/// The clip after `edit`, or `None` when the edit is refused and changes
/// nothing: a removal that would leave fewer than three vertices, since a
/// clip with no interior masks everything. An inserted vertex lands at its
/// index, or at the end past it.
pub open spec fn edited_clip<V>(g: (Seq<V>, Option<Seq<char>>), edit: ClipEdit<V>) -> Option<(Seq<V>, Option<Seq<char>>)> {
    match edit {
        ClipEdit::MoveVertices(m) => Some((moved(g.0, m@), g.1)),
        ClipEdit::InsertVertex(index, p) => Some((g.0.insert(min_of(index as int, g.0.len() as int), p), g.1)),
        ClipEdit::RemoveVertices(ix) => if g.0.len() - ix@.len() < 3 {
            None
        } else {
            Some((without_indices(g.0, ix@), g.1))
        },
        ClipEdit::SetEndSlot(end) => Some((g.0, opt_text(end))),
    }
}

/// Apply `edit` to `g`: `false`, with `g` untouched, when the edit is
/// refused.
pub fn edit_clip<V: Copy>(g: &mut ClipGeometry<V>, edit: &ClipEdit<V>) -> (done: bool)
    ensures
        match edited_clip(old(g)@, *edit) {
            Some(after) => done && final(g)@ == after,
            None => !done && final(g)@ == old(g)@,
        },
{
    match edit {
        ClipEdit::MoveVertices(moves) => {
            move_vertices(&mut g.vertices, moves);
            true
        },
        ClipEdit::InsertVertex(index, p) => {
            let n = g.vertices.len();
            let at = if *index < n {
                *index
            } else {
                n
            };
            g.vertices.insert(at, *p);
            true
        },
        ClipEdit::RemoveVertices(ix) => {
            if g.vertices.len() < 3 || g.vertices.len() - 3 < ix.len() {
                return false;
            }
            g.vertices = keep_unlisted(&g.vertices, ix);
            true
        },
        ClipEdit::SetEndSlot(end) => {
            g.end_slot = copy_text(end);
            true
        },
    }
}

/// One clip edit as an undoable command on the clip `name` that `slot`
/// shows in `skin`.
#[derive(Debug)]
pub struct EditClip<V> {
    pub skin: SkinId,
    pub slot: SlotId,
    pub name: String,
    pub edit: ClipEdit<V>,
    /// The clip as it was before the first apply that changed it.
    pub before: Option<ClipGeometry<V>>,
}

impl<V> EditClip<V> {
    pub fn new(skin: SkinId, slot: SlotId, name: String, edit: ClipEdit<V>) -> (c: Self)
        ensures
            c.skin == skin,
            c.slot == slot,
            c.name == name,
            c.edit == edit,
            c.before is None,
    {
        EditClip { skin, slot, name, edit, before: None }
    }
}

/// The Edit-menu name of a clip edit.
pub open spec fn clip_label<V>(edit: ClipEdit<V>) -> Seq<char> {
    match edit {
        ClipEdit::MoveVertices(_) => "Move Clip Vertices"@,
        ClipEdit::InsertVertex(_, _) => "Add Clip Vertex"@,
        ClipEdit::RemoveVertices(_) => "Delete Clip Vertices"@,
        ClipEdit::SetEndSlot(_) => "Set Clip Range"@,
    }
}

impl<V: Copy> EditCommand<ClipGeometry<V>> for EditClip<V> {
    open spec fn spec_requires_mode(&self) -> Option<WorkMode> {
        Some(WorkMode::Setup)
    }

    open spec fn spec_applied(&self, before: ClipGeometry<V>, after: ClipGeometry<V>, then: Self) -> bool {
        &&& then.skin == self.skin
        &&& then.slot == self.slot
        &&& then.name == self.name
        &&& then.edit == self.edit
        &&& match edited_clip(before@, self.edit) {
            None => after@ == before@ && then.before is None,
            Some(g) => {
                &&& after@ == g
                &&& self.before is None ==> (then.before matches Some(b) && b@ == before@)
                &&& self.before is Some ==> then.before == self.before
            },
        }
    }

    open spec fn spec_reverted(&self, before: ClipGeometry<V>, after: ClipGeometry<V>, then: Self) -> bool {
        &&& then.skin == self.skin
        &&& then.slot == self.slot
        &&& then.name == self.name
        &&& then.edit == self.edit
        &&& then.before is None
        &&& match self.before {
            Some(b) => after@ == b@,
            None => after@ == before@,
        }
    }

    open spec fn spec_merges(&self, next: Self) -> bool {
        &&& self.skin == next.skin
        &&& self.slot == next.slot
        &&& self.name@ == next.name@
        &&& self.edit is MoveVertices
        &&& next.edit is MoveVertices
    }

    open spec fn spec_absorbs(&self, next: Self, then: Self) -> bool {
        &&& then.skin == self.skin
        &&& then.slot == self.slot
        &&& then.name == self.name
        &&& then.before == self.before
        &&& then.edit matches ClipEdit::MoveVertices(m) && next.edit matches ClipEdit::MoveVertices(n) && m@ == n@
    }

    open spec fn spec_label(&self) -> Seq<char> {
        clip_label(self.edit)
    }

    open spec fn spec_pending_remap(&self) -> Seq<(BoneId, BoneId)> {
        Seq::empty()
    }

    open spec fn spec_remap_taken(&self, then: Self) -> bool {
        then == *self
    }

    open spec fn spec_remapped(&self, remap: Seq<(BoneId, BoneId)>, after: Self) -> bool {
        after == *self
    }

    open spec fn spec_fresh(&self) -> bool {
        self.before is None
    }

    proof fn lemma_revert_undoes_apply(
        &self,
        before: ClipGeometry<V>,
        after: ClipGeometry<V>,
        applied: Self,
        back: ClipGeometry<V>,
        reverted: Self,
    ) {
    }

    proof fn lemma_apply_redoes_revert(
        &self,
        d0: ClipGeometry<V>,
        d1: ClipGeometry<V>,
        applied: Self,
        d2: ClipGeometry<V>,
        reverted: Self,
        taken: Self,
        d3: ClipGeometry<V>,
        reapplied: Self,
    ) {
    }

    fn apply(&mut self, doc: &mut ClipGeometry<V>) {
        let capture = self.before.is_none();
        let snapshot = ClipGeometry { vertices: copy_vec(&doc.vertices), end_slot: copy_text(&doc.end_slot) };
        if edit_clip(doc, &self.edit) {
            if capture {
                self.before = Some(snapshot);
            }
        } else {
            self.before = None;
        }
    }

    fn revert(&mut self, doc: &mut ClipGeometry<V>) {
        match self.before.take() {
            Some(b) => {
                *doc = b;
            },
            None => {},
        }
    }

    fn merge(&mut self, next: &Self) -> (b: bool) {
        if self.skin != next.skin || self.slot != next.slot || self.name != next.name {
            return false;
        }
        match (&self.edit, &next.edit) {
            (ClipEdit::MoveVertices(_), ClipEdit::MoveVertices(theirs)) => {
                let copied = copy_vec(theirs);
                self.edit = ClipEdit::MoveVertices(copied);
                true
            },
            _ => false,
        }
    }

    fn label(&self) -> (l: &str) {
        match self.edit {
            ClipEdit::MoveVertices(_) => "Move Clip Vertices",
            ClipEdit::InsertVertex(_, _) => "Add Clip Vertex",
            ClipEdit::RemoveVertices(_) => "Delete Clip Vertices",
            ClipEdit::SetEndSlot(_) => "Set Clip Range",
        }
    }

    fn requires_mode(&self) -> (m: Option<WorkMode>) {
        Some(WorkMode::Setup)
    }

    fn take_remap(&mut self) -> (r: IdRemap) {
        IdRemap::new()
    }

    fn apply_remap(&mut self, remap: &IdRemap) {
    }
}

} // verus!
