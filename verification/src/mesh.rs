//! Editing a mesh attachment as an undoable command: moving, adding and
//! removing vertices, with their texture coordinates and weights kept in
//! step. Computing a new vertex's texture coordinate and re-triangulating
//! are arithmetic on positions, done by the caller around these edits; the
//! triangles ride along in the geometry so that undo puts them back.

use crate::bbox::{copy_vec, keep_unlisted, move_vertices, moved, without_indices};
use crate::history::{EditCommand, IdRemap, WorkMode};
use crate::ids::{BoneId, SkinId, SlotId};
use vstd::prelude::*;

verus! {

/// A mesh's vertices, their texture coordinates, one weight entry per vertex
/// when the mesh is skinned (none otherwise), and its triangles.
#[derive(Debug)]
pub struct MeshGeometry<V, U, W, T> {
    pub vertices: Vec<V>,
    pub uvs: Vec<U>,
    pub weights: Vec<W>,
    pub triangles: Vec<T>,
}

impl<V, U, W, T> View for MeshGeometry<V, U, W, T> {
    type V = (Seq<V>, Seq<U>, Seq<W>, Seq<T>);

    open spec fn view(&self) -> (Seq<V>, Seq<U>, Seq<W>, Seq<T>) {
        (self.vertices@, self.uvs@, self.weights@, self.triangles@)
    }
}

/// What an edit does to a mesh.
#[derive(Debug)]
pub enum MeshEdit<V, U> {
    /// Move vertices to new positions, by index. Merges, so a drag is one
    /// step.
    MoveVertices(Vec<(usize, V)>),
    /// Add a vertex at the end, with its texture coordinate.
    AddVertex(V, U),
    /// Remove vertices by index.
    RemoveVertices(Vec<usize>),
    /// Re-run triangulation over the current vertices.
    Retriangulate,
}

/// The mesh after `edit`, or `None` when the edit is refused and changes
/// nothing: a removal that would leave fewer than three vertices, since a
/// mesh needs three points to be a surface. An added vertex gets `blank` as
/// its weight entry on a skinned mesh: it has no influences yet. The
/// triangles are left as they were.
pub open spec fn edited_mesh<V, U, W, T>(
    m: (Seq<V>, Seq<U>, Seq<W>, Seq<T>),
    edit: MeshEdit<V, U>,
    blank: W,
) -> Option<(Seq<V>, Seq<U>, Seq<W>, Seq<T>)> {
    match edit {
        MeshEdit::MoveVertices(moves) => Some((moved(m.0, moves@), m.1, m.2, m.3)),
        MeshEdit::AddVertex(p, uv) => Some((
            m.0.push(p),
            m.1.push(uv),
            if m.2.len() == 0 { m.2 } else { m.2.push(blank) },
            m.3,
        )),
        MeshEdit::RemoveVertices(ix) => if m.0.len() - ix@.len() < 3 {
            None
        } else {
            Some((without_indices(m.0, ix@), without_indices(m.1, ix@), without_indices(m.2, ix@), m.3))
        },
        MeshEdit::Retriangulate => Some(m),
    }
}

/// Apply the index part of `edit` to `m`: `false`, with `m` untouched, when
/// the edit is refused.
pub fn edit_mesh<V: Copy, U: Copy, W: Copy, T>(
    m: &mut MeshGeometry<V, U, W, T>,
    edit: &MeshEdit<V, U>,
    blank: W,
) -> (done: bool)
    ensures
        match edited_mesh(old(m)@, *edit, blank) {
            Some(after) => done && final(m)@ == after,
            None => !done && final(m)@ == old(m)@,
        },
{
    match edit {
        MeshEdit::MoveVertices(moves) => {
            move_vertices(&mut m.vertices, moves);
            true
        },
        MeshEdit::AddVertex(p, uv) => {
            m.vertices.push(*p);
            m.uvs.push(*uv);
            if m.weights.len() > 0 {
                m.weights.push(blank);
            }
            true
        },
        MeshEdit::RemoveVertices(ix) => {
            if m.vertices.len() < 3 || m.vertices.len() - 3 < ix.len() {
                return false;
            }
            m.vertices = keep_unlisted(&m.vertices, ix);
            m.uvs = keep_unlisted(&m.uvs, ix);
            m.weights = keep_unlisted(&m.weights, ix);
            true
        },
        MeshEdit::Retriangulate => true,
    }
}

/// One mesh edit as an undoable command on the mesh `name` that `slot`
/// shows in `skin`.
#[derive(Debug)]
pub struct EditMesh<V, U, W, T> {
    pub skin: SkinId,
    pub slot: SlotId,
    pub name: String,
    pub edit: MeshEdit<V, U>,
    pub blank: W,
    /// The mesh as it was before the first apply that changed it.
    pub before: Option<MeshGeometry<V, U, W, T>>,
}

impl<V, U, W, T> EditMesh<V, U, W, T> {
    pub fn new(skin: SkinId, slot: SlotId, name: String, edit: MeshEdit<V, U>, blank: W) -> (c: Self)
        ensures
            c.skin == skin,
            c.slot == slot,
            c.name == name,
            c.edit == edit,
            c.blank == blank,
            c.before is None,
    {
        EditMesh { skin, slot, name, edit, blank, before: None }
    }
}

/// The Edit-menu name of a mesh edit.
pub open spec fn mesh_label<V, U>(edit: MeshEdit<V, U>) -> Seq<char> {
    match edit {
        MeshEdit::MoveVertices(_) => "Move Vertices"@,
        MeshEdit::AddVertex(_, _) => "Add Vertex"@,
        MeshEdit::RemoveVertices(_) => "Delete Vertices"@,
        MeshEdit::Retriangulate => "Retriangulate"@,
    }
}

impl<V: Copy, U: Copy, W: Copy, T: Copy> EditCommand<MeshGeometry<V, U, W, T>> for EditMesh<V, U, W, T> {
    open spec fn spec_requires_mode(&self) -> Option<WorkMode> {
        Some(WorkMode::Setup)
    }

    open spec fn spec_applied(
        &self,
        before: MeshGeometry<V, U, W, T>,
        after: MeshGeometry<V, U, W, T>,
        then: Self,
    ) -> bool {
        &&& then.skin == self.skin
        &&& then.slot == self.slot
        &&& then.name == self.name
        &&& then.edit == self.edit
        &&& then.blank == self.blank
        &&& match edited_mesh(before@, self.edit, self.blank) {
            None => after@ == before@ && then.before is None,
            Some(g) => {
                &&& after@ == g
                &&& self.before is None ==> (then.before matches Some(b) && b@ == before@)
                &&& self.before is Some ==> then.before == self.before
            },
        }
    }

    open spec fn spec_reverted(
        &self,
        before: MeshGeometry<V, U, W, T>,
        after: MeshGeometry<V, U, W, T>,
        then: Self,
    ) -> bool {
        &&& then.skin == self.skin
        &&& then.slot == self.slot
        &&& then.name == self.name
        &&& then.edit == self.edit
        &&& then.blank == self.blank
        &&& then.before is None
        &&& match self.before {
            Some(b) => after@ == b@,
            None => after@ == before@,
        }
    }

    open spec fn spec_merges(&self, next: Self) -> bool {
        &&& self.skin == next.skin
        &&& self.slot == next.slot
        &&& self.name@ == next.name@
        &&& self.edit is MoveVertices
        &&& next.edit is MoveVertices
    }

    open spec fn spec_absorbs(&self, next: Self, then: Self) -> bool {
        &&& then.skin == self.skin
        &&& then.slot == self.slot
        &&& then.name == self.name
        &&& then.blank == self.blank
        &&& then.before == self.before
        &&& then.edit matches MeshEdit::MoveVertices(m) && next.edit matches MeshEdit::MoveVertices(n) && m@ == n@
    }

    open spec fn spec_label(&self) -> Seq<char> {
        mesh_label(self.edit)
    }

    open spec fn spec_pending_remap(&self) -> Seq<(BoneId, BoneId)> {
        Seq::empty()
    }

    open spec fn spec_remap_taken(&self, then: Self) -> bool {
        then == *self
    }

    open spec fn spec_remapped(&self, remap: Seq<(BoneId, BoneId)>, after: Self) -> bool {
        after == *self
    }

    open spec fn spec_fresh(&self) -> bool {
        self.before is None
    }

    proof fn lemma_revert_undoes_apply(
        &self,
        before: MeshGeometry<V, U, W, T>,
        after: MeshGeometry<V, U, W, T>,
        applied: Self,
        back: MeshGeometry<V, U, W, T>,
        reverted: Self,
    ) {
    }

    proof fn lemma_apply_redoes_revert(
        &self,
        d0: MeshGeometry<V, U, W, T>,
        d1: MeshGeometry<V, U, W, T>,
        applied: Self,
        d2: MeshGeometry<V, U, W, T>,
        reverted: Self,
        taken: Self,
        d3: MeshGeometry<V, U, W, T>,
        reapplied: Self,
    ) {
    }

    fn apply(&mut self, doc: &mut MeshGeometry<V, U, W, T>) {
        let capture = self.before.is_none();
        let snapshot = MeshGeometry {
            vertices: copy_vec(&doc.vertices),
            uvs: copy_vec(&doc.uvs),
            weights: copy_vec(&doc.weights),
            triangles: copy_vec(&doc.triangles),
        };
        if edit_mesh(doc, &self.edit, self.blank) {
            if capture {
                self.before = Some(snapshot);
            }
        } else {
            self.before = None;
        }
    }

    fn revert(&mut self, doc: &mut MeshGeometry<V, U, W, T>) {
        match self.before.take() {
            Some(b) => {
                *doc = b;
            },
            None => {},
        }
    }

    fn merge(&mut self, next: &Self) -> (b: bool) {
        if self.skin != next.skin || self.slot != next.slot || self.name != next.name {
            return false;
        }
        match (&self.edit, &next.edit) {
            (MeshEdit::MoveVertices(_), MeshEdit::MoveVertices(theirs)) => {
                let copied = copy_vec(theirs);
                self.edit = MeshEdit::MoveVertices(copied);
                true
            },
            _ => false,
        }
    }

    fn label(&self) -> (l: &str) {
        match self.edit {
            MeshEdit::MoveVertices(_) => "Move Vertices",
            MeshEdit::AddVertex(_, _) => "Add Vertex",
            MeshEdit::RemoveVertices(_) => "Delete Vertices",
            MeshEdit::Retriangulate => "Retriangulate",
        }
    }

    fn requires_mode(&self) -> (m: Option<WorkMode>) {
        Some(WorkMode::Setup)
    }

    fn take_remap(&mut self) -> (r: IdRemap) {
        IdRemap::new()
    }

    fn apply_remap(&mut self, remap: &IdRemap) {
    }
}

} // verus!
