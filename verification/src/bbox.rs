//! Editing a bounding box — a hitbox polygon on a slot — as an undoable
//! command. Vertex positions and per-vertex weights are carried as opaque
//! values: the edits only move them, insert and remove them.

use crate::history::{EditCommand, IdRemap, WorkMode};
use crate::ids::{BoneId, SkinId, SlotId};
use vstd::prelude::*;

verus! {

/// A box's polygon: its vertices in perimeter order, and one weight entry
/// per vertex when the box is skinned (none otherwise).
#[derive(Debug)]
pub struct BoxGeometry<V, W> {
    pub vertices: Vec<V>,
    pub weights: Vec<W>,
}

impl<V, W> View for BoxGeometry<V, W> {
    type V = (Seq<V>, Seq<W>);

    open spec fn view(&self) -> (Seq<V>, Seq<W>) {
        (self.vertices@, self.weights@)
    }
}

/// One gesture on a clip or box polygon.
#[derive(Debug)]
pub enum ClipEdit<V> {
    /// Move vertices to new positions, by index. Merges, so a drag is one
    /// step.
    MoveVertices(Vec<(usize, V)>),
    /// Insert a vertex at an index, keeping the perimeter order.
    InsertVertex(usize, V),
    /// Remove vertices by index.
    RemoveVertices(Vec<usize>),
    /// Point a clip at the slot it stops after; a box has no range.
    SetEndSlot(Option<String>),
}

/// `s` after each move in turn; a move past the end is skipped.
pub open spec fn moved<V>(s: Seq<V>, moves: Seq<(usize, V)>) -> Seq<V>
    decreases moves.len(),
{
    if moves.len() == 0 {
        s
    } else {
        let r = moved(s, moves.drop_last());
        let m = moves.last();
        if m.0 < r.len() {
            r.update(m.0 as int, m.1)
        } else {
            r
        }
    }
}

/// Moving vertices keeps their count; every listed index in range ends at
/// the position of the last move that names it, and every vertex no move
/// names stays where it was.
pub proof fn moves_land_where_they_say<V>(s: Seq<V>, moves: Seq<(usize, V)>)
    ensures
        moved(s, moves).len() == s.len(),
        forall|k: int|
            0 <= k < moves.len() && moves[k].0 < s.len()
                && (forall|l: int| k < l < moves.len() ==> #[trigger] moves[l].0 != moves[k].0)
                ==> moved(s, moves)[moves[k].0 as int] == #[trigger] moves[k].1,
        forall|i: int|
            0 <= i < s.len() && (forall|l: int| 0 <= l < moves.len() ==> #[trigger] moves[l].0 != i)
                ==> #[trigger] moved(s, moves)[i] == s[i],
    decreases moves.len(),
{
    if moves.len() > 0 {
        let d = moves.drop_last();
        moves_land_where_they_say(s, d);
        let r = moved(s, d);
        let m = moves.last();
        assert forall|k: int|
            0 <= k < moves.len() && moves[k].0 < s.len()
                && (forall|l: int| k < l < moves.len() ==> #[trigger] moves[l].0 != moves[k].0)
                implies moved(s, moves)[moves[k].0 as int] == #[trigger] moves[k].1 by {
            if k < moves.len() - 1 {
                assert(moves[moves.len() - 1].0 != moves[k].0);
                assert(d[k] == moves[k]);
                assert forall|l: int| k < l < d.len() implies #[trigger] d[l].0 != d[k].0 by {
                    assert(d[l] == moves[l]);
                    assert(moves[l].0 != moves[k].0);
                }
            }
        }
        assert forall|i: int|
            0 <= i < s.len() && (forall|l: int| 0 <= l < moves.len() ==> #[trigger] moves[l].0 != i)
                implies #[trigger] moved(s, moves)[i] == s[i] by {
            assert(moves[moves.len() - 1].0 != i);
            assert forall|l: int| 0 <= l < d.len() implies #[trigger] d[l].0 != i by {
                assert(d[l] == moves[l]);
                assert(moves[l].0 != i);
            }
        }
    }
}

/// `s` without the entries at the positions listed in `idx`.
pub open spec fn without_indices<T>(s: Seq<T>, idx: Seq<usize>) -> Seq<T>
    decreases s.len(),
{
    if s.len() == 0 {
        s
    } else {
        let r = without_indices(s.drop_last(), idx);
        if idx.contains((s.len() - 1) as usize) {
            r
        } else {
            r.push(s.last())
        }
    }
}

/// Removing no position in range keeps every entry.
pub proof fn removing_nothing_in_range_keeps_all<T>(s: Seq<T>, idx: Seq<usize>)
    requires
        s.len() <= usize::MAX,
        forall|k: int| 0 <= k < idx.len() ==> #[trigger] idx[k] >= s.len(),
    ensures
        without_indices(s, idx) == s,
    decreases s.len(),
{
    if s.len() > 0 {
        let d = s.drop_last();
        assert(!idx.contains((s.len() - 1) as usize)) by {
            if idx.contains((s.len() - 1) as usize) {
                let k = choose|k: int| 0 <= k < idx.len() && idx[k] == (s.len() - 1) as usize;
                assert(idx[k] >= s.len());
            }
        }
        removing_nothing_in_range_keeps_all(d, idx);
        assert(d.push(s.last()) =~= s);
    }
}

/// Removing one position in range deletes exactly that entry: the entries
/// before it stay, the entries after it move up one place.
pub proof fn removing_one_position_deletes_that_entry<T>(s: Seq<T>, i: usize)
    requires
        i < s.len() <= usize::MAX,
    ensures
        without_indices(s, seq![i]) == s.remove(i as int),
    decreases s.len(),
{
    let d = s.drop_last();
    let idx = seq![i];
    if i == s.len() - 1 {
        assert(idx.contains((s.len() - 1) as usize)) by {
            assert(idx[0] == i);
        }
        removing_nothing_in_range_keeps_all(d, idx);
        assert(s.remove(i as int) =~= d);
    } else {
        assert(!idx.contains((s.len() - 1) as usize)) by {
            if idx.contains((s.len() - 1) as usize) {
                let k = choose|k: int| 0 <= k < idx.len() && idx[k] == (s.len() - 1) as usize;
                assert(idx[k] == i);
            }
        }
        removing_one_position_deletes_that_entry(d, i);
        assert(d.remove(i as int).push(s.last()) =~= s.remove(i as int));
    }
}

/// The smaller of two integers.
pub open spec fn min_of(a: int, b: int) -> int {
    if a < b {
        a
    } else {
        b
    }
}

/// The polygon after `edit`, or `None` when the edit is refused and changes
/// nothing: a removal that would leave fewer than three vertices (a box with
/// no interior can never be hit), or a range, which a box does not have.
///
/// An inserted vertex lands at its index, or at the end past it. A skinned
/// box gets a weight entry beside it, copied from the vertex it was split
/// from (the one before it, or the first), or `blank` when that vertex has
/// none.
pub open spec fn edited_box<V, W>(g: (Seq<V>, Seq<W>), edit: ClipEdit<V>, blank: W) -> Option<(Seq<V>, Seq<W>)> {
    match edit {
        ClipEdit::MoveVertices(m) => Some((moved(g.0, m@), g.1)),
        ClipEdit::InsertVertex(index, p) => {
            let at = min_of(index as int, g.0.len() as int);
            let vs = g.0.insert(at, p);
            if g.1.len() == 0 {
                Some((vs, g.1))
            } else {
                let src = if at > 0 { at - 1 } else { 0 };
                let w = if src < g.1.len() { g.1[src] } else { blank };
                Some((vs, g.1.insert(min_of(at, g.1.len() as int), w)))
            }
        },
        ClipEdit::RemoveVertices(ix) => if g.0.len() - ix@.len() < 3 {
            None
        } else {
            Some((without_indices(g.0, ix@), without_indices(g.1, ix@)))
        },
        ClipEdit::SetEndSlot(_) => None,
    }
}

pub(crate) fn copy_vec<T: Copy>(v: &Vec<T>) -> (out: Vec<T>)
    ensures
        out@ == v@,
{
    let mut out: Vec<T> = Vec::new();
    let mut i: usize = 0;
    while i < v.len()
        invariant
            i <= v.len(),
            out@ == v@.take(i as int),
        decreases v.len() - i,
    {
        out.push(v[i]);
        proof {
            assert(out@ =~= v@.take(i + 1));
        }
        i += 1;
    }
    proof {
        assert(v@.take(v.len() as int) =~= v@);
    }
    out
}

fn lists_index(ix: &Vec<usize>, i: usize) -> (r: bool)
    ensures
        r == ix@.contains(i),
{
    let mut k: usize = 0;
    while k < ix.len()
        invariant
            k <= ix.len(),
            forall|j: int| 0 <= j < k ==> ix@[j] != i,
        decreases ix.len() - k,
    {
        if ix[k] == i {
            proof {
                assert(ix@[k as int] == i);
            }
            return true;
        }
        k += 1;
    }
    false
}

pub(crate) fn keep_unlisted<T: Copy>(s: &Vec<T>, ix: &Vec<usize>) -> (out: Vec<T>)
    ensures
        out@ == without_indices(s@, ix@),
{
    let mut out: Vec<T> = Vec::new();
    let mut i: usize = 0;
    while i < s.len()
        invariant
            i <= s.len(),
            out@ == without_indices(s@.take(i as int), ix@),
        decreases s.len() - i,
    {
        proof {
            assert(s@.take(i + 1).drop_last() =~= s@.take(i as int));
            assert(s@.take(i + 1).last() == s@[i as int]);
        }
        if !lists_index(ix, i) {
            out.push(s[i]);
        }
        i += 1;
    }
    proof {
        assert(s@.take(s.len() as int) =~= s@);
    }
    out
}

pub(crate) fn move_vertices<V: Copy>(vs: &mut Vec<V>, moves: &Vec<(usize, V)>)
    ensures
        final(vs)@ == moved(old(vs)@, moves@),
{
    let mut k: usize = 0;
    while k < moves.len()
        invariant
            k <= moves.len(),
            vs@ == moved(old(vs)@, moves@.take(k as int)),
        decreases moves.len() - k,
    {
        proof {
            assert(moves@.take(k + 1).drop_last() =~= moves@.take(k as int));
            assert(moves@.take(k + 1).last() == moves@[k as int]);
        }
        let (i, p) = moves[k];
        if i < vs.len() {
            vs.set(i, p);
        }
        k += 1;
    }
    proof {
        assert(moves@.take(moves.len() as int) =~= moves@);
    }
}

/// Apply `edit` to `g`: `false`, with `g` untouched, when the edit is
/// refused.
pub fn edit_box<V: Copy, W: Copy>(g: &mut BoxGeometry<V, W>, edit: &ClipEdit<V>, blank: W) -> (done: bool)
    ensures
        match edited_box(old(g)@, *edit, blank) {
            Some(after) => done && final(g)@ == after,
            None => !done && final(g)@ == old(g)@,
        },
{
    match edit {
        ClipEdit::MoveVertices(moves) => {
            move_vertices(&mut g.vertices, moves);
            true
        },
        ClipEdit::InsertVertex(index, p) => {
            let n = g.vertices.len();
            let at = if *index < n {
                *index
            } else {
                n
            };
            g.vertices.insert(at, *p);
            let wn = g.weights.len();
            if wn > 0 {
                let src = if at > 0 {
                    at - 1
                } else {
                    0
                };
                let w = if src < wn {
                    g.weights[src]
                } else {
                    blank
                };
                let wat = if at < wn {
                    at
                } else {
                    wn
                };
                g.weights.insert(wat, w);
            }
            true
        },
        ClipEdit::RemoveVertices(ix) => {
            if g.vertices.len() < 3 || g.vertices.len() - 3 < ix.len() {
                return false;
            }
            g.vertices = keep_unlisted(&g.vertices, ix);
            g.weights = keep_unlisted(&g.weights, ix);
            true
        },
        ClipEdit::SetEndSlot(_) => false,
    }
}

/// Apply a [`ClipEdit`] to one bounding box, named by its skin, slot and
/// attachment name. `blank` is the weight entry of a vertex bound to no bone.
#[derive(Debug)]
pub struct EditBoundingBox<V, W> {
    pub skin: SkinId,
    pub slot: SlotId,
    pub name: String,
    pub edit: ClipEdit<V>,
    pub blank: W,
    /// The box as it was before the first apply that changed it.
    pub before: Option<BoxGeometry<V, W>>,
}

impl<V, W> EditBoundingBox<V, W> {
    pub fn new(skin: SkinId, slot: SlotId, name: String, edit: ClipEdit<V>, blank: W) -> (c: Self)
        ensures
            c.skin == skin,
            c.slot == slot,
            c.name == name,
            c.edit == edit,
            c.blank == blank,
            c.before is None,
    {
        EditBoundingBox { skin, slot, name, edit, blank, before: None }
    }
}

/// The Edit-menu name of a box edit.
pub open spec fn box_label<V>(edit: ClipEdit<V>) -> Seq<char> {
    match edit {
        ClipEdit::MoveVertices(_) => "Move Box Vertices"@,
        ClipEdit::InsertVertex(_, _) => "Add Box Vertex"@,
        ClipEdit::RemoveVertices(_) => "Delete Box Vertices"@,
        ClipEdit::SetEndSlot(_) => "Set Box Range"@,
    }
}

impl<V: Copy, W: Copy> EditCommand<BoxGeometry<V, W>> for EditBoundingBox<V, W> {
    open spec fn spec_requires_mode(&self) -> Option<WorkMode> {
        Some(WorkMode::Setup)
    }

    open spec fn spec_applied(&self, before: BoxGeometry<V, W>, after: BoxGeometry<V, W>, then: Self) -> bool {
        &&& then.skin == self.skin
        &&& then.slot == self.slot
        &&& then.name == self.name
        &&& then.edit == self.edit
        &&& then.blank == self.blank
        &&& match edited_box(before@, self.edit, self.blank) {
            None => after@ == before@ && then.before is None,
            Some(g) => {
                &&& after@ == g
                &&& self.before is None ==> (then.before matches Some(b) && b@ == before@)
                &&& self.before is Some ==> then.before == self.before
            },
        }
    }

    open spec fn spec_reverted(&self, before: BoxGeometry<V, W>, after: BoxGeometry<V, W>, then: Self) -> bool {
        &&& then.skin == self.skin
        &&& then.slot == self.slot
        &&& then.name == self.name
        &&& then.edit == self.edit
        &&& then.blank == self.blank
        &&& then.before is None
        &&& match self.before {
            Some(b) => after@ == b@,
            None => after@ == before@,
        }
    }

    open spec fn spec_merges(&self, next: Self) -> bool {
        &&& self.skin == next.skin
        &&& self.slot == next.slot
        &&& self.name@ == next.name@
        &&& self.edit is MoveVertices
        &&& next.edit is MoveVertices
    }

    open spec fn spec_absorbs(&self, next: Self, then: Self) -> bool {
        &&& then.skin == self.skin
        &&& then.slot == self.slot
        &&& then.name == self.name
        &&& then.blank == self.blank
        &&& then.before == self.before
        &&& then.edit matches ClipEdit::MoveVertices(m) && next.edit matches ClipEdit::MoveVertices(n) && m@ == n@
    }

    open spec fn spec_label(&self) -> Seq<char> {
        box_label(self.edit)
    }

    open spec fn spec_pending_remap(&self) -> Seq<(BoneId, BoneId)> {
        Seq::empty()
    }

    open spec fn spec_remap_taken(&self, then: Self) -> bool {
        then == *self
    }

    open spec fn spec_remapped(&self, remap: Seq<(BoneId, BoneId)>, after: Self) -> bool {
        after == *self
    }

    open spec fn spec_fresh(&self) -> bool {
        self.before is None
    }

    proof fn lemma_revert_undoes_apply(
        &self,
        before: BoxGeometry<V, W>,
        after: BoxGeometry<V, W>,
        applied: Self,
        back: BoxGeometry<V, W>,
        reverted: Self,
    ) {
    }

    proof fn lemma_apply_redoes_revert(
        &self,
        d0: BoxGeometry<V, W>,
        d1: BoxGeometry<V, W>,
        applied: Self,
        d2: BoxGeometry<V, W>,
        reverted: Self,
        taken: Self,
        d3: BoxGeometry<V, W>,
        reapplied: Self,
    ) {
    }

    fn apply(&mut self, doc: &mut BoxGeometry<V, W>) {
        let capture = self.before.is_none();
        let snapshot = BoxGeometry { vertices: copy_vec(&doc.vertices), weights: copy_vec(&doc.weights) };
        if edit_box(doc, &self.edit, self.blank) {
            if capture {
                self.before = Some(snapshot);
            }
        } else {
            self.before = None;
        }
    }

    fn revert(&mut self, doc: &mut BoxGeometry<V, W>) {
        match self.before.take() {
            Some(b) => {
                *doc = b;
            },
            None => {},
        }
    }

    fn merge(&mut self, next: &Self) -> (b: bool) {
        if self.skin != next.skin || self.slot != next.slot || self.name != next.name {
            return false;
        }
        match (&self.edit, &next.edit) {
            (ClipEdit::MoveVertices(_), ClipEdit::MoveVertices(theirs)) => {
                let copied = copy_vec(theirs);
                self.edit = ClipEdit::MoveVertices(copied);
                true
            },
            _ => false,
        }
    }

    fn label(&self) -> (l: &str) {
        match self.edit {
            ClipEdit::MoveVertices(_) => "Move Box Vertices",
            ClipEdit::InsertVertex(_, _) => "Add Box Vertex",
            ClipEdit::RemoveVertices(_) => "Delete Box Vertices",
            ClipEdit::SetEndSlot(_) => "Set Box Range",
        }
    }

    fn requires_mode(&self) -> (m: Option<WorkMode>) {
        Some(WorkMode::Setup)
    }

    fn take_remap(&mut self) -> (r: IdRemap) {
        IdRemap::new()
    }

    fn apply_remap(&mut self, remap: &IdRemap) {
    }
}

} // verus!
