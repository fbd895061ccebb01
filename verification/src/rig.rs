//! The rig's structure as plain values — bones by key, with names and
//! parents, and the named selection sets — and the structural edits on it
//! as undoable commands.

use crate::history::{remapped_id, EditCommand, IdRemap, WorkMode};
use crate::ids::{BoneId, SlotId};
use crate::text::{decimal, push_decimal};
use crate::selection_sets::{
    edited, saved, set_views, EditSelectionSet, SaveSelectionSet, SelectionSet, SetView,
};
use vstd::prelude::*;

verus! {

/// One bone: its key, its name and its parent's key.
#[derive(Debug)]
pub struct Bone {
    pub id: BoneId,
    pub name: String,
    pub parent: Option<BoneId>,
}

/// A bone as a value: key, name, parent.
pub type BoneView = (BoneId, Seq<char>, Option<BoneId>);

impl View for Bone {
    type V = BoneView;

    open spec fn view(&self) -> BoneView {
        (self.id, self.name@, self.parent)
    }
}

/// The views of a list of bones.
pub open spec fn bone_views(v: Seq<Bone>) -> Seq<BoneView> {
    v.map_values(|b: Bone| b@)
}

/// The rig: its bones in order, its selection sets, the key the next
/// re-created bone receives, and its slots, each with the bone it hangs
/// from.
#[derive(Debug)]
pub struct Rig {
    pub bones: Vec<Bone>,
    pub sets: Vec<SelectionSet>,
    pub next_key: u64,
    pub slots: Vec<(SlotId, BoneId)>,
}

/// The rig as a value: bones, selection sets, next key, slots.
pub type RigView = (Seq<BoneView>, Seq<SetView>, u64, Seq<(SlotId, BoneId)>);

impl View for Rig {
    type V = RigView;

    open spec fn view(&self) -> RigView {
        (bone_views(self.bones@), set_views(self.sets@), self.next_key, self.slots@)
    }
}

/// The slots that do not hang from bone `id`, in order.
pub open spec fn slots_off(s: Seq<(SlotId, BoneId)>, id: BoneId) -> Seq<(SlotId, BoneId)>
    decreases s.len(),
{
    if s.len() == 0 {
        s
    } else {
        let r = slots_off(s.drop_last(), id);
        if s.last().1 == id {
            r
        } else {
            r.push(s.last())
        }
    }
}

/// Drop the slots that hang from bone `id`.
fn drop_slots_of(slots: &Vec<(SlotId, BoneId)>, id: BoneId) -> (out: Vec<(SlotId, BoneId)>)
    ensures
        out@ == slots_off(slots@, id),
{
    let mut out: Vec<(SlotId, BoneId)> = Vec::new();
    let mut i: usize = 0;
    while i < slots.len()
        invariant
            i <= slots.len(),
            out@ == slots_off(slots@.take(i as int), id),
        decreases slots.len() - i,
    {
        proof {
            assert(slots@.take(i + 1).drop_last() =~= slots@.take(i as int));
        }
        if slots[i].1 != id {
            out.push(slots[i]);
        }
        i += 1;
    }
    proof {
        assert(slots@.take(slots.len() as int) =~= slots@);
    }
    out
}

// ── Reading the bones ────────────────────────────────────────────────────────

/// Some bone has key `id`.
pub open spec fn has_bone(bs: Seq<BoneView>, id: BoneId) -> bool {
    exists|i: int| 0 <= i < bs.len() && #[trigger] bs[i].0 == id
}

/// `i` is the first bone with key `id`.
pub open spec fn is_first_bone(bs: Seq<BoneView>, id: BoneId, i: int) -> bool {
    &&& 0 <= i < bs.len()
    &&& bs[i].0 == id
    &&& forall|j: int| 0 <= j < i ==> #[trigger] bs[j].0 != id
}

/// The index of the first bone with key `id` (meaningful when present).
pub open spec fn first_bone(bs: Seq<BoneView>, id: BoneId) -> int {
    choose|i: int| is_first_bone(bs, id, i)
}

/// The parent of the bone with key `id`; `None` for a root or a missing bone.
pub open spec fn parent_of(bs: Seq<BoneView>, id: BoneId) -> Option<BoneId> {
    if has_bone(bs, id) {
        bs[first_bone(bs, id)].2
    } else {
        None
    }
}

/// `b` is reached from `a` within `n` steps up the parent chain.
pub open spec fn ancestor_within(bs: Seq<BoneView>, a: BoneId, b: BoneId, n: nat) -> bool
    decreases n,
{
    n > 0 && match parent_of(bs, a) {
        Some(p) => p == b || ancestor_within(bs, p, b, (n - 1) as nat),
        None => false,
    }
}

/// `a` lies below `b`: `b` is reached walking up from `a`, within as many
/// steps as there are bones.
pub open spec fn is_descendant(bs: Seq<BoneView>, a: BoneId, b: BoneId) -> bool {
    ancestor_within(bs, a, b, bs.len())
}

/// The keys of the bones, in order.
pub open spec fn bone_keys(bs: Seq<BoneView>) -> Seq<BoneId> {
    bs.map_values(|b: BoneView| b.0)
}

/// The first bone with a key is unique.
proof fn lemma_first_bone(bs: Seq<BoneView>, id: BoneId)
    requires
        has_bone(bs, id),
    ensures
        is_first_bone(bs, id, first_bone(bs, id)),
        forall|i: int| #[trigger] is_first_bone(bs, id, i) ==> i == first_bone(bs, id),
{
    let k = choose|k: int| 0 <= k < bs.len() && #[trigger] bs[k].0 == id;
    assert(exists|i: int| is_first_bone(bs, id, i)) by {
        lemma_least_bone(bs, id, k);
    }
    let f = first_bone(bs, id);
    assert forall|i: int| #[trigger] is_first_bone(bs, id, i) implies i == f by {
        if i < f {
            assert(bs[i].0 != id);
        }
        if f < i {
            assert(bs[f].0 != id);
        }
    }
}

proof fn lemma_least_bone(bs: Seq<BoneView>, id: BoneId, k: int)
    requires
        0 <= k < bs.len(),
        bs[k].0 == id,
    ensures
        exists|i: int| is_first_bone(bs, id, i),
    decreases k,
{
    if exists|j: int| 0 <= j < k && #[trigger] bs[j].0 == id {
        let j = choose|j: int| 0 <= j < k && #[trigger] bs[j].0 == id;
        lemma_least_bone(bs, id, j);
    } else {
        assert(is_first_bone(bs, id, k));
    }
}

/// Changing anything but the key of bone `i` keeps every key's first bone.
proof fn lemma_first_bone_update(bs: Seq<BoneView>, i: int, v: BoneView, id: BoneId)
    requires
        0 <= i < bs.len(),
        v.0 == bs[i].0,
        has_bone(bs, id),
    ensures
        has_bone(bs.update(i, v), id),
        first_bone(bs.update(i, v), id) == first_bone(bs, id),
{
    let u = bs.update(i, v);
    lemma_first_bone(bs, id);
    let f = first_bone(bs, id);
    assert(u[f].0 == id);
    assert(has_bone(u, id));
    assert(is_first_bone(u, id, f)) by {
        assert forall|j: int| 0 <= j < f implies #[trigger] u[j].0 != id by {
            assert(u[j].0 == bs[j].0);
        }
    }
    lemma_first_bone(u, id);
}

/// The index of the first bone with key `id`.
fn find_bone(bones: &Vec<Bone>, id: BoneId) -> (r: Option<usize>)
    ensures
        r is None <==> !has_bone(bone_views(bones@), id),
        r matches Some(i) ==> is_first_bone(bone_views(bones@), id, i as int) && i as int == first_bone(
            bone_views(bones@),
            id,
        ),
{
    let ghost bs = bone_views(bones@);
    let mut i: usize = 0;
    while i < bones.len()
        invariant
            i <= bones.len(),
            bs == bone_views(bones@),
            forall|j: int| 0 <= j < i ==> #[trigger] bs[j].0 != id,
        decreases bones.len() - i,
    {
        if bones[i].id == id {
            proof {
                assert(bs[i as int].0 == id);
                assert(is_first_bone(bs, id, i as int));
                lemma_first_bone(bs, id);
            }
            return Some(i);
        }
        i += 1;
    }
    proof {
        assert forall|j: int| 0 <= j < bs.len() implies #[trigger] bs[j].0 != id by {}
    }
    None
}

/// The keys of `bones`, in order.
fn keys_of(bones: &Vec<Bone>) -> (r: Vec<BoneId>)
    ensures
        r@ == bone_keys(bone_views(bones@)),
{
    let mut out: Vec<BoneId> = Vec::new();
    let mut i: usize = 0;
    while i < bones.len()
        invariant
            i <= bones.len(),
            out@ == bone_keys(bone_views(bones@)).take(i as int),
        decreases bones.len() - i,
    {
        out.push(bones[i].id);
        proof {
            assert(out@ =~= bone_keys(bone_views(bones@)).take(i + 1));
        }
        i += 1;
    }
    proof {
        assert(bone_keys(bone_views(bones@)).take(bones.len() as int) =~= bone_keys(bone_views(bones@)));
    }
    out
}

impl Rig {
    /// Whether `a` lies below `b` in the hierarchy.
    pub fn is_descendant(&self, a: BoneId, b: BoneId) -> (r: bool)
        ensures
            r == is_descendant(self@.0, a, b),
    {
        let ghost bs = self@.0;
        let n = self.bones.len();
        let mut cur = a;
        let mut left: usize = n;
        while left > 0
            invariant
                bs == bone_views(self.bones@),
                bs.len() == n,
                left <= n,
                is_descendant(bs, a, b) == ancestor_within(bs, cur, b, left as nat),
            decreases left,
        {
            match find_bone(&self.bones, cur) {
                None => {
                    return false;
                }
                Some(i) => {
                    match self.bones[i].parent {
                        None => {
                            return false;
                        }
                        Some(p) => {
                            if p == b {
                                return true;
                            }
                            cur = p;
                        }
                    }
                }
            }
            left -= 1;
        }
        false
    }
}

// ── Reparenting ──────────────────────────────────────────────────────────────

/// `bs` with the first bone keyed `id` given the parent `parent`.
pub open spec fn with_parent(bs: Seq<BoneView>, id: BoneId, parent: Option<BoneId>) -> Seq<BoneView> {
    let i = first_bone(bs, id);
    bs.update(i, (bs[i].0, bs[i].1, parent))
}

/// A reparent of `bone` under `parent` is refused: the bone is missing, or
/// the new parent is the bone itself or lies below it — which would cut
/// that subtree off from every root.
pub open spec fn refuses_parent(bs: Seq<BoneView>, bone: BoneId, parent: Option<BoneId>) -> bool {
    ||| !has_bone(bs, bone)
    ||| (parent matches Some(p) && (p == bone || is_descendant(bs, p, bone)))
}

/// Move a bone under another parent (or to the roots).
#[derive(Debug, Clone, Copy, PartialEq, Eq, Structural)]
pub struct SetBoneParent {
    pub bone: BoneId,
    pub new_parent: Option<BoneId>,
    /// The parent before the first apply that changed anything.
    pub before: Option<Option<BoneId>>,
}

impl SetBoneParent {
    pub fn new(bone: BoneId, new_parent: Option<BoneId>) -> (c: SetBoneParent)
        ensures
            c.bone == bone,
            c.new_parent == new_parent,
            c.before is None,
    {
        SetBoneParent { bone, new_parent, before: None }
    }
}

impl EditCommand<Rig> for SetBoneParent {
    open spec fn spec_requires_mode(&self) -> Option<WorkMode> {
        Some(WorkMode::Setup)
    }

    open spec fn spec_applied(&self, before: Rig, after: Rig, then: Self) -> bool {
        let bs = before@.0;
        if refuses_parent(bs, self.bone, self.new_parent) {
            after@ == before@ && then == *self
        } else {
            &&& after@ == (with_parent(bs, self.bone, self.new_parent), before@.1, before@.2, before@.3)
            &&& then.bone == self.bone
            &&& then.new_parent == self.new_parent
            &&& then.before == (if self.before is None { Some(parent_of(bs, self.bone)) } else { self.before })
        }
    }

    open spec fn spec_reverted(&self, before: Rig, after: Rig, then: Self) -> bool {
        &&& then == *self
        &&& match self.before {
            Some(p) => if has_bone(before@.0, self.bone) {
                after@ == (with_parent(before@.0, self.bone, p), before@.1, before@.2, before@.3)
            } else {
                after@ == before@
            },
            None => after@ == before@,
        }
    }

    open spec fn spec_merges(&self, next: Self) -> bool {
        false
    }

    open spec fn spec_absorbs(&self, next: Self, then: Self) -> bool {
        false
    }

    open spec fn spec_label(&self) -> Seq<char> {
        "Reparent Bone"@
    }

    open spec fn spec_pending_remap(&self) -> Seq<(BoneId, BoneId)> {
        Seq::empty()
    }

    open spec fn spec_remap_taken(&self, then: Self) -> bool {
        then == *self
    }

    open spec fn spec_remapped(&self, remap: Seq<(BoneId, BoneId)>, after: Self) -> bool {
        &&& after.bone == remapped_id(remap, self.bone)
        &&& after.new_parent == match self.new_parent {
            Some(p) => Some(remapped_id(remap, p)),
            None => None,
        }
        &&& after.before == match self.before {
            Some(Some(p)) => Some(Some(remapped_id(remap, p))),
            b => b,
        }
    }

    open spec fn spec_fresh(&self) -> bool {
        self.before is None
    }

    proof fn lemma_revert_undoes_apply(&self, before: Rig, after: Rig, applied: Self, back: Rig, reverted: Self) {
        let bs = before@.0;
        if !refuses_parent(bs, self.bone, self.new_parent) {
            let i = first_bone(bs, self.bone);
            lemma_first_bone(bs, self.bone);
            lemma_first_bone_update(bs, i, (bs[i].0, bs[i].1, self.new_parent), self.bone);
            let u = after@.0;
            assert(with_parent(u, self.bone, bs[i].2) =~= bs);
        }
    }

    proof fn lemma_apply_redoes_revert(
        &self,
        d0: Rig,
        d1: Rig,
        applied: Self,
        d2: Rig,
        reverted: Self,
        taken: Self,
        d3: Rig,
        reapplied: Self,
    ) {
        self.lemma_revert_undoes_apply(d0, d1, applied, d2, reverted);
    }

    fn apply(&mut self, doc: &mut Rig) {
        match self.new_parent {
            Some(p) => {
                if p == self.bone || doc.is_descendant(p, self.bone) {
                    return;
                }
            }
            None => {}
        }
        match find_bone(&doc.bones, self.bone) {
            None => {}
            Some(i) => {
                if self.before.is_none() {
                    self.before = Some(doc.bones[i].parent);
                }
                let ghost old_bones = doc.bones@;
                doc.bones[i].parent = self.new_parent;
                proof {
                    assert(doc.bones@ == old_bones.update(i as int, doc.bones@[i as int]));
                    assert(bone_views(doc.bones@) =~= with_parent(bone_views(old_bones), self.bone, self.new_parent));
                }
            }
        }
    }

    fn revert(&mut self, doc: &mut Rig) {
        match self.before {
            Some(p) => {
                match find_bone(&doc.bones, self.bone) {
                    None => {}
                    Some(i) => {
                        let ghost old_bones = doc.bones@;
                        doc.bones[i].parent = p;
                        proof {
                            assert(bone_views(doc.bones@) =~= with_parent(bone_views(old_bones), self.bone, p));
                        }
                    }
                }
            }
            None => {}
        }
    }

    fn merge(&mut self, next: &Self) -> (b: bool) {
        false
    }

    fn label(&self) -> (l: &str) {
        "Reparent Bone"
    }

    fn requires_mode(&self) -> (m: Option<WorkMode>) {
        Some(WorkMode::Setup)
    }

    fn take_remap(&mut self) -> (r: IdRemap) {
        IdRemap::new()
    }

    fn apply_remap(&mut self, remap: &IdRemap) {
        self.bone = remap.bone(self.bone);
        match self.new_parent {
            Some(p) => {
                self.new_parent = Some(remap.bone(p));
            }
            None => {}
        }
        match self.before {
            Some(Some(p)) => {
                self.before = Some(Some(remap.bone(p)));
            }
            _ => {}
        }
    }
}

// ── Deleting a bone ──────────────────────────────────────────────────────────

/// `bs` with every child of `from` handed to `to`.
pub open spec fn adopt(bs: Seq<BoneView>, from: BoneId, to: Option<BoneId>) -> Seq<BoneView> {
    bs.map_values(|b: BoneView| if b.2 == Some(from) { (b.0, b.1, to) } else { b })
}

/// The keys of the children of `id`, in order.
pub open spec fn children(bs: Seq<BoneView>, id: BoneId) -> Seq<BoneId>
    decreases bs.len(),
{
    if bs.len() == 0 {
        Seq::empty()
    } else {
        let rest = children(bs.drop_last(), id);
        if bs.last().2 == Some(id) {
            rest.push(bs.last().0)
        } else {
            rest
        }
    }
}

/// `bs` with each bone of `orphans` that is present, in order, moved under
/// `parent`.
pub open spec fn readopt(bs: Seq<BoneView>, orphans: Seq<BoneId>, parent: BoneId) -> Seq<BoneView>
    decreases orphans.len(),
{
    if orphans.len() == 0 {
        bs
    } else {
        let r = readopt(bs, orphans.drop_last(), parent);
        if has_bone(r, orphans.last()) {
            with_parent(r, orphans.last(), Some(parent))
        } else {
            r
        }
    }
}

/// The key after `k`, wrapping past the last.
pub open spec fn key_after(k: u64) -> u64 {
    if k == u64::MAX {
        0
    } else {
        (k + 1) as u64
    }
}

/// Hand every child of `from` to `to`, returning the children's keys.
fn adopt_children(bones: &mut Vec<Bone>, from: BoneId, to: Option<BoneId>) -> (orphans: Vec<BoneId>)
    ensures
        bone_views(final(bones)@) == adopt(bone_views(old(bones)@), from, to),
        orphans@ == children(bone_views(old(bones)@), from),
{
    let ghost start = bone_views(bones@);
    let mut orphans: Vec<BoneId> = Vec::new();
    let mut i: usize = 0;
    while i < bones.len()
        invariant
            i <= bones.len(),
            start.len() == bones@.len(),
            start == bone_views(old(bones)@),
            forall|k: int| 0 <= k < i ==> #[trigger] bone_views(bones@)[k] == adopt(start, from, to)[k],
            forall|k: int| i <= k < bones@.len() ==> #[trigger] bone_views(bones@)[k] == start[k],
            orphans@ == children(start.take(i as int), from),
        decreases bones.len() - i,
    {
        proof {
            assert(start.take(i + 1).drop_last() =~= start.take(i as int));
            assert(start.take(i + 1).last() == start[i as int]);
        }
        let is_child = match bones[i].parent {
            Some(p) => p == from,
            None => false,
        };
        let ghost before = bones@;
        proof {
            assert(bone_views(before)[i as int] == start[i as int]);
        }
        if is_child {
            orphans.push(bones[i].id);
            bones[i].parent = to;
            proof {
                assert forall|k: int| 0 <= k < bones@.len() && k != i implies #[trigger] bone_views(bones@)[k]
                    == bone_views(before)[k] by {
                    assert(bones@[k] == before[k]);
                }
                assert(bone_views(bones@)[i as int] == adopt(start, from, to)[i as int]);
                assert(orphans@ =~= children(start.take(i + 1), from));
            }
        } else {
            proof {
                assert(bone_views(bones@)[i as int] == adopt(start, from, to)[i as int]);
            }
        }
        i += 1;
    }
    proof {
        assert(bone_views(bones@) =~= adopt(start, from, to));
        assert(start.take(start.len() as int) =~= start);
    }
    orphans
}

/// Delete one bone. Its children move up to its parent and the slots that
/// hang from it go with it; undoing it brings the bone back under a new key,
/// takes the children back (the slots stay gone), and reports the key change
/// so the rest of the history follows it.
#[derive(Debug)]
pub struct DeleteBone {
    pub target: BoneId,
    /// The bone as it was, captured on apply so revert can rebuild it.
    pub removed: Option<Bone>,
    /// The children that were moved up to the grandparent.
    pub orphans: Vec<BoneId>,
    /// The key the restored bone received, for the next apply.
    pub restored: Option<BoneId>,
    /// Key changes this command made, until the history takes them.
    pub remap: IdRemap,
}

impl DeleteBone {
    pub fn new(target: BoneId) -> (c: DeleteBone)
        ensures
            c.target == target,
            c.removed is None,
            c.orphans@.len() == 0,
            c.restored is None,
            c.remap.bones@.len() == 0,
    {
        DeleteBone { target, removed: None, orphans: Vec::new(), restored: None, remap: IdRemap::new() }
    }
}

/// The key a delete acts on: the restored key after an undo, else the target.
pub open spec fn delete_key(c: DeleteBone) -> BoneId {
    match c.restored {
        Some(r) => r,
        None => c.target,
    }
}

impl EditCommand<Rig> for DeleteBone {
    open spec fn spec_requires_mode(&self) -> Option<WorkMode> {
        Some(WorkMode::Setup)
    }

    open spec fn spec_applied(&self, before: Rig, after: Rig, then: Self) -> bool {
        let bs = before@.0;
        let id = delete_key(*self);
        &&& then.target == self.target
        &&& then.restored is None
        &&& then.remap == self.remap
        &&& if !has_bone(bs, id) {
            &&& after@ == before@
            &&& then.removed == self.removed
            &&& then.orphans == self.orphans
        } else {
            let i = first_bone(bs, id);
            &&& after@ == (adopt(bs.remove(i), id, bs[i].2), before@.1, before@.2, slots_off(before@.3, id))
            &&& then.removed matches Some(b) && b@ == bs[i]
            &&& then.orphans@ == children(bs.remove(i), id)
        }
    }

    open spec fn spec_reverted(&self, before: Rig, after: Rig, then: Self) -> bool {
        match self.removed {
            None => after@ == before@ && then == *self,
            Some(b) => {
                let new = BoneId(before@.2);
                &&& after@ == (
                    readopt(before@.0.push((new, b@.1, b@.2)), self.orphans@, new),
                    before@.1,
                    key_after(before@.2),
                    before@.3,
                )
                &&& then.removed is None
                &&& then.target == new
                &&& then.restored == Some(new)
                &&& then.orphans == self.orphans
                &&& then.remap.bones@ == self.remap.bones@.push((self.target, new))
            },
        }
    }

    open spec fn spec_merges(&self, next: Self) -> bool {
        false
    }

    open spec fn spec_absorbs(&self, next: Self, then: Self) -> bool {
        false
    }

    open spec fn spec_label(&self) -> Seq<char> {
        "Delete Bone"@
    }

    open spec fn spec_pending_remap(&self) -> Seq<(BoneId, BoneId)> {
        self.remap.bones@
    }

    open spec fn spec_remap_taken(&self, then: Self) -> bool {
        &&& then.remap.bones@.len() == 0
        &&& then.target == self.target
        &&& then.removed == self.removed
        &&& then.orphans == self.orphans
        &&& then.restored == self.restored
    }

    open spec fn spec_remapped(&self, remap: Seq<(BoneId, BoneId)>, after: Self) -> bool {
        &&& after.target == remapped_id(remap, self.target)
        &&& after.restored == match self.restored {
            Some(r) => Some(remapped_id(remap, r)),
            None => None,
        }
        &&& after.orphans@.len() == self.orphans@.len()
        &&& forall|k: int| 0 <= k < self.orphans@.len() ==> #[trigger] after.orphans@[k] == remapped_id(remap, self.orphans@[k])
        &&& after.removed == self.removed
        &&& after.remap == self.remap
    }

    open spec fn spec_fresh(&self) -> bool {
        &&& self.removed is None
        &&& self.restored is None
        &&& self.remap.bones@.len() == 0
    }

    proof fn lemma_revert_undoes_apply(&self, before: Rig, after: Rig, applied: Self, back: Rig, reverted: Self) {
    }

    proof fn lemma_apply_redoes_revert(
        &self,
        d0: Rig,
        d1: Rig,
        applied: Self,
        d2: Rig,
        reverted: Self,
        taken: Self,
        d3: Rig,
        reapplied: Self,
    ) {
    }

    fn apply(&mut self, doc: &mut Rig) {
        let id = match self.restored {
            Some(r) => r,
            None => self.target,
        };
        self.restored = None;
        match find_bone(&doc.bones, id) {
            None => {}
            Some(i) => {
                let ghost bs = bone_views(doc.bones@);
                let gone = doc.bones.remove(i);
                proof {
                    assert(bone_views(doc.bones@) =~= bs.remove(i as int));
                }
                let grand = gone.parent;
                let orphans = adopt_children(&mut doc.bones, id, grand);
                doc.slots = drop_slots_of(&doc.slots, id);
                self.orphans = orphans;
                self.removed = Some(gone);
            }
        }
    }

    fn revert(&mut self, doc: &mut Rig) {
        match self.removed.take() {
            None => {}
            Some(bone) => {
                let new = BoneId(doc.next_key);
                doc.next_key = if doc.next_key == u64::MAX {
                    0
                } else {
                    doc.next_key + 1
                };
                let ghost pushed_from = bone_views(doc.bones@);
                doc.bones.push(Bone { id: new, name: bone.name, parent: bone.parent });
                proof {
                    assert(bone_views(doc.bones@) =~= pushed_from.push((new, bone@.1, bone@.2)));
                }
                let ghost start = bone_views(doc.bones@);
                let ghost sets = doc.sets;
                let ghost slots = doc.slots;
                let ghost key = doc.next_key;
                let ghost me = *self;
                let mut j: usize = 0;
                while j < self.orphans.len()
                    invariant
                        j <= self.orphans@.len(),
                        bone_views(doc.bones@) == readopt(start, self.orphans@.take(j as int), new),
                        doc.sets == sets,
                        doc.slots == slots,
                        doc.next_key == key,
                        *self == me,
                    decreases self.orphans@.len() - j,
                {
                    proof {
                        assert(self.orphans@.take(j + 1).drop_last() =~= self.orphans@.take(j as int));
                        assert(self.orphans@.take(j + 1).last() == self.orphans@[j as int]);
                    }
                    let o = self.orphans[j];
                    match find_bone(&doc.bones, o) {
                        None => {}
                        Some(k) => {
                            let ghost old_bones = doc.bones@;
                            doc.bones[k].parent = Some(new);
                            proof {
                                assert(bone_views(doc.bones@) =~= with_parent(bone_views(old_bones), o, Some(new)));
                            }
                        }
                    }
                    j += 1;
                }
                proof {
                    assert(self.orphans@.take(self.orphans@.len() as int) =~= self.orphans@);
                }
                self.remap.remap_bone(self.target, new);
                self.target = new;
                self.restored = Some(new);
            }
        }
    }

    fn merge(&mut self, next: &Self) -> (b: bool) {
        false
    }

    fn label(&self) -> (l: &str) {
        "Delete Bone"
    }

    fn requires_mode(&self) -> (m: Option<WorkMode>) {
        Some(WorkMode::Setup)
    }

    fn take_remap(&mut self) -> (r: IdRemap) {
        let mut out = IdRemap::new();
        std::mem::swap(&mut out, &mut self.remap);
        out
    }

    fn apply_remap(&mut self, remap: &IdRemap) {
        self.target = remap.bone(self.target);
        match self.restored {
            Some(r) => {
                self.restored = Some(remap.bone(r));
            }
            None => {}
        }
        let mut out: Vec<BoneId> = Vec::new();
        let mut k: usize = 0;
        while k < self.orphans.len()
            invariant
                k <= self.orphans@.len(),
                self.orphans@ == old(self).orphans@,
                out@.len() == k,
                forall|m: int| 0 <= m < k ==> #[trigger] out@[m] == remapped_id(remap.bones@, self.orphans@[m]),
            decreases self.orphans@.len() - k,
        {
            out.push(remap.bone(self.orphans[k]));
            k += 1;
        }
        self.orphans = out;
    }
}

/// Every bone's key is below the next key to hand out, so a bone brought
/// back by an undo never takes a key that is still in use.
pub open spec fn keys_below_next(v: RigView) -> bool {
    forall|i: int| 0 <= i < v.0.len() ==> (#[trigger] v.0[i]).0.0 < v.2
}

proof fn lemma_readopt_keys(bs: Seq<BoneView>, orphans: Seq<BoneId>, parent: BoneId)
    ensures
        readopt(bs, orphans, parent).len() == bs.len(),
        forall|i: int| 0 <= i < bs.len() ==> (#[trigger] readopt(bs, orphans, parent)[i]).0 == bs[i].0,
    decreases orphans.len(),
{
    if orphans.len() > 0 {
        lemma_readopt_keys(bs, orphans.drop_last(), parent);
        let r = readopt(bs, orphans.drop_last(), parent);
        if has_bone(r, orphans.last()) {
            lemma_first_bone(r, orphans.last());
        }
    }
}

/// Undoing a delete gives the bone back under a key no bone holds, and keeps
/// every key below the next one — provided the keys were below it before
/// and the next key is not the last there is.
pub proof fn a_restored_bone_gets_an_unused_key(c: DeleteBone, before: Rig, after: Rig, then: DeleteBone)
    requires
        keys_below_next(before@),
        before@.2 < u64::MAX,
        c.removed is Some,
        c.spec_reverted(before, after, then),
    ensures
        !has_bone(before@.0, BoneId(before@.2)),
        then.target == BoneId(before@.2),
        has_bone(after@.0, BoneId(before@.2)),
        keys_below_next(after@),
{
    let b = c.removed->0;
    let new = BoneId(before@.2);
    let pushed = before@.0.push((new, b@.1, b@.2));
    lemma_readopt_keys(pushed, c.orphans@, new);
    assert(after@.0[pushed.len() - 1].0 == new);
    assert forall|i: int| 0 <= i < after@.0.len() implies (#[trigger] after@.0[i]).0.0 < after@.2 by {
        assert(after@.0[i].0 == pushed[i].0);
    }
}

/// A reparent goes through exactly when the bone exists and the new parent
/// is neither the bone itself nor below it: then the bone's parent is the
/// new one and every other bone keeps its parent, with bones, keys, sets
/// and slots otherwise as they were. Otherwise nothing changes.
pub proof fn a_reparent_goes_through_unless_it_would_make_a_cycle(
    c: SetBoneParent,
    before: Rig,
    after: Rig,
    then: SetBoneParent,
)
    requires
        c.spec_applied(before, after, then),
    ensures
        ({
            let bs = before@.0;
            let allowed = has_bone(bs, c.bone) && match c.new_parent {
                Some(p) => p != c.bone && !is_descendant(bs, p, c.bone),
                None => true,
            };
            &&& allowed ==> {
                &&& parent_of(after@.0, c.bone) == c.new_parent
                &&& forall|id: BoneId| id != c.bone ==> #[trigger] parent_of(after@.0, id) == parent_of(bs, id)
                &&& bone_keys(after@.0) == bone_keys(bs)
                &&& forall|i: int| 0 <= i < bs.len() ==> (#[trigger] after@.0[i]).1 == bs[i].1
                &&& after@.1 == before@.1 && after@.2 == before@.2 && after@.3 == before@.3
            }
            &&& !allowed ==> after@ == before@
        }),
{
    let bs = before@.0;
    if !refuses_parent(bs, c.bone, c.new_parent) {
        lemma_first_bone(bs, c.bone);
        let i = first_bone(bs, c.bone);
        let v = (bs[i].0, bs[i].1, c.new_parent);
        let u = with_parent(bs, c.bone, c.new_parent);
        assert(u == bs.update(i, v));
        lemma_first_bone_update(bs, i, v, c.bone);
        assert forall|id: BoneId| id != c.bone implies #[trigger] parent_of(u, id) == parent_of(bs, id) by {
            if has_bone(bs, id) {
                lemma_first_bone_update(bs, i, v, id);
                lemma_first_bone(bs, id);
            } else {
                if has_bone(u, id) {
                    let k = choose|k: int| 0 <= k < u.len() && #[trigger] u[k].0 == id;
                    assert(bs[k].0 == id);
                }
            }
        }
        assert(bone_keys(u) =~= bone_keys(bs));
    }
}

/// Deleting a bone takes out the first bone with its key and nothing else:
/// the bones before it stay as they were, the bones after it move up one
/// place, and every child of the deleted bone now hangs from the deleted
/// bone's own parent. Keys, names and other parents are untouched, and so
/// are the selection sets. A delete of a missing bone changes nothing.
pub proof fn a_delete_hands_the_children_to_the_grandparent(
    c: DeleteBone,
    before: Rig,
    after: Rig,
    then: DeleteBone,
)
    requires
        c.spec_applied(before, after, then),
    ensures
        !has_bone(before@.0, delete_key(c)) ==> after@ == before@,
        forall|i: int|
            0 <= i < before@.0.len() && (#[trigger] before@.0[i]).0 == delete_key(c)
                && (forall|j: int| 0 <= j < i ==> before@.0[j].0 != delete_key(c)) ==> {
                &&& after@.0.len() == before@.0.len() - 1
                &&& after@.1 == before@.1
                &&& forall|j: int| 0 <= j < after@.0.len() ==> {
                    let b = if j < i { before@.0[j] } else { before@.0[j + 1] };
                    #[trigger] after@.0[j] == (b.0, b.1, if b.2 == Some(delete_key(c)) { before@.0[i].2 } else { b.2 })
                }
            },
{
    let bs = before@.0;
    let id = delete_key(c);
    if has_bone(bs, id) {
        lemma_first_bone(bs, id);
        assert forall|i: int|
            0 <= i < bs.len() && (#[trigger] bs[i]).0 == id && (forall|j: int| 0 <= j < i ==> bs[j].0 != id)
                implies i == first_bone(bs, id) by {
            assert(is_first_bone(bs, id, i));
        }
    }
}

/// Deleting a bone keeps the slots of every other bone, in their order.
pub proof fn a_delete_keeps_the_other_slots_in_order(s: Seq<(SlotId, BoneId)>, id: BoneId)
    ensures
        slots_off(s, id) == s.filter(|e: (SlotId, BoneId)| e.1 != id),
    decreases s.len(),
{
    reveal(Seq::filter);
    if s.len() > 0 {
        a_delete_keeps_the_other_slots_in_order(s.drop_last(), id);
    }
}

proof fn lemma_slots_off(s: Seq<(SlotId, BoneId)>, id: BoneId)
    ensures
        forall|i: int| 0 <= i < slots_off(s, id).len() ==> (#[trigger] slots_off(s, id)[i]).1 != id,
        forall|i: int| 0 <= i < s.len() && s[i].1 != id ==> slots_off(s, id).contains(#[trigger] s[i]),
        forall|e: (SlotId, BoneId)| slots_off(s, id).contains(e) ==> s.contains(e),
    decreases s.len(),
{
    if s.len() > 0 {
        let d = s.drop_last();
        lemma_slots_off(d, id);
        let r = slots_off(d, id);
        assert forall|i: int| 0 <= i < s.len() && s[i].1 != id implies slots_off(s, id).contains(#[trigger] s[i]) by {
            if i < s.len() - 1 {
                assert(d[i] == s[i]);
                let k = choose|k: int| 0 <= k < r.len() && r[k] == d[i];
                if s.last().1 != id {
                    assert(slots_off(s, id)[k] == s[i]);
                }
            } else {
                assert(slots_off(s, id)[r.len() as int] == s[i]);
            }
        }
        assert forall|e: (SlotId, BoneId)| slots_off(s, id).contains(e) implies s.contains(e) by {
            let k = choose|k: int| 0 <= k < slots_off(s, id).len() && slots_off(s, id)[k] == e;
            if k < r.len() {
                assert(r[k] == e);
                assert(r.contains(e));
                assert(d.contains(e));
                let j = choose|j: int| 0 <= j < d.len() && d[j] == e;
                assert(s[j] == e);
            } else {
                assert(s[s.len() - 1] == e);
            }
        }
    }
}

/// Deleting a bone takes away exactly the slots that hang from it: none is
/// left on the deleted bone, and every other slot stays.
pub proof fn a_delete_takes_exactly_its_bones_slots(c: DeleteBone, before: Rig, after: Rig, then: DeleteBone)
    requires
        has_bone(before@.0, delete_key(c)),
        c.spec_applied(before, after, then),
    ensures
        forall|i: int| 0 <= i < after@.3.len() ==> (#[trigger] after@.3[i]).1 != delete_key(c),
        forall|i: int| 0 <= i < before@.3.len() && before@.3[i].1 != delete_key(c)
            ==> after@.3.contains(#[trigger] before@.3[i]),
        forall|e: (SlotId, BoneId)| after@.3.contains(e) ==> before@.3.contains(e),
{
    lemma_slots_off(before@.3, delete_key(c));
}

/// Applying a rig edit hands out no keys: it keeps every key below the next
/// one.
pub proof fn structural_edits_keep_keys_below_next(c: RigEdit, before: Rig, after: Rig, then: RigEdit)
    requires
        keys_below_next(before@),
        c.spec_applied(before, after, then),
    ensures
        keys_below_next(after@),
{
    let bs = before@.0;
    match (c, then) {
        (RigEdit::Reparent(r), RigEdit::Reparent(t)) => {
            if !refuses_parent(bs, r.bone, r.new_parent) {
                lemma_first_bone(bs, r.bone);
                assert forall|i: int| 0 <= i < after@.0.len() implies (#[trigger] after@.0[i]).0.0 < after@.2 by {
                    assert(after@.0[i].0 == bs[i].0);
                }
            }
        },
        (RigEdit::Delete(d), RigEdit::Delete(t)) => {
            let id = delete_key(d);
            if has_bone(bs, id) {
                lemma_first_bone(bs, id);
                let k = first_bone(bs, id);
                assert forall|i: int| 0 <= i < after@.0.len() implies (#[trigger] after@.0[i]).0.0 < after@.2 by {
                    let rm = bs.remove(k);
                    assert(after@.0[i].0 == rm[i].0);
                    if i < k {
                        assert(rm[i] == bs[i]);
                    } else {
                        assert(rm[i] == bs[i + 1]);
                    }
                }
            }
        },
        _ => {},
    }
}

// ── Selection sets ───────────────────────────────────────────────────────────

impl EditCommand<Rig> for SaveSelectionSet {
    open spec fn spec_requires_mode(&self) -> Option<WorkMode> {
        Some(WorkMode::Setup)
    }

    open spec fn spec_applied(&self, before: Rig, after: Rig, then: Self) -> bool {
        &&& after@ == (before@.0, saved(before@.1, self.name@, self.bones@, bone_keys(before@.0)), before@.2, before@.3)
        &&& then.name == self.name
        &&& then.bones == self.bones
        &&& self.before is None ==> (then.before matches Some(b) && set_views(b@) == before@.1)
        &&& self.before is Some ==> then.before == self.before
    }

    open spec fn spec_reverted(&self, before: Rig, after: Rig, then: Self) -> bool {
        &&& then.name == self.name
        &&& then.bones == self.bones
        &&& match self.before {
            Some(b) => after@ == (before@.0, set_views(b@), before@.2, before@.3) && then.before is None,
            None => after@ == before@ && then == *self,
        }
    }

    open spec fn spec_merges(&self, next: Self) -> bool {
        false
    }

    open spec fn spec_absorbs(&self, next: Self, then: Self) -> bool {
        false
    }

    open spec fn spec_label(&self) -> Seq<char> {
        "Save Selection Set"@
    }

    open spec fn spec_pending_remap(&self) -> Seq<(BoneId, BoneId)> {
        Seq::empty()
    }

    open spec fn spec_remap_taken(&self, then: Self) -> bool {
        then == *self
    }

    open spec fn spec_remapped(&self, remap: Seq<(BoneId, BoneId)>, after: Self) -> bool {
        &&& after.name == self.name
        &&& after.before == self.before
        &&& after.bones@.len() == self.bones@.len()
        &&& forall|i: int| 0 <= i < self.bones@.len() ==> #[trigger] after.bones@[i] == remapped_id(remap, self.bones@[i])
    }

    open spec fn spec_fresh(&self) -> bool {
        self.before is None
    }

    proof fn lemma_revert_undoes_apply(&self, before: Rig, after: Rig, applied: Self, back: Rig, reverted: Self) {
    }

    proof fn lemma_apply_redoes_revert(
        &self,
        d0: Rig,
        d1: Rig,
        applied: Self,
        d2: Rig,
        reverted: Self,
        taken: Self,
        d3: Rig,
        reapplied: Self,
    ) {
    }

    fn apply(&mut self, doc: &mut Rig) {
        let live = keys_of(&doc.bones);
        self.apply_to(&mut doc.sets, &live);
    }

    fn revert(&mut self, doc: &mut Rig) {
        self.revert_to(&mut doc.sets);
    }

    fn merge(&mut self, next: &Self) -> (b: bool) {
        false
    }

    fn label(&self) -> (l: &str) {
        "Save Selection Set"
    }

    fn requires_mode(&self) -> (m: Option<WorkMode>) {
        Some(WorkMode::Setup)
    }

    fn take_remap(&mut self) -> (r: IdRemap) {
        IdRemap::new()
    }

    fn apply_remap(&mut self, remap: &IdRemap) {
        let mut out: Vec<BoneId> = Vec::new();
        let mut i: usize = 0;
        while i < self.bones.len()
            invariant
                i <= self.bones.len(),
                self.bones@ == old(self).bones@,
                self.name == old(self).name,
                self.before == old(self).before,
                out@.len() == i,
                forall|k: int| 0 <= k < i ==> #[trigger] out@[k] == remapped_id(remap.bones@, self.bones@[k]),
            decreases self.bones.len() - i,
        {
            out.push(remap.bone(self.bones[i]));
            i += 1;
        }
        self.bones = out;
    }
}

impl EditCommand<Rig> for EditSelectionSet {
    open spec fn spec_requires_mode(&self) -> Option<WorkMode> {
        Some(WorkMode::Setup)
    }

    open spec fn spec_applied(&self, before: Rig, after: Rig, then: Self) -> bool {
        if self.index >= before@.1.len() {
            after@ == before@ && then == *self
        } else {
            &&& after@ == (before@.0, edited(before@.1, self.index as int, self.edit), before@.2, before@.3)
            &&& then.index == self.index
            &&& then.edit == self.edit
            &&& self.before is None ==> (then.before matches Some(b) && set_views(b@) == before@.1)
            &&& self.before is Some ==> then.before == self.before
        }
    }

    open spec fn spec_reverted(&self, before: Rig, after: Rig, then: Self) -> bool {
        &&& then.index == self.index
        &&& then.edit == self.edit
        &&& match self.before {
            Some(b) => after@ == (before@.0, set_views(b@), before@.2, before@.3) && then.before is None,
            None => after@ == before@ && then == *self,
        }
    }

    open spec fn spec_merges(&self, next: Self) -> bool {
        false
    }

    open spec fn spec_absorbs(&self, next: Self, then: Self) -> bool {
        false
    }

    open spec fn spec_label(&self) -> Seq<char> {
        match self.edit {
            crate::selection_sets::SetEdit::Rename(_) => "Rename Selection Set"@,
            crate::selection_sets::SetEdit::Remove => "Delete Selection Set"@,
        }
    }

    open spec fn spec_pending_remap(&self) -> Seq<(BoneId, BoneId)> {
        Seq::empty()
    }

    open spec fn spec_remap_taken(&self, then: Self) -> bool {
        then == *self
    }

    open spec fn spec_remapped(&self, remap: Seq<(BoneId, BoneId)>, after: Self) -> bool {
        after == *self
    }

    open spec fn spec_fresh(&self) -> bool {
        self.before is None
    }

    proof fn lemma_revert_undoes_apply(&self, before: Rig, after: Rig, applied: Self, back: Rig, reverted: Self) {
    }

    proof fn lemma_apply_redoes_revert(
        &self,
        d0: Rig,
        d1: Rig,
        applied: Self,
        d2: Rig,
        reverted: Self,
        taken: Self,
        d3: Rig,
        reapplied: Self,
    ) {
    }

    fn apply(&mut self, doc: &mut Rig) {
        self.apply_to(&mut doc.sets);
    }

    fn revert(&mut self, doc: &mut Rig) {
        self.revert_to(&mut doc.sets);
    }

    fn merge(&mut self, next: &Self) -> (b: bool) {
        false
    }

    fn label(&self) -> (l: &str) {
        match self.edit {
            crate::selection_sets::SetEdit::Rename(_) => "Rename Selection Set",
            crate::selection_sets::SetEdit::Remove => "Delete Selection Set",
        }
    }

    fn requires_mode(&self) -> (m: Option<WorkMode>) {
        Some(WorkMode::Setup)
    }

    fn take_remap(&mut self) -> (r: IdRemap) {
        IdRemap::new()
    }

    fn apply_remap(&mut self, remap: &IdRemap) {
    }
}

// ── Copying a selection ──────────────────────────────────────────────────────

/// `id` is not below any other selected bone: copying a parent already
/// carries its children.
pub open spec fn is_copy_root(bs: Seq<BoneView>, sel: Seq<BoneId>, id: BoneId) -> bool {
    forall|j: int| 0 <= j < sel.len() && sel[j] != id ==> !is_descendant(bs, id, #[trigger] sel[j])
}

/// The entries of `part` that are copy roots of the selection `sel`, in order.
pub open spec fn copy_roots(bs: Seq<BoneView>, sel: Seq<BoneId>, part: Seq<BoneId>) -> Seq<BoneId>
    decreases part.len(),
{
    if part.len() == 0 {
        Seq::empty()
    } else {
        let r = copy_roots(bs, sel, part.drop_last());
        if is_copy_root(bs, sel, part.last()) {
            r.push(part.last())
        } else {
            r
        }
    }
}

/// The last position of `x` in `s`.
pub open spec fn last_index(s: Seq<BoneId>, x: BoneId) -> Option<usize>
    decreases s.len(),
{
    if s.len() == 0 {
        None
    } else if s.last() == x {
        Some((s.len() - 1) as usize)
    } else {
        last_index(s.drop_last(), x)
    }
}

/// Where a copied bone's parent sits among the bones copied before it.
pub open spec fn parent_index(prior: Seq<BoneId>, parent: Option<BoneId>) -> Option<usize> {
    match parent {
        Some(p) => last_index(prior, p),
        None => None,
    }
}

/// The slots riding on copied bones, in slot order, with their bone's
/// position in the copy.
pub open spec fn clip_slots(slots: Seq<(SlotId, BoneId)>, keys: Seq<BoneId>) -> Seq<(SlotId, usize)>
    decreases slots.len(),
{
    if slots.len() == 0 {
        Seq::empty()
    } else {
        let r = clip_slots(slots.drop_last(), keys);
        match last_index(keys, slots.last().1) {
            Some(i) => r.push((slots.last().0, i)),
            None => r,
        }
    }
}

/// What a copy of the selection carries, by key: the bones in order, each
/// one's parent as a position earlier in the copy, and the slots riding on
/// them with their bone's position. Transforms and artwork are looked up by
/// key.
#[derive(Debug)]
pub struct CopyPlan {
    pub bones: Vec<BoneId>,
    pub parents: Vec<Option<usize>>,
    pub slots: Vec<(SlotId, usize)>,
}

fn last_position(v: &Vec<BoneId>, x: BoneId) -> (r: Option<usize>)
    ensures
        r == last_index(v@, x),
{
    let mut r: Option<usize> = None;
    let mut i: usize = 0;
    while i < v.len()
        invariant
            i <= v.len(),
            r == last_index(v@.take(i as int), x),
        decreases v.len() - i,
    {
        proof {
            assert(v@.take(i + 1).drop_last() =~= v@.take(i as int));
            assert(v@.take(i + 1).last() == v@[i as int]);
        }
        if v[i] == x {
            r = Some(i);
        }
        i += 1;
    }
    proof {
        assert(v@.take(v.len() as int) =~= v@);
    }
    r
}

/// How many entries of `s` are set.
pub open spec fn count_set(s: Seq<bool>) -> nat
    decreases s.len(),
{
    if s.len() == 0 {
        0
    } else {
        count_set(s.drop_last()) + if s.last() { 1nat } else { 0nat }
    }
}

proof fn lemma_count_set_bound(s: Seq<bool>)
    ensures
        count_set(s) <= s.len(),
    decreases s.len(),
{
    if s.len() > 0 {
        lemma_count_set_bound(s.drop_last());
    }
}

proof fn lemma_count_set_mark(s: Seq<bool>, i: int)
    requires
        0 <= i < s.len(),
        !s[i],
    ensures
        count_set(s.update(i, true)) == count_set(s) + 1,
    decreases s.len(),
{
    let u = s.update(i, true);
    if i == s.len() - 1 {
        assert(u.drop_last() =~= s.drop_last());
    } else {
        assert(u.drop_last() =~= s.drop_last().update(i, true));
        lemma_count_set_mark(s.drop_last(), i);
    }
}

proof fn lemma_last_index(s: Seq<BoneId>, x: BoneId)
    requires
        s.len() <= usize::MAX,
    ensures
        s.contains(x) ==> last_index(s, x) is Some,
        last_index(s, x) matches Some(j) ==> j < s.len() && s[j as int] == x,
    decreases s.len(),
{
    if s.len() > 0 {
        lemma_last_index(s.drop_last(), x);
        if s.contains(x) && s.last() != x {
            let k = choose|k: int| 0 <= k < s.len() && s[k] == x;
            assert(s.drop_last()[k] == x);
        }
        if s.last() != x {
            if let Some(j) = last_index(s.drop_last(), x) {
                assert(s[j as int] == s.drop_last()[j as int]);
            }
        }
    }
}

/// The bookkeeping of a copy in progress: `keys` are the copied bones, each
/// once and each a bone of the rig; `visited` marks, by position, the first
/// row of each copied key; each copied bone's parent position is its
/// parent's position among the bones copied before it, and is known for
/// every bone that was not copied as a root.
pub open spec fn copy_state(
    bs: Seq<BoneView>,
    roots: Seq<BoneId>,
    keys: Seq<BoneId>,
    parents: Seq<Option<usize>>,
    visited: Seq<bool>,
) -> bool {
    &&& visited.len() == bs.len()
    &&& count_set(visited) == keys.len()
    &&& keys.no_duplicates()
    &&& forall|m: int| 0 <= m < keys.len() ==> has_bone(bs, #[trigger] keys[m])
    &&& forall|i: int| 0 <= i < bs.len() ==> (#[trigger] visited[i] <==> (is_first_bone(bs, bs[i].0, i) && keys.contains(bs[i].0)))
    &&& parents.len() == keys.len()
    &&& forall|m: int| 0 <= m < keys.len() ==> #[trigger] parents[m] == parent_index(keys.take(m), parent_of(bs, keys[m]))
    &&& forall|m: int| 0 <= m < keys.len() && !roots.contains(keys[m]) ==> (#[trigger] parents[m]) is Some
}

/// Every bone whose parent is among the first `upto` copied bones is copied.
pub open spec fn copied_below(bs: Seq<BoneView>, keys: Seq<BoneId>, upto: int) -> bool {
    forall|h: int, b: BoneId|
        0 <= h < upto && has_bone(bs, b) && #[trigger] parent_of(bs, b) == Some(#[trigger] keys[h]) ==> keys.contains(b)
}

/// Adding the bone at row `i` — a root, or a child of a copied bone — keeps
/// the bookkeeping.
proof fn lemma_copy_add(
    bs: Seq<BoneView>,
    roots: Seq<BoneId>,
    keys: Seq<BoneId>,
    parents: Seq<Option<usize>>,
    visited: Seq<bool>,
    i: int,
)
    requires
        copy_state(bs, roots, keys, parents, visited),
        keys.len() <= usize::MAX,
        0 <= i < bs.len(),
        !visited[i],
        is_first_bone(bs, bs[i].0, i),
        roots.contains(bs[i].0) || (parent_of(bs, bs[i].0) matches Some(q) && keys.contains(q)),
    ensures
        copy_state(
            bs,
            roots,
            keys.push(bs[i].0),
            parents.push(parent_index(keys, parent_of(bs, bs[i].0))),
            visited.update(i, true),
        ),
        !keys.contains(bs[i].0),
{
    let id = bs[i].0;
    let k2 = keys.push(id);
    let p2 = parents.push(parent_index(keys, parent_of(bs, id)));
    let v2 = visited.update(i, true);
    assert(!keys.contains(id));
    lemma_count_set_mark(visited, i);
    assert(has_bone(bs, id));
    assert forall|j: int| 0 <= j < bs.len() implies (#[trigger] v2[j] <==> (is_first_bone(bs, bs[j].0, j) && k2.contains(bs[j].0))) by {
        if j != i {
            if is_first_bone(bs, bs[j].0, j) && bs[j].0 == id {
                if j < i {
                    assert(bs[j].0 != id);
                } else {
                    assert(bs[i].0 != bs[j].0);
                }
            }
            if k2.contains(bs[j].0) && bs[j].0 != id {
                let t = choose|t: int| 0 <= t < k2.len() && k2[t] == bs[j].0;
                assert(keys[t] == bs[j].0);
            }
            if keys.contains(bs[j].0) {
                let t = choose|t: int| 0 <= t < keys.len() && keys[t] == bs[j].0;
                assert(k2[t] == bs[j].0);
            }
        } else {
            assert(k2[keys.len() as int] == id);
        }
    }
    assert forall|m: int| 0 <= m < k2.len() implies #[trigger] p2[m] == parent_index(k2.take(m), parent_of(bs, k2[m])) by {
        if m < keys.len() {
            assert(k2.take(m) =~= keys.take(m));
        } else {
            assert(k2.take(m) =~= keys);
        }
    }
    assert forall|m: int| 0 <= m < k2.len() && !roots.contains(k2[m]) implies (#[trigger] p2[m]) is Some by {
        if m == keys.len() {
            let q = parent_of(bs, id)->0;
            lemma_last_index(keys, q);
        }
    }
    assert(k2.no_duplicates()) by {
        assert forall|a: int, b: int| 0 <= a < b < k2.len() implies k2[a] != k2[b] by {
            if b == keys.len() {
                assert(keys[a] == k2[a]);
            }
        }
    }
}

impl Rig {
    fn is_copy_root(&self, sel: &Vec<BoneId>, id: BoneId) -> (r: bool)
        ensures
            r == is_copy_root(self@.0, sel@, id),
    {
        let mut j: usize = 0;
        while j < sel.len()
            invariant
                j <= sel.len(),
                forall|k: int| 0 <= k < j && sel@[k] != id ==> !is_descendant(self@.0, id, #[trigger] sel@[k]),
            decreases sel.len() - j,
        {
            if sel[j] != id && self.is_descendant(id, sel[j]) {
                return false;
            }
            j += 1;
        }
        true
    }

    /// Plan a copy of the selected bones: each selected bone that is not
    /// below another selected one, with every bone below it, parents before
    /// children, and the slots on those bones. `None` when nothing is
    /// selected.
    pub fn copy_selection(&self, selected: &Vec<BoneId>) -> (r: Option<CopyPlan>)
        ensures
            r is None <==> copy_roots(self@.0, selected@, selected@).len() == 0,
            r matches Some(c) ==> {
                let bs = self@.0;
                let roots = copy_roots(bs, selected@, selected@);
                let keys = c.bones@;
                &&& keys.no_duplicates()
                &&& forall|k: int| 0 <= k < roots.len() && has_bone(bs, roots[k]) ==> keys.contains(#[trigger] roots[k])
                &&& forall|m: int| 0 <= m < keys.len() ==> has_bone(bs, #[trigger] keys[m])
                &&& copied_below(bs, keys, keys.len() as int)
                &&& c.parents@.len() == keys.len()
                &&& forall|m: int| 0 <= m < keys.len() ==> #[trigger] c.parents@[m] == parent_index(keys.take(m), parent_of(bs, keys[m]))
                &&& forall|m: int| 0 <= m < keys.len() && !roots.contains(keys[m]) ==> (#[trigger] c.parents@[m]) is Some
                &&& forall|m: int| 0 <= m < keys.len() ==> (#[trigger] c.parents@[m] matches Some(j) ==> j < m
                    && parent_of(bs, keys[m]) == Some(keys[j as int]))
                &&& c.slots@ == clip_slots(self@.3, keys)
            },
    {
        let ghost bs = self@.0;
        let mut roots: Vec<BoneId> = Vec::new();
        let mut j: usize = 0;
        while j < selected.len()
            invariant
                j <= selected.len(),
                bs == self@.0,
                roots@ == copy_roots(bs, selected@, selected@.take(j as int)),
            decreases selected.len() - j,
        {
            proof {
                assert(selected@.take(j + 1).drop_last() =~= selected@.take(j as int));
                assert(selected@.take(j + 1).last() == selected@[j as int]);
            }
            if self.is_copy_root(selected, selected[j]) {
                roots.push(selected[j]);
            }
            j += 1;
        }
        proof {
            assert(selected@.take(selected.len() as int) =~= selected@);
        }
        if roots.len() == 0 {
            return None;
        }
        let n = self.bones.len();
        let mut visited: Vec<bool> = Vec::new();
        while visited.len() < n
            invariant
                visited@.len() <= n,
                n == self.bones@.len(),
                count_set(visited@) == 0,
                forall|t: int| 0 <= t < visited@.len() ==> !#[trigger] visited@[t],
            decreases n - visited.len(),
        {
            let ghost prev = visited@;
            visited.push(false);
            proof {
                assert(visited@.drop_last() =~= prev);
            }
        }
        let mut keys: Vec<BoneId> = Vec::new();
        let mut parents: Vec<Option<usize>> = Vec::new();
        let mut head: usize = 0;
        proof {
            assert forall|i: int| 0 <= i < bs.len() implies (#[trigger] visited@[i] <==> (is_first_bone(bs, bs[i].0, i)
                && keys@.contains(bs[i].0))) by {}
        }
        let mut k: usize = 0;
        while k < roots.len()
            invariant
                k <= roots.len(),
                bs == self@.0,
                bs == bone_views(self.bones@),
                n == bs.len(),
                copy_state(bs, roots@, keys@, parents@, visited@),
                head == keys@.len(),
                copied_below(bs, keys@, head as int),
                forall|kk: int| 0 <= kk < k && has_bone(bs, roots@[kk]) ==> keys@.contains(#[trigger] roots@[kk]),
            decreases roots.len() - k,
        {
            let root = roots[k];
            match find_bone(&self.bones, root) {
                None => {},
                Some(i) => {
                    if visited[i] {
                        proof {
                            assert(visited@[i as int]);
                            assert(bs[i as int].0 == root);
                        }
                    } else {
                        proof {
                            assert(roots@.contains(bs[i as int].0)) by {
                                assert(roots@[k as int] == root);
                            }
                            assert(keys@.len() == keys.len());
                            lemma_copy_add(bs, roots@, keys@, parents@, visited@, i as int);
                        }
                        let pi = match self.bones[i].parent {
                            Some(p) => last_position(&keys, p),
                            None => None,
                        };
                        let ghost old_keys = keys@;
                        parents.push(pi);
                        keys.push(root);
                        visited.set(i, true);
                        proof {
                            assert(keys@[old_keys.len() as int] == root);
                            assert forall|c: BoneId| #[trigger] old_keys.contains(c) implies keys@.contains(c) by {
                                let t = choose|t: int| 0 <= t < old_keys.len() && old_keys[t] == c;
                                assert(keys@[t] == c);
                            }
                            assert forall|h: int, b: BoneId|
                                0 <= h < head && has_bone(bs, b) && #[trigger] parent_of(bs, b) == Some(#[trigger] keys@[h])
                                implies keys@.contains(b) by {
                                assert(keys@[h] == old_keys[h]);
                                if old_keys.contains(b) {
                                    let t = choose|t: int| 0 <= t < old_keys.len() && old_keys[t] == b;
                                    assert(keys@[t] == b);
                                }
                            }
                        }
                    }
                },
            }
            proof {
                assert(keys@.contains(root) || !has_bone(bs, root));
            }
            let ghost done_roots = keys@;
            while head < keys.len()
                invariant
                    bs == self@.0,
                    bs == bone_views(self.bones@),
                    n == bs.len(),
                    k < roots@.len(),
                    copy_state(bs, roots@, keys@, parents@, visited@),
                    head <= keys@.len(),
                    copied_below(bs, keys@, head as int),
                    forall|t: int| 0 <= t < done_roots.len() ==> keys@[t] == done_roots[t],
                    done_roots.len() <= keys@.len(),
                    forall|kk: int| 0 <= kk < k && has_bone(bs, roots@[kk]) ==> keys@.contains(#[trigger] roots@[kk]),
                    has_bone(bs, roots@[k as int]) ==> done_roots.contains(roots@[k as int]),
                decreases n - head,
            {
                proof {
                    lemma_count_set_bound(visited@);
                }
                let q = keys[head];
                let mut i: usize = 0;
                while i < n
                    invariant
                        bs == self@.0,
                        bs == bone_views(self.bones@),
                        n == bs.len(),
                        i <= n,
                        k < roots@.len(),
                        copy_state(bs, roots@, keys@, parents@, visited@),
                        head < keys@.len(),
                        q == keys@[head as int],
                        copied_below(bs, keys@, head as int),
                        forall|t: int| 0 <= t < done_roots.len() ==> keys@[t] == done_roots[t],
                        done_roots.len() <= keys@.len(),
                        forall|kk: int| 0 <= kk < k && has_bone(bs, roots@[kk]) ==> keys@.contains(#[trigger] roots@[kk]),
                        has_bone(bs, roots@[k as int]) ==> done_roots.contains(roots@[k as int]),
                        forall|t: int| 0 <= t < i && #[trigger] is_first_bone(bs, bs[t].0, t) && parent_of(bs, bs[t].0) == Some(q)
                            ==> keys@.contains(bs[t].0),
                    decreases n - i,
                {
                    let id = self.bones[i].id;
                    let ghost before_keys = keys@;
                    if !visited[i] {
                        let first = match find_bone(&self.bones, id) {
                            Some(f) => f == i,
                            None => false,
                        };
                        let child = match self.bones[i].parent {
                            Some(p) => p == q,
                            None => false,
                        };
                        if first && child {
                            proof {
                                assert(bs[i as int] == self.bones@[i as int]@);
                                lemma_first_bone(bs, id);
                                assert(parent_of(bs, id) == Some(q));
                                assert(keys@.contains(q));
                                assert(keys@.len() == keys.len());
                                lemma_copy_add(bs, roots@, keys@, parents@, visited@, i as int);
                            }
                            let pi = last_position(&keys, q);
                            parents.push(pi);
                            keys.push(id);
                            visited.set(i, true);
                        }
                    }
                    proof {
                        assert(bs[i as int] == self.bones@[i as int]@);
                        assert forall|t: int| 0 <= t < before_keys.len() implies keys@[t] == before_keys[t] by {}
                        assert forall|c: BoneId| #[trigger] before_keys.contains(c) implies keys@.contains(c) by {
                            let t = choose|t: int| 0 <= t < before_keys.len() && before_keys[t] == c;
                            assert(keys@[t] == c);
                        }
                        assert forall|h: int, b: BoneId|
                            0 <= h < head && has_bone(bs, b) && #[trigger] parent_of(bs, b) == Some(#[trigger] keys@[h])
                            implies keys@.contains(b) by {
                            assert(keys@[h] == before_keys[h]);
                            assert(before_keys.contains(b));
                        }
                        assert forall|t: int| 0 <= t < i + 1 && #[trigger] is_first_bone(bs, bs[t].0, t) && parent_of(bs, bs[t].0) == Some(q)
                            implies keys@.contains(bs[t].0) by {
                            if t < i {
                                assert(before_keys.contains(bs[t].0));
                            } else {
                                let b = bs[t].0;
                                lemma_first_bone(bs, b);
                                if before_keys.len() < keys@.len() {
                                    assert(keys@[before_keys.len() as int] == b);
                                } else {
                                    assert(visited@[t]);
                                }
                            }
                        }
                    }
                    i += 1;
                }
                proof {
                    assert forall|h: int, b: BoneId|
                        0 <= h < head + 1 && has_bone(bs, b) && #[trigger] parent_of(bs, b) == Some(#[trigger] keys@[h])
                        implies keys@.contains(b) by {
                        if h == head {
                            lemma_first_bone(bs, b);
                            let t = first_bone(bs, b);
                            assert(is_first_bone(bs, bs[t].0, t));
                        }
                    }
                }
                head += 1;
            }
            proof {
                assert forall|kk: int| 0 <= kk < k + 1 && has_bone(bs, roots@[kk]) implies keys@.contains(#[trigger] roots@[kk]) by {
                    if kk == k {
                        let t = choose|t: int| 0 <= t < done_roots.len() && done_roots[t] == roots@[kk];
                        assert(keys@[t] == roots@[kk]);
                    }
                }
            }
            k += 1;
        }
        proof {
            assert forall|m: int| 0 <= m < keys@.len() implies (#[trigger] parents@[m] matches Some(j) ==> j < m
                && parent_of(bs, keys@[m]) == Some(keys@[j as int])) by {
                match parent_of(bs, keys@[m]) {
                    Some(p) => {
                        lemma_last_index(keys@.take(m), p);
                    },
                    None => {},
                }
            }
        }
        let slots = &self.slots;
        let mut out_slots: Vec<(SlotId, usize)> = Vec::new();
        let mut s: usize = 0;
        while s < slots.len()
            invariant
                s <= slots.len(),
                slots@ == self@.3,
                out_slots@ == clip_slots(slots@.take(s as int), keys@),
            decreases slots.len() - s,
        {
            proof {
                assert(slots@.take(s + 1).drop_last() =~= slots@.take(s as int));
                assert(slots@.take(s + 1).last() == slots@[s as int]);
            }
            let (slot, bone) = slots[s];
            match last_position(&keys, bone) {
                Some(i) => out_slots.push((slot, i)),
                None => {},
            }
            s += 1;
        }
        proof {
            assert(slots@.take(slots.len() as int) =~= slots@);
        }
        Some(CopyPlan { bones: keys, parents, slots: out_slots })
    }
}

/// The status line after a copy: how many bones it carries, or that there
/// was nothing selected to copy.
pub open spec fn copy_status_text(plan: Option<CopyPlan>) -> Seq<char> {
    match plan {
        None => "Nothing selected to copy"@,
        Some(c) => "Copied "@ + decimal(c.bones@.len()) + " bone(s)"@,
    }
}

/// The status line after a copy, for the status bar.
pub fn copy_status(plan: &Option<CopyPlan>) -> (s: String)
    ensures
        s@ == copy_status_text(*plan),
{
    match plan {
        None => "Nothing selected to copy".to_owned(),
        Some(c) => {
            let mut out = "Copied ".to_owned();
            let n = c.bones.len();
            proof {
                assert(n as u64 == n);
            }
            push_decimal(&mut out, n as u64);
            out.append(" bone(s)");
            out
        },
    }
}

// ── Any structural edit ──────────────────────────────────────────────────────

/// Any of the structural edits, so one history can hold them all.
#[derive(Debug)]
pub enum RigEdit {
    Reparent(SetBoneParent),
    Delete(DeleteBone),
    SaveSet(SaveSelectionSet),
    EditSet(EditSelectionSet),
}

impl EditCommand<Rig> for RigEdit {
    open spec fn spec_requires_mode(&self) -> Option<WorkMode> {
        match self {
            RigEdit::Reparent(c) => c.spec_requires_mode(),
            RigEdit::Delete(c) => c.spec_requires_mode(),
            RigEdit::SaveSet(c) => c.spec_requires_mode(),
            RigEdit::EditSet(c) => c.spec_requires_mode(),
        }
    }

    open spec fn spec_applied(&self, before: Rig, after: Rig, then: Self) -> bool {
        match (*self, then) {
            (RigEdit::Reparent(c), RigEdit::Reparent(t)) => c.spec_applied(before, after, t),
            (RigEdit::Delete(c), RigEdit::Delete(t)) => c.spec_applied(before, after, t),
            (RigEdit::SaveSet(c), RigEdit::SaveSet(t)) => c.spec_applied(before, after, t),
            (RigEdit::EditSet(c), RigEdit::EditSet(t)) => c.spec_applied(before, after, t),
            _ => false,
        }
    }

    open spec fn spec_reverted(&self, before: Rig, after: Rig, then: Self) -> bool {
        match (*self, then) {
            (RigEdit::Reparent(c), RigEdit::Reparent(t)) => c.spec_reverted(before, after, t),
            (RigEdit::Delete(c), RigEdit::Delete(t)) => c.spec_reverted(before, after, t),
            (RigEdit::SaveSet(c), RigEdit::SaveSet(t)) => c.spec_reverted(before, after, t),
            (RigEdit::EditSet(c), RigEdit::EditSet(t)) => c.spec_reverted(before, after, t),
            _ => false,
        }
    }

    open spec fn spec_merges(&self, next: Self) -> bool {
        false
    }

    open spec fn spec_absorbs(&self, next: Self, then: Self) -> bool {
        false
    }

    open spec fn spec_label(&self) -> Seq<char> {
        match self {
            RigEdit::Reparent(c) => c.spec_label(),
            RigEdit::Delete(c) => c.spec_label(),
            RigEdit::SaveSet(c) => c.spec_label(),
            RigEdit::EditSet(c) => c.spec_label(),
        }
    }

    open spec fn spec_pending_remap(&self) -> Seq<(BoneId, BoneId)> {
        match self {
            RigEdit::Reparent(c) => c.spec_pending_remap(),
            RigEdit::Delete(c) => c.spec_pending_remap(),
            RigEdit::SaveSet(c) => c.spec_pending_remap(),
            RigEdit::EditSet(c) => c.spec_pending_remap(),
        }
    }

    open spec fn spec_remap_taken(&self, then: Self) -> bool {
        match (*self, then) {
            (RigEdit::Reparent(c), RigEdit::Reparent(t)) => c.spec_remap_taken(t),
            (RigEdit::Delete(c), RigEdit::Delete(t)) => c.spec_remap_taken(t),
            (RigEdit::SaveSet(c), RigEdit::SaveSet(t)) => c.spec_remap_taken(t),
            (RigEdit::EditSet(c), RigEdit::EditSet(t)) => c.spec_remap_taken(t),
            _ => false,
        }
    }

    open spec fn spec_remapped(&self, remap: Seq<(BoneId, BoneId)>, after: Self) -> bool {
        match (*self, after) {
            (RigEdit::Reparent(c), RigEdit::Reparent(t)) => c.spec_remapped(remap, t),
            (RigEdit::Delete(c), RigEdit::Delete(t)) => c.spec_remapped(remap, t),
            (RigEdit::SaveSet(c), RigEdit::SaveSet(t)) => c.spec_remapped(remap, t),
            (RigEdit::EditSet(c), RigEdit::EditSet(t)) => c.spec_remapped(remap, t),
            _ => false,
        }
    }

    open spec fn spec_fresh(&self) -> bool {
        match self {
            RigEdit::Reparent(c) => c.spec_fresh(),
            RigEdit::Delete(c) => c.spec_fresh(),
            RigEdit::SaveSet(c) => c.spec_fresh(),
            RigEdit::EditSet(c) => c.spec_fresh(),
        }
    }

    proof fn lemma_revert_undoes_apply(&self, before: Rig, after: Rig, applied: Self, back: Rig, reverted: Self) {
        match (*self, applied, reverted) {
            (RigEdit::Reparent(c), RigEdit::Reparent(a), RigEdit::Reparent(r)) => c.lemma_revert_undoes_apply(before, after, a, back, r),
            (RigEdit::Delete(c), RigEdit::Delete(a), RigEdit::Delete(r)) => c.lemma_revert_undoes_apply(before, after, a, back, r),
            (RigEdit::SaveSet(c), RigEdit::SaveSet(a), RigEdit::SaveSet(r)) => c.lemma_revert_undoes_apply(before, after, a, back, r),
            (RigEdit::EditSet(c), RigEdit::EditSet(a), RigEdit::EditSet(r)) => c.lemma_revert_undoes_apply(before, after, a, back, r),
            _ => {},
        }
    }

    proof fn lemma_apply_redoes_revert(
        &self,
        d0: Rig,
        d1: Rig,
        applied: Self,
        d2: Rig,
        reverted: Self,
        taken: Self,
        d3: Rig,
        reapplied: Self,
    ) {
        match (*self, applied, reverted, taken, reapplied) {
            (RigEdit::Reparent(c), RigEdit::Reparent(a), RigEdit::Reparent(r), RigEdit::Reparent(k), RigEdit::Reparent(p)) => c.lemma_apply_redoes_revert(d0, d1, a, d2, r, k, d3, p),
            (RigEdit::Delete(c), RigEdit::Delete(a), RigEdit::Delete(r), RigEdit::Delete(k), RigEdit::Delete(p)) => c.lemma_apply_redoes_revert(d0, d1, a, d2, r, k, d3, p),
            (RigEdit::SaveSet(c), RigEdit::SaveSet(a), RigEdit::SaveSet(r), RigEdit::SaveSet(k), RigEdit::SaveSet(p)) => c.lemma_apply_redoes_revert(d0, d1, a, d2, r, k, d3, p),
            (RigEdit::EditSet(c), RigEdit::EditSet(a), RigEdit::EditSet(r), RigEdit::EditSet(k), RigEdit::EditSet(p)) => c.lemma_apply_redoes_revert(d0, d1, a, d2, r, k, d3, p),
            _ => {},
        }
    }

    fn apply(&mut self, doc: &mut Rig) {
        match self {
            RigEdit::Reparent(c) => c.apply(doc),
            RigEdit::Delete(c) => c.apply(doc),
            RigEdit::SaveSet(c) => c.apply(doc),
            RigEdit::EditSet(c) => c.apply(doc),
        }
    }

    fn revert(&mut self, doc: &mut Rig) {
        match self {
            RigEdit::Reparent(c) => c.revert(doc),
            RigEdit::Delete(c) => c.revert(doc),
            RigEdit::SaveSet(c) => c.revert(doc),
            RigEdit::EditSet(c) => c.revert(doc),
        }
    }

    fn merge(&mut self, next: &Self) -> (b: bool) {
        false
    }

    fn label(&self) -> (l: &str) {
        match self {
            RigEdit::Reparent(c) => c.label(),
            RigEdit::Delete(c) => c.label(),
            RigEdit::SaveSet(c) => c.label(),
            RigEdit::EditSet(c) => c.label(),
        }
    }

    fn requires_mode(&self) -> (m: Option<WorkMode>) {
        match self {
            RigEdit::Reparent(c) => c.requires_mode(),
            RigEdit::Delete(c) => c.requires_mode(),
            RigEdit::SaveSet(c) => c.requires_mode(),
            RigEdit::EditSet(c) => c.requires_mode(),
        }
    }

    fn take_remap(&mut self) -> (r: IdRemap) {
        match self {
            RigEdit::Reparent(c) => c.take_remap(),
            RigEdit::Delete(c) => c.take_remap(),
            RigEdit::SaveSet(c) => c.take_remap(),
            RigEdit::EditSet(c) => c.take_remap(),
        }
    }

    fn apply_remap(&mut self, remap: &IdRemap) {
        match self {
            RigEdit::Reparent(c) => c.apply_remap(remap),
            RigEdit::Delete(c) => c.apply_remap(remap),
            RigEdit::SaveSet(c) => c.apply_remap(remap),
            RigEdit::EditSet(c) => c.apply_remap(remap),
        }
    }
}

} // verus!
