//! Undo/redo via the command pattern.
//!
//! Every mutation of the document goes through [`History::push`]. Commands
//! store the minimum needed to reverse themselves. A command may absorb its
//! successor through [`EditCommand::merge`], so a stream of same-target edits
//! (the frames of one drag) collapses into one undo step.

use crate::ids::BoneId;
use vstd::prelude::*;

verus! {

/// Setup edits what the rig *is*; Animate edits what it is *doing*.
#[derive(Clone, Copy, Debug, PartialEq, Eq, Hash, Structural)]
pub enum WorkMode {
    Setup,
    Animate,
}

/// The id `bone` has become under the id changes `m`: the target of the
/// first change from it, or `bone` itself.
pub open spec fn remapped_id(m: Seq<(BoneId, BoneId)>, bone: BoneId) -> BoneId {
    if exists|i: int| 0 <= i < m.len() && (#[trigger] m[i]).0 == bone {
        m[choose|i: int| 0 <= i < m.len() && (#[trigger] m[i]).0 == bone && forall|j: int| 0 <= j < i ==> (#[trigger] m[j]).0 != bone].1
    } else {
        bone
    }
}

/// Bone ids that changed identity because a command re-created an entity.
///
/// Undoing a delete hands the restored bone a new key; any other command still
/// holding the old key would silently no-op. After each apply/revert the
/// history collects these remaps and rewrites the rest of the stack.
#[derive(Debug, Default)]
pub struct IdRemap {
    pub bones: Vec<(BoneId, BoneId)>,
}

impl IdRemap {
    pub fn new() -> (r: IdRemap)
        ensures
            r.bones@.len() == 0,
    {
        IdRemap { bones: Vec::new() }
    }

    pub fn is_empty(&self) -> (r: bool)
        ensures
            r == (self.bones@.len() == 0),
    {
        self.bones.len() == 0
    }

    /// Record that `from` now lives under `to`.
    pub fn remap_bone(&mut self, from: BoneId, to: BoneId)
        ensures
            final(self).bones@ == old(self).bones@.push((from, to)),
    {
        self.bones.push((from, to));
    }

    /// The id `bone` has become: the target of the first remap from it, or
    /// `bone` itself.
    pub open spec fn spec_bone(self, bone: BoneId) -> BoneId {
        remapped_id(self.bones@, bone)
    }

    /// The id `bone` has become, or `bone` itself.
    pub fn bone(&self, bone: BoneId) -> (r: BoneId)
        ensures
            r == self.spec_bone(bone),
    {
        let mut i: usize = 0;
        while i < self.bones.len()
            invariant
                i <= self.bones.len(),
                forall|j: int| 0 <= j < i ==> (#[trigger] self.bones@[j]).0 != bone,
            decreases self.bones.len() - i,
        {
            if self.bones[i].0 == bone {
                proof {
                    let bs = self.bones@;
                    let c = choose|c: int|
                        0 <= c < bs.len() && (#[trigger] bs[c]).0 == bone
                            && forall|j: int| 0 <= j < c ==> (#[trigger] bs[j]).0 != bone;
                    assert(bs[i as int].0 == bone);
                    if c < i {
                        assert(bs[c].0 != bone);
                    }
                    if i < c {
                        assert(bs[i as int].0 != bone);
                    }
                }
                return self.bones[i].1;
            }
            i += 1;
        }
        bone
    }
}

/// A reversible edit to a document of type `D`.
///
/// What an edit does is stated by its own spec functions: each call's
/// `ensures` relates the command and the document before the call to both
/// after it, and the two proof obligations say that, for a command fresh
/// from its constructor, revert undoes apply and apply redoes revert, as far
/// as the document's view shows, whenever revert hands back no id remap.
pub trait EditCommand<D: View>: Sized {
    /// The work mode the command declares it may run in; `None` for both.
    spec fn spec_requires_mode(&self) -> Option<WorkMode>;

    /// Applying `self` to `before` may leave the document as `after` and the
    /// command as `then`.
    spec fn spec_applied(&self, before: D, after: D, then: Self) -> bool;

    /// Reverting `self` on `before` may leave the document as `after` and the
    /// command as `then`.
    spec fn spec_reverted(&self, before: D, after: D, then: Self) -> bool;

    /// Whether `self` absorbs `next` as the same logical edit continuing.
    spec fn spec_merges(&self, next: Self) -> bool;

    /// `then` is `self` after absorbing `next`.
    spec fn spec_absorbs(&self, next: Self, then: Self) -> bool;

    /// The name shown in the Edit menu.
    spec fn spec_label(&self) -> Seq<char>;

    /// The id changes (old key, new key) the last apply or revert made by
    /// re-creating bones under new keys.
    spec fn spec_pending_remap(&self) -> Seq<(BoneId, BoneId)>;

    /// `then` is the command once its pending remap has been handed over.
    spec fn spec_remap_taken(&self, then: Self) -> bool;

    /// Whether `after` is this command with its entity ids rewritten by the
    /// id changes `remap`.
    spec fn spec_remapped(&self, remap: Seq<(BoneId, BoneId)>, after: Self) -> bool;

    /// Whether the command holds nothing from an earlier apply, as a newly
    /// made command does.
    spec fn spec_fresh(&self) -> bool;

    /// Reverting what a fresh command just applied restores the document, as
    /// far as its view shows, when the revert re-created nothing under a new
    /// key.
    proof fn lemma_revert_undoes_apply(&self, before: D, after: D, applied: Self, back: D, reverted: Self)
        requires
            self.spec_fresh(),
            self.spec_applied(before, after, applied),
            applied.spec_reverted(after, back, reverted),
            reverted.spec_pending_remap().len() == 0,
        ensures
            back@ == before@,
    ;

    /// Applying again what was applied and then reverted gives the document
    /// the first apply gave, when the revert re-created nothing under a new
    /// key.
    proof fn lemma_apply_redoes_revert(
        &self,
        d0: D,
        d1: D,
        applied: Self,
        d2: D,
        reverted: Self,
        taken: Self,
        d3: D,
        reapplied: Self,
    )
        requires
            self.spec_fresh(),
            self.spec_applied(d0, d1, applied),
            applied.spec_reverted(d1, d2, reverted),
            reverted.spec_pending_remap().len() == 0,
            reverted.spec_remap_taken(taken),
            taken.spec_applied(d2, d3, reapplied),
        ensures
            d3@ == d1@,
    ;

    /// Apply the edit. Called once when dispatched, and again on redo.
    fn apply(&mut self, doc: &mut D)
        ensures
            old(self).spec_applied(*old(doc), *final(doc), *final(self)),
            final(self).spec_label() == old(self).spec_label(),
    ;

    /// Restore the document to its pre-`apply` state.
    fn revert(&mut self, doc: &mut D)
        ensures
            old(self).spec_reverted(*old(doc), *final(doc), *final(self)),
            final(self).spec_label() == old(self).spec_label(),
    ;

    /// Absorb `next` into `self` if they are the same logical edit continuing
    /// (successive frames of one drag). `false` keeps them separate and
    /// leaves `self` as it was.
    fn merge(&mut self, next: &Self) -> (b: bool)
        ensures
            b == old(self).spec_merges(*next),
            b ==> old(self).spec_absorbs(*next, *final(self)),
            !b ==> *final(self) == *old(self),
    ;

    /// Human-readable name for the Edit menu ("Undo Move Bone").
    fn label(&self) -> (l: &str)
        ensures
            l@ == self.spec_label(),
    ;

    /// The work mode this command may run in, or `None` when it is legal in
    /// both. Structural edits return `Some(WorkMode::Setup)`.
    fn requires_mode(&self) -> (m: Option<WorkMode>)
        ensures
            m == self.spec_requires_mode(),
    ;

    /// Hand over the ids this command just re-created under a new key.
    fn take_remap(&mut self) -> (r: IdRemap)
        ensures
            r.bones@ == old(self).spec_pending_remap(),
            old(self).spec_remap_taken(*final(self)),
            final(self).spec_label() == old(self).spec_label(),
    ;

    /// Rewrite any entity ids this command holds.
    fn apply_remap(&mut self, remap: &IdRemap)
        ensures
            old(self).spec_remapped(remap.bones@, *final(self)),
            final(self).spec_label() == old(self).spec_label(),
    ;
}

/// `s` with its oldest entry dropped when it is longer than `cap`.
pub open spec fn capped<C>(s: Seq<C>, cap: nat) -> Seq<C> {
    if s.len() > cap {
        s.drop_first()
    } else {
        s
    }
}

/// `after` is `before` with every step's ids rewritten by `remap`; an empty
/// remap leaves the steps as they are.
pub open spec fn remapped_all<D: View, C: EditCommand<D>>(before: Seq<C>, remap: Seq<(BoneId, BoneId)>, after: Seq<C>) -> bool {
    if remap.len() == 0 {
        after == before
    } else {
        &&& after.len() == before.len()
        &&& forall|i: int| 0 <= i < before.len() ==> #[trigger] before[i].spec_remapped(remap, after[i])
            && before[i].spec_label() == after[i].spec_label()
    }
}

/// The undo stack after recording the applied command `applied`: absorbed
/// into the newest step when that step merges it, otherwise appended with
/// the oldest step dropped past `cap`.
pub open spec fn recorded<D: View, C: EditCommand<D>>(before: Seq<C>, applied: C, cap: nat, after: Seq<C>) -> bool {
    if before.len() > 0 && before.last().spec_merges(applied) {
        exists|merged: C| #[trigger] before.last().spec_absorbs(applied, merged) && after == before.drop_last().push(merged)
    } else {
        after == capped(before.push(applied), cap)
    }
}

/// Bounded undo/redo stacks.
pub struct History<C> {
    undo: Vec<C>,
    redo: Vec<C>,
    cap: usize,
}

/// `push` of `cmd` took history `h0` and document `d0` to `h1` and `d1`:
/// `cmd` was applied once, the redo branch dropped, and the applied command —
/// under the same label — recorded.
pub open spec fn was_pushed<D: View, C: EditCommand<D>>(h0: History<C>, cmd: C, d0: D, h1: History<C>, d1: D) -> bool {
    &&& h1.redo_stack().len() == 0
    &&& h1.spec_cap() == h0.spec_cap()
    &&& exists|applied: C| #[trigger] cmd.spec_applied(d0, d1, applied)
        && applied.spec_label() == cmd.spec_label()
        && recorded::<D, C>(h0.undo_stack(), applied, h0.spec_cap(), h1.undo_stack())
}

/// `undo` took `h0` and `d0` to `h1` and `d1`, answering `done`: nothing at
/// all on an empty undo stack; otherwise the newest step was reverted, moved
/// to the redo stack once its remap was handed over, and that remap applied
/// to every step on both stacks.
pub open spec fn was_undone<D: View, C: EditCommand<D>>(h0: History<C>, d0: D, h1: History<C>, d1: D, done: bool) -> bool {
    if h0.undo_stack().len() == 0 {
        !done && h1 == h0 && d1 == d0
    } else {
        &&& done
        &&& h1.spec_cap() == h0.spec_cap()
        &&& exists|reverted: C, taken: C|
            #![trigger h0.undo_stack().last().spec_reverted(d0, d1, reverted), reverted.spec_remap_taken(taken)]
            h0.undo_stack().last().spec_reverted(d0, d1, reverted) && reverted.spec_remap_taken(taken)
            && remapped_all::<D, C>(h0.undo_stack().drop_last(), reverted.spec_pending_remap(), h1.undo_stack())
            && remapped_all::<D, C>(h0.redo_stack().push(taken), reverted.spec_pending_remap(), h1.redo_stack())
    }
}

/// `redo` took `h0` and `d0` to `h1` and `d1`, answering `done`: nothing at
/// all on an empty redo stack; otherwise the newest undone step was applied
/// again, moved back to the undo stack once its remap was handed over, and
/// that remap applied to every step on both stacks.
pub open spec fn was_redone<D: View, C: EditCommand<D>>(h0: History<C>, d0: D, h1: History<C>, d1: D, done: bool) -> bool {
    if h0.redo_stack().len() == 0 {
        !done && h1 == h0 && d1 == d0
    } else {
        &&& done
        &&& h1.spec_cap() == h0.spec_cap()
        &&& exists|applied: C, taken: C|
            #![trigger h0.redo_stack().last().spec_applied(d0, d1, applied), applied.spec_remap_taken(taken)]
            h0.redo_stack().last().spec_applied(d0, d1, applied) && applied.spec_remap_taken(taken)
            && remapped_all::<D, C>(h0.redo_stack().drop_last(), applied.spec_pending_remap(), h1.redo_stack())
            && remapped_all::<D, C>(h0.undo_stack().push(taken), applied.spec_pending_remap(), h1.undo_stack())
    }
}

impl<C> History<C> {
    /// The undo stack, oldest first.
    pub closed spec fn undo_stack(&self) -> Seq<C> {
        self.undo@
    }

    /// The redo stack, oldest first; its last entry is the next redo.
    pub closed spec fn redo_stack(&self) -> Seq<C> {
        self.redo@
    }

    /// How many undo steps are kept.
    pub closed spec fn spec_cap(&self) -> nat {
        self.cap as nat
    }

    /// Every recorded step fits in the bound: the redo stack only ever holds
    /// steps taken off the undo stack.
    #[verifier::type_invariant]
    spec fn fits(self) -> bool {
        self.undo@.len() + self.redo@.len() <= self.cap
    }

    pub fn new(cap: usize) -> (h: Self)
        ensures
            h.undo_stack().len() == 0,
            h.redo_stack().len() == 0,
            h.spec_cap() == cap,
    {
        History { undo: Vec::new(), redo: Vec::new(), cap }
    }

    /// Append `cmd` to the undo stack, dropping the oldest step past the cap.
    fn record(&mut self, cmd: C)
        requires
            old(self).redo_stack().len() == 0,
        ensures
            final(self).undo_stack() == capped(old(self).undo_stack().push(cmd), old(self).spec_cap()),
            final(self).redo_stack() == old(self).redo_stack(),
            final(self).spec_cap() == old(self).spec_cap(),
    {
        proof {
            use_type_invariant(&*self);
        }
        if self.cap == 0 {
            proof {
                assert(capped(old(self).undo@.push(cmd), 0) =~= Seq::<C>::empty());
                assert(self.undo@ =~= Seq::<C>::empty());
            }
            return;
        }
        let mut undo: Vec<C> = Vec::new();
        std::mem::swap(&mut undo, &mut self.undo);
        if undo.len() == self.cap {
            undo.remove(0);
        }
        undo.push(cmd);
        proof {
            assert(undo@ =~= capped(old(self).undo@.push(cmd), self.cap as nat));
        }
        self.undo = undo;
    }

    /// Empty the redo stack.
    fn clear_redo(&mut self)
        ensures
            final(self).redo_stack().len() == 0,
            final(self).undo_stack() == old(self).undo_stack(),
            final(self).spec_cap() == old(self).spec_cap(),
    {
        proof {
            use_type_invariant(&*self);
        }
        self.redo = Vec::new();
    }

    /// Record a command that has already been applied to the document.
    ///
    /// Drops the redo branch, and the oldest step once the cap is exceeded.
    pub fn push_applied(&mut self, cmd: C)
        ensures
            final(self).undo_stack() == capped(old(self).undo_stack().push(cmd), old(self).spec_cap()),
            final(self).redo_stack().len() == 0,
            final(self).spec_cap() == old(self).spec_cap(),
    {
        self.clear_redo();
        self.record(cmd);
    }

    pub fn can_undo(&self) -> (r: bool)
        ensures
            r == (self.undo_stack().len() > 0),
    {
        self.undo.len() > 0
    }

    pub fn can_redo(&self) -> (r: bool)
        ensures
            r == (self.redo_stack().len() > 0),
    {
        self.redo.len() > 0
    }

    /// Number of recorded undo steps — never more than the cap.
    pub fn undo_depth(&self) -> (n: usize)
        ensures
            n == self.undo_stack().len(),
            n <= self.spec_cap(),
    {
        proof {
            use_type_invariant(self);
        }
        self.undo.len()
    }
}

impl<C> History<C> {
    /// Apply `cmd` and record it for undo.
    ///
    /// If the newest undo step accepts `cmd` via `merge`, the two collapse
    /// into one step instead of stacking — `cmd` is applied first either way,
    /// so the document ends up in the same place. The redo branch is dropped.
    pub fn push<D>(&mut self, cmd: C, doc: &mut D)
        where C: EditCommand<D>, D: View,
        ensures
            was_pushed::<D, C>(*old(self), cmd, *old(doc), *final(self), *final(doc)),
    {
        proof {
            use_type_invariant(&*self);
        }
        let mut cmd = cmd;
        let ghost cmd0 = cmd;
        cmd.apply(doc);
        self.clear_redo();
        let mut undo: Vec<C> = Vec::new();
        std::mem::swap(&mut undo, &mut self.undo);
        let ghost before = undo@;
        let n = undo.len();
        if n > 0 {
            let mut top = undo.pop().unwrap();
            proof {
                assert(top == before.last());
            }
            let merged = top.merge(&cmd);
            undo.push(top);
            proof {
                assert(undo@ =~= before.drop_last().push(top));
            }
            if merged {
                self.undo = undo;
                proof {
                    assert(recorded::<D, C>(before, cmd, old(self).spec_cap(), self.undo@));
                    assert(cmd0.spec_applied(*old(doc), *doc, cmd));
                }
                return;
            }
            proof {
                assert(undo@ =~= before);
            }
        }
        self.undo = undo;
        self.record(cmd);
        proof {
            assert(cmd0.spec_applied(*old(doc), *doc, cmd));
        }
    }

    /// Apply `cmd` only if `mode` allows it.
    ///
    /// Returns `false` — leaving the document and both stacks untouched — when
    /// the command declares a mode that is not the current one.
    pub fn push_in_mode<D>(&mut self, cmd: C, doc: &mut D, mode: WorkMode) -> (pushed: bool)
        where C: EditCommand<D>, D: View,
        ensures
            pushed == match cmd.spec_requires_mode() {
                Some(required) => required == mode,
                None => true,
            },
            !pushed ==> *final(self) == *old(self) && *final(doc) == *old(doc),
            pushed ==> was_pushed::<D, C>(*old(self), cmd, *old(doc), *final(self), *final(doc)),
    {
        match cmd.requires_mode() {
            Some(required) => {
                if required != mode {
                    return false;
                }
            }
            None => {}
        }
        self.push(cmd, doc);
        true
    }

    /// Rewrite ids across the whole history after a command re-created an
    /// entity under a new key.
    fn broadcast_remap<D>(&mut self, remap: &IdRemap)
        where C: EditCommand<D>, D: View,
        ensures
            final(self).spec_cap() == old(self).spec_cap(),
            remapped_all::<D, C>(old(self).undo_stack(), remap.bones@, final(self).undo_stack()),
            remapped_all::<D, C>(old(self).redo_stack(), remap.bones@, final(self).redo_stack()),
    {
        proof {
            use_type_invariant(&*self);
        }
        if remap.is_empty() {
            return;
        }
        let mut undo: Vec<C> = Vec::new();
        std::mem::swap(&mut undo, &mut self.undo);
        let mut redo: Vec<C> = Vec::new();
        std::mem::swap(&mut redo, &mut self.redo);
        remap_steps::<D, C>(&mut undo, remap);
        remap_steps::<D, C>(&mut redo, remap);
        self.undo = undo;
        self.redo = redo;
    }

    /// Revert the newest step and move it to the redo stack. `false`, with
    /// nothing touched, when there is nothing to undo.
    pub fn undo<D>(&mut self, doc: &mut D) -> (done: bool)
        where C: EditCommand<D>, D: View,
        ensures
            was_undone::<D, C>(*old(self), *old(doc), *final(self), *final(doc), done),
            done ==> final(self).redo_stack().last().spec_label() == old(self).undo_stack().last().spec_label(),
    {
        proof {
            use_type_invariant(&*self);
        }
        if self.undo.len() == 0 {
            return false;
        }
        let mut undo: Vec<C> = Vec::new();
        std::mem::swap(&mut undo, &mut self.undo);
        let mut redo: Vec<C> = Vec::new();
        std::mem::swap(&mut redo, &mut self.redo);
        let ghost before = undo@;
        let mut cmd = undo.pop().unwrap();
        proof {
            assert(cmd == before.last());
            assert(undo@ =~= before.drop_last());
        }
        let ghost top = cmd;
        cmd.revert(doc);
        let ghost reverted = cmd;
        let remap = cmd.take_remap();
        let ghost taken = cmd;
        redo.push(cmd);
        self.undo = undo;
        self.redo = redo;
        let ghost mid_undo = self.undo@;
        let ghost mid_redo = self.redo@;
        proof {
            assert(mid_redo == old(self).redo@.push(taken));
            assert(mid_undo == old(self).undo@.drop_last());
        }
        self.broadcast_remap::<D>(&remap);
        proof {
            assert(top.spec_reverted(*old(doc), *doc, reverted));
            assert(reverted.spec_remap_taken(taken));
            assert(remapped_all::<D, C>(mid_undo, reverted.spec_pending_remap(), self.undo@));
            assert(remapped_all::<D, C>(mid_redo, reverted.spec_pending_remap(), self.redo@));
            let last = mid_redo.len() - 1;
            assert(mid_redo[last] == taken);
            if remap.bones@.len() > 0 {
                assert(mid_redo[last].spec_remapped(remap.bones@, self.redo@[last]));
            }
            assert(self.redo@.last().spec_label() == taken.spec_label());
        }
        true
    }

    /// Re-apply the newest undone step and move it back to the undo stack.
    /// `false`, with nothing touched, when there is nothing to redo.
    pub fn redo<D>(&mut self, doc: &mut D) -> (done: bool)
        where C: EditCommand<D>, D: View,
        ensures
            was_redone::<D, C>(*old(self), *old(doc), *final(self), *final(doc), done),
            done ==> final(self).undo_stack().last().spec_label() == old(self).redo_stack().last().spec_label(),
    {
        proof {
            use_type_invariant(&*self);
        }
        if self.redo.len() == 0 {
            return false;
        }
        let mut undo: Vec<C> = Vec::new();
        std::mem::swap(&mut undo, &mut self.undo);
        let mut redo: Vec<C> = Vec::new();
        std::mem::swap(&mut redo, &mut self.redo);
        let ghost before = redo@;
        let mut cmd = redo.pop().unwrap();
        proof {
            assert(cmd == before.last());
            assert(redo@ =~= before.drop_last());
        }
        let ghost top = cmd;
        cmd.apply(doc);
        let ghost applied = cmd;
        let remap = cmd.take_remap();
        let ghost taken = cmd;
        undo.push(cmd);
        self.redo = redo;
        self.undo = undo;
        let ghost mid_undo = self.undo@;
        let ghost mid_redo = self.redo@;
        proof {
            assert(mid_undo == old(self).undo@.push(taken));
            assert(mid_redo == old(self).redo@.drop_last());
        }
        self.broadcast_remap::<D>(&remap);
        proof {
            assert(top.spec_applied(*old(doc), *doc, applied));
            assert(applied.spec_remap_taken(taken));
            assert(remapped_all::<D, C>(mid_undo, applied.spec_pending_remap(), self.undo@));
            assert(remapped_all::<D, C>(mid_redo, applied.spec_pending_remap(), self.redo@));
            let last = mid_undo.len() - 1;
            assert(mid_undo[last] == taken);
            if remap.bones@.len() > 0 {
                assert(mid_undo[last].spec_remapped(remap.bones@, self.undo@[last]));
            }
            assert(self.undo@.last().spec_label() == taken.spec_label());
        }
        true
    }

    /// Label of the next undo step, for the Edit menu.
    pub fn undo_label<D>(&self) -> (l: Option<&str>)
        where C: EditCommand<D>, D: View,
        ensures
            l is Some <==> self.undo_stack().len() > 0,
            l matches Some(s) ==> s@ == self.undo_stack().last().spec_label(),
    {
        let n = self.undo.len();
        if n > 0 {
            Some(self.undo[n - 1].label())
        } else {
            None
        }
    }

    /// Label of the next redo step.
    pub fn redo_label<D>(&self) -> (l: Option<&str>)
        where C: EditCommand<D>, D: View,
        ensures
            l is Some <==> self.redo_stack().len() > 0,
            l matches Some(s) ==> s@ == self.redo_stack().last().spec_label(),
    {
        let n = self.redo.len();
        if n > 0 {
            Some(self.redo[n - 1].label())
        } else {
            None
        }
    }
}

/// Rewrite every step's ids by `remap`.
fn remap_steps<D: View, C: EditCommand<D>>(steps: &mut Vec<C>, remap: &IdRemap)
    requires
        remap.bones@.len() > 0,
    ensures
        remapped_all::<D, C>(old(steps)@, remap.bones@, final(steps)@),
{
    let mut i: usize = 0;
    while i < steps.len()
        invariant
            i <= steps.len(),
            steps@.len() == old(steps)@.len(),
            forall|k: int| 0 <= k < i ==> #[trigger] old(steps)@[k].spec_remapped(remap.bones@, steps@[k])
                && old(steps)@[k].spec_label() == steps@[k].spec_label(),
            forall|k: int| i <= k < steps@.len() ==> #[trigger] steps@[k] == old(steps)@[k],
        decreases steps.len() - i,
    {
        steps[i].apply_remap(remap);
        i += 1;
    }
}

// ── Laws ─────────────────────────────────────────────────────────────────────

/// Pushing a fresh command that nothing merges, undoing it and redoing it:
/// the undo restores the document as it was before the push, and the redo
/// the document as the push left it — unless the undo re-created something
/// under a new key.
pub proof fn push_undo_redo_restores<D: View, C: EditCommand<D>>(
    h0: History<C>,
    cmd: C,
    d0: D,
    h1: History<C>,
    d1: D,
    h2: History<C>,
    d2: D,
    undid: bool,
    h3: History<C>,
    d3: D,
    redid: bool,
)
    requires
        h0.spec_cap() > 0,
        cmd.spec_fresh(),
        !(h0.undo_stack().len() > 0 && exists|applied: C|
            #[trigger] cmd.spec_applied(d0, d1, applied) && h0.undo_stack().last().spec_merges(applied)),
        was_pushed::<D, C>(h0, cmd, d0, h1, d1),
        was_undone::<D, C>(h1, d1, h2, d2, undid),
        was_redone::<D, C>(h2, d2, h3, d3, redid),
    ensures
        undid,
        redid,
        (d2@ == d0@ && d3@ == d1@) || exists|reverted: C|
            #[trigger] h1.undo_stack().last().spec_reverted(d1, d2, reverted) && reverted.spec_pending_remap().len() > 0,
{
    let applied = choose|applied: C| #[trigger] cmd.spec_applied(d0, d1, applied)
        && applied.spec_label() == cmd.spec_label()
        && recorded::<D, C>(h0.undo_stack(), applied, h0.spec_cap(), h1.undo_stack());
    assert(h1.undo_stack() == capped(h0.undo_stack().push(applied), h0.spec_cap()));
    assert(h1.undo_stack().len() > 0);
    assert(h1.undo_stack().last() == applied);
    let (reverted, taken) = choose|reverted: C, taken: C|
        #![trigger h1.undo_stack().last().spec_reverted(d1, d2, reverted), reverted.spec_remap_taken(taken)]
        h1.undo_stack().last().spec_reverted(d1, d2, reverted) && reverted.spec_remap_taken(taken)
            && remapped_all::<D, C>(h1.undo_stack().drop_last(), reverted.spec_pending_remap(), h2.undo_stack())
            && remapped_all::<D, C>(h1.redo_stack().push(taken), reverted.spec_pending_remap(), h2.redo_stack());
    if reverted.spec_pending_remap().len() == 0 {
        cmd.lemma_revert_undoes_apply(d0, d1, applied, d2, reverted);
        assert(h2.redo_stack() == h1.redo_stack().push(taken));
        assert(h2.redo_stack().last() == taken);
        let (reapplied, again) = choose|reapplied: C, again: C|
            #![trigger h2.redo_stack().last().spec_applied(d2, d3, reapplied), reapplied.spec_remap_taken(again)]
            h2.redo_stack().last().spec_applied(d2, d3, reapplied) && reapplied.spec_remap_taken(again)
                && remapped_all::<D, C>(h2.redo_stack().drop_last(), reapplied.spec_pending_remap(), h3.redo_stack())
                && remapped_all::<D, C>(h2.undo_stack().push(again), reapplied.spec_pending_remap(), h3.undo_stack());
        cmd.lemma_apply_redoes_revert(d0, d1, applied, d2, reverted, taken, d3, reapplied);
    }
}

} // verus!
