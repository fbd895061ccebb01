//! Named selection sets and the edits that change them.
//!
//! A set is document state, so creating, renaming or deleting one is an
//! undoable edit. Each edit snapshots the whole list on its first apply and
//! restores it on revert: the list is short, and an index-based inverse would
//! point at the wrong set the moment one above it was removed.

use crate::ids::BoneId;
use vstd::prelude::*;

verus! {

/// A named group of bones.
#[derive(Debug, Clone, PartialEq)]
pub struct SelectionSet {
    pub name: String,
    pub bones: Vec<BoneId>,
}

/// A set as a value: its name and its bones.
pub type SetView = (Seq<char>, Seq<BoneId>);

impl View for SelectionSet {
    type V = SetView;

    open spec fn view(&self) -> SetView {
        (self.name@, self.bones@)
    }
}

/// The views of a list of sets.
pub open spec fn set_views(v: Seq<SelectionSet>) -> Seq<SetView> {
    v.map_values(|s: SelectionSet| s@)
}

/// The bones of `bones` that are in `live`, in order.
pub open spec fn live_only(bones: Seq<BoneId>, live: Seq<BoneId>) -> Seq<BoneId>
    decreases bones.len(),
{
    if bones.len() == 0 {
        bones
    } else {
        let rest = live_only(bones.drop_last(), live);
        if live.contains(bones.last()) {
            rest.push(bones.last())
        } else {
            rest
        }
    }
}

/// The sets not named `name`, in order.
pub open spec fn without_name(s: Seq<SetView>, name: Seq<char>) -> Seq<SetView>
    decreases s.len(),
{
    if s.len() == 0 {
        s
    } else {
        let rest = without_name(s.drop_last(), name);
        if s.last().0 == name {
            rest
        } else {
            rest.push(s.last())
        }
    }
}

/// The list after saving `bones` as `name`: bones that no longer exist are
/// dropped; if none is left nothing changes; otherwise any set already named
/// `name` is replaced by the new one at the end.
pub open spec fn saved(s: Seq<SetView>, name: Seq<char>, bones: Seq<BoneId>, live: Seq<BoneId>) -> Seq<SetView> {
    let kept = live_only(bones, live);
    if kept.len() == 0 {
        s
    } else {
        without_name(s, name).push((name, kept))
    }
}

/// The rows of `s` kept after renaming row `target` to `name`: the renamed
/// row, and every row with another name.
pub open spec fn keep_renamed(s: Seq<SetView>, target: int, name: Seq<char>) -> Seq<SetView>
    decreases s.len(),
{
    if s.len() == 0 {
        s
    } else {
        let rest = keep_renamed(s.drop_last(), target, name);
        if s.len() - 1 == target || s.last().0 != name {
            rest.push(s.last())
        } else {
            rest
        }
    }
}

/// What a set edit does to one set.
#[derive(Debug, Clone, PartialEq)]
pub enum SetEdit {
    Rename(String),
    Remove,
}

/// The list after applying `edit` to the set at `index`; an index past the
/// end changes nothing. A rename onto another set's name drops that other
/// set, so no two rows read the same.
pub open spec fn edited(s: Seq<SetView>, index: int, edit: SetEdit) -> Seq<SetView> {
    if index < 0 || index >= s.len() {
        s
    } else {
        match edit {
            SetEdit::Rename(n) => keep_renamed(s.update(index, (n@, s[index].1)), index, n@),
            SetEdit::Remove => s.remove(index),
        }
    }
}

fn copy_sets(v: &Vec<SelectionSet>) -> (out: Vec<SelectionSet>)
    ensures
        set_views(out@) == set_views(v@),
{
    let mut out: Vec<SelectionSet> = Vec::new();
    let mut i: usize = 0;
    while i < v.len()
        invariant
            i <= v.len(),
            set_views(out@) == set_views(v@).take(i as int),
        decreases v.len() - i,
    {
        let bones = copy_bones(&v[i].bones);
        let ghost prev = out@;
        let item = SelectionSet { name: v[i].name.clone(), bones };
        assert(item@ == v@[i as int]@);
        out.push(item);
        proof {
            assert(out@ == prev.push(item));
            assert(set_views(out@) =~= set_views(prev).push(item@));
            assert(set_views(v@).take(i + 1) =~= set_views(v@).take(i as int).push(v@[i as int]@));
        }
        i += 1;
    }
    proof {
        assert(set_views(v@).take(v.len() as int) =~= set_views(v@));
    }
    out
}

fn copy_bones(v: &Vec<BoneId>) -> (out: Vec<BoneId>)
    ensures
        out@ == v@,
{
    let mut out: Vec<BoneId> = Vec::new();
    let mut i: usize = 0;
    while i < v.len()
        invariant
            i <= v.len(),
            out@ == v@.take(i as int),
        decreases v.len() - i,
    {
        out.push(v[i]);
        proof {
            assert(out@ =~= v@.take(i + 1));
        }
        i += 1;
    }
    proof {
        assert(v@.take(v.len() as int) =~= v@);
    }
    out
}

fn contains_bone(v: &Vec<BoneId>, b: BoneId) -> (r: bool)
    ensures
        r == v@.contains(b),
{
    let mut i: usize = 0;
    while i < v.len()
        invariant
            i <= v.len(),
            forall|j: int| 0 <= j < i ==> v@[j] != b,
        decreases v.len() - i,
    {
        if v[i] == b {
            proof {
                assert(v@[i as int] == b);
            }
            return true;
        }
        i += 1;
    }
    false
}

/// Save the given bones under a name, replacing any set already using it.
pub fn save_set(sets: &mut Vec<SelectionSet>, name: &str, bones: &Vec<BoneId>, live: &Vec<BoneId>)
    ensures
        set_views(final(sets)@) == saved(set_views(old(sets)@), name@, bones@, live@),
{
    let mut kept: Vec<BoneId> = Vec::new();
    let mut i: usize = 0;
    while i < bones.len()
        invariant
            i <= bones.len(),
            kept@ == live_only(bones@.take(i as int), live@),
        decreases bones.len() - i,
    {
        proof {
            assert(bones@.take(i + 1).drop_last() =~= bones@.take(i as int));
        }
        if contains_bone(live, bones[i]) {
            kept.push(bones[i]);
        }
        i += 1;
    }
    proof {
        assert(bones@.take(bones.len() as int) =~= bones@);
    }
    if kept.len() == 0 {
        return;
    }
    let n = name.to_owned();
    let mut out: Vec<SelectionSet> = Vec::new();
    let mut j: usize = 0;
    while j < sets.len()
        invariant
            j <= sets.len(),
            n@ == name@,
            set_views(out@) == without_name(set_views(sets@).take(j as int), name@),
        decreases sets.len() - j,
    {
        proof {
            assert(set_views(sets@).take(j + 1).drop_last() =~= set_views(sets@).take(j as int));
        }
        if !(sets[j].name == n) {
            let bones_j = copy_bones(&sets[j].bones);
            out.push(SelectionSet { name: sets[j].name.clone(), bones: bones_j });
            proof {
                assert(set_views(out@) =~= without_name(set_views(sets@).take(j as int), name@).push(sets@[j as int]@));
            }
        }
        j += 1;
    }
    proof {
        assert(set_views(sets@).take(sets.len() as int) =~= set_views(sets@));
    }
    out.push(SelectionSet { name: n, bones: kept });
    proof {
        assert(set_views(out@) =~= saved(set_views(old(sets)@), name@, bones@, live@));
    }
    *sets = out;
}

/// Rename or delete the set at `index`; an index past the end is a no-op.
pub fn edit_set(sets: &mut Vec<SelectionSet>, index: usize, edit: &SetEdit)
    ensures
        set_views(final(sets)@) == edited(set_views(old(sets)@), index as int, *edit),
{
    if index >= sets.len() {
        return;
    }
    match edit {
        SetEdit::Rename(name) => {
            let ghost s = set_views(sets@).update(index as int, (name@, sets@[index as int].bones@));
            let mut out: Vec<SelectionSet> = Vec::new();
            let mut j: usize = 0;
            while j < sets.len()
                invariant
                    j <= sets.len(),
                    index < sets.len(),
                    s == set_views(sets@).update(index as int, (name@, sets@[index as int].bones@)),
                    set_views(out@) == keep_renamed(s.take(j as int), index as int, name@),
                decreases sets.len() - j,
            {
                proof {
                    assert(s.take(j + 1).drop_last() =~= s.take(j as int));
                }
                if j == index {
                    let bones_j = copy_bones(&sets[j].bones);
                    out.push(SelectionSet { name: name.clone(), bones: bones_j });
                    proof {
                        assert(set_views(out@) =~= keep_renamed(s.take(j as int), index as int, name@).push(s[j as int]));
                    }
                } else if !(sets[j].name == *name) {
                    let bones_j = copy_bones(&sets[j].bones);
                    out.push(SelectionSet { name: sets[j].name.clone(), bones: bones_j });
                    proof {
                        assert(set_views(out@) =~= keep_renamed(s.take(j as int), index as int, name@).push(s[j as int]));
                    }
                }
                j += 1;
            }
            proof {
                assert(s.take(sets.len() as int) =~= s);
            }
            *sets = out;
        }
        SetEdit::Remove => {
            sets.remove(index);
            proof {
                assert(set_views(sets@) =~= set_views(old(sets)@).remove(index as int));
            }
        }
    }
}

/// Save the given bones under a name, as an undoable edit.
#[derive(Debug)]
pub struct SaveSelectionSet {
    pub name: String,
    pub bones: Vec<BoneId>,
    /// The list as it was before the first apply.
    pub before: Option<Vec<SelectionSet>>,
}

impl SaveSelectionSet {
    pub fn new(name: &str, bones: Vec<BoneId>) -> (c: SaveSelectionSet)
        ensures
            c.name@ == name@,
            c.bones@ == bones@,
            c.before is None,
    {
        SaveSelectionSet { name: name.to_owned(), bones, before: None }
    }

    /// Apply to the list: snapshot it on the first apply, then save.
    pub fn apply_to(&mut self, sets: &mut Vec<SelectionSet>, live: &Vec<BoneId>)
        ensures
            set_views(final(sets)@) == saved(set_views(old(sets)@), old(self).name@, old(self).bones@, live@),
            final(self).name == old(self).name,
            final(self).bones == old(self).bones,
            old(self).before is None ==> (final(self).before matches Some(b) && set_views(b@) == set_views(old(sets)@)),
            old(self).before is Some ==> final(self).before == old(self).before,
    {
        if self.before.is_none() {
            self.before = Some(copy_sets(sets));
        }
        save_set(sets, self.name.as_str(), &self.bones, live);
    }

    /// Restore the list to its state before the first apply.
    pub fn revert_to(&mut self, sets: &mut Vec<SelectionSet>)
        ensures
            old(self).before matches Some(b) ==> *final(sets) == b && final(self).before is None,
            old(self).before is None ==> *final(sets) == *old(sets) && *final(self) == *old(self),
            final(self).name == old(self).name,
            final(self).bones == old(self).bones,
    {
        match self.before.take() {
            Some(before) => {
                *sets = before;
            }
            None => {}
        }
    }
}

/// Rename or delete one set, by index, as an undoable edit.
#[derive(Debug)]
pub struct EditSelectionSet {
    pub index: usize,
    pub edit: SetEdit,
    /// The list as it was before the first apply that changed it.
    pub before: Option<Vec<SelectionSet>>,
}

impl EditSelectionSet {
    pub fn new(index: usize, edit: SetEdit) -> (c: EditSelectionSet)
        ensures
            c.index == index,
            c.edit == edit,
            c.before is None,
    {
        EditSelectionSet { index, edit, before: None }
    }

    /// Apply to the list: an index past the end does nothing; otherwise
    /// snapshot the list on the first apply, then edit.
    pub fn apply_to(&mut self, sets: &mut Vec<SelectionSet>)
        ensures
            set_views(final(sets)@) == edited(set_views(old(sets)@), old(self).index as int, old(self).edit),
            final(self).index == old(self).index,
            final(self).edit == old(self).edit,
            old(self).before is None && old(self).index < old(sets)@.len() ==> (final(self).before matches Some(b)
                && set_views(b@) == set_views(old(sets)@)),
            old(self).before is Some || old(self).index >= old(sets)@.len() ==> final(self).before == old(self).before,
    {
        if self.index >= sets.len() {
            return;
        }
        if self.before.is_none() {
            self.before = Some(copy_sets(sets));
        }
        edit_set(sets, self.index, &self.edit);
    }

    /// Restore the list to its state before the first apply.
    pub fn revert_to(&mut self, sets: &mut Vec<SelectionSet>)
        ensures
            old(self).before matches Some(b) ==> *final(sets) == b && final(self).before is None,
            old(self).before is None ==> *final(sets) == *old(sets) && *final(self) == *old(self),
            final(self).index == old(self).index,
            final(self).edit == old(self).edit,
    {
        match self.before.take() {
            Some(before) => {
                *sets = before;
            }
            None => {}
        }
    }
}


/// Removing the set at an index in range deletes exactly that row: the rows
/// before it stay where they were, the rows after it move up by one. An
/// index past the end changes nothing.
pub proof fn a_removal_deletes_exactly_its_row(s: Seq<SetView>, i: int)
    ensures
        (i < 0 || i >= s.len()) ==> edited(s, i, SetEdit::Remove) == s,
        0 <= i < s.len() ==> {
            let r = edited(s, i, SetEdit::Remove);
            &&& r.len() == s.len() - 1
            &&& forall|j: int| 0 <= j < i ==> #[trigger] r[j] == s[j]
            &&& forall|j: int| i <= j < r.len() ==> #[trigger] r[j] == s[j + 1]
        },
{
}

proof fn lemma_keep_renamed(u: Seq<SetView>, t: int, name: Seq<char>)
    ensures
        keep_renamed(u, t, name).len() <= u.len(),
        forall|x: SetView| #[trigger] keep_renamed(u, t, name).contains(x)
            <==> exists|j: int| 0 <= j < u.len() && #[trigger] u[j] == x && (j == t || u[j].0 != name),
    decreases u.len(),
{
    if u.len() > 0 {
        let d = u.drop_last();
        lemma_keep_renamed(d, t, name);
        let r = keep_renamed(d, t, name);
        let last = u.len() - 1;
        let keep = last == t || u.last().0 != name;
        assert forall|x: SetView| #[trigger] keep_renamed(u, t, name).contains(x)
            <==> exists|j: int| 0 <= j < u.len() && #[trigger] u[j] == x && (j == t || u[j].0 != name) by {
            if keep_renamed(u, t, name).contains(x) {
                let k = choose|k: int| 0 <= k < keep_renamed(u, t, name).len() && keep_renamed(u, t, name)[k] == x;
                if keep && k == r.len() {
                    assert(u[last] == x);
                } else {
                    assert(r[k] == x);
                    assert(r.contains(x));
                    let j = choose|j: int| 0 <= j < d.len() && #[trigger] d[j] == x && (j == t || d[j].0 != name);
                    assert(u[j] == x);
                }
            }
            if exists|j: int| 0 <= j < u.len() && #[trigger] u[j] == x && (j == t || u[j].0 != name) {
                let j = choose|j: int| 0 <= j < u.len() && #[trigger] u[j] == x && (j == t || u[j].0 != name);
                if j == last {
                    assert(keep_renamed(u, t, name)[r.len() as int] == x);
                } else {
                    assert(d[j] == x);
                    assert(r.contains(x));
                    let k = choose|k: int| 0 <= k < r.len() && r[k] == x;
                    if keep {
                        assert(keep_renamed(u, t, name)[k] == x);
                    }
                }
            }
        }
    }
}

/// Renaming the set at an index in range to `n` keeps that set's bones
/// under the new name; the only row named `n` afterwards is that one; every
/// other row with another name stays; and nothing else appears.
pub proof fn a_rename_keeps_the_bones_under_the_new_name(s: Seq<SetView>, i: int, n: String)
    requires
        0 <= i < s.len(),
    ensures
        ({
            let r = edited(s, i, SetEdit::Rename(n));
            &&& r.len() <= s.len()
            &&& r.contains((n@, s[i].1))
            &&& forall|k: int| 0 <= k < r.len() && (#[trigger] r[k]).0 == n@ ==> r[k] == (n@, s[i].1)
            &&& forall|j: int| 0 <= j < s.len() && j != i && (#[trigger] s[j]).0 != n@ ==> r.contains(s[j])
            &&& forall|x: SetView| #[trigger] r.contains(x) ==> x == (n@, s[i].1)
                || exists|j: int| 0 <= j < s.len() && j != i && #[trigger] s[j] == x
        }),
{
    let u = s.update(i, (n@, s[i].1));
    let r = edited(s, i, SetEdit::Rename(n));
    lemma_keep_renamed(u, i, n@);
    assert(u[i] == (n@, s[i].1));
    assert(r.contains((n@, s[i].1)));
    assert forall|k: int| 0 <= k < r.len() && (#[trigger] r[k]).0 == n@ implies r[k] == (n@, s[i].1) by {
        assert(r.contains(r[k]));
        let j = choose|j: int| 0 <= j < u.len() && #[trigger] u[j] == r[k] && (j == i || u[j].0 != n@);
    }
    assert forall|j: int| 0 <= j < s.len() && j != i && (#[trigger] s[j]).0 != n@ implies r.contains(s[j]) by {
        assert(u[j] == s[j]);
    }
    assert forall|x: SetView| #[trigger] r.contains(x) implies x == (n@, s[i].1)
        || exists|j: int| 0 <= j < s.len() && j != i && #[trigger] s[j] == x by {
        let j = choose|j: int| 0 <= j < u.len() && #[trigger] u[j] == x && (j == i || u[j].0 != n@);
        if j != i {
            assert(s[j] == x);
        }
    }
}

proof fn lemma_live_only(bones: Seq<BoneId>, live: Seq<BoneId>)
    ensures
        forall|x: BoneId| #[trigger] live_only(bones, live).contains(x) <==> (bones.contains(x) && live.contains(x)),
    decreases bones.len(),
{
    if bones.len() > 0 {
        let d = bones.drop_last();
        lemma_live_only(d, live);
        let r = live_only(d, live);
        assert forall|x: BoneId| #[trigger] live_only(bones, live).contains(x) <==> (bones.contains(x) && live.contains(x)) by {
            if live_only(bones, live).contains(x) {
                let k = choose|k: int| 0 <= k < live_only(bones, live).len() && live_only(bones, live)[k] == x;
                if live.contains(bones.last()) && k == r.len() {
                    assert(bones[bones.len() - 1] == x);
                } else {
                    assert(r[k] == x);
                    assert(r.contains(x));
                    let j = choose|j: int| 0 <= j < d.len() && d[j] == x;
                    assert(bones[j] == x);
                }
            }
            if bones.contains(x) && live.contains(x) {
                let j = choose|j: int| 0 <= j < bones.len() && bones[j] == x;
                if j == bones.len() - 1 {
                    assert(live_only(bones, live)[r.len() as int] == x);
                } else {
                    assert(d[j] == x);
                    assert(r.contains(x));
                    let k = choose|k: int| 0 <= k < r.len() && r[k] == x;
                    if live.contains(bones.last()) {
                        assert(live_only(bones, live)[k] == x);
                    }
                }
            }
        }
    }
}

proof fn lemma_without_name(s: Seq<SetView>, name: Seq<char>)
    ensures
        forall|x: SetView| #[trigger] without_name(s, name).contains(x) <==> (s.contains(x) && x.0 != name),
    decreases s.len(),
{
    if s.len() > 0 {
        let d = s.drop_last();
        lemma_without_name(d, name);
        let r = without_name(d, name);
        assert forall|x: SetView| #[trigger] without_name(s, name).contains(x) <==> (s.contains(x) && x.0 != name) by {
            if without_name(s, name).contains(x) {
                let k = choose|k: int| 0 <= k < without_name(s, name).len() && without_name(s, name)[k] == x;
                if s.last().0 != name && k == r.len() {
                    assert(s[s.len() - 1] == x);
                } else {
                    assert(r[k] == x);
                    assert(r.contains(x));
                    let j = choose|j: int| 0 <= j < d.len() && d[j] == x;
                    assert(s[j] == x);
                }
            }
            if s.contains(x) && x.0 != name {
                let j = choose|j: int| 0 <= j < s.len() && s[j] == x;
                if j == s.len() - 1 {
                    assert(without_name(s, name)[r.len() as int] == x);
                } else {
                    assert(d[j] == x);
                    assert(r.contains(x));
                    let k = choose|k: int| 0 <= k < r.len() && r[k] == x;
                    if s.last().0 != name {
                        assert(without_name(s, name)[k] == x);
                    }
                }
            }
        }
    }
}

/// Saving a set keeps only the bones that exist. When none does, nothing
/// changes. Otherwise the new set comes last, holding exactly the selected
/// bones that exist; no other row carries its name; every row with another
/// name stays; and nothing else appears.
pub proof fn saving_replaces_the_set_of_that_name(s: Seq<SetView>, name: Seq<char>, bones: Seq<BoneId>, live: Seq<BoneId>)
    ensures
        (forall|k: int| 0 <= k < bones.len() ==> !live.contains(#[trigger] bones[k])) ==> saved(s, name, bones, live) == s,
        (exists|k: int| 0 <= k < bones.len() && live.contains(#[trigger] bones[k])) ==> {
            let r = saved(s, name, bones, live);
            &&& r.len() >= 1
            &&& r.last().0 == name
            &&& forall|x: BoneId| #[trigger] r.last().1.contains(x) <==> (bones.contains(x) && live.contains(x))
            &&& forall|k: int| 0 <= k < r.len() - 1 ==> (#[trigger] r[k]).0 != name
            &&& forall|x: SetView| x.0 != name ==> (#[trigger] r.contains(x) <==> s.contains(x))
        },
{
    lemma_live_only(bones, live);
    lemma_without_name(s, name);
    let kept = live_only(bones, live);
    if forall|k: int| 0 <= k < bones.len() ==> !live.contains(#[trigger] bones[k]) {
        if kept.len() > 0 {
            assert(kept.contains(kept[0]));
            let j = choose|j: int| 0 <= j < bones.len() && bones[j] == kept[0];
            assert(!live.contains(bones[j]));
        }
    }
    if exists|k: int| 0 <= k < bones.len() && live.contains(#[trigger] bones[k]) {
        let k = choose|k: int| 0 <= k < bones.len() && live.contains(#[trigger] bones[k]);
        assert(bones.contains(bones[k]));
        assert(kept.contains(bones[k]));
        let w = without_name(s, name);
        let r = saved(s, name, bones, live);
        assert(r == w.push((name, kept)));
        assert forall|k: int| 0 <= k < r.len() - 1 implies (#[trigger] r[k]).0 != name by {
            assert(r[k] == w[k]);
            assert(w.contains(w[k]));
        }
        assert forall|x: SetView| x.0 != name implies (#[trigger] r.contains(x) <==> s.contains(x)) by {
            if r.contains(x) {
                let j = choose|j: int| 0 <= j < r.len() && r[j] == x;
                if j < w.len() {
                    assert(w[j] == x);
                    assert(w.contains(x));
                }
            }
            if s.contains(x) {
                assert(w.contains(x));
                let j = choose|j: int| 0 <= j < w.len() && w[j] == x;
                assert(r[j] == x);
            }
        }
    }
}

/// Saving keeps the selected bones that exist, in their selection order.
pub proof fn saving_keeps_the_live_bones_in_order(bones: Seq<BoneId>, live: Seq<BoneId>)
    ensures
        live_only(bones, live) == bones.filter(|b: BoneId| live.contains(b)),
    decreases bones.len(),
{
    reveal(Seq::filter);
    if bones.len() > 0 {
        saving_keeps_the_live_bones_in_order(bones.drop_last(), live);
    }
}

/// Saving over a name keeps every set with another name, in its old order.
pub proof fn saving_keeps_the_other_sets_in_order(s: Seq<SetView>, name: Seq<char>)
    ensures
        without_name(s, name) == s.filter(|x: SetView| x.0 != name),
    decreases s.len(),
{
    reveal(Seq::filter);
    if s.len() > 0 {
        saving_keeps_the_other_sets_in_order(s.drop_last(), name);
    }
}

} // verus!
