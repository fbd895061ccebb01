//! Named operators: the verbs of the editor, addressable by string id.
//!
//! An operator is a verb ("bone.create") rather than an instance of an edit.
//! Everything a plugin may extend is looked up by id, never called directly.
//!
//! Registering an id that is already taken pushes onto a per-id stack rather
//! than overwriting: the newest registration answers, and the one beneath it
//! stays reachable through [`Registry::shadowed`], so a plugin can wrap a
//! built-in instead of only replacing it.

use crate::args::{ArgError, Args, JsonValue};
use crate::history::WorkMode;
use vstd::prelude::*;

verus! {

/// A window an operator wants opened; the app owns the windows.
#[derive(Debug, Clone, Copy, PartialEq, Eq, Structural)]
pub enum UiRequest {
    Settings,
    Rename,
    Startup,
}

/// What an invocation did.
#[derive(Debug, Default, Clone, Copy, PartialEq, Eq, Structural)]
pub struct OpResult {
    /// Chrome to open, if any.
    pub ui: Option<UiRequest>,
}

impl OpResult {
    /// The operator did its work and needs nothing from the app.
    pub fn done() -> (r: OpResult)
        ensures
            r.ui is None,
    {
        OpResult { ui: None }
    }

    /// The operator wants a window opened.
    pub fn ui(request: UiRequest) -> (r: OpResult)
        ensures
            r.ui == Some(request),
    {
        OpResult { ui: Some(request) }
    }
}

/// A named, invocable editor action over editor state `S`.
///
/// Implementors are stateless descriptors shared by menu, keymap and plugin
/// callers.
pub trait Operator<S> {
    /// The id the operator answers to.
    spec fn spec_id(&self) -> Seq<char>;

    /// Whether the operator is applicable in `state`.
    spec fn spec_enabled(&self, state: S) -> bool;

    /// Stable dotted id: `"bone.create"`, `"edit.undo"`.
    fn id(&self) -> (id: &'static str)
        ensures
            id@ == self.spec_id(),
    ;

    /// Human-readable name for menus and the keymap editor.
    fn label(&self) -> &str;

    /// The work mode this operator may run in, or `None` for both. Unless
    /// an operator says otherwise, it runs in both.
    fn requires_mode(&self) -> (m: Option<WorkMode>)
        default_ensures
            m is None,
    {
        None
    }

    /// Whether invoking right now would do anything. Menus grey out on
    /// `false` and keybindings quietly no-op.
    fn enabled(&self, state: &S) -> (r: bool)
        ensures
            r == self.spec_enabled(*state),
    ;

    /// What arguments this takes, as JSON Schema, or null for none. Unless an
    /// operator says otherwise, it takes none.
    fn schema(&self) -> (s: JsonValue)
        default_ensures
            s is Null,
    {
        JsonValue::Null
    }

    /// Whether an invocation from `before` with `args` may leave the state
    /// as `after` and return `result`: what this operator does.
    spec fn spec_invoke(&self, before: S, args: Args, after: S, result: Result<OpResult, ArgError>) -> bool;

    /// Do the thing. `args` is empty for a keybinding or a menu click.
    fn invoke(&self, state: &mut S, args: &Args) -> (r: Result<OpResult, ArgError>)
        ensures
            self.spec_invoke(*old(state), *args, *final(state), r),
    ;
}

// ── Ordering ids ─────────────────────────────────────────────────────────────

/// `a` sorts before `b`, comparing characters by code point (the order a
/// `BTreeMap<&str, _>` keeps its keys in).
pub open spec fn id_lt(a: Seq<char>, b: Seq<char>) -> bool
    decreases a.len(),
{
    if a.len() == 0 {
        b.len() > 0
    } else if b.len() == 0 {
        false
    } else if a[0] != b[0] {
        a[0] < b[0]
    } else {
        id_lt(a.drop_first(), b.drop_first())
    }
}

proof fn lemma_id_lt_irreflexive(a: Seq<char>)
    ensures
        !id_lt(a, a),
    decreases a.len(),
{
    if a.len() > 0 {
        lemma_id_lt_irreflexive(a.drop_first());
    }
}

proof fn lemma_id_lt_transitive(a: Seq<char>, b: Seq<char>, c: Seq<char>)
    requires
        id_lt(a, b),
        id_lt(b, c),
    ensures
        id_lt(a, c),
    decreases a.len(),
{
    if a.len() > 0 && b.len() > 0 && c.len() > 0 {
        if a[0] == b[0] && b[0] == c[0] {
            lemma_id_lt_transitive(a.drop_first(), b.drop_first(), c.drop_first());
        }
    }
}

proof fn lemma_id_lt_total(a: Seq<char>, b: Seq<char>)
    ensures
        a == b || id_lt(a, b) || id_lt(b, a),
    decreases a.len(),
{
    if a.len() > 0 && b.len() > 0 && a[0] == b[0] {
        lemma_id_lt_total(a.drop_first(), b.drop_first());
        if a.drop_first() == b.drop_first() {
            assert(a =~= seq![a[0]] + a.drop_first());
            assert(b =~= seq![b[0]] + b.drop_first());
        }
    } else if a.len() == 0 && b.len() == 0 {
        assert(a =~= b);
    }
}

/// Does `a` sort before `b`?
fn id_less(a: &str, b: &str) -> (r: bool)
    ensures
        r == id_lt(a@, b@),
{
    let n = a.unicode_len();
    let m = b.unicode_len();
    let mut i: usize = 0;
    proof {
        assert(a@.skip(0) =~= a@);
        assert(b@.skip(0) =~= b@);
    }
    while i < n && i < m
        invariant
            n == a@.len(),
            m == b@.len(),
            i <= n,
            i <= m,
            id_lt(a@, b@) == id_lt(a@.skip(i as int), b@.skip(i as int)),
        decreases n - i,
    {
        let x = a.get_char(i);
        let y = b.get_char(i);
        proof {
            assert(a@.skip(i as int)[0] == x);
            assert(b@.skip(i as int)[0] == y);
            assert(a@.skip(i as int).drop_first() =~= a@.skip(i + 1));
            assert(b@.skip(i as int).drop_first() =~= b@.skip(i + 1));
        }
        if x != y {
            return x < y;
        }
        i += 1;
    }
    proof {
        if i == n {
            assert(a@.skip(i as int).len() == 0);
        } else {
            assert(b@.skip(i as int).len() == 0);
        }
    }
    i == n && i < m
}

// ── The registry ─────────────────────────────────────────────────────────────

/// Operators by id, with shadowing.
///
/// The ids are kept in a sorted `Vec` beside their stacks rather than as the
/// keys of a `BTreeMap<String, _>`: the map's specification in vstd says
/// nothing usable about `String` keys, while a sorted list keeps the same
/// order (ids listed ascending) and the same one-stack-per-id rule as an
/// invariant that is proved here.
pub struct Registry<O> {
    /// Registered ids, strictly ascending.
    ids: Vec<String>,
    /// `stacks[i]` holds everything registered under `ids[i]`, oldest first.
    stacks: Vec<Vec<O>>,
}

impl<O> Registry<O> {
    /// The registered ids, in order.
    pub closed spec fn id_seq(&self) -> Seq<Seq<char>> {
        self.ids@.map_values(|s: String| s@)
    }

    /// Internal consistency: one non-empty stack per id, ids strictly sorted.
    #[verifier::type_invariant]
    closed spec fn wf(&self) -> bool {
        &&& self.ids@.len() == self.stacks@.len()
        &&& forall|i: int, j: int| 0 <= i < j < self.ids@.len() ==> id_lt(#[trigger] self.ids@[i]@, #[trigger] self.ids@[j]@)
        &&& forall|i: int| 0 <= i < self.stacks@.len() ==> (#[trigger] self.stacks@[i])@.len() > 0
    }

    /// Where `id` sits among the registered ids (meaningful when registered).
    closed spec fn index_of(&self, id: Seq<char>) -> int {
        choose|i: int| 0 <= i < self.ids@.len() && (#[trigger] self.ids@[i])@ == id
    }

    /// Everything registered under `id`, oldest first; empty for an unknown id.
    pub closed spec fn stack(&self, id: Seq<char>) -> Seq<O> {
        if exists|i: int| 0 <= i < self.ids@.len() && (#[trigger] self.ids@[i])@ == id {
            self.stacks@[self.index_of(id)]@
        } else {
            Seq::empty()
        }
    }

    proof fn lemma_stack_at(&self, i: int)
        requires
            self.wf(),
            0 <= i < self.ids@.len(),
        ensures
            self.stack(self.ids@[i]@) == self.stacks@[i]@,
    {
        let id = self.ids@[i]@;
        assert(exists|j: int| 0 <= j < self.ids@.len() && (#[trigger] self.ids@[j])@ == id);
        let k = self.index_of(id);
        assert(0 <= k < self.ids@.len() && self.ids@[k]@ == id);
        if k < i {
            assert(id_lt(self.ids@[k]@, self.ids@[i]@));
            lemma_id_lt_irreflexive(id);
        } else if k > i {
            assert(id_lt(self.ids@[i]@, self.ids@[k]@));
            lemma_id_lt_irreflexive(id);
        }
        assert(k == i);
        assert(self.stack(id) == self.stacks@[k]@);
    }

    pub fn new() -> (r: Self)
        ensures
            forall|id: Seq<char>| r.stack(id).len() == 0,
    {
        Registry { ids: Vec::new(), stacks: Vec::new() }
    }

    /// The index of `id`, if registered.
    fn find(&self, id: &str) -> (r: Option<usize>)
        requires
            self.wf(),
        ensures
            r is None ==> self.stack(id@).len() == 0,
            r matches Some(i) ==> i < self.ids@.len() && self.ids@[i as int]@ == id@ && self.stack(id@)
                == self.stacks@[i as int]@,
    {
        let key = id.to_owned();
        let mut i: usize = 0;
        while i < self.ids.len()
            invariant
                self.wf(),
                i <= self.ids@.len(),
                key@ == id@,
                forall|j: int| 0 <= j < i ==> (#[trigger] self.ids@[j])@ != id@,
            decreases self.ids.len() - i,
        {
            if self.ids[i] == key {
                proof {
                    self.lemma_stack_at(i as int);
                }
                return Some(i);
            }
            i += 1;
        }
        None
    }

    /// The operator currently answering to `id`, or `None`.
    pub fn get(&self, id: &str) -> (r: Option<&O>)
        ensures
            r is None <==> self.stack(id@).len() == 0,
            r matches Some(op) ==> *op == self.stack(id@).last(),
    {
        proof {
            use_type_invariant(self);
        }
        match self.find(id) {
            Some(i) => {
                let n = self.stacks[i].len();
                Some(&self.stacks[i][n - 1])
            }
            None => None,
        }
    }

    /// The operator `id` would resolve to if the current one were removed —
    /// what a plugin calls to defer to the built-in it wrapped.
    pub fn shadowed(&self, id: &str) -> (r: Option<&O>)
        ensures
            r is None <==> self.stack(id@).len() < 2,
            r matches Some(op) ==> *op == self.stack(id@)[self.stack(id@).len() - 2],
    {
        proof {
            use_type_invariant(self);
        }
        match self.find(id) {
            Some(i) => {
                let n = self.stacks[i].len();
                if n >= 2 {
                    Some(&self.stacks[i][n - 2])
                } else {
                    None
                }
            }
            None => None,
        }
    }

    /// How many operators are registered under `id`, shadowed ones included.
    pub fn depth(&self, id: &str) -> (n: usize)
        ensures
            n == self.stack(id@).len(),
    {
        proof {
            use_type_invariant(self);
        }
        match self.find(id) {
            Some(i) => self.stacks[i].len(),
            None => 0,
        }
    }

    /// Every registered id, sorted.
    pub fn ids(&self) -> (r: Vec<&str>)
        ensures
            r@.len() == self.id_seq().len(),
            forall|i: int| 0 <= i < r@.len() ==> (#[trigger] r@[i])@ == self.id_seq()[i],
            forall|i: int, j: int| 0 <= i < j < r@.len() ==> id_lt(#[trigger] r@[i]@, #[trigger] r@[j]@),
            forall|id: Seq<char>|
                self.stack(id).len() > 0 <==> exists|i: int| 0 <= i < r@.len() && (#[trigger] r@[i])@ == id,
    {
        proof {
            use_type_invariant(self);
        }
        let mut out: Vec<&str> = Vec::new();
        let mut i: usize = 0;
        while i < self.ids.len()
            invariant
                self.wf(),
                i <= self.ids@.len(),
                out@.len() == i,
                forall|k: int| 0 <= k < i ==> (#[trigger] out@[k])@ == self.ids@[k]@,
            decreases self.ids.len() - i,
        {
            out.push(self.ids[i].as_str());
            i += 1;
        }
        proof {
            assert forall|id: Seq<char>|
                self.stack(id).len() > 0 <==> exists|i: int| 0 <= i < out@.len() && (#[trigger] out@[i])@ == id by {
                if self.stack(id).len() > 0 {
                    let k = choose|k: int| 0 <= k < self.ids@.len() && (#[trigger] self.ids@[k])@ == id;
                    assert(out@[k]@ == id);
                }
                if exists|i: int| 0 <= i < out@.len() && (#[trigger] out@[i])@ == id {
                    let k = choose|k: int| 0 <= k < out@.len() && (#[trigger] out@[k])@ == id;
                    self.lemma_stack_at(k);
                }
            }
        }
        out
    }
}

impl<O> Registry<O> {
    /// Add `op` under its own id, shadowing any operator already there.
    pub fn register<S>(&mut self, op: O)
        where O: Operator<S>,
        ensures
            forall|id: Seq<char>|
                #[trigger] final(self).stack(id) == if id == op.spec_id() {
                    old(self).stack(id).push(op)
                } else {
                    old(self).stack(id)
                },
    {
        proof {
            use_type_invariant(&*self);
        }
        let id = op.id();
        let ghost spec_id = op.spec_id();
        let ghost old_ids = self.ids@;
        let ghost old_stacks = self.stacks@;
        let mut taken: Registry<O> = Registry::new();
        std::mem::swap(&mut taken, self);
        let Registry { ids: mut ids, stacks: mut stacks } = taken;
        proof {
            assert(ids@ == old_ids && stacks@ == old_stacks);
        }
        // The first registered id that does not sort before `id`.
        let mut i: usize = 0;
        while i < ids.len() && id_less(ids[i].as_str(), id)
            invariant
                ids@ == old_ids,
                old(self).wf(),
                old(self).ids@ == old_ids,
                i <= ids@.len(),
                forall|j: int| 0 <= j < i ==> id_lt(#[trigger] ids@[j]@, id@),
            decreases ids.len() - i,
        {
            i += 1;
        }
        let key = id.to_owned();
        if i < ids.len() && ids[i] == key {
            let ghost before_i = stacks@[i as int];
            stacks[i].push(op);
            proof {
                assert forall|k: int| 0 <= k < stacks@.len() implies (#[trigger] stacks@[k])@.len() > 0 by {
                    if k != i {
                        assert(stacks@[k] == old_stacks[k]);
                    }
                }
            }
            *self = Registry { ids, stacks };
            proof {
                assert forall|id2: Seq<char>|
                    #[trigger] self.stack(id2) == if id2 == spec_id {
                        old(self).stack(id2).push(op)
                    } else {
                        old(self).stack(id2)
                    } by {
                    if id2 == spec_id {
                        self.lemma_stack_at(i as int);
                        old(self).lemma_stack_at(i as int);
                    } else if exists|k: int| 0 <= k < self.ids@.len() && (#[trigger] self.ids@[k])@ == id2 {
                        let k = choose|k: int| 0 <= k < self.ids@.len() && (#[trigger] self.ids@[k])@ == id2;
                        self.lemma_stack_at(k);
                        old(self).lemma_stack_at(k);
                    }
                }
            }
        } else {
            proof {
                if i < ids.len() {
                    lemma_id_lt_total(ids@[i as int]@, id@);
                }
            }
            let mut fresh: Vec<O> = Vec::new();
            fresh.push(op);
            ids.insert(i, key);
            stacks.insert(i, fresh);
            proof {
                let ids = ids@;
                assert forall|a: int, b: int| 0 <= a < b < ids.len() implies id_lt(#[trigger] ids[a]@, #[trigger] ids[b]@) by {
                    if b == i {
                        assert(ids[a] == old_ids[a]);
                    } else if a == i {
                        assert(ids[b] == old_ids[b - 1]);
                        if b - 1 > i {
                            lemma_id_lt_transitive(id@, old_ids[i as int]@, old_ids[b - 1]@);
                        }
                    } else if a < i && b > i {
                        assert(ids[a] == old_ids[a] && ids[b] == old_ids[b - 1]);
                    } else if b < i {
                        assert(ids[a] == old_ids[a] && ids[b] == old_ids[b]);
                    } else {
                        assert(ids[a] == old_ids[a - 1] && ids[b] == old_ids[b - 1]);
                    }
                }
                assert forall|k: int| 0 <= k < stacks@.len() implies (#[trigger] stacks@[k])@.len() > 0 by {
                    if k < i {
                        assert(stacks@[k] == old_stacks[k]);
                    } else if k > i {
                        assert(stacks@[k] == old_stacks[k - 1]);
                    }
                }
            }
            *self = Registry { ids, stacks };
            proof {
                assert forall|id2: Seq<char>|
                    #[trigger] self.stack(id2) == if id2 == spec_id {
                        old(self).stack(id2).push(op)
                    } else {
                        old(self).stack(id2)
                    } by {
                    if id2 == spec_id {
                        self.lemma_stack_at(i as int);
                        assert(self.stacks@[i as int]@ =~= Seq::<O>::empty().push(op));
                        assert forall|k: int| 0 <= k < old_ids.len() implies (#[trigger] old_ids[k])@ != id2 by {
                            if k < i {
                                lemma_id_lt_irreflexive(id2);
                            } else {
                                assert(id_lt(id@, old_ids[i as int]@));
                                if k > i {
                                    lemma_id_lt_transitive(id@, old_ids[i as int]@, old_ids[k]@);
                                }
                                lemma_id_lt_irreflexive(id2);
                            }
                        }
                    } else if exists|k: int| 0 <= k < old_ids.len() && (#[trigger] old_ids[k])@ == id2 {
                        let k = choose|k: int| 0 <= k < old_ids.len() && (#[trigger] old_ids[k])@ == id2;
                        old(self).lemma_stack_at(k);
                        if k < i {
                            assert(self.ids@[k] == old_ids[k]);
                            self.lemma_stack_at(k);
                        } else {
                            assert(self.ids@[k + 1] == old_ids[k]);
                            self.lemma_stack_at(k + 1);
                        }
                    } else {
                        assert forall|k: int| 0 <= k < self.ids@.len() implies (#[trigger] self.ids@[k])@ != id2 by {
                            if k < i {
                                assert(self.ids@[k] == old_ids[k]);
                            } else if k > i {
                                assert(self.ids@[k] == old_ids[k - 1]);
                            }
                        }
                    }
                }
            }
        }
    }

    /// Invoke `id` with arguments, reporting what went wrong.
    ///
    /// `Ok(None)`: unknown id, or the operator declined as inapplicable —
    /// nothing was attempted. `Err(_)`: the operator ran and could not read
    /// its arguments.
    pub fn try_invoke<S>(&self, id: &str, state: &mut S, args: &Args) -> (r: Result<Option<OpResult>, ArgError>)
        where O: Operator<S>,
        ensures
            self.stack(id@).len() == 0 ==> (r matches Ok(None)) && *final(state) == *old(state),
            self.stack(id@).len() > 0 && !self.stack(id@).last().spec_enabled(*old(state)) ==> (r matches Ok(None))
                && *final(state) == *old(state),
            self.stack(id@).len() > 0 && self.stack(id@).last().spec_enabled(*old(state)) ==> match r {
                Ok(Some(o)) => self.stack(id@).last().spec_invoke(*old(state), *args, *final(state), Ok(o)),
                Err(e) => self.stack(id@).last().spec_invoke(*old(state), *args, *final(state), Err(e)),
                Ok(None) => false,
            },
    {
        proof {
            use_type_invariant(self);
        }
        match self.get(id) {
            None => Ok(None),
            Some(op) => {
                if !op.enabled(state) {
                    return Ok(None);
                }
                match op.invoke(state, args) {
                    Ok(result) => Ok(Some(result)),
                    Err(e) => Err(e),
                }
            }
        }
    }

    /// Invoke `id` with no arguments, quietly: `None` when the id is unknown,
    /// the operator is disabled, or it needed an argument it did not get.
    pub fn invoke<S>(&self, id: &str, state: &mut S) -> (r: Option<OpResult>)
        where O: Operator<S>,
        ensures
            self.stack(id@).len() == 0 ==> r is None && *final(state) == *old(state),
            self.stack(id@).len() > 0 && !self.stack(id@).last().spec_enabled(*old(state)) ==> r is None
                && *final(state) == *old(state),
            self.stack(id@).len() > 0 && self.stack(id@).last().spec_enabled(*old(state)) ==> match r {
                Some(o) => self.stack(id@).last().spec_invoke(*old(state), Args(JsonValue::Null), *final(state), Ok(o)),
                None => exists|e: ArgError| #[trigger] self.stack(id@).last().spec_invoke(
                    *old(state),
                    Args(JsonValue::Null),
                    *final(state),
                    Err(e),
                ),
            },
    {
        proof {
            use_type_invariant(self);
        }
        match self.try_invoke(id, state, &Args::none()) {
            Ok(Some(result)) => Some(result),
            _ => None,
        }
    }
}

impl<O> Default for Registry<O> {
    fn default() -> (r: Self)
        ensures
            forall|id: Seq<char>| r.stack(id).len() == 0,
    {
        Self::new()
    }
}

} // verus!
