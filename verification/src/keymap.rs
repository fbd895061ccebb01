//! Key bindings as data.
//!
//! A binding names an operator by id rather than pointing at a function, so a
//! plugin that shadows `edit.undo` inherits every key bound to it, and a keymap
//! written by a user survives a plugin being installed or removed. A binding
//! for an id nobody answers to is kept and simply resolves to nothing.
//!
//! Modifiers are matched exactly: a binding for `S` does not fire on `Ctrl+S`.

use crate::keys::{Chord, Key, Modifiers, KEY_COUNT};
use crate::registry::Registry;
use vstd::prelude::*;

verus! {

/// The input state of one egui frame. Opaque here: it is read only through
/// `held_modifiers` and `key_pressed_at`.
#[verifier::external_type_specification]
#[verifier::external_body]
pub struct ExInputState(egui::InputState);

/// Reads the `modifiers` field of an `egui::InputState`, keeping its alt,
/// ctrl and shift flags.
///
/// Trusted, and nothing is stated of the result: it is whatever the frame's
/// input events left held.
#[verifier::external_body]
fn held_modifiers(input: &egui::InputState) -> Modifiers {
    Modifiers { alt: input.modifiers.alt, ctrl: input.modifiers.ctrl, shift: input.modifiers.shift }
}

/// Calls `egui::InputState::key_pressed` for the key at position `index` of
/// `egui::Key::ALL`.
///
/// Trusted, and nothing is stated of the result: it depends on the key
/// events the frame received.
#[verifier::external_body]
fn key_pressed_at(input: &egui::InputState, index: u8) -> bool
    requires
        index < KEY_COUNT,
{
    input.key_pressed(egui::Key::ALL[index as usize])
}

/// One row of the table.
#[derive(Clone, Debug)]
pub struct Binding {
    pub chord: Chord,
    /// The operator id this fires. Not validated on load.
    pub operator: String,
    /// Fire even while a text field has focus.
    pub while_typing: bool,
}

/// A binding as a mathematical value: chord, operator id, while-typing flag.
pub type BindingView = (Chord, Seq<char>, bool);

impl View for Binding {
    type V = BindingView;

    open spec fn view(&self) -> BindingView {
        (self.chord, self.operator@, self.while_typing)
    }
}

/// The full set of bindings, in table order.
#[derive(Clone, Debug)]
pub struct Keymap {
    bindings: Vec<Binding>,
}

impl View for Keymap {
    type V = Seq<BindingView>;

    closed spec fn view(&self) -> Seq<BindingView> {
        self.bindings@.map_values(|b: Binding| b@)
    }
}

// ── Searching the table ──────────────────────────────────────────────────────

/// Some row fires `op`.
pub open spec fn has_op(s: Seq<BindingView>, op: Seq<char>) -> bool {
    exists|i: int| 0 <= i < s.len() && #[trigger] s[i].1 == op
}

/// Some row is bound to `c`.
pub open spec fn has_chord(s: Seq<BindingView>, c: Chord) -> bool {
    exists|i: int| 0 <= i < s.len() && #[trigger] s[i].0 == c
}

/// `i` is the first row that fires `op`.
pub open spec fn is_first_op(s: Seq<BindingView>, op: Seq<char>, i: int) -> bool {
    &&& 0 <= i < s.len()
    &&& s[i].1 == op
    &&& forall|j: int| 0 <= j < i ==> #[trigger] s[j].1 != op
}

/// `i` is the first row bound to `c`.
pub open spec fn is_first_chord(s: Seq<BindingView>, c: Chord, i: int) -> bool {
    &&& 0 <= i < s.len()
    &&& s[i].0 == c
    &&& forall|j: int| 0 <= j < i ==> #[trigger] s[j].0 != c
}

/// The first row that fires `op` (meaningful when `has_op`).
pub open spec fn first_op(s: Seq<BindingView>, op: Seq<char>) -> int {
    choose|i: int| is_first_op(s, op, i)
}

/// The first row bound to `c` (meaningful when `has_chord`).
pub open spec fn first_chord(s: Seq<BindingView>, c: Chord) -> int {
    choose|i: int| is_first_chord(s, c, i)
}

/// The rows that do not fire `op`, in order.
pub open spec fn without_op(s: Seq<BindingView>, op: Seq<char>) -> Seq<BindingView> {
    rows_except(s, fires_op(op))
}

/// The rows not bound to `c`, in order.
pub open spec fn without_chord(s: Seq<BindingView>, c: Chord) -> Seq<BindingView> {
    rows_except(s, bound_to(c))
}

/// The rows of `s` for which `gone` does not hold, in order.
pub open spec fn rows_except(s: Seq<BindingView>, gone: spec_fn(BindingView) -> bool) -> Seq<BindingView>
    decreases s.len(),
{
    if s.len() == 0 {
        s
    } else {
        let rest = rows_except(s.drop_last(), gone);
        if gone(s.last()) {
            rest
        } else {
            rest.push(s.last())
        }
    }
}

/// A row fires `op`.
pub open spec fn fires_op(op: Seq<char>) -> spec_fn(BindingView) -> bool {
    |b: BindingView| b.1 == op
}

/// A row is bound to `c`.
pub open spec fn bound_to(c: Chord) -> spec_fn(BindingView) -> bool {
    |b: BindingView| b.0 == c
}

/// No two rows share a chord: one chord fires one operator.
pub open spec fn chords_unique(s: Seq<BindingView>) -> bool {
    forall|i: int, j: int| 0 <= i < j < s.len() ==> #[trigger] s[i].0 != #[trigger] s[j].0
}

proof fn lemma_first_op_is(s: Seq<BindingView>, op: Seq<char>, i: int)
    requires
        is_first_op(s, op, i),
    ensures
        first_op(s, op) == i,
{
    let k = first_op(s, op);
    assert(is_first_op(s, op, k));
    if k < i {
        assert(s[k].1 != op);
    } else if i < k {
        assert(s[i].1 != op);
    }
}

proof fn lemma_first_chord_is(s: Seq<BindingView>, c: Chord, i: int)
    requires
        is_first_chord(s, c, i),
    ensures
        first_chord(s, c) == i,
{
    let k = first_chord(s, c);
    assert(is_first_chord(s, c, k));
    if k < i {
        assert(s[k].0 != c);
    } else if i < k {
        assert(s[i].0 != c);
    }
}

/// When some row fires `op`, a first such row exists.
proof fn lemma_first_op_exists(s: Seq<BindingView>, op: Seq<char>, i: int)
    requires
        0 <= i < s.len(),
        s[i].1 == op,
    ensures
        is_first_op(s, op, first_op(s, op)),
    decreases i,
{
    if exists|j: int| 0 <= j < i && #[trigger] s[j].1 == op {
        let j = choose|j: int| 0 <= j < i && #[trigger] s[j].1 == op;
        lemma_first_op_exists(s, op, j);
    } else {
        assert(is_first_op(s, op, i));
    }
}

/// When some row is bound to `c`, a first such row exists.
proof fn lemma_first_chord_exists(s: Seq<BindingView>, c: Chord, i: int)
    requires
        0 <= i < s.len(),
        s[i].0 == c,
    ensures
        is_first_chord(s, c, first_chord(s, c)),
    decreases i,
{
    if exists|j: int| 0 <= j < i && #[trigger] s[j].0 == c {
        let j = choose|j: int| 0 <= j < i && #[trigger] s[j].0 == c;
        lemma_first_chord_exists(s, c, j);
    } else {
        assert(is_first_chord(s, c, i));
    }
}

/// Dropping rows keeps exactly the rows `gone` does not hold of.
proof fn lemma_rows_except_members(s: Seq<BindingView>, gone: spec_fn(BindingView) -> bool)
    ensures
        forall|x: BindingView| #[trigger] rows_except(s, gone).contains(x) <==> (s.contains(x) && !gone(x)),
        rows_except(s, gone).len() <= s.len(),
    decreases s.len(),
{
    if s.len() > 0 {
        lemma_rows_except_members(s.drop_last(), gone);
        let rest = rows_except(s.drop_last(), gone);
        assert forall|x: BindingView| #[trigger] rows_except(s, gone).contains(x) <==> (s.contains(x) && !gone(x)) by {
            if s.contains(x) && !gone(x) {
                let i = choose|i: int| 0 <= i < s.len() && s[i] == x;
                if i < s.len() - 1 {
                    assert(s.drop_last()[i] == x);
                    assert(rest.contains(x));
                    if !gone(s.last()) {
                        let k = choose|k: int| 0 <= k < rest.len() && rest[k] == x;
                        assert(rest.push(s.last())[k] == x);
                    }
                } else {
                    assert(rest.push(s.last())[rest.len() as int] == x);
                }
            }
            if rows_except(s, gone).contains(x) {
                if !gone(s.last()) && x == s.last() {
                    assert(s[s.len() - 1] == x);
                } else {
                    if !gone(s.last()) {
                        let k = choose|k: int| 0 <= k < rest.len() + 1 && rest.push(s.last())[k] == x;
                        assert(rest[k] == x);
                    }
                    assert(rest.contains(x));
                    let k = choose|k: int| 0 <= k < s.len() - 1 && s.drop_last()[k] == x;
                    assert(s[k] == x);
                }
            }
        }
    }
}

/// The view of each binding in `v`, in order.
pub open spec fn views(v: Seq<Binding>) -> Seq<BindingView> {
    v.map_values(|b: Binding| b@)
}

/// The shipped bindings, in table order.
pub open spec fn builtin_view() -> Seq<BindingView> {
    seq![
        (Chord { key: Key::Z, ctrl: true, shift: false, alt: false }, "edit.undo"@, true),
        (Chord { key: Key::Z, ctrl: true, shift: true, alt: false }, "edit.redo"@, true),
        (Chord { key: Key::Y, ctrl: true, shift: false, alt: false }, "edit.redo"@, true),
        (Chord { key: Key::C, ctrl: true, shift: false, alt: false }, "edit.copy"@, false),
        (Chord { key: Key::C, ctrl: true, shift: true, alt: false }, "edit.copy_pose"@, false),
        (Chord { key: Key::V, ctrl: true, shift: false, alt: false }, "edit.paste"@, false),
        (Chord { key: Key::V, ctrl: true, shift: true, alt: false }, "edit.paste_mirrored"@, false),
        (Chord { key: Key::D, ctrl: true, shift: false, alt: false }, "edit.duplicate"@, false),
        (Chord { key: Key::F2, ctrl: false, shift: false, alt: false }, "edit.rename"@, false),
        (Chord { key: Key::Tab, ctrl: false, shift: false, alt: false }, "mode.toggle"@, false),
        (Chord { key: Key::K, ctrl: false, shift: false, alt: false }, "anim.key_pose"@, false),
        (Chord { key: Key::M, ctrl: false, shift: false, alt: false }, "anim.add_marker"@, false),
        (Chord { key: Key::V, ctrl: false, shift: false, alt: false }, "tool.select"@, false),
        (Chord { key: Key::B, ctrl: false, shift: false, alt: false }, "tool.create_bone"@, false),
        (Chord { key: Key::W, ctrl: false, shift: false, alt: false }, "tool.weight_paint"@, false),
        (Chord { key: Key::T, ctrl: false, shift: false, alt: false }, "gizmo.translate"@, false),
        (Chord { key: Key::R, ctrl: false, shift: false, alt: false }, "gizmo.rotate"@, false),
        (Chord { key: Key::S, ctrl: false, shift: false, alt: false }, "gizmo.scale"@, false),
        (Chord { key: Key::H, ctrl: false, shift: false, alt: false }, "gizmo.shear"@, false),
        (Chord { key: Key::Num1, ctrl: false, shift: false, alt: false }, "view.toggle_artwork"@, false),
        (Chord { key: Key::Num2, ctrl: false, shift: false, alt: false }, "view.toggle_bones"@, false),
        (Chord { key: Key::Comma, ctrl: true, shift: false, alt: false }, "app.settings"@, false),
    ]
}

/// Whether a binding newly given to `op` fires while typing: whatever the
/// operator's first existing binding says, else what the built-in table says
/// about it, else no.
pub open spec fn inherited_while_typing(s: Seq<BindingView>, op: Seq<char>) -> bool {
    if has_op(s, op) {
        s[first_op(s, op)].2
    } else if has_op(builtin_view(), op) {
        builtin_view()[first_op(builtin_view(), op)].2
    } else {
        false
    }
}

/// `s` after giving `op` the additional chord `c`.
pub open spec fn added_binding(s: Seq<BindingView>, c: Chord, op: Seq<char>) -> Seq<BindingView> {
    without_chord(s, c).push((c, op, inherited_while_typing(s, op)))
}

/// `s` after restoring, one built-in row of `op` at a time, the rows of `bl`.
pub open spec fn reset_fold(s: Seq<BindingView>, bl: Seq<BindingView>, op: Seq<char>) -> Seq<BindingView>
    decreases bl.len(),
{
    if bl.len() == 0 {
        s
    } else {
        let before = reset_fold(s, bl.drop_last(), op);
        let b = bl.last();
        if b.1 == op {
            without_chord(before, b.0).push(b)
        } else {
            before
        }
    }
}

/// `s` after adopting, in order, each row of `bl` whose operator `s0` has never
/// heard of and whose chord is still free; paired with how many were adopted.
pub open spec fn merge_fold(s0: Seq<BindingView>, s: Seq<BindingView>, bl: Seq<BindingView>) -> (Seq<BindingView>, nat)
    decreases bl.len(),
{
    if bl.len() == 0 {
        (s, 0)
    } else {
        let (before, n) = merge_fold(s0, s, bl.drop_last());
        let b = bl.last();
        if !has_op(s0, b.1) && !has_chord(before, b.0) {
            (before.push(b), n + 1)
        } else {
            (before, n)
        }
    }
}

/// A binding that may fire for this press: not suppressed by typing, and its
/// modifiers match exactly.
pub open spec fn eligible(b: BindingView, typing: bool, mods: Modifiers) -> bool {
    (!typing || b.2) && b.0.spec_matches(mods)
}

/// The operators fired, in table order, when the eligible rows' keys were
/// reported pressed as `answers` says.
pub open spec fn fired(s: Seq<BindingView>, typing: bool, mods: Modifiers, answers: Seq<bool>) -> Seq<Seq<char>>
    decreases s.len(),
{
    if s.len() == 0 || answers.len() == 0 {
        Seq::empty()
    } else {
        let rest = fired(s.drop_last(), typing, mods, answers.drop_last());
        if eligible(s.last(), typing, mods) && answers.last() {
            rest.push(s.last().1)
        } else {
            rest
        }
    }
}

impl Binding {
    fn new(chord: Chord, operator: &str) -> (b: Binding)
        ensures
            b@ == (chord, operator@, false),
    {
        Binding { chord, operator: operator.to_owned(), while_typing: false }
    }

    fn typing(chord: Chord, operator: &str) -> (b: Binding)
        ensures
            b@ == (chord, operator@, true),
    {
        Binding { chord, operator: operator.to_owned(), while_typing: true }
    }

    fn duplicate(&self) -> (b: Binding)
        ensures
            b@ == self@,
    {
        Binding { chord: self.chord, operator: self.operator.clone(), while_typing: self.while_typing }
    }
}

/// The bindings of `v` that do not fire `op`.
fn retain_not_op(v: &Vec<Binding>, op: &String) -> (out: Vec<Binding>)
    ensures
        views(out@) == without_op(views(v@), op@),
{
    let mut out: Vec<Binding> = Vec::new();
    let mut i: usize = 0;
    while i < v.len()
        invariant
            i <= v.len(),
            views(out@) == without_op(views(v@).take(i as int), op@),
        decreases v.len() - i,
    {
        proof {
            assert(views(v@).take(i + 1).drop_last() =~= views(v@).take(i as int));
        }
        if !(v[i].operator == *op) {
            out.push(v[i].duplicate());
            proof {
                assert(views(out@) =~= without_op(views(v@).take(i as int), op@).push(v@[i as int]@));
            }
        }
        i += 1;
    }
    proof {
        assert(views(v@).take(v.len() as int) =~= views(v@));
    }
    out
}

/// The bindings of `v` not bound to `c`.
fn retain_not_chord(v: &Vec<Binding>, c: Chord) -> (out: Vec<Binding>)
    ensures
        views(out@) == without_chord(views(v@), c),
{
    let mut out: Vec<Binding> = Vec::new();
    let mut i: usize = 0;
    while i < v.len()
        invariant
            i <= v.len(),
            views(out@) == without_chord(views(v@).take(i as int), c),
        decreases v.len() - i,
    {
        proof {
            assert(views(v@).take(i + 1).drop_last() =~= views(v@).take(i as int));
        }
        if v[i].chord != c {
            out.push(v[i].duplicate());
            proof {
                assert(views(out@) =~= without_chord(views(v@).take(i as int), c).push(v@[i as int]@));
            }
        }
        i += 1;
    }
    proof {
        assert(views(v@).take(v.len() as int) =~= views(v@));
    }
    out
}

/// The first of the first `n` bindings of `v` that fires `op`.
fn find_op(v: &Vec<Binding>, op: &String, n: usize) -> (r: Option<usize>)
    requires
        n <= v.len(),
    ensures
        r is None <==> !has_op(views(v@).take(n as int), op@),
        r matches Some(i) ==> is_first_op(views(v@).take(n as int), op@, i as int)
            && is_first_op(views(v@), op@, i as int),
{
    let ghost s = views(v@).take(n as int);
    let mut i: usize = 0;
    while i < n
        invariant
            i <= n <= v.len(),
            s == views(v@).take(n as int),
            forall|j: int| 0 <= j < i ==> #[trigger] s[j].1 != op@,
        decreases n - i,
    {
        if v[i].operator == *op {
            proof {
                assert(s[i as int].1 == op@);
                assert forall|j: int| 0 <= j < i implies #[trigger] views(v@)[j].1 != op@ by {
                    assert(s[j] == views(v@)[j]);
                }
            }
            return Some(i);
        }
        i += 1;
    }
    None
}

/// The first binding of `v` bound to `c`.
fn find_chord(v: &Vec<Binding>, c: Chord) -> (r: Option<usize>)
    ensures
        r is None <==> !has_chord(views(v@), c),
        r matches Some(i) ==> is_first_chord(views(v@), c, i as int),
{
    let mut i: usize = 0;
    while i < v.len()
        invariant
            i <= v.len(),
            forall|j: int| 0 <= j < i ==> #[trigger] views(v@)[j].0 != c,
        decreases v.len() - i,
    {
        if v[i].chord == c {
            proof {
                assert(views(v@)[i as int].0 == c);
            }
            return Some(i);
        }
        i += 1;
    }
    None
}



impl Keymap {
    /// The shipped bindings.
    ///
    /// Order matters only for [`chord_for`](Self::chord_for), which reports the
    /// *first* chord bound to an operator as the one a menu should display.
    pub fn builtin() -> (k: Keymap)
        ensures
            k@ == builtin_view(),
    {
        let mut bindings: Vec<Binding> = Vec::new();
        bindings.push(Binding::typing(Chord::ctrl(Key::Z), "edit.undo"));
        bindings.push(Binding::typing(Chord::ctrl_shift(Key::Z), "edit.redo"));
        bindings.push(Binding::typing(Chord::ctrl(Key::Y), "edit.redo"));
        bindings.push(Binding::new(Chord::ctrl(Key::C), "edit.copy"));
        bindings.push(Binding::new(Chord::ctrl_shift(Key::C), "edit.copy_pose"));
        bindings.push(Binding::new(Chord::ctrl(Key::V), "edit.paste"));
        bindings.push(Binding::new(Chord::ctrl_shift(Key::V), "edit.paste_mirrored"));
        bindings.push(Binding::new(Chord::ctrl(Key::D), "edit.duplicate"));
        bindings.push(Binding::new(Chord::plain(Key::F2), "edit.rename"));
        bindings.push(Binding::new(Chord::plain(Key::Tab), "mode.toggle"));
        bindings.push(Binding::new(Chord::plain(Key::K), "anim.key_pose"));
        bindings.push(Binding::new(Chord::plain(Key::M), "anim.add_marker"));
        bindings.push(Binding::new(Chord::plain(Key::V), "tool.select"));
        bindings.push(Binding::new(Chord::plain(Key::B), "tool.create_bone"));
        bindings.push(Binding::new(Chord::plain(Key::W), "tool.weight_paint"));
        bindings.push(Binding::new(Chord::plain(Key::T), "gizmo.translate"));
        bindings.push(Binding::new(Chord::plain(Key::R), "gizmo.rotate"));
        bindings.push(Binding::new(Chord::plain(Key::S), "gizmo.scale"));
        bindings.push(Binding::new(Chord::plain(Key::H), "gizmo.shear"));
        bindings.push(Binding::new(Chord::plain(Key::Num1), "view.toggle_artwork"));
        bindings.push(Binding::new(Chord::plain(Key::Num2), "view.toggle_bones"));
        bindings.push(Binding::new(Chord::ctrl(Key::Comma), "app.settings"));
        let k = Keymap { bindings };
        proof {
            assert(k@ =~= builtin_view());
        }
        k
    }

    /// Every binding, in table order.
    pub fn bindings(&self) -> (b: &[Binding])
        ensures
            views(b@) == self@,
    {
        self.bindings.as_slice()
    }

    /// Operator ids to fire for one frame of egui input, in table order: the
    /// operators of the rows `resolve_pressed` fires for the modifiers held
    /// and the keys pressed this frame.
    pub fn resolve(&self, input: &egui::InputState, typing: bool) -> (ops: Vec<&str>)
        ensures
            exists|mods: Modifiers, answers: Seq<bool>|
                #![trigger fired(self@, typing, mods, answers)]
                answers.len() == self@.len() && ops@.map_values(|o: &str| o@) == fired(self@, typing, mods, answers),
    {
        let mods = held_modifiers(input);
        self.resolve_pressed(typing, &mods, |key: Key| key_pressed_at(input, key.index()))
    }

    /// Operator ids to fire for one frame's input, in table order.
    ///
    /// `typing` suppresses every binding that has not opted in to firing while
    /// a text field has focus. Every match is returned rather than the first:
    /// two operators may share a chord when at most one is enabled at a time,
    /// and the registry declines the rest. `pressed` is asked only about the
    /// keys of bindings that survive the typing and modifier filters.
    pub fn resolve_pressed<F: Fn(Key) -> bool>(&self, typing: bool, mods: &Modifiers, pressed: F) -> (ops: Vec<&str>)
        requires
            forall|k: Key| #[trigger] pressed.requires((k,)),
        ensures
            exists|answers: Seq<bool>|
                #![trigger fired(self@, typing, *mods, answers)]
                {
                    &&& answers.len() == self@.len()
                    &&& forall|i: int|
                        0 <= i < self@.len() && eligible(self@[i], typing, *mods) ==> call_ensures(
                            pressed,
                            (self@[i].0.key,),
                            #[trigger] answers[i],
                        )
                    &&& ops@.map_values(|o: &str| o@) == fired(self@, typing, *mods, answers)
                },
    {
        let ghost s = self@;
        let ghost mut answers: Seq<bool> = Seq::empty();
        let mut ops: Vec<&str> = Vec::new();
        let mut i: usize = 0;
        while i < self.bindings.len()
            invariant
                i <= self.bindings.len(),
                s == self@,
                s == views(self.bindings@),
                forall|k: Key| #[trigger] pressed.requires((k,)),
                answers.len() == i,
                forall|j: int|
                    0 <= j < i && eligible(s[j], typing, *mods) ==> call_ensures(
                        pressed,
                        (s[j].0.key,),
                        #[trigger] answers[j],
                    ),
                ops@.map_values(|o: &str| o@) == fired(s.take(i as int), typing, *mods, answers),
            decreases self.bindings.len() - i,
        {
            let b = &self.bindings[i];
            let mut hit = false;
            if !typing || b.while_typing {
                if b.chord.matches(mods) {
                    hit = pressed(b.chord.key);
                }
            }
            let ghost before = answers;
            let ghost prev_ops = ops@.map_values(|o: &str| o@);
            proof {
                answers = answers.push(hit);
                assert(s.take(i + 1).drop_last() =~= s.take(i as int));
                assert(answers.drop_last() =~= before);
                assert(s.take(i + 1).last() == s[i as int]);
                assert(s[i as int] == b@);
                assert(hit == (eligible(s[i as int], typing, *mods) && answers.last()));
            }
            if hit {
                ops.push(b.operator.as_str());
            }
            proof {
                if hit {
                    assert(ops@.map_values(|o: &str| o@) =~= prev_ops.push(s[i as int].1));
                } else {
                    assert(ops@.map_values(|o: &str| o@) =~= prev_ops);
                }
                assert(ops@.map_values(|o: &str| o@) == fired(s.take(i + 1), typing, *mods, answers));
            }
            i += 1;
        }
        proof {
            assert(s.take(s.len() as int) =~= s);
        }
        ops
    }

    /// The first chord bound to `operator`, for display next to a menu entry.
    pub fn chord_for(&self, operator: &str) -> (c: Option<Chord>)
        ensures
            c is None <==> !has_op(self@, operator@),
            c matches Some(chord) ==> chord == self@[first_op(self@, operator@)].0,
    {
        let op = operator.to_owned();
        match find_op(&self.bindings, &op, self.bindings.len()) {
            Some(i) => {
                proof {
                    assert(views(self.bindings@).take(self.bindings.len() as int) =~= self@);
                    lemma_first_op_is(self@, operator@, i as int);
                }
                Some(self.bindings[i].chord)
            }
            None => {
                proof {
                    assert(views(self.bindings@).take(self.bindings.len() as int) =~= self@);
                }
                None
            }
        }
    }

    /// The operator `chord` currently fires, if any. For conflict highlighting.
    pub fn operator_for(&self, chord: Chord) -> (o: Option<&str>)
        ensures
            o is None <==> !has_chord(self@, chord),
            o matches Some(op) ==> op@ == self@[first_chord(self@, chord)].1,
    {
        match find_chord(&self.bindings, chord) {
            Some(i) => {
                proof {
                    lemma_first_chord_is(self@, chord, i as int);
                }
                Some(self.bindings[i].operator.as_str())
            }
            None => None,
        }
    }

    /// Move `operator` to `chord`, giving up whatever keys it had.
    ///
    /// What a settings row does: the user pressed a new chord for this verb and
    /// expects the old one to stop working. `add_binding` is the other intent.
    pub fn rebind(&mut self, chord: Chord, operator: &str)
        ensures
            final(self)@ == added_binding(without_op(old(self)@, operator@), chord, operator@),
    {
        let op = operator.to_owned();
        self.bindings = retain_not_op(&self.bindings, &op);
        self.add_binding(chord, operator);
    }

    /// Give `operator` an additional chord, keeping any it already has.
    ///
    /// One chord fires one operator, so this displaces whatever held `chord`.
    /// Carries `while_typing` over from whatever the operator was already
    /// bound to, or else from the built-in table: that flag is a property of
    /// the verb, not of the key it sits on.
    pub fn add_binding(&mut self, chord: Chord, operator: &str)
        ensures
            final(self)@ == added_binding(old(self)@, chord, operator@),
    {
        let op = operator.to_owned();
        let ghost s = self@;
        let while_typing = match find_op(&self.bindings, &op, self.bindings.len()) {
            Some(i) => {
                proof {
                    assert(views(self.bindings@).take(self.bindings.len() as int) =~= s);
                    lemma_first_op_is(s, op@, i as int);
                }
                self.bindings[i].while_typing
            }
            None => {
                proof {
                    assert(views(self.bindings@).take(self.bindings.len() as int) =~= s);
                }
                let builtin = Self::builtin();
                match find_op(&builtin.bindings, &op, builtin.bindings.len()) {
                    Some(j) => {
                        proof {
                            assert(views(builtin.bindings@).take(builtin.bindings.len() as int) =~= builtin_view());
                            lemma_first_op_is(builtin_view(), op@, j as int);
                        }
                        builtin.bindings[j].while_typing
                    }
                    None => {
                        proof {
                            assert(views(builtin.bindings@).take(builtin.bindings.len() as int) =~= builtin_view());
                        }
                        false
                    }
                }
            }
        };
        let mut kept = retain_not_chord(&self.bindings, chord);
        kept.push(Binding { chord, operator: op, while_typing });
        self.bindings = kept;
        proof {
            assert(self@ =~= added_binding(s, chord, operator@));
        }
    }

    /// Remove every binding for `chord`.
    pub fn unbind(&mut self, chord: Chord)
        ensures
            final(self)@ == without_chord(old(self)@, chord),
    {
        self.bindings = retain_not_chord(&self.bindings, chord);
    }

    /// Restore `operator` to the keys the built-in table gives it.
    ///
    /// Per-operator rather than whole-table, and each restored chord displaces
    /// whoever holds it, so the reset never leaves two operators racing for one
    /// key.
    pub fn reset(&mut self, operator: &str)
        ensures
            final(self)@ == reset_fold(without_op(old(self)@, operator@), builtin_view(), operator@),
    {
        let op = operator.to_owned();
        self.bindings = retain_not_op(&self.bindings, &op);
        let ghost start = self@;
        let builtin = Self::builtin();
        let mut i: usize = 0;
        while i < builtin.bindings.len()
            invariant
                i <= builtin.bindings.len(),
                views(builtin.bindings@) == builtin_view(),
                self@ == reset_fold(start, builtin_view().take(i as int), op@),
                op@ == operator@,
            decreases builtin.bindings.len() - i,
        {
            proof {
                assert(builtin_view().take(i + 1).drop_last() =~= builtin_view().take(i as int));
            }
            let b = &builtin.bindings[i];
            if b.operator == op {
                let mut kept = retain_not_chord(&self.bindings, b.chord);
                kept.push(b.duplicate());
                self.bindings = kept;
                proof {
                    assert(self@ =~= reset_fold(start, builtin_view().take(i + 1), op@));
                }
            }
            i += 1;
        }
        proof {
            assert(builtin_view().take(builtin.bindings.len() as int) =~= builtin_view());
        }
    }

    /// Adopt built-in bindings for operators this table has never heard of,
    /// never over a chord the table already uses. Returns how many were added.
    ///
    /// Keyed on the operator, not the chord: an operator the user has bound
    /// somewhere else is not missing.
    pub fn merge_new_defaults(&mut self) -> (added: usize)
        ensures
            (final(self)@, added as nat) == merge_fold(old(self)@, old(self)@, builtin_view()),
    {
        let ghost s0 = self@;
        let known = self.bindings.len();
        let builtin = Self::builtin();
        let mut added: usize = 0;
        let mut i: usize = 0;
        while i < builtin.bindings.len()
            invariant
                i <= builtin.bindings.len(),
                views(builtin.bindings@) == builtin_view(),
                known <= self.bindings.len(),
                views(self.bindings@).take(known as int) == s0,
                (self@, added as nat) == merge_fold(s0, s0, builtin_view().take(i as int)),
                added <= i,
            decreases builtin.bindings.len() - i,
        {
            proof {
                assert(builtin_view().take(i + 1).drop_last() =~= builtin_view().take(i as int));
            }
            let b = &builtin.bindings[i];
            let is_known = find_op(&self.bindings, &b.operator, known).is_some();
            if !is_known && find_chord(&self.bindings, b.chord).is_none() {
                self.bindings.push(b.duplicate());
                added += 1;
                proof {
                    assert(views(self.bindings@).take(known as int) =~= views(self.bindings@.drop_last()).take(known as int));
                }
            }
            i += 1;
        }
        proof {
            assert(builtin_view().take(builtin.bindings.len() as int) =~= builtin_view());
        }
        added
    }
}

/// The rows of `s` that `keep` accepts, in order.
pub open spec fn rows_where(s: Seq<BindingView>, keep: spec_fn(BindingView) -> bool) -> Seq<BindingView>
    decreases s.len(),
{
    if s.len() == 0 {
        s
    } else {
        let rest = rows_where(s.drop_last(), keep);
        if keep(s.last()) {
            rest.push(s.last())
        } else {
            rest
        }
    }
}

impl Keymap {
    /// A table holding exactly `bindings`, in order — what a keymap file
    /// loads into. Nothing is validated: a binding for an operator nobody
    /// answers to is kept.
    pub fn from_bindings(bindings: Vec<Binding>) -> (k: Keymap)
        ensures
            k@ == views(bindings@),
    {
        Keymap { bindings }
    }

    /// Bindings naming an operator the registry does not have — for the
    /// settings UI to show as stale rather than for the loader to drop.
    pub fn unresolved<'a, O>(&'a self, registry: &Registry<O>) -> (stale: Vec<&'a Binding>)
        ensures
            stale@.map_values(|b: &Binding| b@) == rows_where(self@, |b: BindingView| registry.stack(b.1).len() == 0),
    {
        let ghost keep = |b: BindingView| registry.stack(b.1).len() == 0;
        let mut out: Vec<&Binding> = Vec::new();
        let mut i: usize = 0;
        while i < self.bindings.len()
            invariant
                i <= self.bindings.len(),
                keep == (|b: BindingView| registry.stack(b.1).len() == 0),
                out@.map_values(|b: &Binding| b@) == rows_where(self@.take(i as int), keep),
            decreases self.bindings.len() - i,
        {
            proof {
                assert(self@.take(i + 1).drop_last() =~= self@.take(i as int));
                assert(self@[i as int] == self.bindings@[i as int]@);
            }
            let b = &self.bindings[i];
            let ghost prev = out@.map_values(|b: &Binding| b@);
            if registry.get(b.operator.as_str()).is_none() {
                out.push(b);
                proof {
                    assert(out@.map_values(|b: &Binding| b@) =~= prev.push(b@));
                }
            }
            i += 1;
        }
        proof {
            assert(self@.take(self.bindings.len() as int) =~= self@);
        }
        out
    }
}

impl Default for Keymap {
    fn default() -> (k: Keymap)
        ensures
            k@ == builtin_view(),
    {
        Self::builtin()
    }
}



// ── Laws ─────────────────────────────────────────────────────────────────────

/// Removing every row of one operator keeps the chords unique.
proof fn lemma_without_op_unique(s: Seq<BindingView>, op: Seq<char>)
    requires
        chords_unique(s),
    ensures
        chords_unique(without_op(s, op)),
    decreases s.len(),
{
    if s.len() > 0 {
        let d = s.drop_last();
        assert(chords_unique(d)) by {
            assert forall|i: int, j: int| 0 <= i < j < d.len() implies #[trigger] d[i].0 != #[trigger] d[j].0 by {
                assert(d[i] == s[i] && d[j] == s[j]);
            }
        }
        lemma_without_op_unique(d, op);
        lemma_rows_except_members(d, fires_op(op));
        let rest = without_op(d, op);
        if s.last().1 != op {
            let r = rest.push(s.last());
            assert forall|i: int, j: int| 0 <= i < j < r.len() implies #[trigger] r[i].0 != #[trigger] r[j].0 by {
                if j == r.len() - 1 {
                    assert(rest.contains(r[i]));
                    let k = choose|k: int| 0 <= k < d.len() && d[k] == r[i];
                    assert(s[k] == r[i]);
                    assert(s[k].0 != s[s.len() - 1].0);
                } else {
                    assert(r[i] == rest[i] && r[j] == rest[j]);
                }
            }
        }
    }
}

/// Removing every row of one chord keeps the chords unique.
proof fn lemma_without_chord_unique(s: Seq<BindingView>, c: Chord)
    requires
        chords_unique(s),
    ensures
        chords_unique(without_chord(s, c)),
    decreases s.len(),
{
    if s.len() > 0 {
        let d = s.drop_last();
        assert(chords_unique(d)) by {
            assert forall|i: int, j: int| 0 <= i < j < d.len() implies #[trigger] d[i].0 != #[trigger] d[j].0 by {
                assert(d[i] == s[i] && d[j] == s[j]);
            }
        }
        lemma_without_chord_unique(d, c);
        lemma_rows_except_members(d, bound_to(c));
        let rest = without_chord(d, c);
        if s.last().0 != c {
            let r = rest.push(s.last());
            assert forall|i: int, j: int| 0 <= i < j < r.len() implies #[trigger] r[i].0 != #[trigger] r[j].0 by {
                if j == r.len() - 1 {
                    assert(rest.contains(r[i]));
                    let k = choose|k: int| 0 <= k < d.len() && d[k] == r[i];
                    assert(s[k] == r[i]);
                    assert(s[k].0 != s[s.len() - 1].0);
                } else {
                    assert(r[i] == rest[i] && r[j] == rest[j]);
                }
            }
        }
    }
}

/// Appending a row for chord `c` after clearing `c` keeps the chords unique,
/// and that row is then the only one on `c`.
proof fn lemma_push_after_clearing(s: Seq<BindingView>, x: BindingView)
    requires
        chords_unique(s),
    ensures
        chords_unique(without_chord(s, x.0).push(x)),
        forall|i: int|
            0 <= i < without_chord(s, x.0).push(x).len() && #[trigger] without_chord(s, x.0).push(x)[i].0 == x.0
                ==> i == without_chord(s, x.0).len(),
{
    lemma_without_chord_unique(s, x.0);
    lemma_rows_except_members(s, bound_to(x.0));
    let w = without_chord(s, x.0);
    let r = w.push(x);
    assert forall|i: int| 0 <= i < r.len() && #[trigger] r[i].0 == x.0 implies i == w.len() by {
        if i < w.len() {
            assert(w.contains(w[i]));
        }
    }
    assert forall|i: int, j: int| 0 <= i < j < r.len() implies #[trigger] r[i].0 != #[trigger] r[j].0 by {
        if j == w.len() {
            assert(w.contains(w[i]));
        } else {
            assert(r[i] == w[i] && r[j] == w[j]);
        }
    }
}

/// No two shipped bindings share a chord.
pub proof fn builtin_chords_are_unique()
    ensures
        chords_unique(builtin_view()),
{
    let b = builtin_view();
    assert forall|i: int, j: int| 0 <= i < j < b.len() implies #[trigger] b[i].0 != #[trigger] b[j].0 by {
        assert(b[i].0.key.spec_index() != b[j].0.key.spec_index() || b[i].0.ctrl != b[j].0.ctrl
            || b[i].0.shift != b[j].0.shift);
    }
}

/// Giving `op` the chord `c` makes `c` fire `op` and nothing else; every row
/// on another chord survives; and a table with one operator per chord keeps
/// that property.
pub proof fn add_binding_owns_the_chord(s: Seq<BindingView>, c: Chord, op: Seq<char>)
    ensures
        has_chord(added_binding(s, c, op), c),
        added_binding(s, c, op)[first_chord(added_binding(s, c, op), c)].1 == op,
        forall|x: BindingView| s.contains(x) && x.0 != c ==> #[trigger] added_binding(s, c, op).contains(x),
        forall|x: BindingView| #[trigger] added_binding(s, c, op).contains(x) && x.0 != c ==> s.contains(x),
        chords_unique(s) ==> chords_unique(added_binding(s, c, op)),
{
    let w = without_chord(s, c);
    let r = added_binding(s, c, op);
    lemma_rows_except_members(s, bound_to(c));
    assert(r[w.len() as int].0 == c);
    lemma_first_chord_exists(r, c, w.len() as int);
    let k = first_chord(r, c);
    if k < w.len() {
        assert(w.contains(w[k]));
        assert(r[k] == w[k]);
    }
    assert forall|x: BindingView| s.contains(x) && x.0 != c implies #[trigger] r.contains(x) by {
        assert(w.contains(x));
        let i = choose|i: int| 0 <= i < w.len() && w[i] == x;
        assert(r[i] == x);
    }
    assert forall|x: BindingView| #[trigger] r.contains(x) && x.0 != c implies s.contains(x) by {
        let i = choose|i: int| 0 <= i < r.len() && r[i] == x;
        assert(i < w.len());
        assert(w[i] == x);
        assert(w.contains(x));
    }
    if chords_unique(s) {
        lemma_push_after_clearing(s, (c, op, inherited_while_typing(s, op)));
    }
}

/// After moving `op` to `c`, `c` is the only chord `op` has, and it is the
/// one a menu shows.
pub proof fn rebind_leaves_one_chord(s: Seq<BindingView>, c: Chord, op: Seq<char>)
    ensures
        has_op(added_binding(without_op(s, op), c, op), op),
        added_binding(without_op(s, op), c, op)[first_op(added_binding(without_op(s, op), c, op), op)].0 == c,
        forall|i: int|
            0 <= i < added_binding(without_op(s, op), c, op).len()
                && #[trigger] added_binding(without_op(s, op), c, op)[i].1 == op
                ==> added_binding(without_op(s, op), c, op)[i].0 == c,
{
    let t = without_op(s, op);
    let w = without_chord(t, c);
    let r = added_binding(t, c, op);
    lemma_rows_except_members(s, fires_op(op));
    lemma_rows_except_members(t, bound_to(c));
    assert forall|i: int| 0 <= i < r.len() && #[trigger] r[i].1 == op implies r[i].0 == c by {
        if i < w.len() {
            assert(w.contains(w[i]));
            assert(t.contains(w[i]));
        }
    }
    assert(r[w.len() as int].1 == op);
    lemma_first_op_exists(r, op, w.len() as int);
}

/// Clearing a chord leaves nothing bound to it.
pub proof fn unbind_frees_the_chord(s: Seq<BindingView>, c: Chord)
    ensures
        !has_chord(without_chord(s, c), c),
        chords_unique(s) ==> chords_unique(without_chord(s, c)),
{
    lemma_rows_except_members(s, bound_to(c));
    let w = without_chord(s, c);
    assert forall|i: int| 0 <= i < w.len() implies #[trigger] w[i].0 != c by {
        assert(w.contains(w[i]));
    }
    if chords_unique(s) {
        lemma_without_chord_unique(s, c);
    }
}

/// Adopting defaults only appends: the existing table is an untouched prefix,
/// the table grows by exactly the reported count, and a table with one
/// operator per chord keeps that property.
pub proof fn merge_only_appends(s0: Seq<BindingView>, s: Seq<BindingView>, bl: Seq<BindingView>)
    ensures
        merge_fold(s0, s, bl).0.len() == s.len() + merge_fold(s0, s, bl).1,
        merge_fold(s0, s, bl).0.take(s.len() as int) == s,
        chords_unique(s) ==> chords_unique(merge_fold(s0, s, bl).0),
    decreases bl.len(),
{
    if bl.len() > 0 {
        merge_only_appends(s0, s, bl.drop_last());
        let (before, n) = merge_fold(s0, s, bl.drop_last());
        let b = bl.last();
        if !has_op(s0, b.1) && !has_chord(before, b.0) {
            let r = before.push(b);
            assert(r.take(s.len() as int) =~= before.take(s.len() as int));
            if chords_unique(s) {
                assert forall|i: int, j: int| 0 <= i < j < r.len() implies #[trigger] r[i].0 != #[trigger] r[j].0 by {
                    if j == before.len() {
                        assert(r[i] == before[i]);
                    } else {
                        assert(r[i] == before[i] && r[j] == before[j]);
                    }
                }
            }
        }
    }
}

/// Restoring the rows of `op` from a table `bl` whose chords are unique leaves
/// each of those rows as the only one on its chord.
pub proof fn reset_restores_each_default(s: Seq<BindingView>, bl: Seq<BindingView>, op: Seq<char>)
    requires
        chords_unique(bl),
    ensures
        forall|k: int|
            0 <= k < bl.len() && #[trigger] bl[k].1 == op ==> {
                let r = reset_fold(s, bl, op);
                &&& has_chord(r, bl[k].0)
                &&& r[first_chord(r, bl[k].0)] == bl[k]
                &&& forall|i: int| 0 <= i < r.len() && #[trigger] r[i].0 == bl[k].0 ==> r[i] == bl[k]
            },
    decreases bl.len(),
{
    if bl.len() > 0 {
        let d = bl.drop_last();
        assert(chords_unique(d)) by {
            assert forall|i: int, j: int| 0 <= i < j < d.len() implies #[trigger] d[i].0 != #[trigger] d[j].0 by {
                assert(d[i] == bl[i] && d[j] == bl[j]);
            }
        }
        reset_restores_each_default(s, d, op);
        let before = reset_fold(s, d, op);
        let b = bl.last();
        let r = reset_fold(s, bl, op);
        assert forall|k: int|
            0 <= k < bl.len() && #[trigger] bl[k].1 == op implies {
                &&& has_chord(r, bl[k].0)
                &&& r[first_chord(r, bl[k].0)] == bl[k]
                &&& forall|i: int| 0 <= i < r.len() && #[trigger] r[i].0 == bl[k].0 ==> r[i] == bl[k]
            } by {
            if b.1 == op {
                let w = without_chord(before, b.0);
                lemma_rows_except_members(before, bound_to(b.0));
                if k == bl.len() - 1 {
                    assert forall|i: int| 0 <= i < r.len() && #[trigger] r[i].0 == bl[k].0 implies r[i] == bl[k] by {
                        if i < w.len() {
                            assert(w.contains(w[i]));
                        }
                    }
                    assert(r[w.len() as int].0 == bl[k].0);
                    lemma_first_chord_exists(r, bl[k].0, w.len() as int);
                } else {
                    assert(d[k] == bl[k]);
                    assert(bl[k].0 != b.0);
                    let i0 = first_chord(before, bl[k].0);
                    assert(before.contains(before[i0]));
                    assert(w.contains(before[i0]));
                    let m = choose|m: int| 0 <= m < w.len() && w[m] == before[i0];
                    assert(r[m] == bl[k]);
                    lemma_first_chord_exists(r, bl[k].0, m);
                    assert forall|i: int| 0 <= i < r.len() && #[trigger] r[i].0 == bl[k].0 implies r[i] == bl[k] by {
                        if i < w.len() {
                            assert(w.contains(w[i]));
                            assert(before.contains(w[i]));
                            let q = choose|q: int| 0 <= q < before.len() && before[q] == w[i];
                            assert(before[q].0 == bl[k].0);
                        }
                    }
                    let f = first_chord(r, bl[k].0);
                    assert(r[f].0 == bl[k].0);
                }
            } else {
                assert(k < bl.len() - 1);
                assert(d[k] == bl[k]);
            }
        }
    }
}

/// While typing, only bindings that opted in can fire.
pub proof fn typing_fires_only_opted_in(s: Seq<BindingView>, mods: Modifiers, answers: Seq<bool>, op: Seq<char>)
    requires
        fired(s, true, mods, answers).contains(op),
    ensures
        exists|i: int| 0 <= i < s.len() && (#[trigger] s[i]).1 == op && s[i].2,
    decreases s.len(),
{
    let rest = fired(s.drop_last(), true, mods, answers.drop_last());
    if eligible(s.last(), true, mods) && answers.last() && op == s.last().1 {
        assert(s[s.len() - 1].1 == op);
    } else {
        if eligible(s.last(), true, mods) && answers.last() {
            let k = choose|k: int| 0 <= k < rest.len() + 1 && rest.push(s.last().1)[k] == op;
            assert(rest[k] == op);
        }
        assert(rest.contains(op));
        typing_fires_only_opted_in(s.drop_last(), mods, answers.drop_last(), op);
        let i = choose|i: int| 0 <= i < s.len() - 1 && (#[trigger] s.drop_last()[i]).1 == op && s.drop_last()[i].2;
        assert(s[i] == s.drop_last()[i]);
    }
}

/// A row fires its operator whenever its key is reported pressed under
/// exactly its modifiers, outside a text field or on a row that opted in —
/// so the chord a menu shows next to an operator is one that fires it.
pub proof fn a_bound_chord_fires_its_operator(
    s: Seq<BindingView>,
    typing: bool,
    mods: Modifiers,
    answers: Seq<bool>,
    i: int,
)
    requires
        0 <= i < s.len(),
        answers.len() == s.len(),
        answers[i],
        s[i].0.spec_matches(mods),
        !typing || s[i].2,
    ensures
        fired(s, typing, mods, answers).contains(s[i].1),
    decreases s.len(),
{
    let rest = fired(s.drop_last(), typing, mods, answers.drop_last());
    if i == s.len() - 1 {
        assert(rest.push(s.last().1)[rest.len() as int] == s[i].1);
    } else {
        assert(s.drop_last()[i] == s[i]);
        assert(answers.drop_last()[i] == answers[i]);
        a_bound_chord_fires_its_operator(s.drop_last(), typing, mods, answers.drop_last(), i);
        let k = choose|k: int| 0 <= k < rest.len() && rest[k] == s[i].1;
        if eligible(s.last(), typing, mods) && answers.last() {
            assert(rest.push(s.last().1)[k] == s[i].1);
        }
    }
}

} // verus!
