use ankhimate_editor::args::{ArgError, Args};
use ankhimate_editor::history::WorkMode;
use ankhimate_editor::keymap::{Binding, Keymap};
use ankhimate_editor::keys::{Chord, Key, Modifiers};
use ankhimate_editor::operators::BuiltinOp;
use ankhimate_editor::registry::{OpResult, Operator, Registry};
use std::collections::HashSet;

/// An operator that answers to an id and does nothing else.
struct Named(&'static str);

impl Operator<()> for Named {
    fn spec_id(&self) -> vstd::seq::Seq<char> {
        unreachable!()
    }
    fn spec_enabled(&self, _state: ()) -> bool {
        true
    }
    fn spec_invoke(
        &self,
        _before: (),
        _args: Args,
        _after: (),
        _result: Result<OpResult, ArgError>,
    ) -> bool {
        unreachable!()
    }
    fn id(&self) -> &'static str {
        self.0
    }
    fn label(&self) -> &str {
        self.0
    }
    fn requires_mode(&self) -> Option<WorkMode> {
        None
    }
    fn enabled(&self, _state: &()) -> bool {
        true
    }
    fn invoke(&self, _state: &mut (), _args: &Args) -> Result<OpResult, ArgError> {
        Ok(OpResult::done())
    }
}

/// The editor's built-in operators, registered under the ids they answer to.
fn builtin_registry() -> Registry<Named> {
    let mut registry = Registry::new();
    for op in BuiltinOp::all() {
        registry.register::<()>(Named(op.id()));
    }
    registry
}

fn key_by_debug_name(name: &str) -> Key {
    (0..145u8)
        .filter_map(Key::from_index)
        .find(|k| format!("{k:?}") == name)
        .expect("a key egui knows")
}

fn to_json(keymap: &Keymap) -> String {
    let rows: Vec<serde_json::Value> = keymap
        .bindings()
        .iter()
        .map(|b| {
            let mut chord = serde_json::Map::new();
            chord.insert("key".into(), serde_json::Value::String(format!("{:?}", b.chord.key)));
            chord.insert("ctrl".into(), serde_json::Value::Bool(b.chord.ctrl));
            chord.insert("shift".into(), serde_json::Value::Bool(b.chord.shift));
            chord.insert("alt".into(), serde_json::Value::Bool(b.chord.alt));
            let mut row = serde_json::Map::new();
            row.insert("chord".into(), serde_json::Value::Object(chord));
            row.insert("operator".into(), serde_json::Value::String(b.operator.clone()));
            row.insert("while_typing".into(), serde_json::Value::Bool(b.while_typing));
            serde_json::Value::Object(row)
        })
        .collect();
    serde_json::to_string(&serde_json::Value::Array(rows)).expect("serialize")
}

fn from_json(text: &str) -> Keymap {
    let value: serde_json::Value = serde_json::from_str(text).expect("deserialize");
    let rows = value.as_array().expect("a table");
    let bindings = rows
        .iter()
        .map(|row| {
            let chord = &row["chord"];
            Binding {
                chord: Chord {
                    key: key_by_debug_name(chord["key"].as_str().unwrap()),
                    ctrl: chord["ctrl"].as_bool().unwrap_or(false),
                    shift: chord["shift"].as_bool().unwrap_or(false),
                    alt: chord["alt"].as_bool().unwrap_or(false),
                },
                operator: row["operator"].as_str().unwrap().to_string(),
                while_typing: row["while_typing"].as_bool().unwrap_or(false),
            }
        })
        .collect();
    Keymap::from_bindings(bindings)
}

fn without_operator(keymap: &Keymap, operator: &str) -> Keymap {
    Keymap::from_bindings(
        keymap
            .bindings()
            .iter()
            .filter(|b| b.operator != operator)
            .cloned()
            .collect(),
    )
}

#[test]
fn a_plain_chord_does_not_fire_under_a_modifier() {
    let scale = Chord::plain(Key::S);
    assert!(scale.matches(&Modifiers::none()));
    assert!(!scale.matches(&Modifiers::ctrl()));
    assert!(!scale.matches(&Modifiers::shift()));
}

#[test]
fn shift_h_and_h_are_different_bindings() {
    let shear = Chord::plain(Key::H);
    assert!(!shear.matches(&Modifiers::shift()));
}

#[test]
fn a_ctrl_chord_does_not_fire_bare() {
    let undo = Chord::ctrl(Key::Z);
    assert!(undo.matches(&Modifiers::ctrl()));
    assert!(!undo.matches(&Modifiers::none()));
    assert!(
        !undo.matches(&Modifiers::ctrl().plus(Modifiers::shift())),
        "Ctrl+Shift+Z is redo, not undo"
    );
}

#[test]
fn every_builtin_binding_names_a_real_operator() {
    let registry = builtin_registry();
    let keymap = Keymap::builtin();
    let dead: Vec<_> = keymap
        .unresolved(&registry)
        .into_iter()
        .map(|b| &b.operator)
        .collect();
    assert!(dead.is_empty(), "bindings with no operator: {dead:?}");
}

#[test]
fn no_two_builtin_bindings_share_a_chord() {
    let keymap = Keymap::builtin();
    let mut seen = HashSet::new();
    for binding in keymap.bindings() {
        assert!(
            seen.insert(binding.chord),
            "{} is bound twice",
            binding.chord.label()
        );
    }
}

#[test]
fn rebinding_a_chord_displaces_the_old_operator() {
    let mut keymap = Keymap::builtin();
    let scale = Chord::plain(Key::S);
    assert_eq!(keymap.chord_for("gizmo.scale"), Some(scale));

    keymap.rebind(scale, "tool.select");

    let bound: Vec<_> = keymap
        .bindings()
        .iter()
        .filter(|b| b.chord == scale)
        .map(|b| b.operator.as_str())
        .collect();
    assert_eq!(bound, ["tool.select"], "one chord, one operator");
    assert_eq!(
        keymap.chord_for("gizmo.scale"),
        None,
        "the displaced operator has no key left"
    );
}

#[test]
fn an_operator_may_keep_several_chords() {
    let keymap = Keymap::builtin();
    let redo: Vec<_> = keymap
        .bindings()
        .iter()
        .filter(|b| b.operator == "edit.redo")
        .collect();
    assert_eq!(redo.len(), 2);
}

#[test]
fn an_unknown_operator_id_survives_a_roundtrip() {
    let mut keymap = Keymap::builtin();
    keymap.rebind(Chord::plain(Key::G), "someplugin.doathing");

    let json = to_json(&keymap);
    let back = from_json(&json);

    assert_eq!(
        back.chord_for("someplugin.doathing"),
        Some(Chord::plain(Key::G))
    );

    let registry = builtin_registry();
    let stale: Vec<_> = back
        .unresolved(&registry)
        .into_iter()
        .map(|b| b.operator.as_str())
        .collect();
    assert_eq!(
        stale,
        ["someplugin.doathing"],
        "reported as stale, not discarded"
    );
}

#[test]
fn a_bare_letter_does_not_fire_into_a_text_field() {
    let keymap = Keymap::builtin();

    let idle = keymap.resolve_pressed(false, &Modifiers::none(), |k| k == Key::S);
    assert_eq!(idle, ["gizmo.scale"], "S is Scale when nothing has focus");

    let typing = keymap.resolve_pressed(true, &Modifiers::none(), |k| k == Key::S);
    assert!(typing.is_empty(), "S is a letter while typing, not a verb");
}

#[test]
fn undo_still_fires_inside_a_text_field() {
    let keymap = Keymap::builtin();
    let fired = keymap.resolve_pressed(true, &Modifiers::ctrl(), |k| k == Key::Z);
    assert_eq!(fired, ["edit.undo"]);
}

#[test]
fn ctrl_s_resolves_to_nothing_rather_than_scale() {
    let keymap = Keymap::builtin();
    let fired = keymap.resolve_pressed(false, &Modifiers::ctrl(), |k| k == Key::S);
    assert!(
        fired.is_empty(),
        "Ctrl+S is Save, handled outside the keymap"
    );
}

#[test]
fn shift_h_does_not_reach_shear() {
    let keymap = Keymap::builtin();
    let fired = keymap.resolve_pressed(false, &Modifiers::shift(), |k| k == Key::H);
    assert!(fired.is_empty());
}

#[test]
fn the_menu_shortcut_is_the_one_that_actually_fires() {
    let keymap = Keymap::builtin();
    for operator in ["edit.undo", "edit.redo", "edit.copy", "app.settings"] {
        let chord = keymap
            .chord_for(operator)
            .unwrap_or_else(|| panic!("{operator} has no chord to display"));
        let fired = keymap.resolve_pressed(
            false,
            &Modifiers {
                ctrl: chord.ctrl,
                shift: chord.shift,
                alt: chord.alt,
            },
            |k| k == chord.key,
        );
        assert!(
            fired.contains(&operator),
            "{operator} shows {} but that chord fires {fired:?}",
            chord.label()
        );
    }
}

#[test]
fn rebinding_undo_keeps_it_working_in_a_text_field() {
    let mut keymap = Keymap::builtin();
    keymap.rebind(Chord::ctrl(Key::U), "edit.undo");

    let fired = keymap.resolve_pressed(true, &Modifiers::ctrl(), |k| k == Key::U);
    assert_eq!(fired, ["edit.undo"], "still fires while typing");
}

#[test]
fn rebinding_a_bare_key_does_not_gain_text_field_powers() {
    let mut keymap = Keymap::builtin();
    keymap.rebind(Chord::plain(Key::G), "gizmo.scale");

    let typing = keymap.resolve_pressed(true, &Modifiers::none(), |k| k == Key::G);
    assert!(typing.is_empty());
}

#[test]
fn a_new_builtin_reaches_a_config_that_predates_it() {
    let mut old = without_operator(&Keymap::builtin(), "anim.add_marker");
    assert!(old.chord_for("anim.add_marker").is_none());

    let added = old.merge_new_defaults();

    assert_eq!(added, 1);
    assert_eq!(old.chord_for("anim.add_marker"), Some(Chord::plain(Key::M)));
}

#[test]
fn merging_does_not_second_guess_a_rebinding() {
    let mut keymap = Keymap::builtin();
    keymap.unbind(Chord::plain(Key::M));
    keymap.rebind(Chord::plain(Key::G), "anim.add_marker");

    assert_eq!(keymap.merge_new_defaults(), 0);
    assert_eq!(
        keymap.operator_for(Chord::plain(Key::M)),
        None,
        "the vacated default stays vacant"
    );
}

#[test]
fn merging_does_not_steal_a_chord_the_user_took() {
    let mut keymap = without_operator(&Keymap::builtin(), "anim.add_marker");
    keymap.rebind(Chord::plain(Key::M), "tool.select");

    keymap.merge_new_defaults();

    assert_eq!(
        keymap.operator_for(Chord::plain(Key::M)),
        Some("tool.select")
    );
}

#[test]
fn reset_restores_one_operator_without_disturbing_the_rest() {
    let mut keymap = Keymap::builtin();
    keymap.rebind(Chord::plain(Key::G), "gizmo.scale");
    keymap.rebind(Chord::plain(Key::J), "tool.select");
    assert_eq!(keymap.chord_for("gizmo.scale"), Some(Chord::plain(Key::G)));

    keymap.reset("gizmo.scale");

    assert_eq!(
        keymap.chord_for("gizmo.scale"),
        Some(Chord::plain(Key::S)),
        "back to its default"
    );
    assert_eq!(
        keymap.operator_for(Chord::plain(Key::G)),
        None,
        "and the key it borrowed is free again"
    );
    assert_eq!(
        keymap.chord_for("tool.select"),
        Some(Chord::plain(Key::J)),
        "the other rebinding survived"
    );
}

#[test]
fn reset_displaces_whoever_holds_the_default_chord() {
    let mut keymap = Keymap::builtin();
    keymap.rebind(Chord::plain(Key::S), "tool.select");
    keymap.reset("gizmo.scale");

    assert_eq!(
        keymap.operator_for(Chord::plain(Key::S)),
        Some("gizmo.scale")
    );
    let racers = keymap
        .bindings()
        .iter()
        .filter(|b| b.chord == Chord::plain(Key::S))
        .count();
    assert_eq!(racers, 1);
}

#[test]
fn a_config_roundtrips_through_json_with_its_rebindings() {
    let mut keymap = Keymap::builtin();
    keymap.rebind(Chord::ctrl(Key::U), "edit.undo");

    let json = to_json(&keymap);
    let back = from_json(&json);

    assert_eq!(back.chord_for("edit.undo"), Some(Chord::ctrl(Key::U)));
    let fired = back.resolve_pressed(true, &Modifiers::ctrl(), |k| k == Key::U);
    assert_eq!(fired, ["edit.undo"], "while_typing survived the file");
}

#[test]
fn chords_read_the_way_they_are_written() {
    assert_eq!(Chord::ctrl_shift(Key::S).label(), "Ctrl+Shift+S");
    assert_eq!(Chord::plain(Key::F2).label(), "F2");
    assert_eq!(Chord::ctrl(Key::Comma).label(), "Ctrl+Comma");
}

// ── Beyond the shipped tests ─────────────────────────────────────────────────

#[test]
fn every_key_is_named_by_egui() {
    for index in 0..145u8 {
        let key = Key::from_index(index).expect("in the table");
        assert_eq!(key.index(), index);
        let name = key.name();
        assert_eq!(egui::Key::from_name(name), Some(egui::Key::ALL[index as usize]));
    }
    assert!(Key::from_index(145).is_none());
    assert_eq!(Key::Num1.name(), "1");
    assert_eq!(Key::ArrowUp.name(), "Up");
}

#[test]
fn alt_reads_after_ctrl_and_shift() {
    let chord = Chord {
        key: Key::A,
        ctrl: true,
        shift: true,
        alt: true,
    };
    assert_eq!(chord.label(), "Ctrl+Shift+Alt+A");
    assert!(chord.matches(&Modifiers::ctrl().plus(Modifiers::shift()).plus(Modifiers::alt())));
}

#[test]
fn adding_a_second_chord_keeps_the_first() {
    let mut keymap = Keymap::builtin();
    keymap.add_binding(Chord::plain(Key::Q), "edit.rename");
    assert_eq!(keymap.chord_for("edit.rename"), Some(Chord::plain(Key::F2)));
    assert_eq!(keymap.operator_for(Chord::plain(Key::Q)), Some("edit.rename"));
    assert_eq!(keymap.bindings().len(), Keymap::builtin().bindings().len() + 1);
}

#[test]
fn an_unknown_operator_gets_no_typing_powers() {
    let mut keymap = Keymap::builtin();
    keymap.add_binding(Chord::ctrl(Key::Q), "plugin.thing");
    let fired = keymap.resolve_pressed(true, &Modifiers::ctrl(), |k| k == Key::Q);
    assert!(fired.is_empty());
    let fired = keymap.resolve_pressed(false, &Modifiers::ctrl(), |k| k == Key::Q);
    assert_eq!(fired, ["plugin.thing"]);
}

#[test]
fn unbinding_frees_the_chord() {
    let mut keymap = Keymap::builtin();
    keymap.unbind(Chord::ctrl(Key::Z));
    assert_eq!(keymap.operator_for(Chord::ctrl(Key::Z)), None);
    assert_eq!(keymap.chord_for("edit.undo"), None);
    let fired = keymap.resolve_pressed(false, &Modifiers::ctrl(), |k| k == Key::Z);
    assert!(fired.is_empty());
}

#[test]
fn a_shared_chord_fires_every_operator_on_it_in_table_order() {
    let keymap = Keymap::from_bindings(vec![
        Binding {
            chord: Chord::plain(Key::X),
            operator: "first.op".into(),
            while_typing: false,
        },
        Binding {
            chord: Chord::plain(Key::X),
            operator: "second.op".into(),
            while_typing: false,
        },
    ]);
    let fired = keymap.resolve_pressed(false, &Modifiers::none(), |k| k == Key::X);
    assert_eq!(fired, ["first.op", "second.op"]);
    assert_eq!(keymap.operator_for(Chord::plain(Key::X)), Some("first.op"));
}

#[test]
fn the_default_keymap_is_the_builtin_table() {
    let default = Keymap::default();
    assert_eq!(default.bindings().len(), 22);
    assert_eq!(default.chord_for("app.settings"), Some(Chord::ctrl(Key::Comma)));
}

fn frame_with_press(key: egui::Key, modifiers: egui::Modifiers) -> egui::InputState {
    let mut input = egui::InputState::default();
    input.modifiers = modifiers;
    input.events.push(egui::Event::Key {
        key,
        physical_key: None,
        pressed: true,
        repeat: false,
        modifiers,
    });
    input
}

#[test]
fn an_egui_frame_resolves_through_the_table() {
    let keymap = Keymap::builtin();
    let ctrl_z = frame_with_press(egui::Key::Z, egui::Modifiers::CTRL);
    assert_eq!(keymap.resolve(&ctrl_z, false), vec!["edit.undo"]);
    assert_eq!(keymap.resolve(&ctrl_z, true), vec!["edit.undo"]);

    // A bare letter fires outside a text field and not inside one.
    let w = frame_with_press(egui::Key::W, egui::Modifiers::NONE);
    assert!(!keymap.resolve(&w, false).is_empty());
    assert!(keymap.resolve(&w, true).is_empty());

    // A release is not a press.
    let mut released = egui::InputState::default();
    released.modifiers = egui::Modifiers::CTRL;
    released.events.push(egui::Event::Key {
        key: egui::Key::Z,
        physical_key: None,
        pressed: false,
        repeat: false,
        modifiers: egui::Modifiers::CTRL,
    });
    assert!(keymap.resolve(&released, false).is_empty());
}
