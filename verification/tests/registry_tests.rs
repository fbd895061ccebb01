use ankhimate_editor::args::{ArgError, Args, JsonValue};
use ankhimate_editor::history::WorkMode;
use ankhimate_editor::operators::BuiltinOp;
use ankhimate_editor::registry::{OpResult, Operator, Registry, UiRequest};

/// The slice of editor state these operators touch.
#[derive(Default)]
struct State {
    status: Option<String>,
}

struct Stub {
    id: &'static str,
    label: &'static str,
    enabled: bool,
}

impl Stub {
    fn new(id: &'static str) -> Self {
        Self {
            id,
            label: "Stub",
            enabled: true,
        }
    }
}

impl Operator<State> for Stub {
    fn spec_id(&self) -> vstd::seq::Seq<char> {
        unreachable!()
    }
    fn spec_enabled(&self, _state: State) -> bool {
        self.enabled
    }
    fn spec_invoke(
        &self,
        _before: State,
        _args: Args,
        _after: State,
        _result: Result<OpResult, ArgError>,
    ) -> bool {
        unreachable!()
    }
    fn id(&self) -> &'static str {
        self.id
    }
    fn label(&self) -> &str {
        self.label
    }
    fn requires_mode(&self) -> Option<WorkMode> {
        None
    }
    fn enabled(&self, _state: &State) -> bool {
        self.enabled
    }
    fn invoke(&self, state: &mut State, _args: &Args) -> Result<OpResult, ArgError> {
        state.status = Some(self.label.to_string());
        Ok(OpResult::done())
    }
}

/// Needs a `name` argument.
struct NeedsName;

impl Operator<State> for NeedsName {
    fn spec_id(&self) -> vstd::seq::Seq<char> {
        unreachable!()
    }
    fn spec_enabled(&self, _state: State) -> bool {
        true
    }
    fn spec_invoke(
        &self,
        _before: State,
        _args: Args,
        _after: State,
        _result: Result<OpResult, ArgError>,
    ) -> bool {
        unreachable!()
    }
    fn id(&self) -> &'static str {
        "test.named"
    }
    fn label(&self) -> &str {
        "Named"
    }
    fn enabled(&self, _state: &State) -> bool {
        true
    }
    fn invoke(&self, state: &mut State, args: &Args) -> Result<OpResult, ArgError> {
        let name = args.str("name")?;
        state.status = Some(name.to_string());
        Ok(OpResult::ui(UiRequest::Rename))
    }
}

#[test]
fn an_unknown_id_resolves_to_nothing() {
    let registry: Registry<Stub> = Registry::new();
    assert!(registry.get("no.such.op").is_none());
}

#[test]
fn registering_twice_shadows_rather_than_replaces() {
    let mut registry = Registry::new();
    registry.register::<State>(Stub {
        label: "first",
        ..Stub::new("test.op")
    });
    registry.register::<State>(Stub {
        label: "second",
        ..Stub::new("test.op")
    });

    assert_eq!(registry.depth("test.op"), 2, "the first is still there");
    assert_eq!(registry.get("test.op").unwrap().label(), "second");
    assert_eq!(
        registry.shadowed("test.op").unwrap().label(),
        "first",
        "a shadowing operator can still reach the one it covered"
    );
}

#[test]
fn the_only_registration_shadows_nothing() {
    let mut registry = Registry::new();
    registry.register::<State>(Stub::new("test.op"));
    assert!(registry.shadowed("test.op").is_none());
}

#[test]
fn a_disabled_operator_is_not_invoked() {
    let mut registry = Registry::new();
    registry.register::<State>(Stub {
        enabled: false,
        ..Stub::new("test.op")
    });

    let mut state = State::default();
    state.status = None;
    assert!(registry.invoke("test.op", &mut state).is_none());
    assert_eq!(state.status, None, "invoke body never ran");
}

#[test]
fn an_enabled_operator_runs() {
    let mut registry = Registry::new();
    registry.register::<State>(Stub::new("test.op"));

    let mut state = State::default();
    state.status = None;
    assert!(registry.invoke("test.op", &mut state).is_some());
    assert_eq!(state.status.as_deref(), Some("Stub"));
}

// ── Beyond the shipped tests ─────────────────────────────────────────────────

#[test]
fn ids_come_back_sorted_and_once_each() {
    let mut registry = Registry::new();
    for id in ["view.toggle_bones", "edit.undo", "anim.key_pose", "edit.redo", "edit.undo"] {
        registry.register::<State>(Stub::new(id));
    }
    assert_eq!(
        registry.ids(),
        ["anim.key_pose", "edit.redo", "edit.undo", "view.toggle_bones"]
    );
    assert_eq!(registry.depth("edit.undo"), 2);
    assert_eq!(registry.depth("edit.nothing"), 0);
}

#[test]
fn ids_sort_by_code_point_like_a_btree_map() {
    let mut registry = Registry::new();
    for id in ["b", "a.b", "a", "B", "ab"] {
        registry.register::<State>(Stub::new(id));
    }
    let mut expected = vec!["b", "a.b", "a", "B", "ab"];
    expected.sort();
    assert_eq!(registry.ids(), expected);
}

#[test]
fn an_unknown_id_is_declined_quietly() {
    let registry: Registry<Stub> = Registry::new();
    let mut state = State::default();
    assert!(matches!(
        registry.try_invoke("no.such.op", &mut state, &Args::none()),
        Ok(None)
    ));
    assert_eq!(state.status, None);
}

#[test]
fn a_missing_argument_is_reported_by_try_invoke_and_swallowed_by_invoke() {
    let mut registry = Registry::new();
    registry.register::<State>(NeedsName);
    let mut state = State::default();

    assert_eq!(
        registry.try_invoke("test.named", &mut state, &Args::none()),
        Err(ArgError::Missing("name".into()))
    );
    assert!(registry.invoke("test.named", &mut state).is_none());

    let args = Args::from_json(JsonValue::Object(vec![(
        "name".to_string(),
        JsonValue::String("spine".to_string()),
    )]));
    let result = registry.try_invoke("test.named", &mut state, &args);
    assert_eq!(result, Ok(Some(OpResult::ui(UiRequest::Rename))));
    assert_eq!(state.status.as_deref(), Some("spine"));
}

#[test]
fn a_result_carries_only_what_was_asked() {
    assert_eq!(OpResult::done().ui, None);
    assert_eq!(OpResult::ui(UiRequest::Settings).ui, Some(UiRequest::Settings));
    assert_eq!(OpResult::default(), OpResult::done());
}

#[test]
fn builtin_ids_are_unique() {
    let mut registry: Registry<Stub> = Registry::new();
    for op in BuiltinOp::all() {
        registry.register::<State>(Stub::new(op.id()));
    }
    let clashes: Vec<_> = registry
        .ids()
        .into_iter()
        .filter(|id| registry.depth(id) > 1)
        .collect();
    assert!(clashes.is_empty(), "duplicate built-in ids: {clashes:?}");
    assert_eq!(registry.ids().len(), BuiltinOp::all().len());
}

#[test]
fn operators_every_builtin_id_is_dotted() {
    for op in BuiltinOp::all() {
        let id = op.id();
        assert!(
            id.contains('.') && !id.starts_with('.') && !id.ends_with('.'),
            "{id} is not domain.verb"
        );
    }
}

#[test]
fn builtin_operators_name_themselves_and_their_modes() {
    assert_eq!(BuiltinOp::all().len(), 21);
    assert_eq!(BuiltinOp::CopySelection.id(), "edit.copy");
    assert_eq!(BuiltinOp::CopySelection.label(), "Copy");
    assert_eq!(BuiltinOp::ToggleWorkMode.label(), "Toggle Setup/Animate");
    assert_eq!(BuiltinOp::KeyPendingPose.requires_mode(), Some(WorkMode::Animate));
    assert_eq!(BuiltinOp::CreateBoneTool.requires_mode(), Some(WorkMode::Setup));
    assert_eq!(BuiltinOp::Undo.requires_mode(), None);
}
