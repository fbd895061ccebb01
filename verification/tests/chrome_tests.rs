use ankhimate_editor::args::{ArgError, Args};
use ankhimate_editor::chrome::{menu_label, run_operator, Chrome};
use ankhimate_editor::registry::{OpResult, Operator, Registry, UiRequest};

/// Asks for one window, or none, and counts its runs.
struct Asks {
    id: &'static str,
    request: Option<UiRequest>,
    enabled: bool,
}

impl Operator<u32> for Asks {
    fn spec_id(&self) -> vstd::seq::Seq<char> {
        unreachable!()
    }
    fn spec_enabled(&self, _state: u32) -> bool {
        self.enabled
    }
    fn spec_invoke(
        &self,
        _before: u32,
        _args: Args,
        _after: u32,
        _result: Result<OpResult, ArgError>,
    ) -> bool {
        unreachable!()
    }
    fn id(&self) -> &'static str {
        self.id
    }
    fn label(&self) -> &str {
        "Asks"
    }
    fn enabled(&self, _state: &u32) -> bool {
        self.enabled
    }
    fn invoke(&self, runs: &mut u32, _args: &Args) -> Result<OpResult, ArgError> {
        *runs += 1;
        Ok(OpResult {
            ui: self.request,
        })
    }
}

fn registry() -> Registry<Asks> {
    let mut registry = Registry::new();
    registry.register::<u32>(Asks {
        id: "app.settings",
        request: Some(UiRequest::Settings),
        enabled: true,
    });
    registry.register::<u32>(Asks {
        id: "edit.rename",
        request: Some(UiRequest::Rename),
        enabled: true,
    });
    registry.register::<u32>(Asks {
        id: "app.startup",
        request: Some(UiRequest::Startup),
        enabled: true,
    });
    registry.register::<u32>(Asks {
        id: "edit.undo",
        request: None,
        enabled: false,
    });
    registry
}

#[test]
fn settings_toggles_and_the_others_open() {
    let registry = registry();
    let mut chrome = Chrome::default();
    let mut runs = 0u32;

    assert!(run_operator(&registry, &mut chrome, &mut runs, "app.settings"));
    assert!(chrome.show_settings);
    assert!(run_operator(&registry, &mut chrome, &mut runs, "app.settings"));
    assert!(!chrome.show_settings, "a second press closes it");

    assert!(run_operator(&registry, &mut chrome, &mut runs, "edit.rename"));
    assert!(run_operator(&registry, &mut chrome, &mut runs, "edit.rename"));
    assert!(chrome.show_rename, "rename only ever opens");

    assert!(run_operator(&registry, &mut chrome, &mut runs, "app.startup"));
    assert!(chrome.show_startup);
    assert_eq!(runs, 5);
}

#[test]
fn an_unknown_or_disabled_operator_touches_nothing() {
    let registry = registry();
    let mut chrome = Chrome::default();
    let mut runs = 0u32;
    assert!(!run_operator(&registry, &mut chrome, &mut runs, "no.such"));
    assert!(!run_operator(&registry, &mut chrome, &mut runs, "edit.undo"));
    assert_eq!(chrome, Chrome::default());
    assert_eq!(runs, 0);
}

#[test]
fn a_menu_label_carries_the_command_on_top() {
    assert_eq!(menu_label("Undo", Some("Move Bone")), "Undo Move Bone");
    assert_eq!(menu_label("Undo", None), "Undo");
}
