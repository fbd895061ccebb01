use ankhimate_editor::app_state::{clip_for_animate, refusal_hint, target_bones, ClipChoice};
use ankhimate_editor::autosave::{
    autosave_file_name, offer_recovery, unsaved_file_name, write_due, Recovery, DEFAULT_INTERVAL_SECS,
};
use ankhimate_editor::clipboard::ClipboardSummary;
use ankhimate_editor::config::{clear_recent, forget_recent, touch_recent, Area, MAX_RECENT};
use ankhimate_editor::doc::DocumentMeta;
use ankhimate_editor::edit_router::{key_state, route, KeyState, Route};
use ankhimate_editor::fileops::{unresolved_status, FileOutcome};
use ankhimate_editor::history::WorkMode;
use ankhimate_editor::ids::{AnimationId, BoneId, SlotId};
use ankhimate_editor::names::{name_taken, new_animation_name};
use ankhimate_editor::operators::{AddMarkerAtPlayhead, MarkerState};
use ankhimate_editor::registry::{Operator, Registry};
use ankhimate_editor::plugins::{community_plugins, summary};
use ankhimate_editor::timeline::{draw_order_offsets, Axis, BoneProperty, TimelineAddr};
use ankhimate_editor::weights::BrushMode;

#[test]
fn recent_files_are_deduplicated_and_capped() {
    let mut recent: Vec<String> = Vec::new();
    for i in 0..(MAX_RECENT + 5) {
        touch_recent(&mut recent, &format!("f{i}.ankh"));
    }
    assert_eq!(recent.len(), MAX_RECENT);

    let again = recent[3].clone();
    touch_recent(&mut recent, &again);
    assert_eq!(recent[0], again);
    assert_eq!(recent.iter().filter(|p| **p == again).count(), 1);
    assert_eq!(recent.len(), MAX_RECENT);
}

#[test]
fn forgetting_and_clearing_recent_files() {
    let mut recent = vec!["a.ankh".to_string(), "b.ankh".to_string()];
    forget_recent(&mut recent, "a.ankh");
    assert_eq!(recent, ["b.ankh"]);
    forget_recent(&mut recent, "zzz.ankh");
    assert_eq!(recent, ["b.ankh"]);
    clear_recent(&mut recent);
    assert!(recent.is_empty());
}

#[test]
fn an_untouched_document_is_not_rewritten() {
    assert!(!write_due(Some(7), 7), "revision unchanged, nothing to do");
    assert!(write_due(Some(7), 8), "edited since, now due");
}

#[test]
fn an_edit_before_the_first_write_still_saves() {
    assert!(write_due(None, 0), "never written, so due");
}

#[test]
fn the_autosave_name_extends_the_project_name() {
    assert_eq!(autosave_file_name("walk.ankh"), "walk.ankh.autosave");
    assert_ne!(autosave_file_name("walk.ankh"), "walk.ankh");
    assert_eq!(unsaved_file_name(), "untitled.ankh.autosave");
    assert_eq!(DEFAULT_INTERVAL_SECS, 120);
}

#[test]
fn only_a_newer_autosave_is_offered() {
    assert!(!offer_recovery(10, Some(20)), "superseded by a real save");
    assert!(!offer_recovery(10, Some(10)), "same instant is superseded");
    assert!(offer_recovery(20, Some(10)));
    assert!(offer_recovery(20, None), "a vanished project still offers its autosave");
    let r = Recovery {
        autosave: "rig.ankh.autosave".into(),
        project: Some("rig.ankh".into()),
    };
    assert_eq!(r.clone(), r);
}

#[test]
fn labels_read_as_the_panels_show_them() {
    assert_eq!(BoneProperty::Translate.label(), "translate");
    assert_eq!(BoneProperty::Rotate.label(), "rotate");
    assert_eq!(BoneProperty::Scale.label(), "scale");
    assert_eq!(BoneProperty::Shear.label(), "shear");
    assert_eq!(BrushMode::default(), BrushMode::Add);
    assert_eq!(BrushMode::Add.label(), "Add");
    assert_eq!(BrushMode::Subtract.label(), "Subtract");
    assert_eq!(BrushMode::Smooth.label(), "Smooth");
}

#[test]
fn two_tracks_of_one_bone_get_different_ids() {
    let bone = BoneId(0x1234);
    let x = TimelineAddr::Bone {
        bone,
        property: BoneProperty::Translate,
        axis: Some(Axis::X),
    };
    let y = TimelineAddr::Bone {
        bone,
        property: BoneProperty::Translate,
        axis: Some(Axis::Y),
    };
    let rot = TimelineAddr::Bone {
        bone,
        property: BoneProperty::Rotate,
        axis: None,
    };
    assert_eq!(x.stable_id(), 0x1234 * 64 + 1 + 16);
    assert_eq!(y.stable_id(), 0x1234 * 64 + 1 + 32);
    assert_eq!(rot.stable_id(), 0x1234 * 64 + 2);
    let big = TimelineAddr::Bone {
        bone: BoneId(u64::MAX),
        property: BoneProperty::Shear,
        axis: None,
    };
    assert_eq!(big.stable_id(), u64::MAX.wrapping_mul(64).wrapping_add(4));
    let slot = SlotId(5);
    assert_eq!(TimelineAddr::SlotColor { slot }.stable_id(), 5 ^ 0xC010_0000_0000_0000);
    assert_eq!(TimelineAddr::SlotAttachment { slot }.stable_id(), 5 ^ 0xA77A_0000_0000_0000);
    assert_eq!(TimelineAddr::SlotVisible { slot }.stable_id(), 5 ^ 0x7157_0000_0000_0000);
}

#[test]
fn draw_order_keys_store_offsets_from_setup() {
    let (a, b, c) = (SlotId(1), SlotId(2), SlotId(3));
    let setup = vec![a, b, c];
    assert!(draw_order_offsets(&setup, &setup).is_empty());
    assert_eq!(draw_order_offsets(&vec![c, a, b], &setup), [(c, -2), (a, 1), (b, 1)]);
    assert_eq!(
        draw_order_offsets(&vec![SlotId(9), b, a], &vec![a, b]),
        [(a, 2)],
        "a slot the setup does not hold is skipped"
    );
}

#[test]
fn the_router_follows_the_mode() {
    assert_eq!(route(false, false, false, false), Route::Setup);
    assert_eq!(route(false, true, true, true), Route::Setup);
    assert_eq!(
        route(true, false, true, false),
        Route::Refused("No animation selected — pick or create one first")
    );
    assert_eq!(route(true, true, false, false), Route::Pending);
    assert_eq!(route(true, true, false, true), Route::Key, "K keys even with auto-key off");
    assert_eq!(route(true, true, true, false), Route::Key);
}

#[test]
fn key_state_reports_timeline_and_key_presence() {
    assert_eq!(key_state(false, Some(3)), KeyState::NoTimeline);
    assert_eq!(key_state(true, None), KeyState::Unkeyed);
    assert_eq!(key_state(true, Some(1)), KeyState::Keyed(1));
    assert_ne!(KeyState::Modified, KeyState::Unkeyed);
}

#[test]
fn a_name_held_by_another_entity_is_taken() {
    let anims = vec![(1u64, "walk".to_string()), (2u64, "run".to_string())];
    assert!(name_taken(&anims, Some(2), "walk"));
    assert!(!name_taken(&anims, Some(1), "walk"), "renaming to its own name");
    assert!(!name_taken(&anims, None, "jump"));
    assert!(name_taken(&anims, None, "run"));
    assert_eq!(new_animation_name(0), "animation_1");
    assert_eq!(new_animation_name(41), "animation_42");
}

#[test]
fn mode_rules_around_dispatch() {
    assert_eq!(WorkMode::Setup.toggled(), WorkMode::Animate);
    assert_eq!(WorkMode::Animate.toggled(), WorkMode::Setup);
    assert_eq!(
        refusal_hint(Some(WorkMode::Setup)),
        "Switch to Setup mode to edit the rig (Tab)"
    );
    assert_eq!(refusal_hint(Some(WorkMode::Animate)), "Not available in this mode");
    assert_eq!(refusal_hint(None), "Not available in this mode");
    assert_eq!(clip_for_animate(Some(3u64), Some(1)), ClipChoice::Keep);
    assert_eq!(clip_for_animate(None, Some(1u64)), ClipChoice::Select(1));
    assert_eq!(clip_for_animate::<u64>(None, None), ClipChoice::Create);
    let all = vec![BoneId(1), BoneId(2), BoneId(3)];
    assert_eq!(target_bones(&vec![], &all), all);
    assert_eq!(target_bones(&vec![BoneId(2)], &all), [BoneId(2)]);
}

#[test]
fn operators_a_marker_needs_an_animation() {
    let mut registry: Registry<AddMarkerAtPlayhead> = Registry::new();
    registry.register::<MarkerState>(AddMarkerAtPlayhead);
    let mut state = MarkerState {
        active_animation: None,
        playhead_frame: 12,
        markers: Vec::new(),
    };
    assert!(registry.invoke("anim.add_marker", &mut state).is_none());
    assert!(state.markers.is_empty());

    state.active_animation = Some(AnimationId(4));
    assert!(registry.invoke("anim.add_marker", &mut state).is_some());
    assert_eq!(state.markers.len(), 1);
    assert_eq!(state.markers[0].name, "f12");
    assert_eq!(state.markers[0].frame, 12);
    assert_eq!(state.markers[0].animation, AnimationId(4));

    let op = AddMarkerAtPlayhead;
    assert_eq!(op.id(), "anim.add_marker");
    assert_eq!(op.label(), "Add Marker");
    assert_eq!(op.marker_name(0), "f0");
    assert_eq!(op.marker_name(-3), "f-3");
    assert_eq!(op.marker_name(i64::MIN), format!("f{}", i64::MIN));
}

#[test]
fn the_summary_says_what_is_worth_saying() {
    assert_eq!(summary(0, 0), "No plugins");
    assert_eq!(summary(1, 0), "1 plugin(s)");
    assert_eq!(summary(2, 1), "2 plugin(s), 1 failed to load");
    assert_eq!(summary(1234, 0), "1234 plugin(s)");
}

#[test]
fn the_community_packages_are_listed() {
    let list = community_plugins();
    assert_eq!(list.len(), 2);
    assert_eq!(list[0].id, "spine");
    assert_eq!(list[0].importer_id, "import.spine");
    assert_eq!(list[1].label, "DragonBones JSON");
}

#[test]
fn the_clipboard_describes_itself() {
    assert!(ClipboardSummary::default().is_empty());
    assert_eq!(ClipboardSummary::Empty.describe(), "nothing");
    assert_eq!(ClipboardSummary::Bones(1).describe(), "1 bone");
    assert_eq!(ClipboardSummary::Bones(3).describe(), "3 bones");
    assert_eq!(ClipboardSummary::Bones(0).describe(), "0 bones");
    assert_eq!(ClipboardSummary::Pose(1).describe(), "a pose (1 bone)");
    assert_eq!(ClipboardSummary::Pose(10).describe(), "a pose (10 bones)");
    assert!(!ClipboardSummary::Pose(2).is_empty());
}

#[test]
fn an_open_reports_what_did_not_resolve() {
    assert_eq!(unresolved_status(&vec![]), None);
    assert_eq!(
        unresolved_status(&vec![("texture".to_string(), "head".to_string())]).as_deref(),
        Some("Opened with unresolved: texture 'head'")
    );
    assert_eq!(
        unresolved_status(&vec![
            ("texture".to_string(), "head".to_string()),
            ("skin".to_string(), "red".to_string()),
        ])
        .as_deref(),
        Some("Opened with unresolved: texture 'head', skin 'red'")
    );
    assert_ne!(FileOutcome::Cancelled, FileOutcome::Saved("a".into()));
}

#[test]
fn a_new_document_is_untitled_at_thirty_fps() {
    let meta = DocumentMeta::default();
    assert_eq!(meta.name, "untitled");
    assert_eq!(meta.fps, 30);
    assert_ne!(Area::Ui, Area::Timeline);
}
