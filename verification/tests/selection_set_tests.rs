use ankhimate_editor::history::{EditCommand, History, IdRemap, WorkMode};
use ankhimate_editor::ids::BoneId;
use ankhimate_editor::rig::{Bone, Rig, RigEdit};
use ankhimate_editor::selection_sets::{
    edit_set, save_set, EditSelectionSet, SaveSelectionSet, SelectionSet, SetEdit,
};

/// A rig of bones without parents, keyed from 1.
fn rig(bones: u64) -> Rig {
    Rig {
        bones: (1..=bones)
            .map(|k| Bone {
                id: BoneId(k),
                name: format!("b{k}"),
                parent: None,
            })
            .collect(),
        sets: Vec::new(),
        next_key: bones + 1,
        slots: Vec::new(),
    }
}

fn save(name: &str, bones: Vec<BoneId>) -> RigEdit {
    RigEdit::SaveSet(SaveSelectionSet::new(name, bones))
}

#[test]
fn saving_a_set_round_trips_through_undo() {
    let mut doc = rig(2);
    let (a, b) = (BoneId(1), BoneId(2));
    let mut history = History::new(200);

    history.push(save("left arm", vec![a, b]), &mut doc);
    assert_eq!(doc.sets.len(), 1);
    assert_eq!(doc.sets[0].bones, vec![a, b]);

    history.undo(&mut doc);
    assert!(doc.sets.is_empty());
}

#[test]
fn saving_over_a_name_replaces_that_set() {
    let mut doc = rig(2);
    let (a, b) = (BoneId(1), BoneId(2));
    let mut history = History::new(200);

    history.push(save("arm", vec![a]), &mut doc);
    history.push(save("arm", vec![b]), &mut doc);

    assert_eq!(doc.sets.len(), 1, "not two rows named arm");
    assert_eq!(doc.sets[0].bones, vec![b]);
}

#[test]
fn renaming_and_removing_a_set_undo() {
    let mut doc = rig(1);
    let a = BoneId(1);
    let mut history = History::new(200);
    history.push(save("old", vec![a]), &mut doc);

    history.push(
        RigEdit::EditSet(EditSelectionSet::new(0, SetEdit::Rename("new".to_string()))),
        &mut doc,
    );
    assert_eq!(doc.sets[0].name, "new");
    history.undo(&mut doc);
    assert_eq!(doc.sets[0].name, "old");

    history.push(RigEdit::EditSet(EditSelectionSet::new(0, SetEdit::Remove)), &mut doc);
    assert!(doc.sets.is_empty());
    history.undo(&mut doc);
    assert_eq!(doc.sets.len(), 1);
}

// ── Beyond the shipped tests ─────────────────────────────────────────────────

#[test]
fn bones_that_no_longer_exist_are_not_saved() {
    let mut sets = Vec::new();
    let live = vec![BoneId(1), BoneId(3)];
    save_set(&mut sets, "mix", &vec![BoneId(1), BoneId(2), BoneId(3)], &live);
    assert_eq!(sets[0].bones, vec![BoneId(1), BoneId(3)]);

    save_set(&mut sets, "gone", &vec![BoneId(2)], &live);
    assert_eq!(sets.len(), 1, "a set of nothing is not saved");
}

#[test]
fn renaming_onto_another_name_drops_the_other_row() {
    let mut sets = vec![
        SelectionSet {
            name: "a".into(),
            bones: vec![BoneId(1)],
        },
        SelectionSet {
            name: "b".into(),
            bones: vec![BoneId(2)],
        },
        SelectionSet {
            name: "c".into(),
            bones: vec![BoneId(3)],
        },
    ];
    edit_set(&mut sets, 2, &SetEdit::Rename("a".into()));
    assert_eq!(sets.len(), 2);
    assert_eq!(sets[0].name, "b");
    assert_eq!(sets[1].name, "a");
    assert_eq!(sets[1].bones, vec![BoneId(3)]);
}

#[test]
fn an_edit_past_the_end_does_nothing_and_has_nothing_to_undo() {
    let mut sets = vec![SelectionSet {
        name: "a".into(),
        bones: vec![BoneId(1)],
    }];
    let mut cmd = EditSelectionSet::new(5, SetEdit::Remove);
    cmd.apply_to(&mut sets);
    assert_eq!(sets.len(), 1);
    assert!(cmd.before.is_none());
    cmd.revert_to(&mut sets);
    assert_eq!(sets.len(), 1);
}

#[test]
fn a_saved_set_follows_a_restored_bone() {
    let mut cmd = SaveSelectionSet::new("arm", vec![BoneId(1), BoneId(2)]);
    let mut remap = IdRemap::new();
    remap.remap_bone(BoneId(2), BoneId(8));
    cmd.apply_remap(&remap);
    assert_eq!(cmd.bones, vec![BoneId(1), BoneId(8)]);
    assert_eq!(cmd.label(), "Save Selection Set");
    assert_eq!(cmd.requires_mode(), Some(WorkMode::Setup));
}

#[test]
fn edit_labels_name_the_edit() {
    assert_eq!(
        EditSelectionSet::new(0, SetEdit::Rename("x".into())).label(),
        "Rename Selection Set"
    );
    assert_eq!(
        EditSelectionSet::new(0, SetEdit::Remove).label(),
        "Delete Selection Set"
    );
}
