use ankhimate_editor::history::{EditCommand, History};
use ankhimate_editor::ids::{BoneId, SlotId};
use ankhimate_editor::rig::{copy_status, Bone, DeleteBone, Rig, RigEdit, SetBoneParent};

/// root(1) ← arm(2) ← hand(3), and a separate root leg(4).
fn chain() -> Rig {
    let bone = |id: u64, name: &str, parent: Option<u64>| Bone {
        id: BoneId(id),
        name: name.to_string(),
        parent: parent.map(BoneId),
    };
    Rig {
        bones: vec![
            bone(1, "root", None),
            bone(2, "arm", Some(1)),
            bone(3, "hand", Some(2)),
            bone(4, "leg", None),
        ],
        sets: Vec::new(),
        next_key: 5,
        slots: vec![(SlotId(7), BoneId(3)), (SlotId(8), BoneId(4))],
    }
}

fn parent(rig: &Rig, id: u64) -> Option<BoneId> {
    rig.bones.iter().find(|b| b.id == BoneId(id)).unwrap().parent
}

#[test]
fn descent_follows_the_parent_chain() {
    let rig = chain();
    assert!(rig.is_descendant(BoneId(3), BoneId(1)));
    assert!(rig.is_descendant(BoneId(3), BoneId(2)));
    assert!(!rig.is_descendant(BoneId(1), BoneId(3)));
    assert!(!rig.is_descendant(BoneId(4), BoneId(1)));
    assert!(!rig.is_descendant(BoneId(1), BoneId(1)));
}

#[test]
fn reparenting_under_a_descendant_is_refused() {
    let mut rig = chain();
    let mut history = History::new(200);
    history.push(RigEdit::Reparent(SetBoneParent::new(BoneId(1), Some(BoneId(3)))), &mut rig);
    assert_eq!(parent(&rig, 1), None, "a cycle would cut the arm off every root");
    history.push(RigEdit::Reparent(SetBoneParent::new(BoneId(2), Some(BoneId(2)))), &mut rig);
    assert_eq!(parent(&rig, 2), Some(BoneId(1)));
}

#[test]
fn a_reparent_undoes_and_redoes() {
    let mut rig = chain();
    let mut history = History::new(200);
    history.push(RigEdit::Reparent(SetBoneParent::new(BoneId(3), Some(BoneId(4)))), &mut rig);
    assert_eq!(parent(&rig, 3), Some(BoneId(4)));
    assert_eq!(history.undo_label::<Rig>(), Some("Reparent Bone"));
    assert!(history.undo(&mut rig));
    assert_eq!(parent(&rig, 3), Some(BoneId(2)));
    assert_eq!(history.redo_label::<Rig>(), Some("Reparent Bone"));
    assert!(history.redo(&mut rig));
    assert_eq!(parent(&rig, 3), Some(BoneId(4)));
}

#[test]
fn deleting_a_bone_moves_its_children_up_and_undo_brings_it_back_under_a_new_key() {
    let mut rig = chain();
    let mut history = History::new(200);
    history.push(RigEdit::Delete(DeleteBone::new(BoneId(2))), &mut rig);
    assert_eq!(rig.bones.len(), 3);
    assert_eq!(parent(&rig, 3), Some(BoneId(1)), "the hand moved up to the root");
    assert_eq!(rig.slots.len(), 2, "the arm carried no slot");

    assert!(history.undo(&mut rig));
    assert_eq!(rig.bones.len(), 4);
    let restored = rig.bones.last().unwrap();
    assert_eq!(restored.id, BoneId(5));
    assert_eq!(restored.name, "arm");
    assert_eq!(restored.parent, Some(BoneId(1)));
    assert_eq!(parent(&rig, 3), Some(BoneId(5)), "the hand went back to the arm");

    // Redo deletes the restored bone, not the dead key.
    assert!(history.redo(&mut rig));
    assert_eq!(rig.bones.len(), 3);
    assert_eq!(parent(&rig, 3), Some(BoneId(1)));
}

#[test]
fn an_earlier_edit_follows_a_bone_that_undo_recreated() {
    let mut rig = chain();
    let mut history = History::new(200);
    history.push(RigEdit::Reparent(SetBoneParent::new(BoneId(2), Some(BoneId(4)))), &mut rig);
    history.push(RigEdit::Delete(DeleteBone::new(BoneId(2))), &mut rig);
    assert!(history.undo(&mut rig));
    // The arm is back as key 5; undoing the reparent must reach it there.
    assert!(history.undo(&mut rig));
    assert_eq!(parent(&rig, 5), Some(BoneId(1)));
}

#[test]
fn a_delete_of_a_missing_bone_changes_nothing() {
    let mut rig = chain();
    let mut cmd = DeleteBone::new(BoneId(9));
    cmd.apply(&mut rig);
    assert_eq!(rig.bones.len(), 4);
    cmd.revert(&mut rig);
    assert_eq!(rig.bones.len(), 4);
    assert!(cmd.take_remap().is_empty());
}

#[test]
fn copying_carries_the_whole_subtree_once() {
    let rig = chain();
    // The hand is below the arm, so copying both copies the arm's subtree once.
    let plan = rig
        .copy_selection(&vec![BoneId(3), BoneId(2)])
        .expect("something selected");
    assert_eq!(plan.bones, vec![BoneId(2), BoneId(3)]);
    assert_eq!(plan.parents, vec![None, Some(0)]);
    assert_eq!(plan.slots, vec![(SlotId(7), 1)]);

    let all = rig.copy_selection(&vec![BoneId(1), BoneId(4)]).unwrap();
    assert_eq!(all.bones, vec![BoneId(1), BoneId(2), BoneId(3), BoneId(4)]);
    assert_eq!(all.parents, vec![None, Some(0), Some(1), None]);
    assert_eq!(all.slots, vec![(SlotId(7), 2), (SlotId(8), 3)]);
}

#[test]
fn copying_an_empty_selection_reports_it() {
    let rig = chain();
    let plan = rig.copy_selection(&Vec::new());
    assert!(plan.is_none());
    assert_eq!(copy_status(&plan), "Nothing selected to copy");
}

#[test]
fn the_copy_status_counts_the_copied_bones() {
    let rig = chain();
    let plan = rig.copy_selection(&vec![BoneId(2)]);
    assert_eq!(copy_status(&plan), "Copied 2 bone(s)");
    let all = rig.copy_selection(&vec![BoneId(1), BoneId(4)]);
    assert_eq!(copy_status(&all), "Copied 4 bone(s)");
}

#[test]
fn a_copy_puts_a_parent_before_a_child_listed_ahead_of_it() {
    // "a" is created first, then hung under the later bone "b", so the
    // rig's list holds the child before its parent.
    let mut rig = Rig {
        bones: vec![
            Bone { id: BoneId(1), name: "a".to_string(), parent: None },
            Bone { id: BoneId(2), name: "b".to_string(), parent: None },
        ],
        sets: Vec::new(),
        next_key: 3,
        slots: vec![(SlotId(9), BoneId(1))],
    };
    let mut history = History::new(200);
    history.push(RigEdit::Reparent(SetBoneParent::new(BoneId(1), Some(BoneId(2)))), &mut rig);
    assert_eq!(rig.bones[0].id, BoneId(1));
    assert_eq!(parent(&rig, 1), Some(BoneId(2)));

    let plan = rig.copy_selection(&vec![BoneId(2)]).unwrap();
    assert_eq!(plan.bones, vec![BoneId(2), BoneId(1)]);
    assert_eq!(plan.parents, vec![None, Some(0)]);
    assert_eq!(plan.slots, vec![(SlotId(9), 1)]);
    assert_eq!(copy_status(&Some(plan)), "Copied 2 bone(s)");
}

#[test]
fn selecting_only_the_child_copies_it_as_a_root() {
    let rig = chain();
    let plan = rig.copy_selection(&vec![BoneId(3)]).unwrap();
    assert_eq!(plan.bones, vec![BoneId(3)]);
    assert_eq!(plan.parents, vec![None]);
}

#[test]
fn deleting_a_bone_drops_its_slots_and_undo_leaves_them_gone() {
    let mut rig = chain();
    let mut history = History::new(200);
    history.push(RigEdit::Delete(DeleteBone::new(BoneId(3))), &mut rig);
    assert_eq!(rig.slots, vec![(SlotId(8), BoneId(4))]);
    assert!(history.undo(&mut rig));
    assert_eq!(rig.bones.len(), 4);
    assert_eq!(rig.slots, vec![(SlotId(8), BoneId(4))]);
}

#[test]
fn a_restored_bone_takes_the_next_unused_key() {
    let mut rig = chain();
    let mut cmd = DeleteBone::new(BoneId(4));
    cmd.apply(&mut rig);
    cmd.revert(&mut rig);
    let restored = rig.bones.last().unwrap().id;
    assert_eq!(restored, BoneId(5));
    assert_eq!(rig.next_key, 6);
    assert_eq!(rig.bones.iter().filter(|b| b.id == restored).count(), 1);
}
