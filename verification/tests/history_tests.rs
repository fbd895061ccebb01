use ankhimate_editor::history::{EditCommand, History, IdRemap, WorkMode};
use ankhimate_editor::ids::BoneId;
use vstd::seq::Seq;
use vstd::view::View;

/// A skeleton reduced to what these tests observe: bones by key, each with a
/// name and an x position, handing out a fresh key on every insert.
#[derive(Default)]
struct Rig {
    bones: Vec<(BoneId, String, f32)>,
    next_key: u64,
}

impl Rig {
    fn add(&mut self, name: &str, x: f32) -> BoneId {
        self.next_key += 1;
        let id = BoneId(self.next_key);
        self.bones.push((id, name.to_string(), x));
        id
    }

    fn remove(&mut self, id: BoneId) -> Option<(String, f32)> {
        let i = self.bones.iter().position(|(b, _, _)| *b == id)?;
        let (_, name, x) = self.bones.remove(i);
        Some((name, x))
    }

    fn x(&self, id: BoneId) -> f32 {
        self.bones.iter().find(|(b, _, _)| *b == id).unwrap().2
    }

    fn set_x(&mut self, id: BoneId, x: f32) -> Option<f32> {
        let bone = self.bones.iter_mut().find(|(b, _, _)| *b == id)?;
        Some(std::mem::replace(&mut bone.2, x))
    }
}

impl View for Rig {
    type V = ();
    fn view(&self) {}
}

enum Cmd {
    Create {
        name: String,
        created: Option<BoneId>,
    },
    Delete {
        target: BoneId,
        removed: Option<(String, f32)>,
        remap: IdRemap,
    },
    Move {
        bone: BoneId,
        after: f32,
        before: Option<f32>,
    },
}

fn create(name: &str) -> Cmd {
    Cmd::Create {
        name: name.to_string(),
        created: None,
    }
}

fn delete(target: BoneId) -> Cmd {
    Cmd::Delete {
        target,
        removed: None,
        remap: IdRemap::new(),
    }
}

fn move_to(bone: BoneId, x: f32) -> Cmd {
    Cmd::Move {
        bone,
        after: x,
        before: None,
    }
}

impl EditCommand<Rig> for Cmd {
    fn spec_requires_mode(&self) -> Option<WorkMode> {
        self.requires_mode()
    }
    fn spec_applied(&self, _before: Rig, _after: Rig, _then: Self) -> bool {
        unreachable!()
    }
    fn spec_reverted(&self, _before: Rig, _after: Rig, _then: Self) -> bool {
        unreachable!()
    }
    fn spec_merges(&self, _next: Self) -> bool {
        unreachable!()
    }
    fn spec_absorbs(&self, _next: Self, _then: Self) -> bool {
        unreachable!()
    }
    fn spec_label(&self) -> Seq<char> {
        unreachable!()
    }
    fn spec_pending_remap(&self) -> Seq<(BoneId, BoneId)> {
        unreachable!()
    }
    fn spec_remap_taken(&self, _then: Self) -> bool {
        unreachable!()
    }
    fn spec_remapped(&self, _remap: Seq<(BoneId, BoneId)>, _after: Self) -> bool {
        unreachable!()
    }
    fn spec_fresh(&self) -> bool {
        unreachable!()
    }
    fn lemma_revert_undoes_apply(&self, _before: Rig, _after: Rig, _applied: Self, _back: Rig, _reverted: Self) {}
    #[allow(clippy::too_many_arguments)]
    fn lemma_apply_redoes_revert(
        &self,
        _d0: Rig,
        _d1: Rig,
        _applied: Self,
        _d2: Rig,
        _reverted: Self,
        _taken: Self,
        _d3: Rig,
        _reapplied: Self,
    ) {
    }
    fn apply(&mut self, doc: &mut Rig) {
        match self {
            Cmd::Create { name, created } => *created = Some(doc.add(name, 0.0)),
            Cmd::Delete { target, removed, .. } => *removed = doc.remove(*target),
            Cmd::Move { bone, after, before } => {
                let was = doc.set_x(*bone, *after);
                if before.is_none() {
                    *before = was;
                }
            }
        }
    }
    fn revert(&mut self, doc: &mut Rig) {
        match self {
            Cmd::Create { created, .. } => {
                if let Some(id) = created.take() {
                    doc.remove(id);
                }
            }
            Cmd::Delete {
                target,
                removed,
                remap,
            } => {
                if let Some((name, x)) = removed.take() {
                    let restored = doc.add(&name, x);
                    remap.remap_bone(*target, restored);
                    *target = restored;
                }
            }
            Cmd::Move { bone, before, .. } => {
                if let Some(x) = before.take() {
                    doc.set_x(*bone, x);
                }
            }
        }
    }
    fn merge(&mut self, next: &Self) -> bool {
        match (self, next) {
            (
                Cmd::Move { bone, after, .. },
                Cmd::Move {
                    bone: next_bone,
                    after: next_after,
                    ..
                },
            ) if *bone == *next_bone => {
                *after = *next_after;
                true
            }
            _ => false,
        }
    }
    fn label(&self) -> &str {
        match self {
            Cmd::Create { .. } => "Create Bone",
            Cmd::Delete { .. } => "Delete Bone",
            Cmd::Move { .. } => "Transform Bone",
        }
    }
    fn requires_mode(&self) -> Option<WorkMode> {
        match self {
            Cmd::Move { .. } => None,
            _ => Some(WorkMode::Setup),
        }
    }
    fn take_remap(&mut self) -> IdRemap {
        match self {
            Cmd::Delete { remap, .. } => std::mem::take(remap),
            _ => IdRemap::new(),
        }
    }
    fn apply_remap(&mut self, remap: &IdRemap) {
        match self {
            Cmd::Create { created, .. } => {
                if let Some(id) = created {
                    *id = remap.bone(*id);
                }
            }
            Cmd::Delete { target, .. } => *target = remap.bone(*target),
            Cmd::Move { bone, .. } => *bone = remap.bone(*bone),
        }
    }
}

#[test]
fn undo_redo_roundtrips_a_create() {
    let mut doc = Rig::default();
    let mut history = History::new(200);

    history.push(create("a"), &mut doc);
    assert_eq!(doc.bones.len(), 1);

    assert!(history.undo(&mut doc));
    assert_eq!(doc.bones.len(), 0);

    assert!(history.redo(&mut doc));
    assert_eq!(doc.bones.len(), 1);
}

#[test]
fn undo_on_empty_history_is_a_no_op() {
    let mut doc = Rig::default();
    let mut history: History<Cmd> = History::new(200);
    assert!(!history.undo(&mut doc));
    assert!(!history.redo(&mut doc));
}

#[test]
fn new_edit_clears_the_redo_stack() {
    let mut doc = Rig::default();
    let mut history = History::new(200);

    history.push(create("a"), &mut doc);
    history.undo(&mut doc);
    assert!(history.can_redo());

    history.push(create("b"), &mut doc);
    assert!(
        !history.can_redo(),
        "diverging edit must drop the redo branch"
    );
}

#[test]
fn history_is_capped() {
    let mut doc = Rig::default();
    let mut history = History::new(3);
    for i in 0..10 {
        history.push(create(&format!("b{i}")), &mut doc);
    }
    assert_eq!(history.undo_depth(), 3);
    assert_eq!(doc.bones.len(), 10, "all edits still applied");
}

#[test]
fn same_bone_transform_edits_merge_into_one_step() {
    let mut doc = Rig::default();
    let mut history = History::new(200);
    history.push(create("a"), &mut doc);
    let bone = doc.bones[0].0;
    let original = doc.x(bone);

    for x in 1..=5 {
        history.push(move_to(bone, x as f32 * 10.0), &mut doc);
    }

    assert_eq!(history.undo_depth(), 2);
    assert_eq!(doc.x(bone), 50.0);

    history.undo(&mut doc);
    assert_eq!(doc.x(bone), original);
}

#[test]
fn transform_edits_on_different_bones_do_not_merge() {
    let mut doc = Rig::default();
    let mut history = History::new(200);
    history.push(create("a"), &mut doc);
    history.push(create("b"), &mut doc);
    let (a, b) = (doc.bones[0].0, doc.bones[1].0);

    history.push(move_to(a, 5.0), &mut doc);
    history.push(move_to(b, 5.0), &mut doc);

    assert_eq!(history.undo_depth(), 4);
}

#[test]
fn labels_track_the_stacks() {
    let mut doc = Rig::default();
    let mut history = History::new(200);
    assert!(history.undo_label().is_none());

    history.push(create("a"), &mut doc);
    assert_eq!(history.undo_label(), Some("Create Bone"));

    history.undo(&mut doc);
    assert!(history.undo_label().is_none());
    assert_eq!(history.redo_label(), Some("Create Bone"));
}

#[test]
fn undoing_past_a_restored_bone_still_works() {
    let mut doc = Rig::default();
    let mut history = History::new(200);

    history.push(create("a"), &mut doc);
    history.push(create("b"), &mut doc);
    let b = doc.bones[1].0;

    history.push(delete(b), &mut doc);
    assert_eq!(doc.bones.len(), 1);

    history.undo(&mut doc);
    assert_eq!(doc.bones.len(), 2);

    history.undo(&mut doc);
    assert_eq!(doc.bones.len(), 1, "create-undo found the new key");

    history.undo(&mut doc);
    assert_eq!(doc.bones.len(), 0);
}

#[test]
fn transform_command_follows_a_remapped_bone() {
    let mut doc = Rig::default();
    let mut history = History::new(200);
    history.push(create("a"), &mut doc);
    let a = doc.bones[0].0;

    history.push(move_to(a, 30.0), &mut doc);
    history.push(delete(a), &mut doc);

    history.undo(&mut doc);
    let restored = doc.bones[0].0;
    assert_ne!(restored, a, "the restored bone has a new key");
    assert_eq!(doc.x(restored), 30.0);

    history.undo(&mut doc);
    assert_eq!(
        doc.x(restored),
        0.0,
        "transform-undo followed the remapped id"
    );
}

// ── Beyond the shipped tests ─────────────────────────────────────────────────

#[test]
fn a_command_refused_by_the_mode_touches_nothing() {
    let mut doc = Rig::default();
    let mut history = History::new(200);
    assert!(history.push_in_mode(create("a"), &mut doc, WorkMode::Setup));
    let depth = history.undo_depth();

    assert!(!history.push_in_mode(create("late"), &mut doc, WorkMode::Animate));
    assert_eq!(doc.bones.len(), 1);
    assert_eq!(history.undo_depth(), depth);

    let a = doc.bones[0].0;
    assert!(history.push_in_mode(move_to(a, 4.0), &mut doc, WorkMode::Animate));
    assert_eq!(doc.x(a), 4.0);
}

#[test]
fn an_already_applied_command_is_recorded_without_reapplying() {
    let mut doc = Rig::default();
    let mut history = History::new(2);
    let id = doc.add("a", 0.0);
    history.push_applied(Cmd::Create {
        name: "a".into(),
        created: Some(id),
    });
    assert_eq!(doc.bones.len(), 1);
    assert_eq!(history.undo_depth(), 1);
    history.undo(&mut doc);
    assert!(doc.bones.is_empty());
    assert!(history.can_redo());
    history.push_applied(move_to(id, 1.0));
    assert!(!history.can_redo(), "a recorded edit drops the redo branch");
}

#[test]
fn the_first_remap_of_a_bone_wins() {
    let mut remap = IdRemap::new();
    assert!(remap.is_empty());
    remap.remap_bone(BoneId(1), BoneId(7));
    remap.remap_bone(BoneId(1), BoneId(9));
    remap.remap_bone(BoneId(2), BoneId(3));
    assert!(!remap.is_empty());
    assert_eq!(remap.bone(BoneId(1)), BoneId(7));
    assert_eq!(remap.bone(BoneId(2)), BoneId(3));
    assert_eq!(remap.bone(BoneId(5)), BoneId(5), "an untouched id is itself");
}

#[test]
fn a_zero_cap_keeps_no_steps() {
    let mut doc = Rig::default();
    let mut history = History::new(0);
    history.push(create("a"), &mut doc);
    assert_eq!(history.undo_depth(), 0);
    assert!(!history.can_undo());
    assert_eq!(doc.bones.len(), 1);
}
