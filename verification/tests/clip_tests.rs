use ankhimate_editor::bbox::ClipEdit;
use ankhimate_editor::clip::{edit_clip, ClipGeometry, EditClip};
use ankhimate_editor::history::{EditCommand, History};
use ankhimate_editor::ids::{SkinId, SlotId};

fn mask() -> ClipGeometry<(i32, i32)> {
    ClipGeometry {
        vertices: vec![(0, 0), (10, 0), (10, 10), (0, 10)],
        end_slot: None,
    }
}

fn cmd(edit: ClipEdit<(i32, i32)>) -> EditClip<(i32, i32)> {
    EditClip::new(SkinId(1), SlotId(3), "mask".to_string(), edit)
}

#[test]
fn a_clip_keeps_at_least_three_vertices() {
    let mut g = mask();
    assert!(!edit_clip(&mut g, &ClipEdit::RemoveVertices(vec![0, 1])));
    assert_eq!(g.vertices.len(), 4);
    assert!(edit_clip(&mut g, &ClipEdit::RemoveVertices(vec![2])));
    assert_eq!(g.vertices, vec![(0, 0), (10, 0), (0, 10)]);
}

#[test]
fn a_vertex_inserted_past_the_end_lands_last() {
    let mut g = mask();
    assert!(edit_clip(&mut g, &ClipEdit::InsertVertex(1, (5, 0))));
    assert_eq!(g.vertices[1], (5, 0));
    assert!(edit_clip(&mut g, &ClipEdit::InsertVertex(50, (0, 5))));
    assert_eq!(g.vertices.last(), Some(&(0, 5)));
    assert_eq!(g.vertices.len(), 6);
}

#[test]
fn a_clip_range_is_set_and_undone() {
    let mut g = mask();
    let mut history = History::new(200);
    history.push(cmd(ClipEdit::SetEndSlot(Some("hair".to_string()))), &mut g);
    assert_eq!(g.end_slot.as_deref(), Some("hair"));
    assert_eq!(history.undo_label::<ClipGeometry<(i32, i32)>>(), Some("Set Clip Range"));
    assert!(history.undo(&mut g));
    assert_eq!(g.end_slot, None);
    assert!(history.redo(&mut g));
    assert_eq!(g.end_slot.as_deref(), Some("hair"));
}

#[test]
fn a_clip_drag_is_one_undo_step() {
    let mut g = mask();
    let mut history = History::new(200);
    for x in [11, 12, 13] {
        history.push(cmd(ClipEdit::MoveVertices(vec![(1, (x, 0))])), &mut g);
    }
    assert_eq!(g.vertices[1], (13, 0));
    assert_eq!(history.undo_depth(), 1);
    assert!(history.undo(&mut g));
    assert_eq!(g.vertices, mask().vertices);
}

#[test]
fn clip_edits_have_their_own_names() {
    assert_eq!(cmd(ClipEdit::MoveVertices(vec![])).label(), "Move Clip Vertices");
    assert_eq!(cmd(ClipEdit::InsertVertex(0, (0, 0))).label(), "Add Clip Vertex");
    assert_eq!(cmd(ClipEdit::RemoveVertices(vec![])).label(), "Delete Clip Vertices");
    assert_eq!(cmd(ClipEdit::SetEndSlot(None)).label(), "Set Clip Range");
}

#[test]
fn a_drag_on_another_clip_does_not_merge() {
    let mut a = cmd(ClipEdit::MoveVertices(vec![(0, (1, 1))]));
    let b = EditClip::new(SkinId(1), SlotId(4), "mask".to_string(), ClipEdit::MoveVertices(vec![(0, (2, 2))]));
    assert!(!a.merge(&b));
}
