use ankhimate_editor::bbox::{edit_box, BoxGeometry, ClipEdit, EditBoundingBox};
use ankhimate_editor::fileops::{file_step, new_document_step, FileOutcome};
use ankhimate_editor::history::History;
use ankhimate_editor::ids::{SkinId, SlotId};

#[test]
fn a_save_as_drops_both_autosaves_and_moves_the_project() {
    let s = file_step(
        Some("/rigs/old.ankh".into()),
        FileOutcome::Saved("/rigs/new.ankh".into()),
    );
    assert_eq!(s.status.as_deref(), Some("Saved /rigs/new.ankh"));
    assert_eq!(s.current_path.as_deref(), Some("/rigs/new.ankh"));
    assert_eq!(
        s.discard_autosaves,
        vec![Some("/rigs/old.ankh".to_string()), Some("/rigs/new.ankh".to_string())]
    );
    assert!(s.reset_autosave);
    assert_eq!(s.touch_recent.as_deref(), Some("/rigs/new.ankh"));

    let again = file_step(
        Some("/rigs/new.ankh".into()),
        FileOutcome::Saved("/rigs/new.ankh".into()),
    );
    assert_eq!(again.discard_autosaves, vec![Some("/rigs/new.ankh".to_string())]);

    let first = file_step(None, FileOutcome::Saved("/a.ankh".into()));
    assert_eq!(first.discard_autosaves, vec![None, Some("/a.ankh".to_string())]);
}

#[test]
fn an_import_is_unsaved_and_not_recent() {
    let clean = file_step(
        Some("/rigs/a.ankh".into()),
        FileOutcome::Imported {
            name: "hero.json".into(),
            dangling: vec![],
            lossy: vec![],
        },
    );
    assert_eq!(clean.status.as_deref(), Some("Imported hero.json"));
    assert_eq!(clean.current_path, None);
    assert_eq!(clean.touch_recent, None);
    assert!(clean.import_report.is_none());

    let lossy = file_step(
        None,
        FileOutcome::Imported {
            name: "hero.json".into(),
            dangling: vec![],
            lossy: vec!["mesh deform".into()],
        },
    );
    let report = lossy.import_report.expect("something was lost");
    assert_eq!(report.file, "hero.json");
    assert_eq!(report.lossy, vec!["mesh deform".to_string()]);
}

#[test]
fn opening_cancelling_and_failing() {
    let opened = file_step(None, FileOutcome::Opened("/b.ankh".into()));
    assert_eq!(opened.status.as_deref(), Some("Opened /b.ankh"));
    assert_eq!(opened.current_path.as_deref(), Some("/b.ankh"));
    assert!(opened.reset_autosave);

    let cancelled = file_step(Some("/c.ankh".into()), FileOutcome::Cancelled);
    assert_eq!(cancelled.status, None);
    assert_eq!(cancelled.current_path.as_deref(), Some("/c.ankh"));

    let failed = file_step(None, FileOutcome::Error("disk full".into()));
    assert_eq!(failed.status.as_deref(), Some("disk full"));

    let new = new_document_step();
    assert_eq!(new.status.as_deref(), Some("New document"));
    assert_eq!(new.current_path, None);
    assert!(new.reset_autosave);
}

fn square() -> BoxGeometry<(i32, i32), u8> {
    BoxGeometry {
        vertices: vec![(0, 0), (10, 0), (10, 10), (0, 10)],
        weights: vec![1, 2, 3, 4],
    }
}

#[test]
fn a_box_keeps_at_least_three_vertices() {
    let mut g = square();
    assert!(!edit_box(&mut g, &ClipEdit::RemoveVertices(vec![0, 1]), 0));
    assert_eq!(g.vertices.len(), 4);
    assert!(edit_box(&mut g, &ClipEdit::RemoveVertices(vec![1, 1]), 0) == false);
    assert!(edit_box(&mut g, &ClipEdit::RemoveVertices(vec![1]), 0));
    assert_eq!(g.vertices, vec![(0, 0), (10, 10), (0, 10)]);
    assert_eq!(g.weights, vec![1, 3, 4]);
}

#[test]
fn an_inserted_vertex_copies_its_neighbours_weights() {
    let mut g = square();
    assert!(edit_box(&mut g, &ClipEdit::InsertVertex(2, (10, 5)), 0));
    assert_eq!(g.vertices[2], (10, 5));
    assert_eq!(g.weights, vec![1, 2, 2, 3, 4]);
    assert!(edit_box(&mut g, &ClipEdit::InsertVertex(99, (5, 12)), 0));
    assert_eq!(g.vertices.last(), Some(&(5, 12)));
    assert!(!edit_box(&mut g, &ClipEdit::SetEndSlot(None), 0));
}

#[test]
fn a_box_drag_is_one_undo_step() {
    let mut g = square();
    let mut history = History::new(200);
    for x in [11, 12, 13] {
        history.push(
            EditBoundingBox::new(SkinId(1), SlotId(1), "hit".into(), ClipEdit::MoveVertices(vec![(1, (x, 0))]), 0u8),
            &mut g,
        );
    }
    assert_eq!(g.vertices[1], (13, 0));
    assert_eq!(history.undo_depth(), 1);
    assert_eq!(history.undo_label::<BoxGeometry<(i32, i32), u8>>(), Some("Move Box Vertices"));
    assert!(history.undo(&mut g));
    assert_eq!(g.vertices, square().vertices);
    assert!(history.redo(&mut g));
    assert_eq!(g.vertices[1], (13, 0));
}
