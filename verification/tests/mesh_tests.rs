use ankhimate_editor::history::{EditCommand, History, WorkMode};
use ankhimate_editor::ids::{SkinId, SlotId};
use ankhimate_editor::mesh::{edit_mesh, EditMesh, MeshEdit, MeshGeometry};

type Point = (i32, i32);
type Mesh = MeshGeometry<Point, Point, u8, [u32; 3]>;

/// A unit square, skinned, with the two triangles that cover it.
fn square() -> Mesh {
    MeshGeometry {
        vertices: vec![(0, 0), (1, 0), (1, 1), (0, 1)],
        uvs: vec![(0, 0), (10, 0), (10, 10), (0, 10)],
        weights: vec![1, 2, 3, 4],
        triangles: vec![[0, 1, 2], [0, 2, 3]],
    }
}

fn cmd(edit: MeshEdit<Point, Point>) -> EditMesh<Point, Point, u8, [u32; 3]> {
    EditMesh::new(SkinId(1), SlotId(2), "body".to_string(), edit, 0)
}

#[test]
fn moving_vertices_keeps_everything_else() {
    let mut m = square();
    assert!(edit_mesh(&mut m, &MeshEdit::MoveVertices(vec![(2, (5, 5)), (9, (7, 7))]), 0));
    assert_eq!(m.vertices, vec![(0, 0), (1, 0), (5, 5), (0, 1)]);
    assert_eq!(m.uvs, square().uvs);
    assert_eq!(m.weights, square().weights);
    assert_eq!(m.triangles, square().triangles);
}

#[test]
fn an_added_vertex_gets_a_blank_weight_only_on_a_skinned_mesh() {
    let mut m = square();
    assert!(edit_mesh(&mut m, &MeshEdit::AddVertex((2, 2), (20, 20)), 0));
    assert_eq!(m.vertices.len(), 5);
    assert_eq!(m.uvs.last(), Some(&(20, 20)));
    assert_eq!(m.weights, vec![1, 2, 3, 4, 0]);

    let mut bare = square();
    bare.weights.clear();
    assert!(edit_mesh(&mut bare, &MeshEdit::AddVertex((2, 2), (20, 20)), 0));
    assert!(bare.weights.is_empty());
}

#[test]
fn removing_vertices_removes_their_uvs_and_weights_too() {
    let mut m = square();
    assert!(edit_mesh(&mut m, &MeshEdit::RemoveVertices(vec![1]), 0));
    assert_eq!(m.vertices, vec![(0, 0), (1, 1), (0, 1)]);
    assert_eq!(m.uvs, vec![(0, 0), (10, 10), (0, 10)]);
    assert_eq!(m.weights, vec![1, 3, 4]);
}

#[test]
fn a_removal_below_three_vertices_is_refused() {
    let mut m = square();
    assert!(!edit_mesh(&mut m, &MeshEdit::RemoveVertices(vec![0, 1]), 0));
    assert_eq!(m.vertices, square().vertices);
    assert_eq!(m.weights, square().weights);
}

#[test]
fn a_mesh_edit_undoes_to_the_mesh_it_started_from() {
    let mut m = square();
    let mut history = History::new(200);
    history.push(cmd(MeshEdit::RemoveVertices(vec![3])), &mut m);
    // The caller re-triangulates after a topology change.
    m.triangles = vec![[0, 1, 2]];
    assert_eq!(history.undo_label::<Mesh>(), Some("Delete Vertices"));
    assert!(history.undo(&mut m));
    assert_eq!(m.vertices, square().vertices);
    assert_eq!(m.triangles, square().triangles);
    assert!(history.redo(&mut m));
    assert_eq!(m.vertices, vec![(0, 0), (1, 0), (1, 1)]);
}

#[test]
fn a_drag_merges_into_one_step() {
    let mut m = square();
    let mut history = History::new(200);
    history.push(cmd(MeshEdit::MoveVertices(vec![(0, (1, 1))])), &mut m);
    history.push(cmd(MeshEdit::MoveVertices(vec![(0, (2, 2))])), &mut m);
    assert_eq!(m.vertices[0], (2, 2));
    assert_eq!(history.undo_depth(), 1);
    assert!(history.undo(&mut m));
    assert_eq!(m.vertices[0], (0, 0));
}

#[test]
fn a_refused_removal_leaves_nothing_to_undo_to() {
    let mut m = square();
    let mut c = cmd(MeshEdit::RemoveVertices(vec![0, 1, 2]));
    c.apply(&mut m);
    assert!(c.before.is_none());
    c.revert(&mut m);
    assert_eq!(m.vertices, square().vertices);
}

#[test]
fn mesh_edits_are_setup_edits_with_their_own_names() {
    assert_eq!(cmd(MeshEdit::MoveVertices(vec![])).label(), "Move Vertices");
    assert_eq!(cmd(MeshEdit::AddVertex((0, 0), (0, 0))).label(), "Add Vertex");
    assert_eq!(cmd(MeshEdit::RemoveVertices(vec![])).label(), "Delete Vertices");
    assert_eq!(cmd(MeshEdit::Retriangulate).label(), "Retriangulate");
    assert_eq!(cmd(MeshEdit::Retriangulate).requires_mode(), Some(WorkMode::Setup));
}
