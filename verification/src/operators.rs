//! Built-in operators whose behaviour is more than one call.

use crate::args::{ArgError, Args};
use crate::history::WorkMode;
use crate::keymap::builtin_view;
use crate::ids::AnimationId;
use crate::registry::{OpResult, Operator};
use crate::text::{push_signed_decimal, signed_decimal};
use vstd::prelude::*;

verus! {

/// A marker on an animation, at the frame it was dropped on.
#[derive(Debug)]
pub struct Marker {
    pub animation: AnimationId,
    pub name: String,
    pub frame: i64,
}

/// A marker as a value: animation, name, frame.
pub type MarkerView = (AnimationId, Seq<char>, i64);

impl View for Marker {
    type V = MarkerView;

    open spec fn view(&self) -> MarkerView {
        (self.animation, self.name@, self.frame)
    }
}

/// The views of a list of markers.
pub open spec fn marker_views(v: Seq<Marker>) -> Seq<MarkerView> {
    v.map_values(|m: Marker| m@)
}

/// What dropping a marker reads and writes: the animation being edited, the
/// frame the playhead sits on, and the markers so far.
#[derive(Debug)]
pub struct MarkerState {
    pub active_animation: Option<AnimationId>,
    pub playhead_frame: i64,
    pub markers: Vec<Marker>,
}

/// Drop a marker at the playhead, named after the frame it lands on.
#[derive(Debug, Clone, Copy, PartialEq, Eq, Default, Structural)]
pub struct AddMarkerAtPlayhead;

/// The name a marker dropped on `frame` gets: `f` and the frame number.
pub open spec fn marker_name_spec(frame: int) -> Seq<char> {
    "f"@ + signed_decimal(frame)
}

impl AddMarkerAtPlayhead {
    /// The marker's name for the frame the playhead sits on: `"f12"`.
    pub fn marker_name(&self, frame: i64) -> (name: String)
        ensures
            name@ == marker_name_spec(frame as int),
    {
        let mut out = String::new();
        out.append("f");
        push_signed_decimal(&mut out, frame);
        proof {
            assert(out@ =~= marker_name_spec(frame as int));
        }
        out
    }
}

impl Operator<MarkerState> for AddMarkerAtPlayhead {
    open spec fn spec_id(&self) -> Seq<char> {
        "anim.add_marker"@
    }

    /// Enabled only with an animation to put the marker on.
    open spec fn spec_enabled(&self, state: MarkerState) -> bool {
        state.active_animation is Some
    }

    /// Succeeds, asking for no window. With an animation being edited, a
    /// marker named after the playhead's frame is appended on that frame;
    /// without one, nothing changes.
    open spec fn spec_invoke(
        &self,
        before: MarkerState,
        args: Args,
        after: MarkerState,
        result: Result<OpResult, ArgError>,
    ) -> bool {
        &&& result matches Ok(r) && r.ui is None
        &&& after.active_animation == before.active_animation
        &&& after.playhead_frame == before.playhead_frame
        &&& marker_views(after.markers@) == match before.active_animation {
            Some(a) => marker_views(before.markers@).push(
                (a, marker_name_spec(before.playhead_frame as int), before.playhead_frame),
            ),
            None => marker_views(before.markers@),
        }
    }

    fn id(&self) -> (id: &'static str) {
        "anim.add_marker"
    }

    fn label(&self) -> &str {
        "Add Marker"
    }

    fn enabled(&self, state: &MarkerState) -> (r: bool) {
        state.active_animation.is_some()
    }

    fn invoke(&self, state: &mut MarkerState, args: &Args) -> (r: Result<OpResult, ArgError>) {
        match state.active_animation {
            None => {}
            Some(a) => {
                let frame = state.playhead_frame;
                let name = self.marker_name(frame);
                let ghost before = state.markers@;
                state.markers.push(Marker { animation: a, name, frame });
                proof {
                    assert(marker_views(state.markers@) =~= marker_views(before).push(
                        (a, marker_name_spec(frame as int), frame),
                    ));
                }
            }
        }
        Ok(OpResult::done())
    }
}


/// The editor's built-in operators, as the menus and the keymap name them.
/// What each does to the editor's state is the app's; here they are their
/// ids, labels and the work mode each is limited to.
#[derive(Debug, Clone, Copy, PartialEq, Eq, Structural)]
pub enum BuiltinOp {
    Undo,
    Redo,
    CopySelection,
    CopyPose,
    Paste,
    PasteMirrored,
    DuplicateSelection,
    RenameSelection,
    ToggleWorkMode,
    KeyPendingPose,
    AddMarker,
    SelectTool,
    CreateBoneTool,
    WeightPaintTool,
    TranslateGizmo,
    RotateGizmo,
    ScaleGizmo,
    ShearGizmo,
    ToggleArtwork,
    ToggleBones,
    OpenSettings,
}

/// Every built-in operator, in registration order.
pub open spec fn builtin_ops() -> Seq<BuiltinOp> {
    seq![BuiltinOp::Undo, BuiltinOp::Redo, BuiltinOp::CopySelection, BuiltinOp::CopyPose, BuiltinOp::Paste, BuiltinOp::PasteMirrored, BuiltinOp::DuplicateSelection, BuiltinOp::RenameSelection, BuiltinOp::ToggleWorkMode, BuiltinOp::KeyPendingPose, BuiltinOp::AddMarker, BuiltinOp::SelectTool, BuiltinOp::CreateBoneTool, BuiltinOp::WeightPaintTool, BuiltinOp::TranslateGizmo, BuiltinOp::RotateGizmo, BuiltinOp::ScaleGizmo, BuiltinOp::ShearGizmo, BuiltinOp::ToggleArtwork, BuiltinOp::ToggleBones, BuiltinOp::OpenSettings]
}

impl BuiltinOp {
    /// The stable dotted id the operator answers to.
    pub open spec fn spec_id(self) -> Seq<char> {
        match self {
            BuiltinOp::Undo => "edit.undo"@,
            BuiltinOp::Redo => "edit.redo"@,
            BuiltinOp::CopySelection => "edit.copy"@,
            BuiltinOp::CopyPose => "edit.copy_pose"@,
            BuiltinOp::Paste => "edit.paste"@,
            BuiltinOp::PasteMirrored => "edit.paste_mirrored"@,
            BuiltinOp::DuplicateSelection => "edit.duplicate"@,
            BuiltinOp::RenameSelection => "edit.rename"@,
            BuiltinOp::ToggleWorkMode => "mode.toggle"@,
            BuiltinOp::KeyPendingPose => "anim.key_pose"@,
            BuiltinOp::AddMarker => "anim.add_marker"@,
            BuiltinOp::SelectTool => "tool.select"@,
            BuiltinOp::CreateBoneTool => "tool.create_bone"@,
            BuiltinOp::WeightPaintTool => "tool.weight_paint"@,
            BuiltinOp::TranslateGizmo => "gizmo.translate"@,
            BuiltinOp::RotateGizmo => "gizmo.rotate"@,
            BuiltinOp::ScaleGizmo => "gizmo.scale"@,
            BuiltinOp::ShearGizmo => "gizmo.shear"@,
            BuiltinOp::ToggleArtwork => "view.toggle_artwork"@,
            BuiltinOp::ToggleBones => "view.toggle_bones"@,
            BuiltinOp::OpenSettings => "app.settings"@,
        }
    }

    /// The name menus show.
    pub open spec fn spec_label(self) -> Seq<char> {
        match self {
            BuiltinOp::Undo => "Undo"@,
            BuiltinOp::Redo => "Redo"@,
            BuiltinOp::CopySelection => "Copy"@,
            BuiltinOp::CopyPose => "Copy Pose"@,
            BuiltinOp::Paste => "Paste"@,
            BuiltinOp::PasteMirrored => "Paste Mirrored"@,
            BuiltinOp::DuplicateSelection => "Duplicate"@,
            BuiltinOp::RenameSelection => "Rename"@,
            BuiltinOp::ToggleWorkMode => "Toggle Setup/Animate"@,
            BuiltinOp::KeyPendingPose => "Key Pose"@,
            BuiltinOp::AddMarker => "Add Marker"@,
            BuiltinOp::SelectTool => "Select Tool"@,
            BuiltinOp::CreateBoneTool => "Create Bone Tool"@,
            BuiltinOp::WeightPaintTool => "Weight Paint Tool"@,
            BuiltinOp::TranslateGizmo => "Translate"@,
            BuiltinOp::RotateGizmo => "Rotate"@,
            BuiltinOp::ScaleGizmo => "Scale"@,
            BuiltinOp::ShearGizmo => "Shear"@,
            BuiltinOp::ToggleArtwork => "Show Artwork"@,
            BuiltinOp::ToggleBones => "Show Bones"@,
            BuiltinOp::OpenSettings => "Settings"@,
        }
    }

    /// The work mode the operator is limited to, if any.
    pub open spec fn spec_mode(self) -> Option<WorkMode> {
        match self {
            BuiltinOp::KeyPendingPose => Some(WorkMode::Animate),
            BuiltinOp::CreateBoneTool => Some(WorkMode::Setup),
            BuiltinOp::WeightPaintTool => Some(WorkMode::Setup),
            _ => None,
        }
    }

    pub fn id(self) -> (id: &'static str)
        ensures
            id@ == self.spec_id(),
    {
        match self {
            BuiltinOp::Undo => "edit.undo",
            BuiltinOp::Redo => "edit.redo",
            BuiltinOp::CopySelection => "edit.copy",
            BuiltinOp::CopyPose => "edit.copy_pose",
            BuiltinOp::Paste => "edit.paste",
            BuiltinOp::PasteMirrored => "edit.paste_mirrored",
            BuiltinOp::DuplicateSelection => "edit.duplicate",
            BuiltinOp::RenameSelection => "edit.rename",
            BuiltinOp::ToggleWorkMode => "mode.toggle",
            BuiltinOp::KeyPendingPose => "anim.key_pose",
            BuiltinOp::AddMarker => "anim.add_marker",
            BuiltinOp::SelectTool => "tool.select",
            BuiltinOp::CreateBoneTool => "tool.create_bone",
            BuiltinOp::WeightPaintTool => "tool.weight_paint",
            BuiltinOp::TranslateGizmo => "gizmo.translate",
            BuiltinOp::RotateGizmo => "gizmo.rotate",
            BuiltinOp::ScaleGizmo => "gizmo.scale",
            BuiltinOp::ShearGizmo => "gizmo.shear",
            BuiltinOp::ToggleArtwork => "view.toggle_artwork",
            BuiltinOp::ToggleBones => "view.toggle_bones",
            BuiltinOp::OpenSettings => "app.settings",
        }
    }

    pub fn label(self) -> (l: &'static str)
        ensures
            l@ == self.spec_label(),
    {
        match self {
            BuiltinOp::Undo => "Undo",
            BuiltinOp::Redo => "Redo",
            BuiltinOp::CopySelection => "Copy",
            BuiltinOp::CopyPose => "Copy Pose",
            BuiltinOp::Paste => "Paste",
            BuiltinOp::PasteMirrored => "Paste Mirrored",
            BuiltinOp::DuplicateSelection => "Duplicate",
            BuiltinOp::RenameSelection => "Rename",
            BuiltinOp::ToggleWorkMode => "Toggle Setup/Animate",
            BuiltinOp::KeyPendingPose => "Key Pose",
            BuiltinOp::AddMarker => "Add Marker",
            BuiltinOp::SelectTool => "Select Tool",
            BuiltinOp::CreateBoneTool => "Create Bone Tool",
            BuiltinOp::WeightPaintTool => "Weight Paint Tool",
            BuiltinOp::TranslateGizmo => "Translate",
            BuiltinOp::RotateGizmo => "Rotate",
            BuiltinOp::ScaleGizmo => "Scale",
            BuiltinOp::ShearGizmo => "Shear",
            BuiltinOp::ToggleArtwork => "Show Artwork",
            BuiltinOp::ToggleBones => "Show Bones",
            BuiltinOp::OpenSettings => "Settings",
        }
    }

    pub fn requires_mode(self) -> (m: Option<WorkMode>)
        ensures
            m == self.spec_mode(),
    {
        match self {
            BuiltinOp::KeyPendingPose => Some(WorkMode::Animate),
            BuiltinOp::CreateBoneTool => Some(WorkMode::Setup),
            BuiltinOp::WeightPaintTool => Some(WorkMode::Setup),
            _ => None,
        }
    }

    /// Every built-in operator, in registration order.
    pub fn all() -> (v: Vec<BuiltinOp>)
        ensures
            v@ == builtin_ops(),
    {
        let mut v: Vec<BuiltinOp> = Vec::new();
    v.push(BuiltinOp::Undo);
    v.push(BuiltinOp::Redo);
    v.push(BuiltinOp::CopySelection);
    v.push(BuiltinOp::CopyPose);
    v.push(BuiltinOp::Paste);
    v.push(BuiltinOp::PasteMirrored);
    v.push(BuiltinOp::DuplicateSelection);
    v.push(BuiltinOp::RenameSelection);
    v.push(BuiltinOp::ToggleWorkMode);
    v.push(BuiltinOp::KeyPendingPose);
    v.push(BuiltinOp::AddMarker);
    v.push(BuiltinOp::SelectTool);
    v.push(BuiltinOp::CreateBoneTool);
    v.push(BuiltinOp::WeightPaintTool);
    v.push(BuiltinOp::TranslateGizmo);
    v.push(BuiltinOp::RotateGizmo);
    v.push(BuiltinOp::ScaleGizmo);
    v.push(BuiltinOp::ShearGizmo);
    v.push(BuiltinOp::ToggleArtwork);
    v.push(BuiltinOp::ToggleBones);
    v.push(BuiltinOp::OpenSettings);
        proof {
            assert(v@ =~= builtin_ops());
        }
        v
    }
}


/// Whether some built-in operator answers to `id`.
pub open spec fn is_builtin_id(id: Seq<char>) -> bool {
    builtin_ops().map_values(|op: BuiltinOp| op.spec_id()).contains(id)
}

/// Every shipped key binding fires a built-in operator.
pub proof fn builtin_bindings_fire_builtin_operators()
    ensures
        forall|i: int| 0 <= i < builtin_view().len() ==> is_builtin_id(#[trigger] builtin_view()[i].1),
{
    let ids = builtin_ops().map_values(|op: BuiltinOp| op.spec_id());
    assert(builtin_view().len() == 22);
    assert forall|i: int| 0 <= i < builtin_view().len() implies is_builtin_id(#[trigger] builtin_view()[i].1) by {
        if i == 0 {
            assert(ids[0] == builtin_view()[0].1);
        } else if i == 1 {
            assert(ids[1] == builtin_view()[1].1);
        } else if i == 2 {
            assert(ids[1] == builtin_view()[2].1);
        } else if i == 3 {
            assert(ids[2] == builtin_view()[3].1);
        } else if i == 4 {
            assert(ids[3] == builtin_view()[4].1);
        } else if i == 5 {
            assert(ids[4] == builtin_view()[5].1);
        } else if i == 6 {
            assert(ids[5] == builtin_view()[6].1);
        } else if i == 7 {
            assert(ids[6] == builtin_view()[7].1);
        } else if i == 8 {
            assert(ids[7] == builtin_view()[8].1);
        } else if i == 9 {
            assert(ids[8] == builtin_view()[9].1);
        } else if i == 10 {
            assert(ids[9] == builtin_view()[10].1);
        } else if i == 11 {
            assert(ids[10] == builtin_view()[11].1);
        } else if i == 12 {
            assert(ids[11] == builtin_view()[12].1);
        } else if i == 13 {
            assert(ids[12] == builtin_view()[13].1);
        } else if i == 14 {
            assert(ids[13] == builtin_view()[14].1);
        } else if i == 15 {
            assert(ids[14] == builtin_view()[15].1);
        } else if i == 16 {
            assert(ids[15] == builtin_view()[16].1);
        } else if i == 17 {
            assert(ids[16] == builtin_view()[17].1);
        } else if i == 18 {
            assert(ids[17] == builtin_view()[18].1);
        } else if i == 19 {
            assert(ids[18] == builtin_view()[19].1);
        } else if i == 20 {
            assert(ids[19] == builtin_view()[20].1);
        } else if i == 21 {
            assert(ids[20] == builtin_view()[21].1);
        }
    }
}
} // verus!
