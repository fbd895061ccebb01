use ankhimate_editor::ids::{BoneId, SlotId};
use ankhimate_editor::timeline::{
    find_timeline, timeline_exists, timeline_index, Axis, BoneProperty, TimelineAddr, TrackTarget,
};

fn bone_addr(bone: u64, property: BoneProperty, axis: Option<Axis>) -> TimelineAddr {
    TimelineAddr::Bone {
        bone: BoneId(bone),
        property,
        axis,
    }
}

#[test]
fn a_y_key_does_not_land_on_the_x_track() {
    let x = TrackTarget::BoneTranslate {
        bone: BoneId(3),
        axis: Axis::X,
    };
    assert!(bone_addr(3, BoneProperty::Translate, Some(Axis::X)).matches_timeline(&x));
    assert!(!bone_addr(3, BoneProperty::Translate, Some(Axis::Y)).matches_timeline(&x));
    assert!(!bone_addr(3, BoneProperty::Translate, None).matches_timeline(&x));
    assert!(!bone_addr(4, BoneProperty::Translate, Some(Axis::X)).matches_timeline(&x));
    assert!(!bone_addr(3, BoneProperty::Scale, Some(Axis::X)).matches_timeline(&x));
}

#[test]
fn rotation_has_one_track() {
    let rot = TrackTarget::BoneRotate { bone: BoneId(1) };
    assert!(bone_addr(1, BoneProperty::Rotate, None).matches_timeline(&rot));
    assert!(bone_addr(1, BoneProperty::Rotate, Some(Axis::Y)).matches_timeline(&rot));
    assert!(!bone_addr(2, BoneProperty::Rotate, None).matches_timeline(&rot));
}

#[test]
fn slot_tracks_match_their_own_kind_only() {
    let color = TrackTarget::SlotColor { slot: SlotId(9) };
    assert!(TimelineAddr::SlotColor { slot: SlotId(9) }.matches_timeline(&color));
    assert!(!TimelineAddr::SlotVisible { slot: SlotId(9) }.matches_timeline(&color));
    assert!(!TimelineAddr::SlotAttachment { slot: SlotId(9) }.matches_timeline(&color));
    assert!(!TimelineAddr::SlotColor { slot: SlotId(9) }.matches_timeline(&TrackTarget::DrawOrder));
}

#[test]
fn an_empty_timeline_without_an_axis_is_the_x_track() {
    assert_eq!(
        bone_addr(5, BoneProperty::Shear, None).empty_timeline(),
        TrackTarget::BoneShear {
            bone: BoneId(5),
            axis: Axis::X
        }
    );
    assert_eq!(
        bone_addr(5, BoneProperty::Scale, Some(Axis::Y)).empty_timeline(),
        TrackTarget::BoneScale {
            bone: BoneId(5),
            axis: Axis::Y
        }
    );
    assert_eq!(
        TimelineAddr::SlotVisible { slot: SlotId(2) }.empty_timeline(),
        TrackTarget::SlotVisible { slot: SlotId(2) }
    );
}

#[test]
fn the_first_matching_timeline_is_found() {
    let timelines = vec![
        TrackTarget::DrawOrder,
        TrackTarget::BoneRotate { bone: BoneId(1) },
        TrackTarget::BoneRotate { bone: BoneId(1) },
    ];
    let rot = bone_addr(1, BoneProperty::Rotate, None);
    assert_eq!(find_timeline(&timelines, &rot), Some(1));
    assert!(timeline_exists(&timelines, &rot));
    let other = bone_addr(2, BoneProperty::Rotate, None);
    assert_eq!(find_timeline(&timelines, &other), None);
    assert!(!timeline_exists(&timelines, &other));
}

#[test]
fn keying_a_new_track_creates_its_timeline_once() {
    let mut timelines = vec![TrackTarget::SlotColor { slot: SlotId(1) }];
    let addr = bone_addr(7, BoneProperty::Translate, Some(Axis::Y));
    let i = timeline_index(&mut timelines, &addr);
    assert_eq!(i, 1);
    assert_eq!(timelines.len(), 2);
    assert!(addr.matches_timeline(&timelines[i]));

    // A second key on the same track reuses the timeline.
    let again = timeline_index(&mut timelines, &addr);
    assert_eq!(again, 1);
    assert_eq!(timelines.len(), 2);
}
