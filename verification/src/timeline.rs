//! Naming the animated properties and the tracks that carry them.

use crate::ids::{BoneId, SlotId};
use vstd::prelude::*;

verus! {

/// Which bone transform property a timeline drives.
#[derive(Debug, Clone, Copy, PartialEq, Eq, Hash, Structural)]
pub enum BoneProperty {
    Translate,
    Rotate,
    Scale,
    Shear,
}

impl BoneProperty {
    /// The property's lower-case name, as the dopesheet shows it.
    pub open spec fn spec_label(self) -> Seq<char> {
        match self {
            BoneProperty::Translate => "translate"@,
            BoneProperty::Rotate => "rotate"@,
            BoneProperty::Scale => "scale"@,
            BoneProperty::Shear => "shear"@,
        }
    }

    pub fn label(self) -> (l: &'static str)
        ensures
            l@ == self.spec_label(),
    {
        match self {
            BoneProperty::Translate => "translate",
            BoneProperty::Rotate => "rotate",
            BoneProperty::Scale => "scale",
            BoneProperty::Shear => "shear",
        }
    }
}

/// One axis of a two-axis property.
#[derive(Debug, Clone, Copy, PartialEq, Eq, Hash, Structural)]
pub enum Axis {
    X,
    Y,
}

/// Names a single timeline within an animation by its driven target and
/// property. Its identity is the target, not its index in the list.
#[derive(Debug, Clone, Copy, PartialEq, Eq, Structural)]
pub enum TimelineAddr {
    Bone {
        bone: BoneId,
        property: BoneProperty,
        /// Which axis, for a two-axis property; `None` for rotation.
        axis: Option<Axis>,
    },
    SlotColor { slot: SlotId },
    SlotAttachment { slot: SlotId },
    /// Stepped visibility.
    SlotVisible { slot: SlotId },
}

/// The tag a bone track mixes into its id: the property in the low nibble,
/// the axis above it.
pub open spec fn track_tag(property: BoneProperty, axis: Option<Axis>) -> int {
    (match property {
        BoneProperty::Translate => 1u64,
        BoneProperty::Rotate => 2u64,
        BoneProperty::Scale => 3u64,
        BoneProperty::Shear => 4u64,
    }) + (match axis {
        None => 0u64,
        Some(Axis::X) => 16u64,
        Some(Axis::Y) => 32u64,
    })
}

/// A widget id for an address: a bone track is its bone's key times 64 plus
/// the track tag, modulo 2^64; a slot track is the slot's key with a
/// per-kind pattern xored into its high bits. Tracks of one bone, tracks of
/// one slot, and bones whose keys differ modulo 2^58 never share an id; a
/// bone track and a slot track, or bones equal modulo 2^58, can.
pub open spec fn spec_stable_id(addr: TimelineAddr) -> u64 {
    match addr {
        TimelineAddr::Bone { bone, property, axis } => ((bone.0 as int * 64 + track_tag(property, axis))
            % 0x1_0000_0000_0000_0000int) as u64,
        TimelineAddr::SlotColor { slot } => slot.0 ^ 0xC010_0000_0000_0000u64,
        TimelineAddr::SlotAttachment { slot } => slot.0 ^ 0xA77A_0000_0000_0000u64,
        TimelineAddr::SlotVisible { slot } => slot.0 ^ 0x7157_0000_0000_0000u64,
    }
}

proof fn lemma_wrapping_track(b: u64, t: u64)
    requires
        t < 64,
    ensures
        vstd::wrapping::u64_specs::wrapping_add(vstd::wrapping::u64_specs::wrapping_mul(b, 64), t)
            == ((b as int * 64 + t as int) % 0x1_0000_0000_0000_0000int) as u64,
{
    let m = 0x1_0000_0000_0000_0000int;
    let x = (b as int * 64) % m;
    assert(0 <= x < m);
    assert(x % 64 == 0) by (nonlinear_arith)
        requires
            x == (b as int * 64) % m,
            m == 0x1_0000_0000_0000_0000int,
    ;
    assert(x + t <= u64::MAX);
    assert((b as int * 64 + t as int) % m == x + t) by (nonlinear_arith)
        requires
            x == (b as int * 64) % m,
            m == 0x1_0000_0000_0000_0000int,
            0 <= t < 64,
            x % 64 == 0,
            0 <= x < m,
    ;
}

/// Two different tracks of one bone never share an id: the property and the
/// axis are both part of a track's identity.
pub proof fn bone_tracks_do_not_collide(
    bone: BoneId,
    p1: BoneProperty,
    a1: Option<Axis>,
    p2: BoneProperty,
    a2: Option<Axis>,
)
    requires
        p1 != p2 || a1 != a2,
    ensures
        spec_stable_id(TimelineAddr::Bone { bone, property: p1, axis: a1 })
            != spec_stable_id(TimelineAddr::Bone { bone, property: p2, axis: a2 }),
{
    let (t1, t2) = (track_tag(p1, a1), track_tag(p2, a2));
    assert(t1 != t2);
    assert(0 < t1 < 64 && 0 < t2 < 64);
    lemma_wrapping_track(bone.0, t1 as u64);
    lemma_wrapping_track(bone.0, t2 as u64);
    let m = 0x1_0000_0000_0000_0000int;
    let x = (bone.0 as int * 64) % m;
    assert(x % 64 == 0 && 0 <= x < m) by (nonlinear_arith)
        requires
            x == (bone.0 as int * 64) % m,
            m == 0x1_0000_0000_0000_0000int,
    ;
    assert((bone.0 as int * 64 + t1) % m == x + t1) by (nonlinear_arith)
        requires
            x == (bone.0 as int * 64) % m,
            m == 0x1_0000_0000_0000_0000int,
            0 <= t1 < 64,
            x % 64 == 0,
            0 <= x < m,
    ;
    assert((bone.0 as int * 64 + t2) % m == x + t2) by (nonlinear_arith)
        requires
            x == (bone.0 as int * 64) % m,
            m == 0x1_0000_0000_0000_0000int,
            0 <= t2 < 64,
            x % 64 == 0,
            0 <= x < m,
    ;
}

/// Two bone tracks share an id only when their bones' keys agree modulo
/// 2^58 and they are the same track: different tracks of any bones, and
/// tracks of bones whose keys differ modulo 2^58, get different ids.
pub proof fn bone_track_ids_differ(
    b1: BoneId,
    p1: BoneProperty,
    a1: Option<Axis>,
    b2: BoneId,
    p2: BoneProperty,
    a2: Option<Axis>,
)
    requires
        b1.0 % 0x400_0000_0000_0000 != b2.0 % 0x400_0000_0000_0000 || p1 != p2 || a1 != a2,
    ensures
        spec_stable_id(TimelineAddr::Bone { bone: b1, property: p1, axis: a1 })
            != spec_stable_id(TimelineAddr::Bone { bone: b2, property: p2, axis: a2 }),
{
    let (t1, t2) = (track_tag(p1, a1), track_tag(p2, a2));
    assert(p1 != p2 || a1 != a2 ==> t1 != t2);
    assert(0 < t1 < 64 && 0 < t2 < 64);
    let (x1, x2) = (b1.0, b2.0);
    let (u1, u2) = (t1 as u64, t2 as u64);
    assert(((x1 as int * 64 + u1) % 0x1_0000_0000_0000_0000int == (x2 as int * 64 + u2) % 0x1_0000_0000_0000_0000int)
        ==> (u1 == u2 && x1 % 0x400_0000_0000_0000 == x2 % 0x400_0000_0000_0000)) by (bit_vector)
        requires
            u1 < 64,
            u2 < 64,
    ;
}

/// The three tracks of one slot get different ids.
pub proof fn slot_track_ids_differ(slot: SlotId)
    ensures
        spec_stable_id(TimelineAddr::SlotColor { slot }) != spec_stable_id(TimelineAddr::SlotAttachment { slot }),
        spec_stable_id(TimelineAddr::SlotColor { slot }) != spec_stable_id(TimelineAddr::SlotVisible { slot }),
        spec_stable_id(TimelineAddr::SlotAttachment { slot }) != spec_stable_id(TimelineAddr::SlotVisible { slot }),
{
    let s = slot.0;
    assert(s ^ 0xC010_0000_0000_0000u64 != s ^ 0xA77A_0000_0000_0000u64) by (bit_vector);
    assert(s ^ 0xC010_0000_0000_0000u64 != s ^ 0x7157_0000_0000_0000u64) by (bit_vector);
    assert(s ^ 0xA77A_0000_0000_0000u64 != s ^ 0x7157_0000_0000_0000u64) by (bit_vector);
}

impl TimelineAddr {
    /// A stable id for this address, for widget ids in the timeline. Derived
    /// from the target's key and a property tag, so two tracks of one property
    /// never share an id.
    pub fn stable_id(&self) -> (id: u64)
        ensures
            id == spec_stable_id(*self),
    {
        match self {
            TimelineAddr::Bone { bone, property, axis } => {
                let p: u64 = match property {
                    BoneProperty::Translate => 1,
                    BoneProperty::Rotate => 2,
                    BoneProperty::Scale => 3,
                    BoneProperty::Shear => 4,
                };
                let a: u64 = match axis {
                    None => 0,
                    Some(Axis::X) => 16,
                    Some(Axis::Y) => 32,
                };
                let tag: u64 = p + a;
                proof {
                    lemma_wrapping_track(bone.0, tag);
                }
                bone.0.wrapping_mul(64).wrapping_add(tag)
            }
            TimelineAddr::SlotColor { slot } => slot.0 ^ 0xC010_0000_0000_0000u64,
            TimelineAddr::SlotAttachment { slot } => slot.0 ^ 0xA77A_0000_0000_0000u64,
            TimelineAddr::SlotVisible { slot } => slot.0 ^ 0x7157_0000_0000_0000u64,
        }
    }
}


/// What one timeline of an animation drives: its kind and target, without
/// its keys.
#[derive(Debug, Clone, Copy, PartialEq, Eq, Structural)]
pub enum TrackTarget {
    BoneTranslate { bone: BoneId, axis: Axis },
    BoneRotate { bone: BoneId },
    BoneScale { bone: BoneId, axis: Axis },
    BoneShear { bone: BoneId, axis: Axis },
    SlotColor { slot: SlotId },
    SlotAttachment { slot: SlotId },
    SlotVisible { slot: SlotId },
    DrawOrder,
    IkMix,
    IkBendDirection,
    IkSoftness,
    TransformConstraintMix,
    Deform,
}

/// Does a timeline driving `target` carry the track `addr` names? A
/// two-axis property matches only the named axis; rotation has one track.
pub open spec fn addr_matches(addr: TimelineAddr, target: TrackTarget) -> bool {
    match (addr, target) {
        (TimelineAddr::Bone { bone, property: BoneProperty::Translate, axis }, TrackTarget::BoneTranslate { bone: b, axis: ax }) =>
            bone == b && axis == Some(ax),
        (TimelineAddr::Bone { bone, property: BoneProperty::Rotate, .. }, TrackTarget::BoneRotate { bone: b }) => bone == b,
        (TimelineAddr::Bone { bone, property: BoneProperty::Scale, axis }, TrackTarget::BoneScale { bone: b, axis: ax }) =>
            bone == b && axis == Some(ax),
        (TimelineAddr::Bone { bone, property: BoneProperty::Shear, axis }, TrackTarget::BoneShear { bone: b, axis: ax }) =>
            bone == b && axis == Some(ax),
        (TimelineAddr::SlotColor { slot }, TrackTarget::SlotColor { slot: s }) => slot == s,
        (TimelineAddr::SlotAttachment { slot }, TrackTarget::SlotAttachment { slot: s }) => slot == s,
        (TimelineAddr::SlotVisible { slot }, TrackTarget::SlotVisible { slot: s }) => slot == s,
        _ => false,
    }
}

/// What a new, empty timeline for `addr` drives. A two-axis property with no
/// axis named gets the x track.
pub open spec fn empty_target(addr: TimelineAddr) -> TrackTarget {
    match addr {
        TimelineAddr::Bone { bone, property, axis } => {
            let ax = match axis {
                Some(a) => a,
                None => Axis::X,
            };
            match property {
                BoneProperty::Translate => TrackTarget::BoneTranslate { bone, axis: ax },
                BoneProperty::Rotate => TrackTarget::BoneRotate { bone },
                BoneProperty::Scale => TrackTarget::BoneScale { bone, axis: ax },
                BoneProperty::Shear => TrackTarget::BoneShear { bone, axis: ax },
            }
        }
        TimelineAddr::SlotColor { slot } => TrackTarget::SlotColor { slot },
        TimelineAddr::SlotAttachment { slot } => TrackTarget::SlotAttachment { slot },
        TimelineAddr::SlotVisible { slot } => TrackTarget::SlotVisible { slot },
    }
}

fn same_axis(axis: Option<Axis>, ax: Axis) -> (r: bool)
    ensures
        r == (axis == Some(ax)),
{
    match (axis, ax) {
        (Some(Axis::X), Axis::X) => true,
        (Some(Axis::Y), Axis::Y) => true,
        _ => false,
    }
}

impl TimelineAddr {
    /// Does a timeline driving `target` carry this address's track?
    pub fn matches_timeline(&self, target: &TrackTarget) -> (r: bool)
        ensures
            r == addr_matches(*self, *target),
    {
        match (self, target) {
            (TimelineAddr::Bone { bone, property: BoneProperty::Translate, axis }, TrackTarget::BoneTranslate { bone: b, axis: ax }) =>
                bone.0 == b.0 && same_axis(*axis, *ax),
            (TimelineAddr::Bone { bone, property: BoneProperty::Rotate, .. }, TrackTarget::BoneRotate { bone: b }) => bone.0 == b.0,
            (TimelineAddr::Bone { bone, property: BoneProperty::Scale, axis }, TrackTarget::BoneScale { bone: b, axis: ax }) =>
                bone.0 == b.0 && same_axis(*axis, *ax),
            (TimelineAddr::Bone { bone, property: BoneProperty::Shear, axis }, TrackTarget::BoneShear { bone: b, axis: ax }) =>
                bone.0 == b.0 && same_axis(*axis, *ax),
            (TimelineAddr::SlotColor { slot }, TrackTarget::SlotColor { slot: s }) => slot.0 == s.0,
            (TimelineAddr::SlotAttachment { slot }, TrackTarget::SlotAttachment { slot: s }) => slot.0 == s.0,
            (TimelineAddr::SlotVisible { slot }, TrackTarget::SlotVisible { slot: s }) => slot.0 == s.0,
            _ => false,
        }
    }

    /// What a new, empty timeline for this address drives.
    pub fn empty_timeline(&self) -> (t: TrackTarget)
        ensures
            t == empty_target(*self),
    {
        match self {
            TimelineAddr::Bone { bone, property, axis } => {
                let ax = match axis {
                    Some(a) => *a,
                    None => Axis::X,
                };
                match property {
                    BoneProperty::Translate => TrackTarget::BoneTranslate { bone: *bone, axis: ax },
                    BoneProperty::Rotate => TrackTarget::BoneRotate { bone: *bone },
                    BoneProperty::Scale => TrackTarget::BoneScale { bone: *bone, axis: ax },
                    BoneProperty::Shear => TrackTarget::BoneShear { bone: *bone, axis: ax },
                }
            }
            TimelineAddr::SlotColor { slot } => TrackTarget::SlotColor { slot: *slot },
            TimelineAddr::SlotAttachment { slot } => TrackTarget::SlotAttachment { slot: *slot },
            TimelineAddr::SlotVisible { slot } => TrackTarget::SlotVisible { slot: *slot },
        }
    }
}

/// The index of the first timeline in `timelines` that carries `addr`'s
/// track, if any does.
pub fn find_timeline(timelines: &[TrackTarget], addr: &TimelineAddr) -> (r: Option<usize>)
    ensures
        r is None <==> forall|i: int| 0 <= i < timelines@.len() ==> !addr_matches(*addr, #[trigger] timelines@[i]),
        r matches Some(i) ==> i < timelines@.len() && addr_matches(*addr, timelines@[i as int])
            && forall|j: int| 0 <= j < i ==> !addr_matches(*addr, #[trigger] timelines@[j]),
{
    let mut i: usize = 0;
    while i < timelines.len()
        invariant
            i <= timelines@.len(),
            forall|j: int| 0 <= j < i ==> !addr_matches(*addr, #[trigger] timelines@[j]),
        decreases timelines@.len() - i,
    {
        if addr.matches_timeline(&timelines[i]) {
            return Some(i);
        }
        i += 1;
    }
    None
}

/// Does any timeline in `timelines` carry `addr`'s track?
pub fn timeline_exists(timelines: &[TrackTarget], addr: &TimelineAddr) -> (r: bool)
    ensures
        r == exists|i: int| 0 <= i < timelines@.len() && addr_matches(*addr, #[trigger] timelines@[i]),
{
    find_timeline(timelines, addr).is_some()
}

/// Find the timeline `addr` names, creating an empty one at the end if no
/// timeline carries that track, and return its index.
pub fn timeline_index(timelines: &mut Vec<TrackTarget>, addr: &TimelineAddr) -> (i: usize)
    requires
        old(timelines)@.len() < usize::MAX,
    ensures
        (exists|j: int| 0 <= j < old(timelines)@.len() && addr_matches(*addr, #[trigger] old(timelines)@[j])) ==> {
            &&& final(timelines)@ == old(timelines)@
            &&& i < old(timelines)@.len()
            &&& addr_matches(*addr, old(timelines)@[i as int])
            &&& forall|j: int| 0 <= j < i ==> !addr_matches(*addr, #[trigger] old(timelines)@[j])
        },
        (forall|j: int| 0 <= j < old(timelines)@.len() ==> !addr_matches(*addr, #[trigger] old(timelines)@[j])) ==> {
            &&& final(timelines)@ == old(timelines)@.push(empty_target(*addr))
            &&& i == old(timelines)@.len()
        },
{
    match find_timeline(timelines.as_slice(), addr) {
        Some(i) => i,
        None => {
            timelines.push(addr.empty_timeline());
            timelines.len() - 1
        }
    }
}

/// A timeline created for an address is found again by that address —
/// unless the address names a two-axis property without saying which axis.
pub proof fn a_created_timeline_is_found_again(addr: TimelineAddr)
    requires
        addr matches TimelineAddr::Bone { property, axis, .. } ==> (property == BoneProperty::Rotate || axis is Some),
    ensures
        addr_matches(addr, empty_target(addr)),
{
}

/// A bone address that names an axis matches exactly the track of that
/// bone, property and axis (rotation has one track, whatever the axis), and
/// an empty timeline made for it drives that same track.
pub proof fn a_bone_address_finds_its_own_axis(bone: BoneId, property: BoneProperty, axis: Axis, target: TrackTarget)
    ensures
        ({
            let addr = TimelineAddr::Bone { bone, property, axis: Some(axis) };
            let track = match property {
                BoneProperty::Translate => TrackTarget::BoneTranslate { bone, axis },
                BoneProperty::Rotate => TrackTarget::BoneRotate { bone },
                BoneProperty::Scale => TrackTarget::BoneScale { bone, axis },
                BoneProperty::Shear => TrackTarget::BoneShear { bone, axis },
            };
            &&& addr_matches(addr, target) <==> target == track
            &&& empty_target(addr) == track
        }),
{
}

/// A bone address that names no axis matches only the rotation track of
/// its bone, and an empty timeline made for it drives that bone's rotation,
/// or the x track of a two-axis property.
pub proof fn a_bone_address_without_axis(bone: BoneId, property: BoneProperty, target: TrackTarget)
    ensures
        ({
            let addr = TimelineAddr::Bone { bone, property, axis: None };
            &&& addr_matches(addr, target) <==> (property == BoneProperty::Rotate && target == TrackTarget::BoneRotate { bone })
            &&& empty_target(addr) == match property {
                BoneProperty::Translate => TrackTarget::BoneTranslate { bone, axis: Axis::X },
                BoneProperty::Rotate => TrackTarget::BoneRotate { bone },
                BoneProperty::Scale => TrackTarget::BoneScale { bone, axis: Axis::X },
                BoneProperty::Shear => TrackTarget::BoneShear { bone, axis: Axis::X },
            }
        }),
{
}

/// A slot address matches exactly the slot track of its kind on that slot,
/// and an empty timeline made for it drives that track.
pub proof fn a_slot_address_finds_its_own_track(slot: SlotId, target: TrackTarget)
    ensures
        addr_matches((TimelineAddr::SlotColor { slot }), target) <==> target == (TrackTarget::SlotColor { slot }),
        addr_matches((TimelineAddr::SlotAttachment { slot }), target) <==> target == (TrackTarget::SlotAttachment { slot }),
        addr_matches((TimelineAddr::SlotVisible { slot }), target) <==> target == (TrackTarget::SlotVisible { slot }),
        empty_target((TimelineAddr::SlotColor { slot })) == (TrackTarget::SlotColor { slot }),
        empty_target((TimelineAddr::SlotAttachment { slot })) == (TrackTarget::SlotAttachment { slot }),
        empty_target((TimelineAddr::SlotVisible { slot })) == (TrackTarget::SlotVisible { slot }),
{
}

/// A timeline carries one track: two addresses it answers to are the same
/// address, or both name the rotation of one bone.
pub proof fn a_timeline_answers_to_one_track(a1: TimelineAddr, a2: TimelineAddr, target: TrackTarget)
    requires
        addr_matches(a1, target),
        addr_matches(a2, target),
    ensures
        a1 == a2 || (a1 matches TimelineAddr::Bone { bone: b1, property: BoneProperty::Rotate, .. }
            && a2 matches TimelineAddr::Bone { bone: b2, property: BoneProperty::Rotate, .. } && b1 == b2),
{
}


/// The first position of `slot` in `order` (meaningful when present).
pub open spec fn first_position(order: Seq<SlotId>, slot: SlotId) -> int {
    choose|i: int| 0 <= i < order.len() && order[i] == slot && forall|j: int| 0 <= j < i ==> order[j] != slot
}

/// `(slot, target index − setup index)` for every slot of `target`, in target
/// order, that the setup order holds at a different index. A draw-order key
/// stores these offsets from the setup stack.
pub open spec fn order_offsets(target: Seq<SlotId>, setup: Seq<SlotId>) -> Seq<(SlotId, i32)>
    decreases target.len(),
{
    if target.len() == 0 {
        Seq::empty()
    } else {
        let rest = order_offsets(target.drop_last(), setup);
        let t = target.len() - 1;
        let slot = target.last();
        if setup.contains(slot) && first_position(setup, slot) != t {
            rest.push((slot, (t - first_position(setup, slot)) as i32))
        } else {
            rest
        }
    }
}

proof fn lemma_first_position(order: Seq<SlotId>, slot: SlotId)
    requires
        order.contains(slot),
    ensures
        0 <= first_position(order, slot) < order.len(),
        order[first_position(order, slot)] == slot,
        forall|j: int| 0 <= j < first_position(order, slot) ==> order[j] != slot,
        forall|s: int| 0 <= s < order.len() && order[s] == slot && (forall|j: int| 0 <= j < s ==> order[j] != slot)
            ==> s == first_position(order, slot),
{
    let k = choose|k: int| 0 <= k < order.len() && order[k] == slot;
    lemma_least_position(order, slot, k);
    let f = first_position(order, slot);
    assert forall|s: int| 0 <= s < order.len() && order[s] == slot && (forall|j: int| 0 <= j < s ==> order[j] != slot)
        implies s == f by {
        if s < f {
            assert(order[s] != slot);
        }
        if f < s {
            assert(order[f] != slot);
        }
    }
}

proof fn lemma_least_position(order: Seq<SlotId>, slot: SlotId, k: int)
    requires
        0 <= k < order.len(),
        order[k] == slot,
    ensures
        exists|i: int| 0 <= i < order.len() && order[i] == slot && forall|j: int| 0 <= j < i ==> order[j] != slot,
    decreases k,
{
    if exists|j: int| 0 <= j < k && order[j] == slot {
        let j = choose|j: int| 0 <= j < k && order[j] == slot;
        lemma_least_position(order, slot, j);
    } else {
        assert(forall|j: int| 0 <= j < k ==> order[j] != slot);
    }
}

/// `s` is the first index at which `order` holds `slot`.
pub open spec fn first_at(order: Seq<SlotId>, slot: SlotId, s: int) -> bool {
    &&& 0 <= s < order.len()
    &&& order[s] == slot
    &&& forall|j: int| 0 <= j < s ==> order[j] != slot
}

/// `e` says that the slot at target index `t` sits at `t - s`, where `s` is
/// its first index in the setup order and differs from `t`.
pub open spec fn moved_entry(target: Seq<SlotId>, setup: Seq<SlotId>, e: (SlotId, i32)) -> bool {
    exists|t: int, s: int|
        0 <= t < target.len() && t != s && #[trigger] first_at(setup, target[t], s) && e.0 == target[t] && e.1 == t - s
}

proof fn lemma_moved_entry_grows(target: Seq<SlotId>, setup: Seq<SlotId>, e: (SlotId, i32))
    requires
        target.len() > 0,
        moved_entry(target.drop_last(), setup, e),
    ensures
        moved_entry(target, setup, e),
{
    let d = target.drop_last();
    let (t, s) = choose|t: int, s: int|
        0 <= t < d.len() && t != s && #[trigger] first_at(setup, d[t], s) && e.0 == d[t] && e.1 == t - s;
    assert(target[t] == d[t]);
    assert(first_at(setup, target[t], s));
}

/// Every offset says how far a slot moved: it is a slot of the target, at
/// index `t`, that the setup order first holds at another index `s`, with
/// offset `t - s`. The offsets are never longer than the target.
#[verifier::spinoff_prover]
#[verifier::rlimit(40)]
pub proof fn every_offset_is_a_move(target: Seq<SlotId>, setup: Seq<SlotId>)
    requires
        target.len() <= i32::MAX,
        setup.len() <= i32::MAX,
    ensures
        order_offsets(target, setup).len() <= target.len(),
        forall|k: int| 0 <= k < order_offsets(target, setup).len()
            ==> moved_entry(target, setup, #[trigger] order_offsets(target, setup)[k]),
    decreases target.len(),
{
    if target.len() > 0 {
        let d = target.drop_last();
        every_offset_is_a_move(d, setup);
        let r = order_offsets(d, setup);
        let t0 = target.len() - 1;
        let slot = target.last();
        let o = order_offsets(target, setup);
        if setup.contains(slot) {
            lemma_first_position(setup, slot);
        }
        assert forall|k: int| 0 <= k < o.len() implies moved_entry(target, setup, #[trigger] o[k]) by {
            if k < r.len() {
                assert(o[k] == r[k]);
                lemma_moved_entry_grows(target, setup, r[k]);
            } else {
                let s = first_position(setup, slot);
                assert(target[t0] == slot);
                assert(first_at(setup, target[t0], s));
            }
        }
    }
}

/// Every slot of the target that the setup order first holds at another
/// index has its offset among the offsets.
#[verifier::spinoff_prover]
#[verifier::rlimit(40)]
pub proof fn every_move_has_its_offset(target: Seq<SlotId>, setup: Seq<SlotId>)
    requires
        target.len() <= i32::MAX,
        setup.len() <= i32::MAX,
    ensures
        forall|t: int, s: int| 0 <= t < target.len() && t != s && #[trigger] first_at(setup, target[t], s)
            ==> order_offsets(target, setup).contains((target[t], (t - s) as i32)),
    decreases target.len(),
{
    if target.len() > 0 {
        let d = target.drop_last();
        every_move_has_its_offset(d, setup);
        let r = order_offsets(d, setup);
        let t0 = target.len() - 1;
        let slot = target.last();
        let o = order_offsets(target, setup);
        if setup.contains(slot) {
            lemma_first_position(setup, slot);
        }
        assert forall|t: int, s: int| 0 <= t < target.len() && t != s && #[trigger] first_at(setup, target[t], s)
            implies o.contains((target[t], (t - s) as i32)) by {
            if t < t0 {
                assert(d[t] == target[t]);
                assert(first_at(setup, d[t], s));
                assert(r.contains((d[t], (t - s) as i32)));
                let k = choose|k: int| 0 <= k < r.len() && r[k] == (d[t], (t - s) as i32);
                assert(o[k] == r[k]);
            } else {
                assert(setup.contains(slot));
                assert(s == first_position(setup, slot));
                assert(o[r.len() as int] == (target[t], (t - s) as i32));
            }
        }
    }
}

/// The first index of `slot` in `order`.
fn position_of(order: &Vec<SlotId>, slot: SlotId) -> (r: Option<usize>)
    ensures
        r is None <==> !order@.contains(slot),
        r matches Some(i) ==> i == first_position(order@, slot) && i < order@.len(),
{
    let mut i: usize = 0;
    while i < order.len()
        invariant
            i <= order.len(),
            forall|j: int| 0 <= j < i ==> order@[j] != slot,
        decreases order.len() - i,
    {
        if order[i] == slot {
            proof {
                let o = order@;
                assert(o[i as int] == slot);
                let c = first_position(o, slot);
                assert(0 <= c < o.len() && o[c] == slot && forall|j: int| 0 <= j < c ==> o[j] != slot);
                if c < i {
                    assert(o[c] != slot);
                }
                if i < c {
                    assert(o[i as int] != slot);
                }
            }
            return Some(i);
        }
        i += 1;
    }
    None
}

/// The draw-order offsets of `target` against `setup`: each slot whose index
/// differs from its setup index, with the difference. Slots the setup order
/// does not hold are skipped.
pub fn draw_order_offsets(target: &Vec<SlotId>, setup: &Vec<SlotId>) -> (offsets: Vec<(SlotId, i32)>)
    requires
        target@.len() <= i32::MAX,
        setup@.len() <= i32::MAX,
    ensures
        offsets@ == order_offsets(target@, setup@),
{
    let mut out: Vec<(SlotId, i32)> = Vec::new();
    let mut i: usize = 0;
    while i < target.len()
        invariant
            i <= target.len(),
            target@.len() <= i32::MAX,
            setup@.len() <= i32::MAX,
            out@ == order_offsets(target@.take(i as int), setup@),
        decreases target.len() - i,
    {
        proof {
            assert(target@.take(i + 1).drop_last() =~= target@.take(i as int));
        }
        let slot = target[i];
        proof {
            let t = target@.take(i + 1);
            assert(t.last() == slot);
            assert(t.len() - 1 == i);
        }
        match position_of(setup, slot) {
            Some(s) => {
                if s != i {
                    let delta: i32 = i as i32 - s as i32;
                    out.push((slot, delta));
                }
            }
            None => {}
        }
        i += 1;
    }
    proof {
        assert(target@.take(target.len() as int) =~= target@);
    }
    out
}

} // verus!
