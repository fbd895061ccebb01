//! Name rules shared by the rename and create commands.
//!
//! Animations and skins are addressed by name on disk, so two of them sharing
//! a name would make one unreachable after a save/load round trip. The commands
//! that name one refuse a name another entity already holds.

use crate::text::{decimal, push_decimal};
use vstd::prelude::*;

verus! {

/// Some entity other than `except` is named `name`.
pub open spec fn taken_by_other(entries: Seq<(u64, String)>, except: Option<u64>, name: Seq<char>) -> bool {
    exists|i: int|
        0 <= i < entries.len() && (#[trigger] entries[i]).1@ == name && Some(entries[i].0) != except
}

/// Is `name` held by an entity other than `except`? Entities are given as
/// `(key, name)` pairs; `except` is the entity being renamed, if any.
pub fn name_taken(entries: &Vec<(u64, String)>, except: Option<u64>, name: &str) -> (taken: bool)
    ensures
        taken == taken_by_other(entries@, except, name@),
{
    let n = name.to_owned();
    let mut i: usize = 0;
    while i < entries.len()
        invariant
            i <= entries.len(),
            n@ == name@,
            forall|j: int|
                0 <= j < i ==> !((#[trigger] entries@[j]).1@ == name@ && Some(entries@[j].0) != except),
        decreases entries.len() - i,
    {
        let other = match except {
            Some(id) => entries[i].0 != id,
            None => true,
        };
        if other && entries[i].1 == n {
            proof {
                assert(entries@[i as int].1@ == name@ && Some(entries@[i as int].0) != except);
            }
            return true;
        }
        i += 1;
    }
    false
}

/// The name a new animation gets when `count` already exist.
pub open spec fn new_animation_name_spec(count: nat) -> Seq<char> {
    "animation_"@ + decimal(count + 1)
}

/// The name for a new clip: `animation_N`, with `N` one past the current count.
pub fn new_animation_name(count: usize) -> (name: String)
    requires
        count < usize::MAX,
    ensures
        name@ == new_animation_name_spec(count as nat),
{
    let mut out = String::new();
    out.append("animation_");
    push_decimal(&mut out, (count + 1) as u64);
    out
}

} // verus!
