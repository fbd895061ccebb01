//! The plugin vocabulary the editor needs without running any plugin.

use crate::text::{decimal, push_decimal};
use vstd::prelude::*;

verus! {

/// An opt-in package shipped as source, installed beside the user's plugins.
#[derive(Debug, Clone, Copy, PartialEq, Eq)]
pub struct CommunityPlugin {
    pub id: &'static str,
    pub label: &'static str,
    pub importer_id: &'static str,
}

/// The shipped community packages.
pub fn community_plugins() -> (list: Vec<CommunityPlugin>)
    ensures
        list@.len() == 2,
        list@[0].id@ == "spine"@ && list@[0].label@ == "Spine JSON"@ && list@[0].importer_id@ == "import.spine"@,
        list@[1].id@ == "dragonbones"@ && list@[1].label@ == "DragonBones JSON"@
            && list@[1].importer_id@ == "import.dragonbones"@,
{
    let mut list: Vec<CommunityPlugin> = Vec::new();
    list.push(CommunityPlugin { id: "spine", label: "Spine JSON", importer_id: "import.spine" });
    list.push(CommunityPlugin { id: "dragonbones", label: "DragonBones JSON", importer_id: "import.dragonbones" });
    list
}

/// The one-line plugin summary for the status bar.
pub open spec fn summary_spec(total: nat, failed: nat) -> Seq<char> {
    if total == 0 {
        "No plugins"@
    } else if failed == 0 {
        decimal(total) + " plugin(s)"@
    } else {
        decimal(total) + " plugin(s)"@ + ", "@ + decimal(failed) + " failed to load"@
    }
}

/// A line for the status bar or an about box, from how many plugins were
/// found and how many of them failed to load: "no plugins found" and "one
/// plugin, and it failed" must read differently.
pub fn summary(total: usize, failed: usize) -> (s: String)
    ensures
        s@ == summary_spec(total as nat, failed as nat),
{
    let mut out = String::new();
    if total == 0 {
        out.append("No plugins");
    } else {
        push_decimal(&mut out, total as u64);
        out.append(" plugin(s)");
        if failed != 0 {
            out.append(", ");
            push_decimal(&mut out, failed as u64);
            out.append(" failed to load");
        }
    }
    proof {
        assert(out@ =~= summary_spec(total as nat, failed as nat));
    }
    out
}

} // verus!
