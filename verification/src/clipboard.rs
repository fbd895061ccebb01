//! What the editor clipboard holds, as far as the status bar describes it.
//!
//! The clipboard itself carries bones and poses by value and by name; a paste
//! that does nothing says why with one line built from this summary.

use crate::text::{decimal, push_decimal};
use vstd::prelude::*;

verus! {

/// The clipboard's contents, by kind and size.
#[derive(Debug, Clone, Copy, PartialEq, Eq, Default, Structural)]
pub enum ClipboardSummary {
    #[default]
    Empty,
    /// A copied bone subtree of this many bones.
    Bones(usize),
    /// A copied pose covering this many bones.
    Pose(usize),
}

/// The status-bar line for a clipboard.
pub open spec fn describe_spec(c: ClipboardSummary) -> Seq<char> {
    match c {
        ClipboardSummary::Empty => "nothing"@,
        ClipboardSummary::Bones(n) => if n == 1 {
            "1 bone"@
        } else {
            decimal(n as nat) + " bones"@
        },
        ClipboardSummary::Pose(n) => if n == 1 {
            "a pose (1 bone)"@
        } else {
            "a pose ("@ + decimal(n as nat) + " bones)"@
        },
    }
}

impl ClipboardSummary {
    pub fn is_empty(&self) -> (r: bool)
        ensures
            r == (*self is Empty),
    {
        match self {
            ClipboardSummary::Empty => true,
            _ => false,
        }
    }

    /// One line for the status bar: `"nothing"`, `"3 bones"`, `"a pose (1 bone)"`.
    pub fn describe(&self) -> (s: String)
        ensures
            s@ == describe_spec(*self),
    {
        let mut out = String::new();
        match self {
            ClipboardSummary::Empty => {
                out.append("nothing");
            }
            ClipboardSummary::Bones(n) => {
                if *n == 1 {
                    out.append("1 bone");
                } else {
                    push_decimal(&mut out, *n as u64);
                    out.append(" bones");
                }
            }
            ClipboardSummary::Pose(n) => {
                if *n == 1 {
                    out.append("a pose (1 bone)");
                } else {
                    out.append("a pose (");
                    push_decimal(&mut out, *n as u64);
                    out.append(" bones)");
                }
            }
        }
        proof {
            assert(out@ =~= describe_spec(*self));
        }
        out
    }
}

} // verus!
