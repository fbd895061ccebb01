//! Project-level settings that are neither skeleton nor animation.

use vstd::prelude::*;

verus! {

/// Project-level settings that are neither skeleton nor animation.
#[derive(Debug, Clone)]
pub struct DocumentMeta {
    pub name: String,
    /// Frames per second the timeline displays and playback advances at.
    pub fps: u32,
}

impl Default for DocumentMeta {
    fn default() -> (m: DocumentMeta)
        ensures
            m.name@ == "untitled"@,
            m.fps == 30,
    {
        DocumentMeta { name: "untitled".to_owned(), fps: 30 }
    }
}

} // verus!
