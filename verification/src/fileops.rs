//! File▸New / Open / Save outcomes, and the status line an open reports.

use vstd::prelude::*;

verus! {

/// Outcome of a file operation, for surfacing a status line or error toast.
#[derive(Debug, Clone, PartialEq)]
pub enum FileOutcome {
    Saved(String),
    Opened(String),
    /// A foreign rig was imported from the file named `name`, with the
    /// references the importer could not resolve and the features it could
    /// not carry over.
    Imported { name: String, dangling: Vec<String>, lossy: Vec<String> },
    /// User dismissed the native dialog.
    Cancelled,
    Error(String),
}

/// What an import could not carry over, for the report window.
#[derive(Debug, Clone, PartialEq)]
pub struct ImportReport {
    pub file: String,
    pub dangling: Vec<String>,
    pub lossy: Vec<String>,
}

/// What the app does after a file action: the status line to show (`None`
/// keeps the current one), the project path from now on, the autosaves to
/// delete (`None` naming the unsaved document's), whether to restart the
/// autosave's write history, the file to record as most recent, and an
/// import report to show.
#[derive(Debug, Clone, PartialEq)]
pub struct FileStep {
    pub status: Option<String>,
    pub current_path: Option<String>,
    pub discard_autosaves: Vec<Option<String>>,
    pub reset_autosave: bool,
    pub touch_recent: Option<String>,
    pub import_report: Option<ImportReport>,
}

/// The step after File▸New: an empty, unsaved document.
pub fn new_document_step() -> (s: FileStep)
    ensures
        s.status matches Some(t) && t@ == "New document"@,
        s.current_path is None,
        s.discard_autosaves@.len() == 0,
        s.reset_autosave,
        s.touch_recent is None,
        s.import_report is None,
{
    FileStep {
        status: Some("New document".to_owned()),
        current_path: None,
        discard_autosaves: Vec::new(),
        reset_autosave: true,
        touch_recent: None,
        import_report: None,
    }
}

/// The step after a file operation, given the project path before it.
///
/// - Saved: the status says where; the autosave of the project as it was
///   and, after a Save As, the one at the new path are deleted; the write
///   history restarts; the file becomes most recent and the current path.
/// - Opened: the status says what; the file becomes most recent and the
///   current path; the write history restarts.
/// - Imported: the status names the file; the document is now unsaved, so
///   there is no current path and no recent entry; a report is shown when
///   anything could not be carried over.
/// - Cancelled: nothing changes. Error: the status is the message.
pub fn file_step(current: Option<String>, outcome: FileOutcome) -> (s: FileStep)
    ensures
        match outcome {
            FileOutcome::Saved(p) => {
                &&& s.status matches Some(t) && t@ == "Saved "@ + p@
                &&& s.current_path matches Some(c) && c@ == p@
                &&& s.discard_autosaves@.len() == (if current matches Some(c) && c@ == p@ { 1int } else { 2int })
                &&& s.discard_autosaves@[0] == current
                &&& !(current matches Some(c) && c@ == p@) ==> (s.discard_autosaves@[1] matches Some(d) && d@ == p@)
                &&& s.reset_autosave
                &&& s.touch_recent matches Some(r) && r@ == p@
                &&& s.import_report is None
            },
            FileOutcome::Opened(p) => {
                &&& s.status matches Some(t) && t@ == "Opened "@ + p@
                &&& s.current_path matches Some(c) && c@ == p@
                &&& s.discard_autosaves@.len() == 0
                &&& s.reset_autosave
                &&& s.touch_recent matches Some(r) && r@ == p@
                &&& s.import_report is None
            },
            FileOutcome::Imported { name, dangling, lossy } => {
                &&& s.status matches Some(t) && t@ == "Imported "@ + name@
                &&& s.current_path is None
                &&& s.discard_autosaves@.len() == 0
                &&& !s.reset_autosave
                &&& s.touch_recent is None
                &&& (dangling@.len() == 0 && lossy@.len() == 0) ==> s.import_report is None
                &&& !(dangling@.len() == 0 && lossy@.len() == 0) ==> (s.import_report matches Some(r)
                    && r.file@ == name@ && r.dangling == dangling && r.lossy == lossy)
            },
            FileOutcome::Cancelled => {
                &&& s.status is None
                &&& s.current_path == current
                &&& s.discard_autosaves@.len() == 0
                &&& !s.reset_autosave
                &&& s.touch_recent is None
                &&& s.import_report is None
            },
            FileOutcome::Error(m) => {
                &&& s.status == Some(m)
                &&& s.current_path == current
                &&& s.discard_autosaves@.len() == 0
                &&& !s.reset_autosave
                &&& s.touch_recent is None
                &&& s.import_report is None
            },
        },
{
    match outcome {
        FileOutcome::Saved(p) => {
            let mut status = "Saved ".to_owned();
            status.append(p.as_str());
            let mut discard: Vec<Option<String>> = Vec::new();
            let same = match &current {
                Some(c) => *c == p,
                None => false,
            };
            discard.push(current);
            if !same {
                discard.push(Some(p.clone()));
            }
            FileStep {
                status: Some(status),
                current_path: Some(p.clone()),
                discard_autosaves: discard,
                reset_autosave: true,
                touch_recent: Some(p),
                import_report: None,
            }
        },
        FileOutcome::Opened(p) => {
            let mut status = "Opened ".to_owned();
            status.append(p.as_str());
            FileStep {
                status: Some(status),
                current_path: Some(p.clone()),
                discard_autosaves: Vec::new(),
                reset_autosave: true,
                touch_recent: Some(p),
                import_report: None,
            }
        },
        FileOutcome::Imported { name, dangling, lossy } => {
            let mut status = "Imported ".to_owned();
            status.append(name.as_str());
            let clean = dangling.len() == 0 && lossy.len() == 0;
            let report = if clean {
                None
            } else {
                Some(ImportReport { file: name, dangling, lossy })
            };
            FileStep {
                status: Some(status),
                current_path: None,
                discard_autosaves: Vec::new(),
                reset_autosave: false,
                touch_recent: None,
                import_report: report,
            }
        },
        FileOutcome::Cancelled => FileStep {
            status: None,
            current_path: current,
            discard_autosaves: Vec::new(),
            reset_autosave: false,
            touch_recent: None,
            import_report: None,
        },
        FileOutcome::Error(m) => FileStep {
            status: Some(m),
            current_path: current,
            discard_autosaves: Vec::new(),
            reset_autosave: false,
            touch_recent: None,
            import_report: None,
        },
    }
}

/// `kind 'name'` for one reference the loader could not resolve.
pub open spec fn dangling_item(kind: Seq<char>, name: Seq<char>) -> Seq<char> {
    kind + " '"@ + name + "'"@
}

/// The items of `d`, joined by `", "`.
pub open spec fn dangling_list(d: Seq<(String, String)>) -> Seq<char>
    decreases d.len(),
{
    if d.len() == 0 {
        Seq::empty()
    } else if d.len() == 1 {
        dangling_item(d[0].0@, d[0].1@)
    } else {
        dangling_list(d.drop_last()) + ", "@ + dangling_item(d.last().0@, d.last().1@)
    }
}

/// The status line for a project opened with unresolved references, or
/// `None` when everything resolved: a dangling reference is not a failed open,
/// but the user should hear about it.
pub fn unresolved_status(dangling: &Vec<(String, String)>) -> (s: Option<String>)
    ensures
        dangling@.len() == 0 ==> s is None,
        dangling@.len() > 0 ==> (s matches Some(t) && t@ == "Opened with unresolved: "@ + dangling_list(dangling@)),
{
    if dangling.len() == 0 {
        return None;
    }
    let mut out = String::new();
    out.append("Opened with unresolved: ");
    let ghost head = out@;
    let mut i: usize = 0;
    while i < dangling.len()
        invariant
            i <= dangling@.len(),
            dangling@.len() > 0,
            head == "Opened with unresolved: "@,
            out@ == head + dangling_list(dangling@.take(i as int)),
        decreases dangling.len() - i,
    {
        proof {
            assert(dangling@.take(i + 1).drop_last() =~= dangling@.take(i as int));
        }
        if i > 0 {
            out.append(", ");
        }
        out.append(dangling[i].0.as_str());
        out.append(" '");
        out.append(dangling[i].1.as_str());
        out.append("'");
        proof {
            let t = dangling@.take(i + 1);
            if i == 0 {
                assert(dangling_list(dangling@.take(0)) =~= Seq::<char>::empty());
                assert(t.len() == 1 && t[0] == dangling@[0]);
            }
            assert(out@ =~= head + dangling_list(t));
        }
        i += 1;
    }
    proof {
        assert(dangling@.take(dangling.len() as int) =~= dangling@);
    }
    Some(out)
}

} // verus!
