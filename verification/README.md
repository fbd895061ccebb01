# ankhimate_editor

The editor-side rules of the Ankhimate animation editor, written in Verus and
proved against their contracts.

- `src/` is the verified library: key bindings and their resolution
  (`keys`, `keymap`), the operator registry with shadowing (`registry`),
  bounded undo/redo over commands that state what they do (`history`), the
  rig's structure with its undoable edits — reparenting, deleting a bone,
  selection sets, with a deleted bone's slots going with it — and the copy
  plan (`rig`), bounding-box, clip and mesh edits (`bbox`, `clip`, `mesh`),
  operator arguments and name resolution (`args`), timeline addressing
  (`timeline`), the recent-files list (`config`), autosave decisions
  (`autosave`), what a file action leaves behind (`fileops`), edit routing by
  work mode (`edit_router`), and smaller pieces of editor logic.
  Public proof functions state the laws the library keeps: unique default
  chords, one chord per binding after a rebind, recent files moved to the
  front without duplicates, distinct ids for the tracks of one bone or one
  slot, undo and redo restoring the document, and more.
- `tests/` runs the library on concrete values.
- `app/` is the program around it: the config file and keymap file on disk
  (`serde_json`, `directories`), the autosave timer and its files, and the
  float readers for operator arguments.

Key names come from `egui` itself; the library calls `egui::Key::name` and
states only that the text is egui's.
