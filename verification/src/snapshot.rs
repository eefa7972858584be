//! A read-only snapshot of the editor state that resolvers draw from.
//!
//! Paths are carried as plain text, the cursor as the 0-based line of the
//! primary selection; the host supplies the values at expansion time.

use vstd::prelude::*;

verus! {

/// What a resolver may read of the editor at expansion time.
pub struct EditorSnapshot {
    /// Path of the current document, if it has one.
    pub path: Option<String>,
    /// The process's current working directory.
    pub cwd: String,
    /// Discovered workspace root; `None` when discovery found nothing, in
    /// which case resolvers fall back to `cwd`.
    pub workspace_root: Option<String>,
    /// Text of the primary selection.
    pub selection: String,
    /// 0-based line of the primary selection's cursor.
    pub cursor_line: usize,
    /// Detected language name, if any.
    pub language: Option<String>,
}

/// The mathematical image of a snapshot.
pub struct SnapshotView {
    pub path: Option<Seq<char>>,
    pub cwd: Seq<char>,
    pub workspace_root: Option<Seq<char>>,
    pub selection: Seq<char>,
    pub cursor_line: int,
    pub language: Option<Seq<char>>,
}

impl View for EditorSnapshot {
    type V = SnapshotView;

    open spec fn view(&self) -> SnapshotView {
        SnapshotView {
            path: match self.path {
                Some(p) => Some(p@),
                None => None,
            },
            cwd: self.cwd@,
            workspace_root: match self.workspace_root {
                Some(w) => Some(w@),
                None => None,
            },
            selection: self.selection@,
            cursor_line: self.cursor_line as int,
            language: match self.language {
                Some(l) => Some(l@),
                None => None,
            },
        }
    }
}

impl EditorSnapshot {
    /// The line number still fits the machine word after the shift to
    /// 1-based display.
    pub open spec fn wf(&self) -> bool {
        self.cursor_line < usize::MAX
    }
}

} // verus!
