//! The resolver table: turns one token candidate (the text between `%{` and
//! `}`) into a resolved fragment, by exact keyword dispatch on the
//! candidate's first word.
//!
//! Unknown keywords and all-whitespace candidates resolve to the empty
//! string and leave a diagnostic; they never abort a scan.  The `prompt`
//! keyword does not resolve synchronously: it records its label (the
//! trailing words joined with single spaces) and stands the placeholder
//! marker in the output.

use vstd::prelude::*;

use crate::snapshot::{EditorSnapshot, SnapshotView};
use crate::text::{dec_str, last_pos, rfind_char, starts_with, has_prefix, to_decimal};
use crate::words::{words_from, split_words, join_spaces_from, join_from};

verus! {

/// Label shown in place of a path for documents that have none.
pub open spec fn scratch_name() -> Seq<char> {
    "[scratch]"@
}

/// The placeholder marker a `prompt` token leaves in the output until its
/// answer is substituted.
pub open spec fn prompt_marker() -> Seq<char> {
    "%{prompt}"@
}

/// Final path component: everything after the last `'/'` (the whole path
/// when there is no `'/'`).
pub open spec fn basename_of(p: Seq<char>) -> Seq<char> {
    p.subrange(last_pos(p, '/') + 1, p.len() as int)
}

/// Parent directory: everything before the last `'/'`; `"/"` for a path
/// directly under the root; the scratch label for `""` and `"/"`, which
/// have no parent; `""` for a bare file name.
pub open spec fn dirname_of(p: Seq<char>) -> Seq<char> {
    let j = last_pos(p, '/');
    if p.len() == 0 || p == seq!['/'] {
        scratch_name()
    } else if j == -1 {
        seq![]
    } else if j == 0 {
        seq!['/']
    } else {
        p.subrange(0, j)
    }
}

/// Extension of the final path component: the part after its last `'.'`,
/// unless that `'.'` is absent or leads the component (a hidden file).
pub open spec fn ext_of(p: Seq<char>) -> Seq<char> {
    let b = basename_of(p);
    let j = last_pos(b, '.');
    if j <= 0 {
        seq![]
    } else {
        b.subrange(j + 1, b.len() as int)
    }
}

/// `p` stripped of the leading directory `base` (the separator included);
/// `p` unchanged when it does not sit under `base`, `""` when it is `base`.
pub open spec fn rel_to(p: Seq<char>, base: Seq<char>) -> Seq<char> {
    if p == base {
        seq![]
    } else if base.len() > 0 && base[base.len() - 1] == '/' && starts_with(p, base) {
        p.subrange(base.len() as int, p.len() as int)
    } else if starts_with(p, base + seq!['/']) {
        p.subrange(base.len() as int + 1, p.len() as int)
    } else {
        p
    }
}

/// The workspace root, falling back to the working directory when discovery
/// found nothing.
pub open spec fn workspace_of(v: SnapshotView) -> Seq<char> {
    match v.workspace_root {
        Some(w) => w,
        None => v.cwd,
    }
}

/// One resolved fragment: the text that stands in the output for a token,
/// plus the prompt label (for a `prompt` token) and the diagnostic (for an
/// unresolvable candidate) it left behind, each zero or one.
pub struct FragSpec {
    pub text: Seq<char>,
    pub prompts: Seq<Seq<char>>,
    pub diags: Seq<Seq<char>>,
}

pub open spec fn literal_frag(t: Seq<char>) -> FragSpec {
    FragSpec { text: t, prompts: seq![], diags: seq![] }
}

pub open spec fn diag_frag(candidate: Seq<char>) -> FragSpec {
    FragSpec { text: seq![], prompts: seq![], diags: seq![candidate] }
}

/// The resolver table, as a function of the snapshot and the candidate.
pub open spec fn resolve_spec(v: SnapshotView, candidate: Seq<char>) -> FragSpec {
    let ws = words_from(candidate, 0);
    if ws.len() == 0 {
        diag_frag(candidate)
    } else if ws[0] == "prompt"@ {
        FragSpec {
            text: prompt_marker(),
            prompts: seq![join_spaces_from(ws, 1)],
            diags: seq![],
        }
    } else if ws[0] == "basename"@ {
        literal_frag(
            match v.path {
                Some(p) => basename_of(p),
                None => scratch_name(),
            },
        )
    } else if ws[0] == "filename"@ {
        literal_frag(
            match v.path {
                Some(p) => p,
                None => scratch_name(),
            },
        )
    } else if ws[0] == "filename:git_rel"@ {
        literal_frag(
            match v.path {
                Some(p) => rel_to(p, workspace_of(v)),
                None => scratch_name(),
            },
        )
    } else if ws[0] == "filename:rel"@ {
        literal_frag(
            match v.path {
                Some(p) => rel_to(p, v.cwd),
                None => scratch_name(),
            },
        )
    } else if ws[0] == "dirname"@ {
        literal_frag(
            match v.path {
                Some(p) => dirname_of(p),
                None => scratch_name(),
            },
        )
    } else if ws[0] == "git_repo"@ {
        literal_frag(workspace_of(v))
    } else if ws[0] == "cwd"@ {
        literal_frag(v.cwd)
    } else if ws[0] == "linenumber"@ {
        literal_frag(dec_str(v.cursor_line + 1))
    } else if ws[0] == "lang"@ {
        literal_frag(
            match v.language {
                Some(l) => l,
                None => "text"@,
            },
        )
    } else if ws[0] == "ext"@ {
        literal_frag(
            match v.path {
                Some(p) => ext_of(p),
                None => seq![],
            },
        )
    } else if ws[0] == "selection"@ {
        literal_frag(v.selection)
    } else {
        diag_frag(candidate)
    }
}

/// Law: resolution is deterministic.  Two resolutions of the same candidate
/// against the same snapshot yield the same fragment — the `prompt` keyword
/// included, since its label depends on the candidate alone.
pub proof fn lemma_resolver_deterministic(
    v: SnapshotView,
    candidate: Seq<char>,
    f1: FragSpec,
    f2: FragSpec,
)
    requires
        f1 == resolve_spec(v, candidate),
        f2 == resolve_spec(v, candidate),
    ensures
        f1 == f2,
{
}

/// One resolved fragment.
pub struct Resolved {
    pub text: String,
    pub prompt: Option<String>,
    pub diag: Option<String>,
}

impl View for Resolved {
    type V = FragSpec;

    open spec fn view(&self) -> FragSpec {
        FragSpec {
            text: self.text@,
            prompts: match self.prompt {
                Some(p) => seq![p@],
                None => seq![],
            },
            diags: match self.diag {
                Some(d) => seq![d@],
                None => seq![],
            },
        }
    }
}

/// `s` equals the keyword `lit`.
fn eq_lit(s: &String, lit: &str) -> (r: bool)
    ensures
        r == (s@ == lit@),
{
    let other: String = lit.to_owned();
    *s == other
}

fn scratch_string() -> (r: String)
    ensures
        r@ == scratch_name(),
{
    "[scratch]".to_owned()
}

/// Final path component of `p`.
fn basename_str(p: &str) -> (r: String)
    ensures
        r@ == basename_of(p@),
{
    let n: usize = p.unicode_len();
    match rfind_char(p, '/') {
        Some(j) => {
            let r = p.substring_char(j + 1, n).to_owned();
            proof {
                assert(r@ =~= basename_of(p@));
            }
            r
        },
        None => {
            let r = p.to_owned();
            proof {
                assert(r@ =~= basename_of(p@));
            }
            r
        },
    }
}

/// Parent directory of `p`.
fn dirname_str(p: &str) -> (r: String)
    ensures
        r@ == dirname_of(p@),
{
    let n: usize = p.unicode_len();
    if n == 0 {
        return scratch_string();
    }
    if n == 1 && p.get_char(0) == '/' {
        proof {
            assert(p@ =~= seq!['/']);
        }
        return scratch_string();
    }
    proof {
        assert(p@ != seq!['/']) by {
            if p@ == seq!['/'] {
                assert(p@.len() == 1);
            }
        }
    }
    match rfind_char(p, '/') {
        Some(j) => {
            if j == 0 {
                let r = "/".to_owned();
                proof {
                    reveal_strlit("/");
                    assert(r@ =~= dirname_of(p@));
                }
                r
            } else {
                p.substring_char(0, j).to_owned()
            }
        },
        None => String::new(),
    }
}

/// Extension of `p`'s final component.
fn ext_str(p: &str) -> (r: String)
    ensures
        r@ == ext_of(p@),
{
    let b: String = basename_str(p);
    let m: usize = b.as_str().unicode_len();
    match rfind_char(b.as_str(), '.') {
        Some(j) => {
            if j == 0 {
                String::new()
            } else {
                b.as_str().substring_char(j + 1, m).to_owned()
            }
        },
        None => String::new(),
    }
}

/// `p` made relative to the directory `base`.
fn rel_str(p: &str, base: &str) -> (r: String)
    ensures
        r@ == rel_to(p@, base@),
{
    let n: usize = p.unicode_len();
    let m: usize = base.unicode_len();
    let same: bool = p.to_owned() == base.to_owned();
    if same {
        return String::new();
    }
    if m > 0 && base.get_char(m - 1) == '/' && has_prefix(p, base) {
        return p.substring_char(m, n).to_owned();
    }
    let mut pre: String = base.to_owned();
    pre.append("/");
    proof {
        reveal_strlit("/");
        assert(pre@ =~= base@ + seq!['/']);
    }
    if has_prefix(p, pre.as_str()) {
        p.substring_char(m + 1, n).to_owned()
    } else {
        p.to_owned()
    }
}

/// The workspace root, falling back to the working directory.
fn workspace_string(snap: &EditorSnapshot) -> (r: String)
    ensures
        r@ == workspace_of(snap@),
{
    match &snap.workspace_root {
        Some(w) => w.clone(),
        None => snap.cwd.clone(),
    }
}

/// The resolver table: resolve one candidate against the snapshot.
pub fn resolve_candidate(snap: &EditorSnapshot, candidate: &str) -> (r: Resolved)
    requires
        snap.wf(),
    ensures
        r@ == resolve_spec(snap@, candidate@),
{
    let words: Vec<String> = split_words(candidate);
    proof {
        assert(words.deep_view().len() == words@.len());
    }
    if words.len() == 0 {
        return Resolved { text: String::new(), prompt: None, diag: Some(candidate.to_owned()) };
    }
    proof {
        assert(words.deep_view()[0] == words@[0]@);
    }
    let first: &String = &words[0];
    if eq_lit(first, "prompt") {
        let label: String = join_from(&words, 1);
        Resolved { text: "%{prompt}".to_owned(), prompt: Some(label), diag: None }
    } else if eq_lit(first, "basename") {
        let text: String = match &snap.path {
            Some(p) => basename_str(p.as_str()),
            None => scratch_string(),
        };
        Resolved { text, prompt: None, diag: None }
    } else if eq_lit(first, "filename") {
        let text: String = match &snap.path {
            Some(p) => p.clone(),
            None => scratch_string(),
        };
        Resolved { text, prompt: None, diag: None }
    } else if eq_lit(first, "filename:git_rel") {
        let base: String = workspace_string(snap);
        let text: String = match &snap.path {
            Some(p) => rel_str(p.as_str(), base.as_str()),
            None => scratch_string(),
        };
        Resolved { text, prompt: None, diag: None }
    } else if eq_lit(first, "filename:rel") {
        let text: String = match &snap.path {
            Some(p) => rel_str(p.as_str(), snap.cwd.as_str()),
            None => scratch_string(),
        };
        Resolved { text, prompt: None, diag: None }
    } else if eq_lit(first, "dirname") {
        let text: String = match &snap.path {
            Some(p) => dirname_str(p.as_str()),
            None => scratch_string(),
        };
        Resolved { text, prompt: None, diag: None }
    } else if eq_lit(first, "git_repo") {
        Resolved { text: workspace_string(snap), prompt: None, diag: None }
    } else if eq_lit(first, "cwd") {
        Resolved { text: snap.cwd.clone(), prompt: None, diag: None }
    } else if eq_lit(first, "linenumber") {
        Resolved { text: to_decimal(snap.cursor_line + 1), prompt: None, diag: None }
    } else if eq_lit(first, "lang") {
        let text: String = match &snap.language {
            Some(l) => l.clone(),
            None => "text".to_owned(),
        };
        Resolved { text, prompt: None, diag: None }
    } else if eq_lit(first, "ext") {
        let text: String = match &snap.path {
            Some(p) => ext_str(p.as_str()),
            None => String::new(),
        };
        Resolved { text, prompt: None, diag: None }
    } else if eq_lit(first, "selection") {
        Resolved { text: snap.selection.clone(), prompt: None, diag: None }
    } else {
        Resolved { text: String::new(), prompt: None, diag: Some(candidate.to_owned()) }
    }
}

} // verus!
