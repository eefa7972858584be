use expansion::resolver::{resolve_candidate, Resolved};
use expansion::scanner::{expand_string, expand_string_with_prompts, scan_expand, Expansion};
use expansion::snapshot::EditorSnapshot;

fn snap() -> EditorSnapshot {
    EditorSnapshot {
        path: Some(String::from("/a/b/c.rs")),
        cwd: String::from("/a"),
        workspace_root: Some(String::from("/a/b")),
        selection: String::from("sel text"),
        cursor_line: 0,
        language: Some(String::from("rust")),
    }
}

fn pathless() -> EditorSnapshot {
    EditorSnapshot {
        path: None,
        cwd: String::from("/work"),
        workspace_root: None,
        selection: String::new(),
        cursor_line: 0,
        language: None,
    }
}

#[test]
fn identity_without_tokens() {
    let s = snap();
    let input = "plain text, no tokens at all";
    assert_eq!(expand_string(&s, input), input);
    let e: Expansion = scan_expand(&s, input);
    assert_eq!(e.output, input);
    assert!(e.prompts.is_empty());
    assert!(e.diagnostics.is_empty());
}

#[test]
fn identity_empty_input() {
    assert_eq!(expand_string(&snap(), ""), "");
}

#[test]
fn basename_token() {
    assert_eq!(expand_string(&snap(), "%{basename}"), "c.rs");
}

#[test]
fn filename_token() {
    assert_eq!(expand_string(&snap(), "%{filename}"), "/a/b/c.rs");
}

#[test]
fn filename_rel_token() {
    assert_eq!(expand_string(&snap(), "%{filename:rel}"), "b/c.rs");
}

#[test]
fn filename_rel_outside_cwd_stays_absolute() {
    let mut s = snap();
    s.cwd = String::from("/elsewhere");
    assert_eq!(expand_string(&s, "%{filename:rel}"), "/a/b/c.rs");
}

#[test]
fn filename_git_rel_token() {
    assert_eq!(expand_string(&snap(), "%{filename:git_rel}"), "c.rs");
}

#[test]
fn filename_git_rel_falls_back_to_cwd() {
    let mut s = snap();
    s.workspace_root = None;
    assert_eq!(expand_string(&s, "%{filename:git_rel}"), "b/c.rs");
}

#[test]
fn dirname_token() {
    assert_eq!(expand_string(&snap(), "%{dirname}"), "/a/b");
}

#[test]
fn dirname_of_root_file() {
    let mut s = snap();
    s.path = Some(String::from("/c.rs"));
    assert_eq!(expand_string(&s, "%{dirname}"), "/");
}

#[test]
fn git_repo_token() {
    assert_eq!(expand_string(&snap(), "%{git_repo}"), "/a/b");
    assert_eq!(expand_string(&pathless(), "%{git_repo}"), "/work");
}

#[test]
fn cwd_token() {
    assert_eq!(expand_string(&snap(), "%{cwd}"), "/a");
}

#[test]
fn linenumber_first_line() {
    assert_eq!(expand_string(&snap(), "%{linenumber}"), "1");
}

#[test]
fn linenumber_is_one_based_decimal() {
    let mut s = snap();
    s.cursor_line = 41;
    assert_eq!(expand_string(&s, "%{linenumber}"), "42");
    s.cursor_line = 99;
    assert_eq!(expand_string(&s, "%{linenumber}"), "100");
}

#[test]
fn lang_token() {
    assert_eq!(expand_string(&snap(), "%{lang}"), "rust");
    assert_eq!(expand_string(&pathless(), "%{lang}"), "text");
}

#[test]
fn ext_token() {
    assert_eq!(expand_string(&snap(), "%{ext}"), "rs");
}

#[test]
fn ext_of_dotfile_is_empty() {
    let mut s = snap();
    s.path = Some(String::from("/a/.gitignore"));
    assert_eq!(expand_string(&s, "%{ext}"), "");
}

#[test]
fn ext_takes_last_dot() {
    let mut s = snap();
    s.path = Some(String::from("/a/archive.tar.gz"));
    assert_eq!(expand_string(&s, "%{ext}"), "gz");
}

#[test]
fn ext_without_dot_is_empty() {
    let mut s = snap();
    s.path = Some(String::from("/a/Makefile"));
    assert_eq!(expand_string(&s, "%{ext}"), "");
}

#[test]
fn selection_token() {
    assert_eq!(expand_string(&snap(), "%{selection}"), "sel text");
}

#[test]
fn pathless_document_uses_scratch_label() {
    let s = pathless();
    assert_eq!(expand_string(&s, "%{basename}"), "[scratch]");
    assert_eq!(expand_string(&s, "%{filename}"), "[scratch]");
    assert_eq!(expand_string(&s, "%{dirname}"), "[scratch]");
    assert_eq!(expand_string(&s, "%{ext}"), "");
}

#[test]
fn unknown_keyword_resolves_empty_and_logs() {
    let e = scan_expand(&snap(), "%{unknownkw}");
    assert_eq!(e.output, "");
    assert_eq!(e.diagnostics.len(), 1);
    assert_eq!(e.diagnostics[0], "unknownkw");
    assert!(e.prompts.is_empty());
}

#[test]
fn whitespace_candidate_resolves_empty_and_logs() {
    let e = scan_expand(&snap(), "%{   }");
    assert_eq!(e.output, "");
    assert_eq!(e.diagnostics.len(), 1);
}

#[test]
fn empty_braces_are_not_a_token() {
    assert_eq!(expand_string(&snap(), "a %{} b"), "a %{} b");
}

#[test]
fn unclosed_token_is_verbatim() {
    assert_eq!(expand_string(&snap(), "a %{basename"), "a %{basename");
}

#[test]
fn verbatim_gaps_are_kept_around_tokens() {
    assert_eq!(expand_string(&snap(), "x %{cwd} y %{lang} z"), "x /a y rust z");
}

#[test]
fn token_at_start_and_end() {
    assert_eq!(expand_string(&snap(), "%{cwd}:%{basename}"), "/a:c.rs");
}

#[test]
fn close_brace_ends_span_even_when_inner_is_odd() {
    // the inner text "a%{b" is one (unknown) candidate; the first '}' closes it
    let e = scan_expand(&snap(), "%{a%{b}");
    assert_eq!(e.output, "");
    assert_eq!(e.diagnostics.len(), 1);
    assert_eq!(e.diagnostics[0], "a%{b");
}

#[test]
fn prompt_token_leaves_marker_and_label() {
    let (out, prompts) = expand_string_with_prompts(&snap(), "%{prompt enter name}");
    assert_eq!(out, "%{prompt}");
    assert_eq!(prompts, vec![String::from("enter name")]);
}

#[test]
fn prompt_labels_collect_in_source_order() {
    let (out, prompts) = expand_string_with_prompts(
        &snap(),
        "%{prompt enter name} - %{prompt enter age}",
    );
    assert_eq!(out, "%{prompt} - %{prompt}");
    assert_eq!(
        prompts,
        vec![String::from("enter name"), String::from("enter age")]
    );
}

#[test]
fn resolving_twice_gives_the_same_fragment() {
    let s = snap();
    let a: Resolved = resolve_candidate(&s, "basename");
    let b: Resolved = resolve_candidate(&s, "basename");
    assert_eq!(a.text, b.text);
    assert_eq!(a.prompt, b.prompt);
    assert_eq!(a.diag, b.diag);
    let c = resolve_candidate(&s, "prompt what now");
    let d = resolve_candidate(&s, "prompt what now");
    assert_eq!(c.text, d.text);
    assert_eq!(c.prompt, d.prompt);
    assert_eq!(c.diag, d.diag);
}

#[test]
fn resolver_ignores_trailing_words_of_plain_keywords() {
    assert_eq!(expand_string(&snap(), "%{basename extra words}"), "c.rs");
}
