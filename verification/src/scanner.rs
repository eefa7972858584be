//! The scanner/reassembler: one left-to-right pass over the input.
//!
//! A token is `%{` followed by one or more non-`}` characters and the first
//! `}` after them; tokens never nest, and `%{}` is not a token.  Text
//! between tokens is copied verbatim; each token is handed to the resolver
//! and contributes whatever it returns.  Tokens are resolved in source
//! order, each exactly once.

use vstd::prelude::*;

use crate::resolver::{resolve_spec, resolve_candidate, Resolved};
use crate::snapshot::{EditorSnapshot, SnapshotView};
use crate::text::{close_after, lemma_close_after, find_close};

verus! {

/// A `%{...}` token starts at `i`: `'%'` then `'{'`, at least one non-`'}'`
/// character, and a closing `'}'` after them.
pub open spec fn starts_span(s: Seq<char>, i: int) -> bool {
    &&& 0 <= i
    &&& i + 2 < s.len()
    &&& s[i] == '%'
    &&& s[i + 1] == '{'
    &&& s[i + 2] != '}'
    &&& close_after(s, i + 2) < s.len()
}

/// Everything one scan pass produces: the reassembled output text, the
/// prompt labels, and the diagnostics, each in source order.
pub struct ScanSpec {
    pub text: Seq<char>,
    pub prompts: Seq<Seq<char>>,
    pub diags: Seq<Seq<char>>,
}

pub open spec fn empty_scan() -> ScanSpec {
    ScanSpec { text: seq![], prompts: seq![], diags: seq![] }
}

/// The scan of `s[i..]`: the leftmost token is resolved and the scan
/// continues past it; characters outside tokens pass through verbatim.
pub open spec fn scan_from(v: SnapshotView, s: Seq<char>, i: int) -> ScanSpec
    decreases s.len() - i,
    when 0 <= i <= s.len()
    via scan_from_dec
{
    if i >= s.len() {
        empty_scan()
    } else if starts_span(s, i) {
        let e = close_after(s, i + 2);
        let f = resolve_spec(v, s.subrange(i + 2, e));
        let rest = scan_from(v, s, e + 1);
        ScanSpec {
            text: f.text + rest.text,
            prompts: f.prompts + rest.prompts,
            diags: f.diags + rest.diags,
        }
    } else {
        let rest = scan_from(v, s, i + 1);
        ScanSpec { text: seq![s[i]] + rest.text, prompts: rest.prompts, diags: rest.diags }
    }
}

#[via_fn]
proof fn scan_from_dec(v: SnapshotView, s: Seq<char>, i: int) {
    if 0 <= i && i < s.len() && starts_span(s, i) {
        lemma_close_after(s, i + 2);
    }
}

/// What one scan pass produced.
pub struct Expansion {
    pub output: String,
    pub prompts: Vec<String>,
    pub diagnostics: Vec<String>,
}

impl View for Expansion {
    type V = ScanSpec;

    open spec fn view(&self) -> ScanSpec {
        ScanSpec {
            text: self.output@,
            prompts: self.prompts.deep_view(),
            diags: self.diagnostics.deep_view(),
        }
    }
}

/// One full scan pass over `input`.
pub fn scan_expand(snap: &EditorSnapshot, input: &str) -> (r: Expansion)
    requires
        snap.wf(),
    ensures
        r@ == scan_from(snap@, input@, 0),
{
    let n: usize = input.unicode_len();
    let mut output: String = String::new();
    let mut prompts: Vec<String> = Vec::new();
    let mut diagnostics: Vec<String> = Vec::new();
    let mut i: usize = 0;
    while i < n
        invariant
            0 <= i <= n,
            n == input@.len(),
            snap.wf(),
            scan_from(snap@, input@, 0).text == output@ + scan_from(snap@, input@, i as int).text,
            scan_from(snap@, input@, 0).prompts == prompts.deep_view() + scan_from(
                snap@,
                input@,
                i as int,
            ).prompts,
            scan_from(snap@, input@, 0).diags == diagnostics.deep_view() + scan_from(
                snap@,
                input@,
                i as int,
            ).diags,
        decreases n - i,
    {
        let mut e_opt: Option<usize> = None;
        if n - i > 2 && input.get_char(i) == '%' && input.get_char(i + 1) == '{' && input.get_char(
            i + 2,
        ) != '}' {
            e_opt = find_close(input, i + 2);
        }
        match e_opt {
            Some(e) => {
                proof {
                    lemma_close_after(input@, i + 2);
                    assert(starts_span(input@, i as int));
                }
                let inner: &str = input.substring_char(i + 2, e);
                let res: Resolved = resolve_candidate(snap, inner);
                let Resolved { text, prompt, diag } = res;
                let ghost frag = resolve_spec(snap@, input@.subrange(i + 2, e as int));
                let ghost prev_prompts = prompts.deep_view();
                let ghost prev_diags = diagnostics.deep_view();
                output.append(text.as_str());
                match prompt {
                    Some(p) => {
                        prompts.push(p);
                        proof {
                            assert(prompts.deep_view() =~= prev_prompts + frag.prompts);
                        }
                    },
                    None => {
                        proof {
                            assert(prompts.deep_view() =~= prev_prompts + frag.prompts);
                        }
                    },
                }
                match diag {
                    Some(d) => {
                        diagnostics.push(d);
                        proof {
                            assert(diagnostics.deep_view() =~= prev_diags + frag.diags);
                        }
                    },
                    None => {
                        proof {
                            assert(diagnostics.deep_view() =~= prev_diags + frag.diags);
                        }
                    },
                }
                proof {
                    let ghost s = input@;
                    let ghost v = snap@;
                    let ghost rest = scan_from(v, s, e + 1);
                    assert(scan_from(v, s, i as int).text == frag.text + rest.text);
                    assert(scan_from(v, s, 0).text =~= output@ + rest.text);
                    assert(scan_from(v, s, 0).prompts =~= prompts.deep_view() + rest.prompts);
                    assert(scan_from(v, s, 0).diags =~= diagnostics.deep_view() + rest.diags);
                }
                i = e + 1;
            },
            None => {
                proof {
                    assert(!starts_span(input@, i as int));
                }
                let piece: &str = input.substring_char(i, i + 1);
                output.append(piece);
                proof {
                    let ghost s = input@;
                    let ghost v = snap@;
                    let ghost rest = scan_from(v, s, i + 1);
                    assert(piece@ =~= seq![s[i as int]]);
                    assert(scan_from(v, s, i as int).text == seq![s[i as int]] + rest.text);
                    assert(scan_from(v, s, 0).text =~= output@ + rest.text);
                }
                i += 1;
            },
        }
    }
    proof {
        assert(scan_from(snap@, input@, 0).text =~= output@);
        assert(scan_from(snap@, input@, 0).prompts =~= prompts.deep_view());
        assert(scan_from(snap@, input@, 0).diags =~= diagnostics.deep_view());
    }
    Expansion { output, prompts, diagnostics }
}

/// Scan `input` against the snapshot: the reassembled string, and the
/// prompt labels discovered, in source order.
pub fn expand_string_with_prompts(snap: &EditorSnapshot, input: &str) -> (r: (String, Vec<
    String,
>))
    requires
        snap.wf(),
    ensures
        r.0@ == scan_from(snap@, input@, 0).text,
        r.1.deep_view() == scan_from(snap@, input@, 0).prompts,
{
    let e: Expansion = scan_expand(snap, input);
    (e.output, e.prompts)
}

/// Scan `input` against the snapshot; prompt tokens leave only their
/// placeholder marker in the result.
pub fn expand_string(snap: &EditorSnapshot, input: &str) -> (r: String)
    requires
        snap.wf(),
    ensures
        r@ == scan_from(snap@, input@, 0).text,
{
    let (s, _) = expand_string_with_prompts(snap, input);
    s
}

/// Law: an input with no token passes through unchanged — no prompts, no
/// diagnostics.
pub proof fn lemma_no_spans_identity(v: SnapshotView, s: Seq<char>)
    requires
        forall|j: int| !starts_span(s, j),
    ensures
        scan_from(v, s, 0).text == s,
        scan_from(v, s, 0).prompts == Seq::<Seq<char>>::empty(),
        scan_from(v, s, 0).diags == Seq::<Seq<char>>::empty(),
{
    lemma_no_spans_identity_from(v, s, 0);
    assert(scan_from(v, s, 0).text =~= s);
}

proof fn lemma_no_spans_identity_from(v: SnapshotView, s: Seq<char>, i: int)
    requires
        0 <= i <= s.len(),
        forall|j: int| !starts_span(s, j),
    ensures
        scan_from(v, s, i).text == s.subrange(i, s.len() as int),
        scan_from(v, s, i).prompts == Seq::<Seq<char>>::empty(),
        scan_from(v, s, i).diags == Seq::<Seq<char>>::empty(),
    decreases s.len() - i,
{
    if i < s.len() {
        lemma_no_spans_identity_from(v, s, i + 1);
        assert(scan_from(v, s, i).text =~= s.subrange(i, s.len() as int));
    } else {
        assert(scan_from(v, s, i).text =~= s.subrange(i, s.len() as int));
    }
}

/// One piece of the input as the scanner sees it: a verbatim character
/// outside every token, or one whole `%{...}` token, carrying its
/// candidate text.
pub enum Piece {
    Verbatim(Seq<char>),
    Token(Seq<char>),
}

/// The decomposition of `s[i..]` into pieces, in source order.
pub open spec fn pieces_from(s: Seq<char>, i: int) -> Seq<Piece>
    decreases s.len() - i,
    when 0 <= i <= s.len()
    via pieces_from_dec
{
    if i >= s.len() {
        seq![]
    } else if starts_span(s, i) {
        let e = close_after(s, i + 2);
        seq![Piece::Token(s.subrange(i + 2, e))] + pieces_from(s, e + 1)
    } else {
        seq![Piece::Verbatim(seq![s[i]])] + pieces_from(s, i + 1)
    }
}

#[via_fn]
proof fn pieces_from_dec(s: Seq<char>, i: int) {
    if 0 <= i && i < s.len() && starts_span(s, i) {
        lemma_close_after(s, i + 2);
    }
}

/// The slice of the input a piece covers.
pub open spec fn piece_source(p: Piece) -> Seq<char> {
    match p {
        Piece::Verbatim(t) => t,
        Piece::Token(inner) => seq!['%', '{'] + inner + seq!['}'],
    }
}

/// The text a piece contributes to the output: verbatim text unchanged, a
/// token's resolved fragment.
pub open spec fn piece_output(v: SnapshotView, p: Piece) -> Seq<char> {
    match p {
        Piece::Verbatim(t) => t,
        Piece::Token(inner) => resolve_spec(v, inner).text,
    }
}

pub open spec fn concat_sources(ps: Seq<Piece>) -> Seq<char>
    decreases ps.len(),
{
    if ps.len() == 0 {
        seq![]
    } else {
        piece_source(ps[0]) + concat_sources(ps.skip(1))
    }
}

pub open spec fn concat_outputs(v: SnapshotView, ps: Seq<Piece>) -> Seq<char>
    decreases ps.len(),
{
    if ps.len() == 0 {
        seq![]
    } else {
        piece_output(v, ps[0]) + concat_outputs(v, ps.skip(1))
    }
}

/// Law: reassembly is faithful.  The pieces tile the input exactly, and the
/// output is the in-order concatenation of what each piece contributes,
/// with every verbatim piece carried unchanged — so the verbatim text
/// copied to the output is exactly the verbatim text of the input: none of
/// it lost, duplicated, or reordered, and its total length is the sum of
/// the gap lengths in the input.
pub proof fn lemma_reassembly(v: SnapshotView, s: Seq<char>)
    ensures
        concat_sources(pieces_from(s, 0)) == s,
        concat_outputs(v, pieces_from(s, 0)) == scan_from(v, s, 0).text,
        forall|k: int|
            0 <= k < pieces_from(s, 0).len() && #[trigger] pieces_from(s, 0)[k] is Verbatim
                ==> piece_output(v, pieces_from(s, 0)[k]) == piece_source(pieces_from(s, 0)[k]),
{
    lemma_reassembly_from(v, s, 0);
    assert(concat_sources(pieces_from(s, 0)) =~= s);
}

proof fn lemma_reassembly_from(v: SnapshotView, s: Seq<char>, i: int)
    requires
        0 <= i <= s.len(),
    ensures
        concat_sources(pieces_from(s, i)) == s.subrange(i, s.len() as int),
        concat_outputs(v, pieces_from(s, i)) == scan_from(v, s, i).text,
    decreases s.len() - i,
{
    if i >= s.len() {
        assert(concat_sources(pieces_from(s, i)) =~= s.subrange(i, s.len() as int));
    } else if starts_span(s, i) {
        let e = close_after(s, i + 2);
        lemma_close_after(s, i + 2);
        lemma_reassembly_from(v, s, e + 1);
        let ps = pieces_from(s, i);
        let head = Piece::Token(s.subrange(i + 2, e));
        assert(ps[0] == head);
        assert(ps.skip(1) =~= pieces_from(s, e + 1));
        assert(piece_source(head) =~= s.subrange(i, e + 1));
        assert(concat_sources(ps) =~= s.subrange(i, s.len() as int));
        assert(concat_outputs(v, ps) =~= scan_from(v, s, i).text);
    } else {
        lemma_reassembly_from(v, s, i + 1);
        let ps = pieces_from(s, i);
        assert(ps.skip(1) =~= pieces_from(s, i + 1));
        assert(concat_sources(ps) =~= s.subrange(i, s.len() as int));
        assert(concat_outputs(v, ps) =~= scan_from(v, s, i).text);
    }
}

} // verus!
