//! Splitting a token candidate into words, joining words back with single
//! spaces, and the single-space argument splitter used on the final string.

use vstd::prelude::*;

verus! {

/// Whitespace that separates the words of a token candidate.
pub open spec fn is_space(c: char) -> bool {
    c == ' ' || c == '\t' || c == '\n' || c == '\r'
}

pub fn is_space_char(c: char) -> (r: bool)
    ensures
        r == is_space(c),
{
    c == ' ' || c == '\t' || c == '\n' || c == '\r'
}

/// Index of the first separator at or after `i`, or `s.len()` if none.
pub open spec fn sep_after(s: Seq<char>, i: int) -> int
    decreases s.len() - i,
    when 0 <= i <= s.len()
{
    if i >= s.len() {
        s.len() as int
    } else if is_space(s[i]) {
        i
    } else {
        sep_after(s, i + 1)
    }
}

pub proof fn lemma_sep_after(s: Seq<char>, i: int)
    requires
        0 <= i <= s.len(),
    ensures
        i <= sep_after(s, i) <= s.len(),
        sep_after(s, i) < s.len() ==> is_space(s[sep_after(s, i)]),
        forall|m: int| i <= m < sep_after(s, i) ==> !is_space(s[m]),
    decreases s.len() - i,
{
    if i < s.len() && !is_space(s[i]) {
        lemma_sep_after(s, i + 1);
    }
}

/// First separator at or after `from` (or the length when there is none).
pub fn find_sep(s: &str, from: usize) -> (r: usize)
    requires
        from <= s@.len(),
    ensures
        r == sep_after(s@, from as int),
{
    let n: usize = s.unicode_len();
    let mut j: usize = from;
    while j < n
        invariant
            from <= j <= n,
            n == s@.len(),
            forall|m: int| from <= m < j ==> !is_space(s@[m]),
        decreases n - j,
    {
        if is_space_char(s.get_char(j)) {
            proof {
                lemma_sep_after(s@, from as int);
            }
            return j;
        }
        j += 1;
    }
    proof {
        lemma_sep_after(s@, from as int);
    }
    n
}

/// The words of `s` from index `i` on: maximal runs of non-separator
/// characters, in source order.
pub open spec fn words_from(s: Seq<char>, i: int) -> Seq<Seq<char>>
    decreases s.len() - i,
    when 0 <= i <= s.len()
    via words_from_dec
{
    if i >= s.len() {
        seq![]
    } else if is_space(s[i]) {
        words_from(s, i + 1)
    } else {
        seq![s.subrange(i, sep_after(s, i))] + words_from(s, sep_after(s, i))
    }
}

#[via_fn]
proof fn words_from_dec(s: Seq<char>, i: int) {
    if 0 <= i && i < s.len() && !is_space(s[i]) {
        lemma_sep_after(s, i);
    }
}

/// The words of `s`.
pub fn split_words(s: &str) -> (r: Vec<String>)
    ensures
        r.deep_view() == words_from(s@, 0),
{
    let n: usize = s.unicode_len();
    let mut out: Vec<String> = Vec::new();
    let mut i: usize = 0;
    while i < n
        invariant
            0 <= i <= n,
            n == s@.len(),
            words_from(s@, 0) == out.deep_view() + words_from(s@, i as int),
        decreases n - i,
    {
        if is_space_char(s.get_char(i)) {
            i += 1;
        } else {
            let e: usize = find_sep(s, i);
            proof {
                lemma_sep_after(s@, i as int);
            }
            let w: String = s.substring_char(i, e).to_owned();
            let ghost prev = out.deep_view();
            out.push(w);
            proof {
                assert(out.deep_view() =~= prev.push(w@));
                assert(out.deep_view() + words_from(s@, e as int) =~= prev + words_from(
                    s@,
                    i as int,
                ));
            }
            i = e;
        }
    }
    proof {
        assert(out.deep_view() + words_from(s@, i as int) =~= out.deep_view());
    }
    out
}

/// The words `ws[i..]` joined with single spaces.
pub open spec fn join_spaces_from(ws: Seq<Seq<char>>, i: int) -> Seq<char>
    decreases ws.len() - i,
    when 0 <= i <= ws.len()
{
    if i >= ws.len() {
        seq![]
    } else if i == ws.len() - 1 {
        ws[i]
    } else {
        ws[i] + seq![' '] + join_spaces_from(ws, i + 1)
    }
}

/// The elements `ws[from..]` joined with single spaces.
pub fn join_from(ws: &Vec<String>, from: usize) -> (r: String)
    requires
        from <= ws@.len(),
    ensures
        r@ == join_spaces_from(ws.deep_view(), from as int),
{
    proof {
        reveal_strlit(" ");
    }
    let n: usize = ws.len();
    let mut out: String = String::new();
    let mut i: usize = from;
    while i < n
        invariant
            from <= i <= n,
            n == ws@.len(),
            i == from ==> out@ == Seq::<char>::empty(),
            i > from ==> join_spaces_from(ws.deep_view(), from as int) == out@ + (if i < n {
                seq![' '] + join_spaces_from(ws.deep_view(), i as int)
            } else {
                Seq::<char>::empty()
            }),
        decreases n - i,
    {
        if i > from {
            out.append(" ");
        }
        out.append(ws[i].as_str());
        proof {
            reveal_strlit(" ");
            let ghost dv = ws.deep_view();
            assert(dv.len() == n as int);
            assert(dv[i as int] == ws@[i as int]@);
            assert(join_spaces_from(dv, i as int) == if i == n - 1 {
                dv[i as int]
            } else {
                dv[i as int] + seq![' '] + join_spaces_from(dv, i + 1)
            });
            if i + 1 < n {
                assert(join_spaces_from(dv, from as int) =~= out@ + (seq![' ']
                    + join_spaces_from(dv, i + 1)));
            } else {
                assert(join_spaces_from(dv, from as int) =~= out@);
            }
        }
        i += 1;
    }
    out
}

/// Index of the first `' '` at or after `i`, or `s.len()` if none.
pub open spec fn space_after(s: Seq<char>, i: int) -> int
    decreases s.len() - i,
    when 0 <= i <= s.len()
{
    if i >= s.len() {
        s.len() as int
    } else if s[i] == ' ' {
        i
    } else {
        space_after(s, i + 1)
    }
}

pub proof fn lemma_space_after(s: Seq<char>, i: int)
    requires
        0 <= i <= s.len(),
    ensures
        i <= space_after(s, i) <= s.len(),
        space_after(s, i) < s.len() ==> s[space_after(s, i)] == ' ',
        forall|m: int| i <= m < space_after(s, i) ==> s[m] != ' ',
    decreases s.len() - i,
{
    if i < s.len() && s[i] != ' ' {
        lemma_space_after(s, i + 1);
    }
}

/// First `' '` at or after `from` (or the length when there is none).
pub fn find_space(s: &str, from: usize) -> (r: usize)
    requires
        from <= s@.len(),
    ensures
        r == space_after(s@, from as int),
{
    let n: usize = s.unicode_len();
    let mut j: usize = from;
    while j < n
        invariant
            from <= j <= n,
            n == s@.len(),
            forall|m: int| from <= m < j ==> s@[m] != ' ',
        decreases n - j,
    {
        if s.get_char(j) == ' ' {
            proof {
                lemma_space_after(s@, from as int);
            }
            return j;
        }
        j += 1;
    }
    proof {
        lemma_space_after(s@, from as int);
    }
    n
}

/// `s[i..]` split at every single `' '`, empty fields kept — the shape
/// `str::split(' ')` gives the command's arguments.
pub open spec fn split_spaces_from(s: Seq<char>, i: int) -> Seq<Seq<char>>
    decreases s.len() - i,
    when 0 <= i <= s.len()
    via split_spaces_from_dec
{
    let e = space_after(s, i);
    if e >= s.len() {
        seq![s.subrange(i, s.len() as int)]
    } else {
        seq![s.subrange(i, e)] + split_spaces_from(s, e + 1)
    }
}

#[via_fn]
proof fn split_spaces_from_dec(s: Seq<char>, i: int) {
    if 0 <= i <= s.len() {
        lemma_space_after(s, i);
    }
}

/// `s` split at every `' '`, empty fields kept.
pub fn split_spaces(s: &str) -> (r: Vec<String>)
    ensures
        r.deep_view() == split_spaces_from(s@, 0),
{
    let n: usize = s.unicode_len();
    let mut out: Vec<String> = Vec::new();
    let mut i: usize = 0;
    let mut done: bool = false;
    while !done
        invariant
            0 <= i <= n,
            n == s@.len(),
            !done ==> split_spaces_from(s@, 0) == out.deep_view() + split_spaces_from(
                s@,
                i as int,
            ),
            done ==> split_spaces_from(s@, 0) == out.deep_view(),
        decreases n - i + (if done {
            0int
        } else {
            1int
        }),
    {
        let e: usize = find_space(s, i);
        proof {
            lemma_space_after(s@, i as int);
        }
        let f: String = s.substring_char(i, e).to_owned();
        let ghost prev = out.deep_view();
        out.push(f);
        proof {
            assert(out.deep_view() =~= prev.push(f@));
        }
        if e < n {
            proof {
                assert(out.deep_view() + split_spaces_from(s@, e + 1) =~= prev + split_spaces_from(
                    s@,
                    i as int,
                ));
            }
            i = e + 1;
        } else {
            proof {
                assert(out.deep_view() =~= prev + split_spaces_from(s@, i as int));
            }
            done = true;
        }
    }
    out
}

} // verus!
