//! Low-level text searching: first/last occurrences of a character, prefix
//! tests, substring search and first-occurrence replacement, and decimal
//! rendering of line numbers.

use vstd::prelude::*;

verus! {

/// Index of the first `'}'` at or after `i`, or `s.len()` if there is none.
pub open spec fn close_after(s: Seq<char>, i: int) -> int
    decreases s.len() - i,
    when 0 <= i <= s.len()
{
    if i >= s.len() {
        s.len() as int
    } else if s[i] == '}' {
        i
    } else {
        close_after(s, i + 1)
    }
}

pub proof fn lemma_close_after(s: Seq<char>, i: int)
    requires
        0 <= i <= s.len(),
    ensures
        i <= close_after(s, i) <= s.len(),
        close_after(s, i) < s.len() ==> s[close_after(s, i)] == '}',
        forall|m: int| i <= m < close_after(s, i) ==> s[m] != '}',
    decreases s.len() - i,
{
    if i < s.len() && s[i] != '}' {
        lemma_close_after(s, i + 1);
    }
}

/// First index at or after `from` that holds `'}'`.
pub fn find_close(s: &str, from: usize) -> (r: Option<usize>)
    requires
        from <= s@.len(),
    ensures
        match r {
            Some(j) => j == close_after(s@, from as int) && j < s@.len(),
            None => close_after(s@, from as int) == s@.len(),
        },
{
    let n: usize = s.unicode_len();
    let mut j: usize = from;
    while j < n
        invariant
            from <= j <= n,
            n == s@.len(),
            forall|m: int| from <= m < j ==> s@[m] != '}',
        decreases n - j,
    {
        if s.get_char(j) == '}' {
            proof {
                lemma_close_after(s@, from as int);
            }
            return Some(j);
        }
        j += 1;
    }
    proof {
        lemma_close_after(s@, from as int);
    }
    None
}

/// Index of the last occurrence of `c` in `s`, or `-1` if there is none.
pub open spec fn last_pos(s: Seq<char>, c: char) -> int
    decreases s.len(),
{
    if s.len() == 0 {
        -1
    } else if s[s.len() - 1] == c {
        s.len() - 1
    } else {
        last_pos(s.take(s.len() - 1), c)
    }
}

pub proof fn lemma_last_pos(s: Seq<char>, c: char)
    ensures
        -1 <= last_pos(s, c) < s.len(),
        last_pos(s, c) >= 0 ==> s[last_pos(s, c)] == c,
        forall|m: int| last_pos(s, c) < m < s.len() ==> s[m] != c,
    decreases s.len(),
{
    if s.len() > 0 && s[s.len() - 1] != c {
        lemma_last_pos(s.take(s.len() - 1), c);
        assert(forall|m: int| 0 <= m < s.len() - 1 ==> s.take(s.len() - 1)[m] == s[m]);
    }
}

/// Index of the last occurrence of `c` in `s`, if any.
pub fn rfind_char(s: &str, c: char) -> (r: Option<usize>)
    ensures
        match r {
            Some(j) => j == last_pos(s@, c) && j < s@.len(),
            None => last_pos(s@, c) == -1,
        },
{
    let n: usize = s.unicode_len();
    let mut j: usize = n;
    while j > 0
        invariant
            0 <= j <= n,
            n == s@.len(),
            forall|m: int| j <= m < n ==> s@[m] != c,
        decreases j,
    {
        j -= 1;
        if s.get_char(j) == c {
            proof {
                lemma_last_pos(s@, c);
            }
            return Some(j);
        }
    }
    proof {
        lemma_last_pos(s@, c);
    }
    None
}

/// `pre` is a prefix of `s`.
pub open spec fn starts_with(s: Seq<char>, pre: Seq<char>) -> bool {
    pre.len() <= s.len() && s.subrange(0, pre.len() as int) == pre
}

pub fn has_prefix(s: &str, pre: &str) -> (r: bool)
    ensures
        r == starts_with(s@, pre@),
{
    let n: usize = s.unicode_len();
    let m: usize = pre.unicode_len();
    if m > n {
        return false;
    }
    let mut i: usize = 0;
    while i < m
        invariant
            0 <= i <= m <= n,
            n == s@.len(),
            m == pre@.len(),
            forall|k: int| 0 <= k < i ==> s@[k] == pre@[k],
        decreases m - i,
    {
        if s.get_char(i) != pre.get_char(i) {
            proof {
                assert(s@.subrange(0, m as int) != pre@) by {
                    assert(s@.subrange(0, m as int)[i as int] == s@[i as int]);
                }
            }
            return false;
        }
        i += 1;
    }
    proof {
        assert(s@.subrange(0, m as int) =~= pre@);
    }
    true
}

/// The pattern `pat` occurs in `s` starting at index `k`.
pub open spec fn match_at(s: Seq<char>, pat: Seq<char>, k: int) -> bool {
    &&& 0 <= k
    &&& k + pat.len() <= s.len()
    &&& s.subrange(k, k + pat.len()) == pat
}

/// Index of the first occurrence of `pat` at or after `i`, or `-1` if none.
pub open spec fn find_pat(s: Seq<char>, pat: Seq<char>, i: int) -> int
    decreases s.len() - i,
    when 0 <= i && 1 <= pat.len()
{
    if i + pat.len() > s.len() {
        -1
    } else if match_at(s, pat, i) {
        i
    } else {
        find_pat(s, pat, i + 1)
    }
}

pub proof fn lemma_find_pat(s: Seq<char>, pat: Seq<char>, i: int)
    requires
        0 <= i,
        1 <= pat.len(),
    ensures
        find_pat(s, pat, i) == -1 ==> forall|k: int| i <= k ==> !match_at(s, pat, k),
        find_pat(s, pat, i) != -1 ==> {
            let r = find_pat(s, pat, i);
            &&& i <= r
            &&& match_at(s, pat, r)
            &&& forall|k: int| i <= k < r ==> !match_at(s, pat, k)
        },
    decreases s.len() - i,
{
    if i + pat.len() > s.len() {
        assert(forall|k: int| i <= k ==> !match_at(s, pat, k));
    } else if !match_at(s, pat, i) {
        lemma_find_pat(s, pat, i + 1);
    }
}

/// `s` with the first occurrence of `pat` (if any) replaced by `rep`.
pub open spec fn replace_first(s: Seq<char>, pat: Seq<char>, rep: Seq<char>) -> Seq<char>
    recommends
        1 <= pat.len(),
{
    let k = find_pat(s, pat, 0);
    if k < 0 {
        s
    } else {
        s.subrange(0, k) + rep + s.subrange(k + pat.len(), s.len() as int)
    }
}

/// `pat` occurs in `s` at index `k`.
fn matches_at(s: &str, pat: &str, k: usize) -> (r: bool)
    requires
        k + pat@.len() <= s@.len(),
        s@.len() <= usize::MAX,
    ensures
        r == match_at(s@, pat@, k as int),
{
    let m: usize = pat.unicode_len();
    let mut j: usize = 0;
    while j < m
        invariant
            0 <= j <= m,
            k + m <= s@.len(),
            s@.len() <= usize::MAX,
            m == pat@.len(),
            forall|q: int| 0 <= q < j ==> s@[k + q] == pat@[q],
        decreases m - j,
    {
        if s.get_char(k + j) != pat.get_char(j) {
            proof {
                assert(s@.subrange(k as int, k + m) != pat@) by {
                    assert(s@.subrange(k as int, k + m)[j as int] == s@[k + j]);
                }
            }
            return false;
        }
        j += 1;
    }
    proof {
        assert(s@.subrange(k as int, k + m) =~= pat@);
    }
    true
}

/// Index of the first occurrence of `pat` in `s`, if any.
pub fn find_pat_first(s: &str, pat: &str) -> (r: Option<usize>)
    requires
        pat@.len() >= 1,
    ensures
        match r {
            Some(k) => k == find_pat(s@, pat@, 0),
            None => find_pat(s@, pat@, 0) == -1,
        },
{
    let n: usize = s.unicode_len();
    let m: usize = pat.unicode_len();
    if m > n {
        return None;
    }
    let mut k: usize = 0;
    while k <= n - m
        invariant
            0 <= k <= n - m + 1,
            1 <= m <= n,
            n == s@.len(),
            m == pat@.len(),
            forall|q: int| 0 <= q < k ==> !match_at(s@, pat@, q),
        decreases n - m - k + 1,
    {
        if matches_at(s, pat, k) {
            proof {
                lemma_find_pat(s@, pat@, 0);
                let r = find_pat(s@, pat@, 0);
                if r == -1 {
                    assert(!match_at(s@, pat@, k as int));
                } else {
                    if r < k {
                        assert(!match_at(s@, pat@, r));
                    }
                    if r > k {
                        assert(!match_at(s@, pat@, k as int));
                    }
                }
            }
            return Some(k);
        }
        k += 1;
    }
    proof {
        lemma_find_pat(s@, pat@, 0);
        let r = find_pat(s@, pat@, 0);
        if r != -1 {
            assert(match_at(s@, pat@, r));
        }
    }
    None
}

/// `s` with the first occurrence of `pat` replaced by `rep`; `s` unchanged
/// when `pat` does not occur.
pub fn replace_first_in(s: &str, pat: &str, rep: &str) -> (r: String)
    requires
        pat@.len() >= 1,
    ensures
        r@ == replace_first(s@, pat@, rep@),
{
    match find_pat_first(s, pat) {
        None => s.to_owned(),
        Some(k) => {
            let m: usize = pat.unicode_len();
            let n: usize = s.unicode_len();
            proof {
                lemma_find_pat(s@, pat@, 0);
            }
            let mut out: String = s.substring_char(0, k).to_owned();
            out.append(rep);
            out.append(s.substring_char(k + m, n));
            proof {
                assert(out@ =~= replace_first(s@, pat@, rep@));
            }
            out
        },
    }
}

/// The character for one decimal digit.
pub open spec fn digit_char(d: int) -> char {
    if d == 0 {
        '0'
    } else if d == 1 {
        '1'
    } else if d == 2 {
        '2'
    } else if d == 3 {
        '3'
    } else if d == 4 {
        '4'
    } else if d == 5 {
        '5'
    } else if d == 6 {
        '6'
    } else if d == 7 {
        '7'
    } else if d == 8 {
        '8'
    } else {
        '9'
    }
}

/// Base-10 rendering of `n`, most significant digit first, no padding.
pub open spec fn dec_str(n: int) -> Seq<char>
    decreases n,
    when n >= 0
{
    if n < 10 {
        seq![digit_char(n)]
    } else {
        dec_str(n / 10).push(digit_char(n % 10))
    }
}

fn digit_literal(d: usize) -> (r: &'static str)
    requires
        d < 10,
    ensures
        r@ == seq![digit_char(d as int)],
{
    proof {
        reveal_strlit("0");
        reveal_strlit("1");
        reveal_strlit("2");
        reveal_strlit("3");
        reveal_strlit("4");
        reveal_strlit("5");
        reveal_strlit("6");
        reveal_strlit("7");
        reveal_strlit("8");
        reveal_strlit("9");
    }
    let r: &'static str = if d == 0 {
        "0"
    } else if d == 1 {
        "1"
    } else if d == 2 {
        "2"
    } else if d == 3 {
        "3"
    } else if d == 4 {
        "4"
    } else if d == 5 {
        "5"
    } else if d == 6 {
        "6"
    } else if d == 7 {
        "7"
    } else if d == 8 {
        "8"
    } else {
        "9"
    };
    proof {
        assert(r@ =~= seq![digit_char(d as int)]);
    }
    r
}

/// Base-10 rendering of `n`.
pub fn to_decimal(n: usize) -> (r: String)
    ensures
        r@ == dec_str(n as int),
    decreases n,
{
    if n < 10 {
        digit_literal(n).to_owned()
    } else {
        let mut s: String = to_decimal(n / 10);
        s.append(digit_literal(n % 10));
        proof {
            assert(s@ =~= dec_str(n as int));
        }
        s
    }
}

} // verus!
