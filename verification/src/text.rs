//! Text operations on `str`, each proved against a spec function over `Seq<char>`.
use vstd::prelude::*;
use vstd::string::*;

verus! {

/// Whether `c` ends the path part of a URL: the start of a query or of a fragment.
pub open spec fn is_query_delimiter(c: char) -> bool {
    c == '?' || c == '#'
}

/// The index of the first `?` or `#` in `s`, or its length where there is none.
pub open spec fn query_index(s: Seq<char>) -> nat
    decreases s.len(),
{
    if s.len() == 0 {
        0
    } else if is_query_delimiter(s[0]) {
        0
    } else {
        1 + query_index(s.drop_first())
    }
}

/// What `str::split(&['?', '#'][..]).next()` gives: the text before the first `?` or `#`.
pub open spec fn path_part(s: Seq<char>) -> Seq<char> {
    s.take(query_index(s) as int)
}

/// What `str::replace(s, pat, "")` gives for a non-empty `pat`: every occurrence of `pat`
/// found scanning from the left, without overlaps, taken out.
pub open spec fn removed(s: Seq<char>, pat: Seq<char>) -> Seq<char>
    decreases s.len(),
{
    if pat.len() == 0 || s.len() < pat.len() {
        s
    } else if s.take(pat.len() as int) == pat {
        removed(s.skip(pat.len() as int), pat)
    } else {
        seq![s[0]] + removed(s.skip(1), pat)
    }
}

/// `s` without one trailing `/`, where it ends with one.
pub open spec fn without_trailing_slash(s: Seq<char>) -> Seq<char> {
    if s.len() > 0 && s.last() == '/' {
        s.drop_last()
    } else {
        s
    }
}

/// The first index `k` at which `s` holds a `?` or `#` is `query_index(s)`.
pub proof fn lemma_query_index(s: Seq<char>, k: int)
    requires
        0 <= k <= s.len(),
        forall|j: int| 0 <= j < k ==> !is_query_delimiter(#[trigger] s[j]),
        k == s.len() || is_query_delimiter(s[k]),
    ensures
        query_index(s) == k,
    decreases k,
{
    if k > 0 {
        let t = s.drop_first();
        assert forall|j: int| 0 <= j < k - 1 implies !is_query_delimiter(#[trigger] t[j]) by {
            assert(t[j] == s[j + 1]);
        }
        if k < s.len() {
            assert(t[k - 1] == s[k]);
        }
        lemma_query_index(t, k - 1);
    }
}

/// The length of `s` counted in chars.
pub fn char_len(s: &str) -> (n: usize)
    ensures
        n == s@.len(),
{
    s.unicode_len()
}

/// The text of `s` before its first `?` or `#`.
pub fn before_query(s: &str) -> (r: String)
    ensures
        r@ == path_part(s@),
{
    let n = s.unicode_len();
    let mut i: usize = 0;
    let mut done = false;
    while i < n && !done
        invariant
            i <= n,
            n == s@.len(),
            forall|j: int| 0 <= j < i ==> !is_query_delimiter(#[trigger] s@[j]),
            done ==> i < n && is_query_delimiter(s@[i as int]),
        decreases (n - i) as int + (if done { 0int } else { 1int }),
    {
        let c = s.get_char(i);
        if c == '?' || c == '#' {
            done = true;
        } else {
            i = i + 1;
        }
    }
    proof {
        lemma_query_index(s@, i as int);
    }
    let part = s.substring_char(0, i);
    let r = String::from_str(part);
    r
}

/// Whether `pat` occurs in `s` at char index `at`.
fn occurs_at(s: &str, at: usize, pat: &str) -> (b: bool)
    requires
        at + pat@.len() <= s@.len(),
    ensures
        b == (s@.subrange(at as int, at + pat@.len()) == pat@),
{
    let m = pat.unicode_len();
    let _n = s.unicode_len();
    let mut j: usize = 0;
    while j < m
        invariant
            j <= m,
            m == pat@.len(),
            at + m <= s@.len(),
            s@.len() <= usize::MAX,
            forall|k: int| 0 <= k < j ==> s@[at + k] == pat@[k],
        decreases m - j,
    {
        if s.get_char(at + j) != pat.get_char(j) {
            assert(s@.subrange(at as int, at + m)[j as int] != pat@[j as int]);
            return false;
        }
        j = j + 1;
    }
    assert(s@.subrange(at as int, at + m) =~= pat@);
    true
}

/// `s` with every occurrence of the non-empty `pat` taken out, as `str::replace(s, pat, "")`.
pub fn remove_all(s: &str, pat: &str) -> (r: String)
    requires
        pat@.len() > 0,
    ensures
        r@ == removed(s@, pat@),
{
    let n = s.unicode_len();
    let m = pat.unicode_len();
    let mut res = String::new();
    let mut i: usize = 0;
    proof {
        assert(s@.skip(0) =~= s@);
        assert(res@ + removed(s@, pat@) =~= removed(s@, pat@));
    }
    while i < n
        invariant
            i <= n,
            n == s@.len(),
            m == pat@.len(),
            m > 0,
            res@ + removed(s@.skip(i as int), pat@) == removed(s@, pat@),
        decreases n - i,
    {
        let rest = Ghost(s@.skip(i as int));
        if m <= n - i && occurs_at(s, i, pat) {
            proof {
                assert(rest@.take(m as int) =~= s@.subrange(i as int, i + m));
                assert(rest@.skip(m as int) =~= s@.skip(i + m));
            }
            i = i + m;
        } else {
            proof {
                if rest@.len() >= m {
                    assert(rest@.take(m as int) =~= s@.subrange(i as int, i + m));
                }
                assert(rest@.skip(1) =~= s@.skip(i + 1));
            }
            let c = s.substring_char(i, i + 1);
            let ghost before = res@;
            proof {
                assert(c@ =~= seq![rest@[0]]);
            }
            res.append(c);
            proof {
                assert(res@ + removed(s@.skip(i + 1), pat@) =~= before + (seq![rest@[0]]
                    + removed(rest@.skip(1), pat@)));
            }
            i = i + 1;
        }
    }
    proof {
        assert(s@.skip(i as int) =~= Seq::<char>::empty());
        assert(res@ + Seq::<char>::empty() =~= res@);
    }
    res
}

/// Whether `s` begins with `prefix`.
pub open spec fn has_prefix(s: Seq<char>, prefix: Seq<char>) -> bool {
    prefix.len() <= s.len() && s.take(prefix.len() as int) == prefix
}

/// Whether `s` begins with `prefix`, as `str::starts_with`.
pub fn starts_with(s: &str, prefix: &str) -> (b: bool)
    ensures
        b == has_prefix(s@, prefix@),
{
    let n = s.unicode_len();
    let m = prefix.unicode_len();
    if m > n {
        false
    } else {
        let b = occurs_at(s, 0, prefix);
        proof {
            assert(s@.subrange(0, m as int) =~= s@.take(m as int));
        }
        b
    }
}

/// Whether `piece` occurs in `t` as a contiguous part.
pub open spec fn occurs_in(piece: Seq<char>, t: Seq<char>) -> bool {
    exists|i: int| 0 <= i && i + piece.len() <= t.len() && #[trigger] t.subrange(i, i + piece.len()) == piece
}

/// A piece occurs in any text made of some text before it and some text after it.
pub proof fn lemma_occurs_between(before: Seq<char>, piece: Seq<char>, after: Seq<char>)
    ensures
        occurs_in(piece, before + piece + after),
{
    let t = before + piece + after;
    let i = before.len() as int;
    assert(t.subrange(i, i + piece.len()) =~= piece);
}

} // verus!
