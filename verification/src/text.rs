//! Character-level string helpers used by the event parser: equality,
//! prefix tests, trimming, and splitting at the first comma, each with an
//! exact specification over the string's character sequence.

use vstd::prelude::*;
use vstd::string::*;

verus! {

/// The whitespace characters that trimming removes: the ASCII blanks an
/// event line can carry around its payload.
pub open spec fn is_space(c: char) -> bool {
    c == ' ' || c == '\n' || c == '\r' || c == '\t'
}

fn is_space_char(c: char) -> (r: bool)
    ensures
        r == is_space(c),
{
    c == ' ' || c == '\n' || c == '\r' || c == '\t'
}

/// `s` with its leading whitespace removed.
pub open spec fn trim_start_spec(s: Seq<char>) -> Seq<char>
    decreases s.len(),
{
    if s.len() > 0 && is_space(s[0]) {
        trim_start_spec(s.drop_first())
    } else {
        s
    }
}

/// `s` with its trailing whitespace removed.
pub open spec fn trim_end_spec(s: Seq<char>) -> Seq<char>
    decreases s.len(),
{
    if s.len() > 0 && is_space(s.last()) {
        trim_end_spec(s.drop_last())
    } else {
        s
    }
}

/// `s` with whitespace removed at both ends.
pub open spec fn trim_spec(s: Seq<char>) -> Seq<char> {
    trim_end_spec(trim_start_spec(s))
}

/// `p` is an initial segment of `s`.
pub open spec fn is_prefix_of(p: Seq<char>, s: Seq<char>) -> bool {
    p.len() <= s.len() && s.subrange(0, p.len() as int) == p
}

/// Everything after the first comma of `s`, or nothing when `s` has no
/// comma.
pub open spec fn after_first_comma(s: Seq<char>) -> Option<Seq<char>>
    decreases s.len(),
{
    if s.len() == 0 {
        None
    } else if s[0] == ',' {
        Some(s.drop_first())
    } else {
        after_first_comma(s.drop_first())
    }
}

proof fn lemma_trim_start_subrange(s: Seq<char>, i: int)
    requires
        0 <= i <= s.len(),
        forall|k: int| 0 <= k < i ==> is_space(s[k]),
        i < s.len() ==> !is_space(s[i]),
    ensures
        trim_start_spec(s) == s.subrange(i, s.len() as int),
    decreases i,
{
    if i == 0 {
        assert(s.subrange(0, s.len() as int) =~= s);
    } else {
        assert(is_space(s[0]));
        lemma_trim_start_subrange(s.drop_first(), i - 1);
        assert(s.drop_first().subrange(i - 1, s.drop_first().len() as int) =~= s.subrange(
            i,
            s.len() as int,
        ));
    }
}

proof fn lemma_trim_end_subrange(s: Seq<char>, j: int)
    requires
        0 <= j <= s.len(),
        forall|k: int| j <= k < s.len() ==> is_space(s[k]),
        j > 0 ==> !is_space(s[j - 1]),
    ensures
        trim_end_spec(s) == s.subrange(0, j),
    decreases s.len() - j,
{
    if j == s.len() {
        assert(s.subrange(0, j) =~= s);
    } else {
        assert(is_space(s.last()));
        lemma_trim_end_subrange(s.drop_last(), j);
        assert(s.drop_last().subrange(0, j) =~= s.subrange(0, j));
    }
}

proof fn lemma_after_first_comma_found(s: Seq<char>, i: int)
    requires
        0 <= i < s.len(),
        s[i] == ',',
        forall|k: int| 0 <= k < i ==> s[k] != ',',
    ensures
        after_first_comma(s) == Some(s.subrange(i + 1, s.len() as int)),
    decreases i,
{
    if i == 0 {
        assert(s.drop_first() =~= s.subrange(1, s.len() as int));
    } else {
        lemma_after_first_comma_found(s.drop_first(), i - 1);
        assert(s.drop_first().subrange(i, s.drop_first().len() as int) =~= s.subrange(
            i + 1,
            s.len() as int,
        ));
    }
}

proof fn lemma_after_first_comma_none(s: Seq<char>)
    requires
        forall|k: int| 0 <= k < s.len() ==> s[k] != ',',
    ensures
        after_first_comma(s) is None,
    decreases s.len(),
{
    if s.len() > 0 {
        lemma_after_first_comma_none(s.drop_first());
    }
}

/// Character-by-character string equality.
pub fn str_eq(a: &str, b: &str) -> (r: bool)
    ensures
        r == (a@ == b@),
{
    let n: usize = a.unicode_len();
    if n != b.unicode_len() {
        return false;
    }
    let mut i: usize = 0;
    while i < n
        invariant
            i <= n,
            n == a@.len(),
            n == b@.len(),
            forall|k: int| 0 <= k < i ==> a@[k] == b@[k],
        ensures
            i <= n,
            forall|k: int| 0 <= k < i ==> a@[k] == b@[k],
            i < n ==> a@[i as int] != b@[i as int],
        decreases n - i,
    {
        if a.get_char(i) != b.get_char(i) {
            break ;
        }
        i = i + 1;
    }
    if i == n {
        proof {
            assert(a@ =~= b@);
        }
        true
    } else {
        false
    }
}

/// Whether `p` is a literal prefix of `s`.
pub fn str_has_prefix(s: &str, p: &str) -> (r: bool)
    ensures
        r == is_prefix_of(p@, s@),
{
    let pn: usize = p.unicode_len();
    let sn: usize = s.unicode_len();
    if pn > sn {
        return false;
    }
    let mut i: usize = 0;
    while i < pn
        invariant
            i <= pn,
            pn == p@.len(),
            sn == s@.len(),
            pn <= sn,
            forall|k: int| 0 <= k < i ==> s@[k] == p@[k],
        ensures
            i <= pn,
            forall|k: int| 0 <= k < i ==> s@[k] == p@[k],
            i < pn ==> s@[i as int] != p@[i as int],
        decreases pn - i,
    {
        if s.get_char(i) != p.get_char(i) {
            break ;
        }
        i = i + 1;
    }
    if i == pn {
        proof {
            assert(s@.subrange(0, pn as int) =~= p@);
        }
        true
    } else {
        proof {
            assert(s@.subrange(0, pn as int)[i as int] != p@[i as int]);
        }
        false
    }
}

/// A copy of `s` with whitespace removed at both ends.
pub fn trim_str(s: &str) -> (r: String)
    ensures
        r@ == trim_spec(s@),
{
    let n: usize = s.unicode_len();
    let mut start: usize = 0;
    while start < n
        invariant
            start <= n,
            n == s@.len(),
            forall|k: int| 0 <= k < start ==> is_space(s@[k]),
        ensures
            start <= n,
            n == s@.len(),
            forall|k: int| 0 <= k < start ==> is_space(s@[k]),
            start < n ==> !is_space(s@[start as int]),
        decreases n - start,
    {
        if !is_space_char(s.get_char(start)) {
            break ;
        }
        start = start + 1;
    }
    let mut end: usize = n;
    while end > start
        invariant
            start <= end <= n,
            n == s@.len(),
            forall|k: int| end <= k < n ==> is_space(s@[k]),
        ensures
            start <= end <= n,
            n == s@.len(),
            forall|k: int| end <= k < n ==> is_space(s@[k]),
            end > start ==> !is_space(s@[end - 1]),
        decreases end,
    {
        if !is_space_char(s.get_char(end - 1)) {
            break ;
        }
        end = end - 1;
    }
    proof {
        lemma_trim_start_subrange(s@, start as int);
        lemma_trim_end_subrange(s@.subrange(start as int, n as int), end - start);
        assert(s@.subrange(start as int, n as int).subrange(0, end - start) =~= s@.subrange(
            start as int,
            end as int,
        ));
    }
    String::from_str(s.substring_char(start, end))
}

/// A copy of everything after the first comma of `s`, or nothing when `s`
/// has no comma.
pub fn split_after_comma(s: &str) -> (r: Option<String>)
    ensures
        r.deep_view() == after_first_comma(s@),
{
    let n: usize = s.unicode_len();
    let mut i: usize = 0;
    while i < n
        invariant
            i <= n,
            n == s@.len(),
            forall|k: int| 0 <= k < i ==> s@[k] != ',',
        ensures
            i <= n,
            n == s@.len(),
            forall|k: int| 0 <= k < i ==> s@[k] != ',',
            i < n ==> s@[i as int] == ',',
        decreases n - i,
    {
        if s.get_char(i) == ',' {
            break ;
        }
        i = i + 1;
    }
    if i < n {
        proof {
            lemma_after_first_comma_found(s@, i as int);
        }
        Some(String::from_str(s.substring_char(i + 1, n)))
    } else {
        proof {
            lemma_after_first_comma_none(s@);
        }
        None
    }
}

} // verus!
