//! Character-level helpers on `&str` with exact contracts.
use vstd::prelude::*;
use vstd::string::*;

verus! {

/// The text of an optional string.
pub open spec fn opt_text(o: Option<String>) -> Option<Seq<char>> {
    match o {
        Some(t) => Some(t@),
        None => None,
    }
}

/// Whether the text of `s` is exactly the text of `lit`.
pub fn text_is(s: &str, lit: &str) -> (r: bool)
    ensures
        r == (s@ == lit@),
{
    let n = s.unicode_len();
    let m = lit.unicode_len();
    if n != m {
        return false;
    }
    let mut i: usize = 0;
    while i < n
        invariant
            n == s@.len(),
            m == lit@.len(),
            n == m,
            i <= n,
            forall|j: int| 0 <= j < i ==> s@[j] == lit@[j],
        decreases n - i,
    {
        if s.get_char(i) != lit.get_char(i) {
            return false;
        }
        i = i + 1;
    }
    assert(s@ =~= lit@);
    true
}

/// Whether the text of `s` is the text of `a` followed by the text of `b`.
pub fn text_is_concat(s: &str, a: &str, b: &str) -> (r: bool)
    ensures
        r == (s@ == a@ + b@),
{
    let n = s.unicode_len();
    let la = a.unicode_len();
    let lb = b.unicode_len();
    if la > n || n - la != lb {
        return false;
    }
    let mut i: usize = 0;
    while i < n
        invariant
            n == s@.len(),
            la == a@.len(),
            lb == b@.len(),
            n == la + lb,
            i <= n,
            forall|j: int| 0 <= j < i ==> s@[j] == (a@ + b@)[j],
        decreases n - i,
    {
        let c = if i < la { a.get_char(i) } else { b.get_char(i - la) };
        if s.get_char(i) != c {
            return false;
        }
        i = i + 1;
    }
    assert(s@ =~= a@ + b@);
    true
}

} // verus!
