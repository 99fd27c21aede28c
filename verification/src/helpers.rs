//! Small shared routines: error-chain formatting and character search.

use vstd::prelude::*;

verus! {

use vstd::string::StrSliceExecFns;
use vstd::string::StringExecFns;

/// The views of a list of strings.
pub open spec fn views_of(ss: Seq<String>) -> Seq<Seq<char>> {
    ss.map_values(|s: String| s@)
}

/// One "Caused by" line of an error chain.
pub open spec fn caused_by_block(cause: Seq<char>) -> Seq<char> {
    "Caused by:\n\t"@ + cause + "\n"@
}

/// The rendering of an error and its chain of causes: the error on its own
/// line, a blank line, then one "Caused by" block per cause, outermost first.
pub open spec fn chain_fmt(error: Seq<char>, causes: Seq<Seq<char>>) -> Seq<char>
    decreases causes.len(),
{
    if causes.len() == 0 {
        error + "\n\n"@
    } else {
        chain_fmt(error, causes.drop_last()) + caused_by_block(causes.last())
    }
}

/// Render an error and its chain of causes for a diagnostic report.
pub fn chain_error_fmt(error: &String, causes: &Vec<String>) -> (r: String)
    ensures
        r@ == chain_fmt(error@, views_of(causes@)),
{
    let ghost cs = views_of(causes@);
    let mut r = error.clone();
    r.append("\n\n");
    assert(r@ =~= chain_fmt(error@, cs.take(0)));
    let mut i: usize = 0;
    while i < causes.len()
        invariant
            0 <= i <= causes.len(),
            cs == views_of(causes@),
            cs.len() == causes.len(),
            r@ == chain_fmt(error@, cs.take(i as int)),
        decreases causes.len() - i,
    {
        r.append("Caused by:\n\t");
        r.append(causes[i].as_str());
        r.append("\n");
        proof {
            assert(cs.take(i + 1).drop_last() =~= cs.take(i as int));
            assert(cs.take(i + 1).last() == causes@[i as int]@);
            assert(r@ =~= chain_fmt(error@, cs.take(i + 1)));
        }
        i += 1;
    }
    proof {
        assert(cs.take(causes@.len() as int) =~= cs);
    }
    r
}

/// Character-for-character string equality.
pub fn str_eq(a: &str, b: &str) -> (r: bool)
    ensures
        r == (a@ == b@),
{
    let na = a.unicode_len();
    let nb = b.unicode_len();
    if na != nb {
        return false;
    }
    let mut i: usize = 0;
    while i < na
        invariant
            na == a@.len(),
            na == b@.len(),
            0 <= i <= na,
            forall|j: int| 0 <= j < i ==> a@[j] == b@[j],
        decreases na - i,
    {
        if a.get_char(i) != b.get_char(i) {
            return false;
        }
        i += 1;
    }
    assert(a@ =~= b@);
    true
}

/// Find the first occurrence of `c` in `s`.
pub fn find_char(s: &str, c: char) -> (r: Option<usize>)
    ensures
        (match r {
            Some(i) => i < s@.len() && s@[i as int] == c && (forall|j: int|
                0 <= j < i ==> s@[j] != c),
            None => forall|j: int| 0 <= j < s@.len() ==> s@[j] != c,
        }),
{
    let n = s.unicode_len();
    let mut i: usize = 0;
    while i < n
        invariant
            n == s@.len(),
            0 <= i <= n,
            forall|j: int| 0 <= j < i ==> s@[j] != c,
        decreases n - i,
    {
        if s.get_char(i) == c {
            return Some(i);
        }
        i += 1;
    }
    None
}

} // verus!
