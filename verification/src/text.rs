//! Character-level text operations that the resolver and the path rules are
//! built on: string equality, suffix tests, and locating the `::` delimiter
//! of cross-file step addressing.

use vstd::prelude::*;
use vstd::string::StrSliceExecFns;

verus! {

/// Is there a `::` delimiter starting at position `i`?
pub open spec fn is_delim_at(s: Seq<char>, i: int) -> bool {
    0 <= i && i + 2 <= s.len() && s[i] == ':' && s[i + 1] == ':'
}

/// Position of the first `::` delimiter, or -1 when the text has none.
pub open spec fn first_delim(s: Seq<char>) -> int
    decreases s.len(),
{
    if s.len() < 2 {
        -1
    } else if s[0] == ':' && s[1] == ':' {
        0
    } else {
        let r = first_delim(s.drop_first());
        if r < 0 {
            -1
        } else {
            r + 1
        }
    }
}

/// `first_delim` finds exactly the least delimiter position: -1 means there
/// is none, and a non-negative answer is a delimiter with none before it.
pub proof fn lemma_first_delim(s: Seq<char>)
    ensures
        first_delim(s) == -1 ==> (forall|j: int| !is_delim_at(s, j)),
        first_delim(s) >= 0 ==> is_delim_at(s, first_delim(s)),
        first_delim(s) >= 0 ==> (forall|j: int| 0 <= j < first_delim(s) ==> !is_delim_at(s, j)),
        first_delim(s) >= -1,
    decreases s.len(),
{
    if s.len() < 2 {
    } else if s[0] == ':' && s[1] == ':' {
    } else {
        lemma_first_delim(s.drop_first());
        assert forall|j: int| 1 <= j implies is_delim_at(s, j) == is_delim_at(
            s.drop_first(),
            j - 1,
        ) by {
            assert(s.drop_first().len() == s.len() - 1);
            if 0 <= j - 1 && j + 2 <= s.len() {
                assert(s.drop_first()[j - 1] == s[j]);
                assert(s.drop_first()[j] == s[j + 1]);
            }
        }
        assert(!is_delim_at(s, 0));
    }
}

/// Finds the first `::` delimiter of a step name, if any.
#[verifier::loop_isolation(false)]
pub fn find_delim(s: &str) -> (r: Option<usize>)
    ensures
        match r {
            Option::Some(i) => first_delim(s@) == i,
            Option::None => first_delim(s@) == -1,
        },
{
    let n = s.unicode_len();
    if n < 2 {
        return Option::None;
    }
    let mut i: usize = 0;
    while i <= n - 2
        invariant
            forall|j: int| 0 <= j < i ==> !is_delim_at(s@, j),
        decreases n - i,
    {
        if s.get_char(i) == ':' && s.get_char(i + 1) == ':' {
            proof {
                lemma_first_delim(s@);
                assert(is_delim_at(s@, i as int));
                if first_delim(s@) == -1 {
                    assert(false);
                } else if first_delim(s@) < i as int {
                    assert(is_delim_at(s@, first_delim(s@)));
                    assert(false);
                } else if first_delim(s@) > i as int {
                    assert(!is_delim_at(s@, i as int));
                    assert(false);
                }
            }
            return Option::Some(i);
        }
        i = i + 1;
    }
    proof {
        lemma_first_delim(s@);
        assert forall|j: int| !is_delim_at(s@, j) by {
            if 0 <= j && j + 2 <= s@.len() {
                assert(j < i);
            }
        }
        if first_delim(s@) >= 0 {
            assert(is_delim_at(s@, first_delim(s@)));
            assert(false);
        }
    }
    Option::None
}

/// Character-for-character string equality.
#[verifier::loop_isolation(false)]
pub fn str_eq(a: &str, b: &str) -> (r: bool)
    ensures
        r == (a@ == b@),
{
    let n = a.unicode_len();
    if n != b.unicode_len() {
        return false;
    }
    let mut i: usize = 0;
    while i < n
        invariant
            i <= n,
            n == a@.len() == b@.len(),
            forall|j: int| 0 <= j < i ==> a@[j] == b@[j],
        decreases n - i,
    {
        if a.get_char(i) != b.get_char(i) {
            return false;
        }
        i = i + 1;
    }
    proof {
        assert(a@ =~= b@);
    }
    true
}

/// Does `s` end with `suffix`?
pub open spec fn spec_ends_with(s: Seq<char>, suffix: Seq<char>) -> bool {
    suffix.len() <= s.len() && s.skip(s.len() - suffix.len()) == suffix
}

/// Suffix test, character for character.
#[verifier::loop_isolation(false)]
pub fn str_ends_with(s: &str, suffix: &str) -> (r: bool)
    ensures
        r == spec_ends_with(s@, suffix@),
{
    let n = s.unicode_len();
    let m = suffix.unicode_len();
    if m > n {
        return false;
    }
    let mut i: usize = 0;
    while i < m
        invariant
            i <= m <= n,
            n == s@.len(),
            m == suffix@.len(),
            forall|j: int| 0 <= j < i ==> s@[n - m + j] == suffix@[j],
        decreases m - i,
    {
        if s.get_char(n - m + i) != suffix.get_char(i) {
            proof {
                assert(s@.skip(n as int - m as int)[i as int] != suffix@[i as int]);
            }
            return false;
        }
        i = i + 1;
    }
    proof {
        assert(s@.skip(n as int - m as int) =~= suffix@);
    }
    true
}

} // verus!
