//! The path rules of the runner: which configuration file a base path means,
//! and which directory owns a configuration file. Filesystem canonicalization
//! itself is the caller's; these functions decide the shape of the paths.

use vstd::prelude::*;
use vstd::string::StrSliceExecFns;
use vstd::string::StringExecFns;

use crate::text::spec_ends_with;
use crate::text::str_ends_with;

verus! {

/// The configuration file a base path means: a path that already names a
/// configuration file (it ends in the configuration-file suffix) stands for
/// itself; any other path is a directory holding the default file name.
pub open spec fn spec_full_path(base: Seq<char>) -> Seq<char> {
    if spec_ends_with(base, ".toml"@) {
        base
    } else {
        base + "/build.toml"@
    }
}

/// Appends the default configuration-file name to a base path unless the
/// path already ends in the configuration-file suffix.
pub fn full_path(base: &str) -> (r: String)
    ensures
        r@ == spec_full_path(base@),
{
    if str_ends_with(base, ".toml") {
        base.to_owned()
    } else {
        base.to_owned().concat("/build.toml")
    }
}

/// Position of the last `/` in a path, or -1 when it has none.
pub open spec fn last_slash(s: Seq<char>) -> int
    decreases s.len(),
{
    if s.len() == 0 {
        -1
    } else if s.last() == '/' {
        s.len() - 1
    } else {
        last_slash(s.drop_last())
    }
}

/// `last_slash` finds exactly the greatest `/` position: -1 means the path
/// has none, and a non-negative answer is a `/` with none after it.
pub proof fn lemma_last_slash(s: Seq<char>)
    ensures
        last_slash(s) == -1 ==> (forall|j: int| 0 <= j < s.len() ==> s[j] != '/'),
        last_slash(s) >= 0 ==> last_slash(s) < s.len() && s[last_slash(s)] == '/',
        last_slash(s) >= 0 ==> (forall|j: int| last_slash(s) < j < s.len() ==> s[j] != '/'),
        last_slash(s) >= -1,
    decreases s.len(),
{
    if s.len() == 0 {
    } else if s.last() == '/' {
    } else {
        lemma_last_slash(s.drop_last());
        assert forall|j: int| 0 <= j < s.len() && s[j] == '/' implies j <= last_slash(s) by {
            if j < s.len() - 1 {
                assert(s.drop_last()[j] == s[j]);
            } else {
                assert(s[j] == s.last());
            }
        }
    }
}

/// The directory that owns a path: everything before the last `/`, or the
/// root directory itself when the `/` is the first character; a path with no
/// `/` has no owning directory.
pub open spec fn spec_parent_dir(s: Seq<char>) -> Option<Seq<char>> {
    let ls = last_slash(s);
    if ls == -1 {
        Option::None
    } else if ls == 0 {
        Option::Some(s.take(1))
    } else {
        Option::Some(s.take(ls))
    }
}

/// The directory containing the named configuration file: the commands of a
/// step run there, and its watched entries are resolved against it.
#[verifier::loop_isolation(false)]
pub fn parent_dir(path: &str) -> (r: Option<String>)
    ensures
        match r {
            Option::Some(d) => spec_parent_dir(path@) == Option::Some(d@),
            Option::None => spec_parent_dir(path@) is None,
        },
{
    let n = path.unicode_len();
    let mut i: usize = n;
    while i > 0
        invariant
            i <= n,
            n == path@.len(),
            forall|j: int| i <= j < n ==> path@[j] != '/',
        decreases i,
    {
        if path.get_char(i - 1) == '/' {
            proof {
                lemma_last_slash(path@);
                if last_slash(path@) == -1 {
                    assert(false);
                } else if last_slash(path@) < i as int - 1 {
                    assert(path@[i as int - 1] != '/');
                    assert(false);
                } else if last_slash(path@) > i as int - 1 {
                    assert(path@[last_slash(path@)] != '/');
                    assert(false);
                }
            }
            if i - 1 == 0 {
                return Option::Some(path.substring_char(0, 1).to_owned());
            }
            return Option::Some(path.substring_char(0, i - 1).to_owned());
        }
        i = i - 1;
    }
    proof {
        lemma_last_slash(path@);
        if last_slash(path@) >= 0 {
            assert(path@[last_slash(path@)] != '/');
            assert(false);
        }
    }
    Option::None
}

} // verus!
