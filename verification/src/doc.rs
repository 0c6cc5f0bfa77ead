//! The configuration document model: the typed representation of one parsed
//! configuration file — an optional default step name and a table of raw step
//! definitions — together with step lookup and the normalizations that step
//! materialization applies to raw fields.

use vstd::prelude::*;
use vstd::string::StringExecFns;

verus! {

/// A configuration value that admits a single string where a list is meant:
/// a single string is equivalent to a one-element list, and an absent value
/// to an empty one.
pub enum OneOrMany {
    Missing,
    One(String),
    Many(Vec<String>),
}

/// A step definition exactly as the configuration file gives it, before
/// materialization: optional fields stay optional, and dependency references
/// are still unresolved text.
pub struct RawStep {
    /// Command lines: a single string, a list, or absent.
    pub command: OneOrMany,
    /// Environment entries, in file order; an absent table is empty.
    pub env: Vec<(String, String)>,
    /// May the step run concurrently as a dependency; absent means no.
    pub asynch: Option<bool>,
    /// Dependency references: a single string, a list, or absent.
    pub depends: OneOrMany,
    /// Forces sequential dependency execution; absent means no.
    pub in_order: Option<bool>,
    /// Suppresses the step's output; absent means no.
    pub quiet: Option<bool>,
    /// Watched paths; absent means the step is always stale.
    pub watch: Option<Vec<String>>,
}

/// One parsed configuration file: an optional default step name and the
/// declared steps, keyed by name, in file order.
pub struct Document {
    pub default: Option<String>,
    pub steps: Vec<(String, RawStep)>,
}

/// First step entry under the given name, if any.
pub open spec fn spec_lookup(entries: Seq<(String, RawStep)>, name: Seq<char>) -> Option<RawStep>
    decreases entries.len(),
{
    if entries.len() == 0 {
        Option::None
    } else if entries[0].0@ == name {
        Option::Some(entries[0].1)
    } else {
        spec_lookup(entries.drop_first(), name)
    }
}

/// Looks a step name up in a document's step table.
#[verifier::loop_isolation(false)]
pub fn lookup_step<'a>(doc: &'a Document, name: &str) -> (r: Option<&'a RawStep>)
    ensures
        match r {
            Option::Some(s) => spec_lookup(doc.steps@, name@) == Option::Some(*s),
            Option::None => spec_lookup(doc.steps@, name@) is None,
        },
{
    let mut i: usize = 0;
    proof {
        assert(doc.steps@.skip(0) =~= doc.steps@);
    }
    while i < doc.steps.len()
        invariant
            i <= doc.steps.len(),
            spec_lookup(doc.steps@, name@) == spec_lookup(doc.steps@.skip(i as int), name@),
        decreases doc.steps.len() - i,
    {
        proof {
            assert(doc.steps@.skip(i as int)[0] == doc.steps@[i as int]);
            assert(doc.steps@.skip(i as int).drop_first() =~= doc.steps@.skip(i as int + 1));
        }
        if crate::text::str_eq(doc.steps[i].0.as_str(), name) {
            return Option::Some(&doc.steps[i].1);
        }
        i = i + 1;
    }
    proof {
        assert(doc.steps@.skip(doc.steps@.len() as int) =~= Seq::<(String, RawStep)>::empty());
    }
    Option::None
}

/// The command lines a raw command value denotes: a single string is a
/// one-element sequence, a list is itself, and an absent value is empty.
pub open spec fn spec_command_lines(c: OneOrMany) -> Seq<Seq<char>> {
    match c {
        OneOrMany::Missing => Seq::empty(),
        OneOrMany::One(s) => seq![s@],
        OneOrMany::Many(v) => v.deep_view(),
    }
}

/// Normalizes a raw command value into its command-line sequence.
pub fn command_lines(c: &OneOrMany) -> (r: Vec<String>)
    ensures
        r.deep_view() == spec_command_lines(*c),
{
    match c {
        OneOrMany::Missing => {
            let r: Vec<String> = Vec::new();
            proof {
                assert(r.deep_view() =~= spec_command_lines(*c));
            }
            r
        },
        OneOrMany::One(s) => {
            let mut r: Vec<String> = Vec::new();
            r.push(s.clone());
            proof {
                assert(r.deep_view() =~= spec_command_lines(*c));
            }
            r
        },
        OneOrMany::Many(v) => {
            let r = clone_strings(v);
            proof {
                assert(r.deep_view() =~= v.deep_view());
            }
            r
        },
    }
}

/// The dependency tokens a raw dependency value denotes, before empty tokens
/// are dropped.
pub open spec fn spec_dep_tokens(d: OneOrMany) -> Seq<String> {
    match d {
        OneOrMany::Missing => Seq::empty(),
        OneOrMany::One(s) => seq![s],
        OneOrMany::Many(v) => v@,
    }
}

/// The sequence without its empty strings: empty dependency references are
/// ignored.
pub open spec fn filter_nonempty(s: Seq<String>) -> Seq<String>
    decreases s.len(),
{
    if s.len() == 0 {
        Seq::empty()
    } else if s[0]@.len() > 0 {
        seq![s[0]] + filter_nonempty(s.drop_first())
    } else {
        filter_nonempty(s.drop_first())
    }
}

/// Collects the non-empty strings of `v` from position `from` on.
fn collect_nonempty(v: &Vec<String>, from: usize) -> (r: Vec<String>)
    requires
        from <= v.len(),
    ensures
        r@ == filter_nonempty(v@.skip(from as int)),
    decreases v.len() - from,
{
    if from == v.len() {
        let r: Vec<String> = Vec::new();
        proof {
            assert(v@.skip(from as int) =~= Seq::<String>::empty());
        }
        r
    } else {
        proof {
            assert(v@.skip(from as int)[0] == v@[from as int]);
            assert(v@.skip(from as int).drop_first() =~= v@.skip(from as int + 1));
        }
        let mut rest = collect_nonempty(v, from + 1);
        if v[from].as_str().is_empty() {
            rest
        } else {
            rest.insert(0, v[from].clone());
            proof {
                assert(rest@ =~= seq![v@[from as int]] + filter_nonempty(
                    v@.skip(from as int + 1),
                ));
            }
            rest
        }
    }
}

/// The dependency references of a raw step, normalized to a list and with
/// empty references dropped.
pub fn dep_tokens(d: &OneOrMany) -> (r: Vec<String>)
    ensures
        r@ == filter_nonempty(spec_dep_tokens(*d)),
{
    match d {
        OneOrMany::Missing => {
            let r: Vec<String> = Vec::new();
            proof {
                assert(r@ =~= filter_nonempty(spec_dep_tokens(*d)));
            }
            r
        },
        OneOrMany::One(s) => {
            let mut r: Vec<String> = Vec::new();
            proof {
                assert(spec_dep_tokens(*d).drop_first() =~= Seq::<String>::empty());
            }
            if !s.as_str().is_empty() {
                r.push(s.clone());
                proof {
                    assert(r@ =~= seq![*s] + filter_nonempty(Seq::<String>::empty()));
                }
            } else {
                proof {
                    assert(spec_dep_tokens(*d)[0] == *s);
                    assert(filter_nonempty(Seq::<String>::empty()) =~= Seq::<String>::empty());
                    assert(r@ =~= filter_nonempty(spec_dep_tokens(*d)));
                }
            }
            r
        },
        OneOrMany::Many(v) => {
            proof {
                assert(v@.skip(0) =~= v@);
            }
            collect_nonempty(v, 0)
        },
    }
}

/// Copies a list of strings.
#[verifier::loop_isolation(false)]
pub fn clone_strings(v: &Vec<String>) -> (r: Vec<String>)
    ensures
        r@ == v@,
{
    let mut r: Vec<String> = Vec::new();
    let mut i: usize = 0;
    while i < v.len()
        invariant
            i <= v.len(),
            r@ == v@.take(i as int),
        decreases v.len() - i,
    {
        r.push(v[i].clone());
        proof {
            assert(v@.take(i as int + 1) =~= v@.take(i as int).push(v@[i as int]));
        }
        i = i + 1;
    }
    proof {
        assert(v@.take(v@.len() as int) =~= v@);
    }
    r
}

/// Copies a list of string pairs.
#[verifier::loop_isolation(false)]
pub fn clone_pairs(v: &Vec<(String, String)>) -> (r: Vec<(String, String)>)
    ensures
        r@ == v@,
{
    let mut r: Vec<(String, String)> = Vec::new();
    let mut i: usize = 0;
    while i < v.len()
        invariant
            i <= v.len(),
            r@ == v@.take(i as int),
        decreases v.len() - i,
    {
        r.push((v[i].0.clone(), v[i].1.clone()));
        proof {
            assert(v@.take(i as int + 1) =~= v@.take(i as int).push(v@[i as int]));
        }
        i = i + 1;
    }
    proof {
        assert(r@ =~= v@);
    }
    r
}

} // verus!
