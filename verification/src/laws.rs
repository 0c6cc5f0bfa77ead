//! Laws of the resolver, proved once and for all against the resolution
//! algorithm `spec_resolve` that every executable resolver function is held
//! to.

use vstd::prelude::*;

use crate::doc::Document;
use crate::doc::OneOrMany;
use crate::doc::RawStep;
use crate::doc::filter_nonempty;
use crate::doc::spec_command_lines;
use crate::doc::spec_dep_tokens;
use crate::doc::spec_lookup;
use crate::errors::ErrModel;
use crate::resolve::DepsOutcomeModel;
use crate::resolve::ResolutionModel;
use crate::resolve::spec_child_lookup;
use crate::resolve::spec_file_lookup;
use crate::resolve::spec_generate_step;
use crate::resolve::spec_resolve;
use crate::resolve::spec_resolve_deps;
use crate::resolve::spec_resolve_in_doc;
use crate::text::first_delim;
use crate::text::lemma_first_delim;

verus! {

/// Resolving with no explicit step name against a document that declares no
/// default and has no step named `default` fails with a missing step.
pub proof fn lemma_no_default_is_missing_step(
    path: Seq<char>,
    doc: Document,
    files: Seq<(String, Document)>,
    children: Seq<(String, String, Option<String>)>,
    fuel: nat,
)
    requires
        fuel >= 1,
        spec_file_lookup(files, path) == Option::Some(doc),
        doc.default is None,
        spec_lookup(doc.steps@, "default"@) is None,
    ensures
        spec_resolve(Option::None, path, files, children, fuel) == ResolutionModel::Fail(
            ErrModel::MissingStep("default"@),
        ),
{
}

/// A step name that opens with the cross-file delimiter descends: its first
/// segment names a child configuration file, and the rest of the name is
/// resolved against that child with one unit of recursion budget spent. A
/// child reference that does not resolve to a location fails with an invalid
/// path.
pub proof fn lemma_cross_file_name_descends(
    n: Seq<char>,
    path: Seq<char>,
    doc: Document,
    files: Seq<(String, Document)>,
    children: Seq<(String, String, Option<String>)>,
    fuel: nat,
)
    requires
        fuel >= 1,
        spec_file_lookup(files, path) == Option::Some(doc),
        first_delim(n) >= 1,
    ensures
        spec_resolve(Option::Some(n), path, files, children, fuel) == (match spec_child_lookup(
            children,
            path,
            n.take(first_delim(n)),
        ) {
            Option::None => ResolutionModel::NeedChild(path, n.take(first_delim(n))),
            Option::Some(Option::None) => ResolutionModel::Fail(
                ErrModel::InvalidPath(n.take(first_delim(n))),
            ),
            Option::Some(Option::Some(cp)) => spec_resolve(
                Option::Some(n.skip(first_delim(n) + 2)),
                cp@,
                files,
                children,
                (fuel - 1) as nat,
            ),
        }),
{
    lemma_first_delim(n);
}

/// A malformed step name — empty, or opening with the delimiter, as a name
/// made of delimiters alone does — fails with an invalid step.
pub proof fn lemma_malformed_name_is_invalid_step(
    n: Seq<char>,
    path: Seq<char>,
    doc: Document,
    files: Seq<(String, Document)>,
    children: Seq<(String, String, Option<String>)>,
    fuel: nat,
)
    requires
        fuel >= 1,
        spec_file_lookup(files, path) == Option::Some(doc),
        n.len() == 0 || first_delim(n) == 0,
    ensures
        spec_resolve(Option::Some(n), path, files, children, fuel) == ResolutionModel::Fail(
            ErrModel::InvalidStep(n),
        ),
{
}

/// Materializing a step with no dependency references yields the step whose
/// command sequence is the normalization of the raw command: a single string
/// becomes the one-element sequence holding it, a list is carried unchanged,
/// and an absent command is empty.
pub proof fn lemma_materialize_normalizes_command(
    raw: RawStep,
    path: Seq<char>,
    files: Seq<(String, Document)>,
    children: Seq<(String, String, Option<String>)>,
    fuel: nat,
)
    requires
        fuel >= 1,
        filter_nonempty(spec_dep_tokens(raw.depends)) == Seq::<String>::empty(),
    ensures
        spec_generate_step(raw, path, files, children, fuel) matches ResolutionModel::Done(sm)
            && sm.command == spec_command_lines(raw.command) && sm.dependencies.len() == 0,
        raw.command matches OneOrMany::One(c) ==> spec_generate_step(
            raw,
            path,
            files,
            children,
            fuel,
        )->Done_0.command == seq![c@],
{
}

/// The resolver never asks for a workspace entry the workspace already
/// holds: a requested file is one the cache has no document for, and a
/// requested child location is one the cache has no record of. A file loaded
/// once is therefore never read again within one resolution.
pub proof fn lemma_resolver_requests_only_missing_entries(
    name: Option<Seq<char>>,
    path: Seq<char>,
    files: Seq<(String, Document)>,
    children: Seq<(String, String, Option<String>)>,
    fuel: nat,
)
    ensures
        spec_resolve(name, path, files, children, fuel) matches ResolutionModel::NeedFile(p)
            ==> spec_file_lookup(files, p) is None,
        spec_resolve(name, path, files, children, fuel) matches ResolutionModel::NeedChild(b, c)
            ==> spec_child_lookup(children, b, c) is None,
    decreases fuel, 3int, 0int,
{
    if fuel == 0 {
    } else {
        match spec_file_lookup(files, path) {
            Option::None => {},
            Option::Some(doc) => {
                let effective: Option<Seq<char>> = match name {
                    Option::Some(n) => Option::Some(n),
                    Option::None => match doc.default {
                        Option::Some(d) => Option::Some(d@),
                        Option::None => if spec_lookup(doc.steps@, "default"@) is Some {
                            Option::Some("default"@)
                        } else {
                            Option::None
                        },
                    },
                };
                match effective {
                    Option::None => {},
                    Option::Some(n) => {
                        lemma_in_doc_requests_only_missing_entries(
                            n,
                            path,
                            doc,
                            files,
                            children,
                            fuel,
                        );
                    },
                }
            },
        }
    }
}

proof fn lemma_in_doc_requests_only_missing_entries(
    n: Seq<char>,
    path: Seq<char>,
    doc: Document,
    files: Seq<(String, Document)>,
    children: Seq<(String, String, Option<String>)>,
    fuel: nat,
)
    ensures
        spec_resolve_in_doc(n, path, doc, files, children, fuel) matches
            ResolutionModel::NeedFile(p) ==> spec_file_lookup(files, p) is None,
        spec_resolve_in_doc(n, path, doc, files, children, fuel) matches
            ResolutionModel::NeedChild(b, c) ==> spec_child_lookup(children, b, c) is None,
    decreases fuel, 2int, 0int,
{
    if fuel == 0 || n.len() == 0 {
    } else {
        let fd = first_delim(n);
        if fd == 0 {
        } else if fd < 0 {
            match spec_lookup(doc.steps@, n) {
                Option::Some(raw) => {
                    lemma_generate_requests_only_missing_entries(
                        raw,
                        path,
                        files,
                        children,
                        fuel,
                    );
                },
                Option::None => {
                    match spec_child_lookup(children, path, n) {
                        Option::None => {},
                        Option::Some(Option::None) => {},
                        Option::Some(Option::Some(cp)) => {
                            lemma_resolver_requests_only_missing_entries(
                                Option::None,
                                cp@,
                                files,
                                children,
                                (fuel - 1) as nat,
                            );
                        },
                    }
                },
            }
        } else {
            match spec_child_lookup(children, path, n.take(fd)) {
                Option::None => {},
                Option::Some(Option::None) => {},
                Option::Some(Option::Some(cp)) => {
                    lemma_resolver_requests_only_missing_entries(
                        Option::Some(n.skip(fd + 2)),
                        cp@,
                        files,
                        children,
                        (fuel - 1) as nat,
                    );
                },
            }
        }
    }
}

proof fn lemma_generate_requests_only_missing_entries(
    raw: RawStep,
    path: Seq<char>,
    files: Seq<(String, Document)>,
    children: Seq<(String, String, Option<String>)>,
    fuel: nat,
)
    ensures
        spec_generate_step(raw, path, files, children, fuel) matches ResolutionModel::NeedFile(p)
            ==> spec_file_lookup(files, p) is None,
        spec_generate_step(raw, path, files, children, fuel) matches
            ResolutionModel::NeedChild(b, c) ==> spec_child_lookup(children, b, c) is None,
    decreases fuel, 1int, 0int,
{
    lemma_deps_request_only_missing_entries(
        filter_nonempty(spec_dep_tokens(raw.depends)),
        path,
        files,
        children,
        fuel,
    );
}

proof fn lemma_deps_request_only_missing_entries(
    tokens: Seq<String>,
    path: Seq<char>,
    files: Seq<(String, Document)>,
    children: Seq<(String, String, Option<String>)>,
    fuel: nat,
)
    ensures
        spec_resolve_deps(tokens, path, files, children, fuel) matches
            DepsOutcomeModel::Stopped(r) ==> ((r matches ResolutionModel::NeedFile(p)
            ==> spec_file_lookup(files, p) is None) && (r matches ResolutionModel::NeedChild(b, c)
            ==> spec_child_lookup(children, b, c) is None)),
    decreases fuel, 0int, tokens.len(),
{
    if fuel == 0 || tokens.len() == 0 {
    } else {
        let t = tokens[0]@;
        let fd = first_delim(t);
        if fd < 0 {
            lemma_resolver_requests_only_missing_entries(
                Option::Some(t),
                path,
                files,
                children,
                (fuel - 1) as nat,
            );
        } else if fd == 0 {
        } else {
            let head = t.take(fd);
            let rest = t.skip(fd + 2);
            let target = if first_delim(rest) < 0 {
                rest
            } else {
                rest.take(first_delim(rest))
            };
            match spec_child_lookup(children, path, head) {
                Option::None => {},
                Option::Some(Option::None) => {},
                Option::Some(Option::Some(cp)) => {
                    lemma_resolver_requests_only_missing_entries(
                        Option::Some(target),
                        cp@,
                        files,
                        children,
                        (fuel - 1) as nat,
                    );
                },
            }
        }
        lemma_deps_request_only_missing_entries(
            tokens.drop_first(),
            path,
            files,
            children,
            fuel,
        );
    }
}

/// Does the second workspace extend the first: every file and every child
/// location the first holds, the second holds with the same answer?
pub open spec fn workspace_extends(
    files: Seq<(String, Document)>,
    children: Seq<(String, String, Option<String>)>,
    files2: Seq<(String, Document)>,
    children2: Seq<(String, String, Option<String>)>,
) -> bool {
    &&& (forall|p: Seq<char>|
        (#[trigger] spec_file_lookup(files, p)) is Some ==> spec_file_lookup(files2, p)
            == spec_file_lookup(files, p))
    &&& (forall|b: Seq<char>, c: Seq<char>|
        (#[trigger] spec_child_lookup(children, b, c)) is Some ==> spec_child_lookup(
            children2,
            b,
            c,
        ) == spec_child_lookup(children, b, c))
}

/// A settled resolution — one that ended in a resolved step or a failure —
/// is not disturbed by loading further files or child locations into the
/// workspace: resolving again against the grown workspace gives the same
/// answer. Together with `lemma_resolver_requests_only_missing_entries` this
/// is what makes the load-and-resolve-again loop sound: answering a request
/// only ever moves the resolution forward.
pub proof fn lemma_workspace_growth_preserves_settled_resolution(
    name: Option<Seq<char>>,
    path: Seq<char>,
    files: Seq<(String, Document)>,
    children: Seq<(String, String, Option<String>)>,
    files2: Seq<(String, Document)>,
    children2: Seq<(String, String, Option<String>)>,
    fuel: nat,
)
    requires
        workspace_extends(files, children, files2, children2),
        !(spec_resolve(name, path, files, children, fuel) matches ResolutionModel::NeedFile(_)),
        !(spec_resolve(name, path, files, children, fuel) matches ResolutionModel::NeedChild(
            _,
            _,
        )),
    ensures
        spec_resolve(name, path, files2, children2, fuel) == spec_resolve(
            name,
            path,
            files,
            children,
            fuel,
        ),
    decreases fuel, 3int, 0int,
{
    if fuel == 0 {
    } else {
        match spec_file_lookup(files, path) {
            Option::None => {},
            Option::Some(doc) => {
                let effective: Option<Seq<char>> = match name {
                    Option::Some(n) => Option::Some(n),
                    Option::None => match doc.default {
                        Option::Some(d) => Option::Some(d@),
                        Option::None => if spec_lookup(doc.steps@, "default"@) is Some {
                            Option::Some("default"@)
                        } else {
                            Option::None
                        },
                    },
                };
                match effective {
                    Option::None => {},
                    Option::Some(n) => {
                        lemma_growth_preserves_settled_in_doc(
                            n,
                            path,
                            doc,
                            files,
                            children,
                            files2,
                            children2,
                            fuel,
                        );
                    },
                }
            },
        }
    }
}

proof fn lemma_growth_preserves_settled_in_doc(
    n: Seq<char>,
    path: Seq<char>,
    doc: Document,
    files: Seq<(String, Document)>,
    children: Seq<(String, String, Option<String>)>,
    files2: Seq<(String, Document)>,
    children2: Seq<(String, String, Option<String>)>,
    fuel: nat,
)
    requires
        workspace_extends(files, children, files2, children2),
        !(spec_resolve_in_doc(n, path, doc, files, children, fuel) matches
            ResolutionModel::NeedFile(_)),
        !(spec_resolve_in_doc(n, path, doc, files, children, fuel) matches
            ResolutionModel::NeedChild(_, _)),
    ensures
        spec_resolve_in_doc(n, path, doc, files2, children2, fuel) == spec_resolve_in_doc(
            n,
            path,
            doc,
            files,
            children,
            fuel,
        ),
    decreases fuel, 2int, 0int,
{
    if fuel == 0 || n.len() == 0 {
    } else {
        let fd = first_delim(n);
        if fd == 0 {
        } else if fd < 0 {
            match spec_lookup(doc.steps@, n) {
                Option::Some(raw) => {
                    lemma_growth_preserves_settled_generate(
                        raw,
                        path,
                        files,
                        children,
                        files2,
                        children2,
                        fuel,
                    );
                },
                Option::None => {
                    match spec_child_lookup(children, path, n) {
                        Option::None => {},
                        Option::Some(Option::None) => {},
                        Option::Some(Option::Some(cp)) => {
                            lemma_workspace_growth_preserves_settled_resolution(
                                Option::None,
                                cp@,
                                files,
                                children,
                                files2,
                                children2,
                                (fuel - 1) as nat,
                            );
                        },
                    }
                },
            }
        } else {
            match spec_child_lookup(children, path, n.take(fd)) {
                Option::None => {},
                Option::Some(Option::None) => {},
                Option::Some(Option::Some(cp)) => {
                    lemma_workspace_growth_preserves_settled_resolution(
                        Option::Some(n.skip(fd + 2)),
                        cp@,
                        files,
                        children,
                        files2,
                        children2,
                        (fuel - 1) as nat,
                    );
                },
            }
        }
    }
}

proof fn lemma_growth_preserves_settled_generate(
    raw: RawStep,
    path: Seq<char>,
    files: Seq<(String, Document)>,
    children: Seq<(String, String, Option<String>)>,
    files2: Seq<(String, Document)>,
    children2: Seq<(String, String, Option<String>)>,
    fuel: nat,
)
    requires
        workspace_extends(files, children, files2, children2),
        !(spec_generate_step(raw, path, files, children, fuel) matches
            ResolutionModel::NeedFile(_)),
        !(spec_generate_step(raw, path, files, children, fuel) matches
            ResolutionModel::NeedChild(_, _)),
    ensures
        spec_generate_step(raw, path, files2, children2, fuel) == spec_generate_step(
            raw,
            path,
            files,
            children,
            fuel,
        ),
    decreases fuel, 1int, 0int,
{
    lemma_growth_preserves_settled_deps(
        filter_nonempty(spec_dep_tokens(raw.depends)),
        path,
        files,
        children,
        files2,
        children2,
        fuel,
    );
}

proof fn lemma_growth_preserves_settled_deps(
    tokens: Seq<String>,
    path: Seq<char>,
    files: Seq<(String, Document)>,
    children: Seq<(String, String, Option<String>)>,
    files2: Seq<(String, Document)>,
    children2: Seq<(String, String, Option<String>)>,
    fuel: nat,
)
    requires
        workspace_extends(files, children, files2, children2),
        !(spec_resolve_deps(tokens, path, files, children, fuel) matches
            DepsOutcomeModel::Stopped(ResolutionModel::NeedFile(_))),
        !(spec_resolve_deps(tokens, path, files, children, fuel) matches
            DepsOutcomeModel::Stopped(ResolutionModel::NeedChild(_, _))),
    ensures
        spec_resolve_deps(tokens, path, files2, children2, fuel) == spec_resolve_deps(
            tokens,
            path,
            files,
            children,
            fuel,
        ),
    decreases fuel, 0int, tokens.len(),
{
    if fuel == 0 || tokens.len() == 0 {
    } else {
        let t = tokens[0]@;
        let fd = first_delim(t);
        let first = if fd < 0 {
            spec_resolve(Option::Some(t), path, files, children, (fuel - 1) as nat)
        } else if fd == 0 {
            ResolutionModel::Fail(ErrModel::InvalidStep(t))
        } else {
            let head = t.take(fd);
            let rest = t.skip(fd + 2);
            let target = if first_delim(rest) < 0 {
                rest
            } else {
                rest.take(first_delim(rest))
            };
            match spec_child_lookup(children, path, head) {
                Option::None => ResolutionModel::NeedChild(path, head),
                Option::Some(Option::None) => ResolutionModel::Fail(ErrModel::InvalidPath(head)),
                Option::Some(Option::Some(cp)) => spec_resolve(
                    Option::Some(target),
                    cp@,
                    files,
                    children,
                    (fuel - 1) as nat,
                ),
            }
        };
        match first {
            ResolutionModel::Done(_) => {
                if fd < 0 {
                    lemma_workspace_growth_preserves_settled_resolution(
                        Option::Some(t),
                        path,
                        files,
                        children,
                        files2,
                        children2,
                        (fuel - 1) as nat,
                    );
                } else {
                    let head = t.take(fd);
                    let rest = t.skip(fd + 2);
                    let target = if first_delim(rest) < 0 {
                        rest
                    } else {
                        rest.take(first_delim(rest))
                    };
                    match spec_child_lookup(children, path, head) {
                        Option::Some(Option::Some(cp)) => {
                            lemma_workspace_growth_preserves_settled_resolution(
                                Option::Some(target),
                                cp@,
                                files,
                                children,
                                files2,
                                children2,
                                (fuel - 1) as nat,
                            );
                        },
                        _ => {},
                    }
                }
                lemma_growth_preserves_settled_deps(
                    tokens.drop_first(),
                    path,
                    files,
                    children,
                    files2,
                    children2,
                    fuel,
                );
            },
            ResolutionModel::Fail(_) => {
                if fd < 0 {
                    lemma_workspace_growth_preserves_settled_resolution(
                        Option::Some(t),
                        path,
                        files,
                        children,
                        files2,
                        children2,
                        (fuel - 1) as nat,
                    );
                } else if fd == 0 {
                } else {
                    let head = t.take(fd);
                    let rest = t.skip(fd + 2);
                    let target = if first_delim(rest) < 0 {
                        rest
                    } else {
                        rest.take(first_delim(rest))
                    };
                    match spec_child_lookup(children, path, head) {
                        Option::Some(Option::Some(cp)) => {
                            lemma_workspace_growth_preserves_settled_resolution(
                                Option::Some(target),
                                cp@,
                                files,
                                children,
                                files2,
                                children2,
                                (fuel - 1) as nat,
                            );
                        },
                        _ => {},
                    }
                }
            },
            _ => {},
        }
    }
}

} // verus!
