//! The recursive core of the runner: turning a (possibly cross-file,
//! possibly absent) step name into a fully resolved step, with every
//! dependency resolved in the same pass.
//!
//! The resolver is pure: it reads parsed configuration files and resolved
//! child-file locations from a [`Workspace`], the per-resolution cache. When
//! it meets a file or a child location the workspace does not hold yet, it
//! stops with a request ([`Resolution::NeedFile`] or
//! [`Resolution::NeedChild`]); the caller performs the read or the
//! canonicalization, records the answer, and resolves again. Because every
//! answer is cached, each file is read at most once per resolution, and a
//! restarted resolution retraces the same path deterministically.
//!
//! Recursion is bounded by a fuel parameter; configuration files that
//! reference each other cyclically exhaust it and fail with
//! [`crate::errors::BuildError::Cycle`] instead of recursing forever.

use vstd::prelude::*;
use vstd::string::StrSliceExecFns;
use vstd::string::StringExecFns;

use crate::doc::Document;
use crate::doc::RawStep;
use crate::doc::command_lines;
use crate::doc::dep_tokens;
use crate::doc::clone_pairs;
use crate::doc::clone_strings;
use crate::doc::filter_nonempty;
use crate::doc::lookup_step;
use crate::doc::spec_command_lines;
use crate::doc::spec_dep_tokens;
use crate::doc::spec_lookup;
use crate::errors::BuildError;
use crate::errors::ErrModel;
use crate::errors::err_models;
use crate::step::Step;
use crate::step::StepModel;
use crate::step::step_models;
use crate::text::find_delim;
use crate::text::first_delim;
use crate::text::str_eq;

verus! {

/// The per-resolution cache: configuration documents keyed by the canonical
/// path they were loaded from, and resolved child-file locations keyed by the
/// referring file and the child name (`None` records that the child location
/// could not be resolved). It lives for one top-level resolution call.
pub struct Workspace {
    pub files: Vec<(String, Document)>,
    pub children: Vec<(String, String, Option<String>)>,
}

/// First recorded document under the given canonical path, if any.
pub open spec fn spec_file_lookup(files: Seq<(String, Document)>, path: Seq<char>) -> Option<
    Document,
>
    decreases files.len(),
{
    if files.len() == 0 {
        Option::None
    } else if files[0].0@ == path {
        Option::Some(files[0].1)
    } else {
        spec_file_lookup(files.drop_first(), path)
    }
}

/// First recorded child location under the given referrer and child name, if
/// any: `Some(None)` means the location was asked for and does not resolve.
pub open spec fn spec_child_lookup(
    children: Seq<(String, String, Option<String>)>,
    base: Seq<char>,
    child: Seq<char>,
) -> Option<Option<String>>
    decreases children.len(),
{
    if children.len() == 0 {
        Option::None
    } else if children[0].0@ == base && children[0].1@ == child {
        Option::Some(children[0].2)
    } else {
        spec_child_lookup(children.drop_first(), base, child)
    }
}

impl Workspace {
    /// An empty cache: nothing loaded, nothing resolved.
    pub fn new() -> (w: Workspace)
        ensures
            w.files@.len() == 0,
            w.children@.len() == 0,
    {
        Workspace { files: Vec::new(), children: Vec::new() }
    }

    /// Records the parsed document of one canonical path.
    pub fn record_file(&mut self, path: String, doc: Document)
        ensures
            final(self).files@ == old(self).files@.push((path, doc)),
            final(self).children@ == old(self).children@,
    {
        self.files.push((path, doc));
    }

    /// Records where a child reference of one file leads, or that it leads
    /// nowhere.
    pub fn record_child(&mut self, base: String, child: String, location: Option<String>)
        ensures
            final(self).children@ == old(self).children@.push((base, child, location)),
            final(self).files@ == old(self).files@,
    {
        self.children.push((base, child, location));
    }

    /// The cache hit of the file loader: a recorded document is returned
    /// without touching disk.
    #[verifier::loop_isolation(false)]
    pub fn lookup_file<'a>(&'a self, path: &str) -> (r: Option<&'a Document>)
        ensures
            match r {
                Option::Some(d) => spec_file_lookup(self.files@, path@) == Option::Some(*d),
                Option::None => spec_file_lookup(self.files@, path@) is None,
            },
    {
        let mut i: usize = 0;
        proof {
            assert(self.files@.skip(0) =~= self.files@);
        }
        while i < self.files.len()
            invariant
                i <= self.files.len(),
                spec_file_lookup(self.files@, path@) == spec_file_lookup(
                    self.files@.skip(i as int),
                    path@,
                ),
            decreases self.files.len() - i,
        {
            proof {
                assert(self.files@.skip(i as int)[0] == self.files@[i as int]);
                assert(self.files@.skip(i as int).drop_first() =~= self.files@.skip(i as int + 1));
            }
            if str_eq(self.files[i].0.as_str(), path) {
                return Option::Some(&self.files[i].1);
            }
            i = i + 1;
        }
        proof {
            assert(self.files@.skip(self.files@.len() as int) =~= Seq::<(String, Document)>::empty());
        }
        Option::None
    }

    /// The cache hit of the path resolver: a recorded child location is
    /// returned without touching the filesystem.
    #[verifier::loop_isolation(false)]
    pub fn lookup_child(&self, base: &str, child: &str) -> (r: Option<Option<String>>)
        ensures
            match r {
                Option::Some(l) => spec_child_lookup(self.children@, base@, child@)
                    == Option::Some(l),
                Option::None => spec_child_lookup(self.children@, base@, child@) is None,
            },
    {
        let mut i: usize = 0;
        proof {
            assert(self.children@.skip(0) =~= self.children@);
        }
        while i < self.children.len()
            invariant
                i <= self.children.len(),
                spec_child_lookup(self.children@, base@, child@) == spec_child_lookup(
                    self.children@.skip(i as int),
                    base@,
                    child@,
                ),
            decreases self.children.len() - i,
        {
            proof {
                assert(self.children@.skip(i as int)[0] == self.children@[i as int]);
                assert(self.children@.skip(i as int).drop_first() =~= self.children@.skip(
                    i as int + 1,
                ));
            }
            if str_eq(self.children[i].0.as_str(), base) && str_eq(
                self.children[i].1.as_str(),
                child,
            ) {
                let location = match &self.children[i].2 {
                    Option::Some(l) => Option::Some(l.clone()),
                    Option::None => Option::None,
                };
                return Option::Some(location);
            }
            i = i + 1;
        }
        proof {
            assert(self.children@.skip(self.children@.len() as int) =~= Seq::<(
                String,
                String,
                Option<String>,
            )>::empty());
        }
        Option::None
    }
}

/// One answer of the resolver: a fully resolved step, a failure, or a request
/// for something the workspace does not hold yet.
pub enum Resolution {
    /// The step, with every dependency recursively resolved.
    Done(Step),
    /// Resolution failed; the error is final.
    Fail(BuildError),
    /// The document at this canonical path is needed: load and record it,
    /// then resolve again.
    NeedFile(String),
    /// The location of this child reference (referrer, child name) is needed:
    /// resolve and record it, then resolve again.
    NeedChild(String, String),
}

/// The mathematical image of a [`Resolution`].
pub enum ResolutionModel {
    Done(StepModel),
    Fail(ErrModel),
    NeedFile(Seq<char>),
    NeedChild(Seq<char>, Seq<char>),
}

/// Does the executable answer carry exactly the contents of the model?
pub open spec fn resolution_models(r: Resolution, m: ResolutionModel) -> bool {
    match (r, m) {
        (Resolution::Done(s), ResolutionModel::Done(sm)) => step_models(s, sm),
        (Resolution::Fail(e), ResolutionModel::Fail(em)) => err_models(e, em),
        (Resolution::NeedFile(p), ResolutionModel::NeedFile(pm)) => p@ == pm,
        (Resolution::NeedChild(b, c), ResolutionModel::NeedChild(bm, cm)) => b@ == bm && c@ == cm,
        _ => false,
    }
}

/// The outcome of resolving a step's dependency list: every dependency
/// resolved, in declared order, or the first failure or request.
enum DepsOutcome {
    Resolved(Vec<Step>),
    Stopped(Resolution),
}

/// The mathematical image of a [`DepsOutcome`].
pub enum DepsOutcomeModel {
    Resolved(Seq<StepModel>),
    Stopped(ResolutionModel),
}

spec fn deps_models(r: DepsOutcome, m: DepsOutcomeModel) -> bool {
    match (r, m) {
        (DepsOutcome::Resolved(v), DepsOutcomeModel::Resolved(ms)) => v.len() == ms.len()
            && (forall|i: int|
            0 <= i < ms.len() ==> step_models(#[trigger] v[i], ms[i])),
        (DepsOutcome::Stopped(a), DepsOutcomeModel::Stopped(b)) => resolution_models(a, b),
        _ => false,
    }
}

/// The view of an optional step name.
pub open spec fn opt_name_view(name: Option<String>) -> Option<Seq<char>> {
    match name {
        Option::Some(n) => Option::Some(n@),
        Option::None => Option::None,
    }
}

/// What resolving `name` against the document at `path` yields, against a
/// given workspace and with a given recursion budget. This is the resolution
/// algorithm itself:
/// the document is taken from the workspace (or requested); an absent name
/// falls back to the document's declared default, then to a step literally
/// named `default`, and otherwise the resolution fails with a missing step.
pub open spec fn spec_resolve(
    name: Option<Seq<char>>,
    path: Seq<char>,
    files: Seq<(String, Document)>,
    children: Seq<(String, String, Option<String>)>,
    fuel: nat,
) -> ResolutionModel
    decreases fuel, 3int, 0int,
{
    if fuel == 0 {
        ResolutionModel::Fail(ErrModel::Cycle(path))
    } else {
        match spec_file_lookup(files, path) {
            Option::None => ResolutionModel::NeedFile(path),
            Option::Some(doc) => {
                let effective: Option<Seq<char>> = match name {
                    Option::Some(n) => Option::Some(n),
                    Option::None => match doc.default {
                        Option::Some(d) => Option::Some(d@),
                        Option::None => if spec_lookup(doc.steps@, "default"@) is Some {
                            Option::Some("default"@)
                        } else {
                            Option::None
                        },
                    },
                };
                match effective {
                    Option::None => ResolutionModel::Fail(ErrModel::MissingStep("default"@)),
                    Option::Some(n) => spec_resolve_in_doc(n, path, doc, files, children, fuel),
                }
            },
        }
    }
}

/// Resolving a known effective name against a known document: a name with no
/// delimiter is looked up as a step of this document and otherwise tried as a
/// child-file reference; a name with a delimiter descends into the child file
/// named by its first segment. A name that is empty or has an empty leading
/// segment is malformed.
pub open spec fn spec_resolve_in_doc(
    n: Seq<char>,
    path: Seq<char>,
    doc: Document,
    files: Seq<(String, Document)>,
    children: Seq<(String, String, Option<String>)>,
    fuel: nat,
) -> ResolutionModel
    decreases fuel, 2int, 0int,
{
    if fuel == 0 {
        ResolutionModel::Fail(ErrModel::Cycle(path))
    } else if n.len() == 0 {
        ResolutionModel::Fail(ErrModel::InvalidStep(n))
    } else {
        let fd = first_delim(n);
        if fd == 0 {
            ResolutionModel::Fail(ErrModel::InvalidStep(n))
        } else if fd < 0 {
            match spec_lookup(doc.steps@, n) {
                Option::Some(raw) => spec_generate_step(raw, path, files, children, fuel),
                Option::None => match spec_child_lookup(children, path, n) {
                    Option::None => ResolutionModel::NeedChild(path, n),
                    Option::Some(Option::None) => ResolutionModel::Fail(ErrModel::MissingStep(n)),
                    Option::Some(Option::Some(cp)) => spec_resolve(
                        Option::None,
                        cp@,
                        files,
                        children,
                        (fuel - 1) as nat,
                    ),
                },
            }
        } else {
            let head = n.take(fd);
            let rest = n.skip(fd + 2);
            match spec_child_lookup(children, path, head) {
                Option::None => ResolutionModel::NeedChild(path, head),
                Option::Some(Option::None) => ResolutionModel::Fail(ErrModel::InvalidPath(head)),
                Option::Some(Option::Some(cp)) => spec_resolve(
                    Option::Some(rest),
                    cp@,
                    files,
                    children,
                    (fuel - 1) as nat,
                ),
            }
        }
    }
}

/// Materializing one raw step of the document at `path`: commands and
/// dependency references are normalized, flags take their documented
/// defaults, and every dependency reference is recursively resolved. A
/// dependency that fails to resolve fails the whole step.
pub open spec fn spec_generate_step(
    raw: RawStep,
    path: Seq<char>,
    files: Seq<(String, Document)>,
    children: Seq<(String, String, Option<String>)>,
    fuel: nat,
) -> ResolutionModel
    decreases fuel, 1int, 0int,
{
    let tokens = filter_nonempty(spec_dep_tokens(raw.depends));
    match spec_resolve_deps(tokens, path, files, children, fuel) {
        DepsOutcomeModel::Stopped(r) => r,
        DepsOutcomeModel::Resolved(ds) => ResolutionModel::Done(
            StepModel {
                command: spec_command_lines(raw.command),
                env: raw.env.deep_view(),
                dir: path,
                asynch: match raw.asynch {
                    Option::Some(b) => b,
                    Option::None => false,
                },
                dependencies: ds,
                in_order: match raw.in_order {
                    Option::Some(b) => b,
                    Option::None => false,
                },
                quiet: match raw.quiet {
                    Option::Some(b) => b,
                    Option::None => false,
                },
                watch: match raw.watch {
                    Option::Some(v) => Option::Some(v.deep_view()),
                    Option::None => Option::None,
                },
            },
        ),
    }
}

/// Resolving a dependency list, left to right: a reference with no delimiter
/// is resolved against the current file; one with a delimiter resolves its
/// first segment as a child file and its second segment as the step name
/// within that child (a dependency reference supports a single level of
/// delimiter; segments past the second are ignored).
pub open spec fn spec_resolve_deps(
    tokens: Seq<String>,
    path: Seq<char>,
    files: Seq<(String, Document)>,
    children: Seq<(String, String, Option<String>)>,
    fuel: nat,
) -> DepsOutcomeModel
    decreases fuel, 0int, tokens.len(),
{
    if fuel == 0 {
        DepsOutcomeModel::Stopped(ResolutionModel::Fail(ErrModel::Cycle(path)))
    } else if tokens.len() == 0 {
        DepsOutcomeModel::Resolved(Seq::empty())
    } else {
        let t = tokens[0]@;
        let fd = first_delim(t);
        let first: ResolutionModel = if fd < 0 {
            spec_resolve(Option::Some(t), path, files, children, (fuel - 1) as nat)
        } else if fd == 0 {
            ResolutionModel::Fail(ErrModel::InvalidStep(t))
        } else {
            let head = t.take(fd);
            let rest = t.skip(fd + 2);
            let target = if first_delim(rest) < 0 {
                rest
            } else {
                rest.take(first_delim(rest))
            };
            match spec_child_lookup(children, path, head) {
                Option::None => ResolutionModel::NeedChild(path, head),
                Option::Some(Option::None) => ResolutionModel::Fail(ErrModel::InvalidPath(head)),
                Option::Some(Option::Some(cp)) => spec_resolve(
                    Option::Some(target),
                    cp@,
                    files,
                    children,
                    (fuel - 1) as nat,
                ),
            }
        };
        match first {
            ResolutionModel::Done(sm) => match spec_resolve_deps(
                tokens.drop_first(),
                path,
                files,
                children,
                fuel,
            ) {
                DepsOutcomeModel::Resolved(ds) => DepsOutcomeModel::Resolved(seq![sm] + ds),
                DepsOutcomeModel::Stopped(r) => DepsOutcomeModel::Stopped(r),
            },
            _ => DepsOutcomeModel::Stopped(first),
        }
    }
}

/// Resolves a step name against the document at a canonical path, using only
/// the workspace: the answer is the one `spec_resolve` gives — a resolved
/// step, a failure, or a request for a missing workspace entry.
pub fn get_step_inner(name: Option<String>, path: &str, ws: &Workspace, fuel: u64) -> (r:
    Resolution)
    ensures
        resolution_models(
            r,
            spec_resolve(opt_name_view(name), path@, ws.files@, ws.children@, fuel as nat),
        ),
    decreases fuel, 3int, 0int,
{
    if fuel == 0 {
        return Resolution::Fail(BuildError::Cycle(path.to_owned()));
    }
    let doc = match ws.lookup_file(path) {
        Option::None => { return Resolution::NeedFile(path.to_owned()) },
        Option::Some(d) => d,
    };
    let effective: String = match name {
        Option::Some(n) => n,
        Option::None => match &doc.default {
            Option::Some(d) => d.clone(),
            Option::None => {
                if lookup_step(doc, "default").is_some() {
                    String::from_str("default")
                } else {
                    return Resolution::Fail(
                        BuildError::MissingStep(String::from_str("default")),
                    );
                }
            },
        },
    };
    resolve_in_doc(effective, path, doc, ws, fuel)
}

/// Resolves an effective step name against a known document of the
/// workspace.
fn resolve_in_doc(n: String, path: &str, doc: &Document, ws: &Workspace, fuel: u64) -> (r:
    Resolution)
    requires
        fuel >= 1,
    ensures
        resolution_models(
            r,
            spec_resolve_in_doc(n@, path@, *doc, ws.files@, ws.children@, fuel as nat),
        ),
    decreases fuel, 2int, 0int,
{
    let n_len = n.as_str().unicode_len();
    if n_len == 0 {
        return Resolution::Fail(BuildError::InvalidStep(n));
    }
    match find_delim(n.as_str()) {
        Option::None => {
            match lookup_step(doc, n.as_str()) {
                Option::Some(raw) => generate_step(raw, path, ws, fuel),
                Option::None => {
                    match ws.lookup_child(path, n.as_str()) {
                        Option::None => Resolution::NeedChild(path.to_owned(), n),
                        Option::Some(Option::None) => Resolution::Fail(
                            BuildError::MissingStep(n),
                        ),
                        Option::Some(Option::Some(cp)) => get_step_inner(
                            Option::None,
                            cp.as_str(),
                            ws,
                            fuel - 1,
                        ),
                    }
                },
            }
        },
        Option::Some(fd) => {
            if fd == 0 {
                return Resolution::Fail(BuildError::InvalidStep(n));
            }
            proof {
                crate::text::lemma_first_delim(n@);
            }
            let head = n.as_str().substring_char(0, fd).to_owned();
            let rest = n.as_str().substring_char(fd + 2, n_len).to_owned();
            proof {
                assert(head@ =~= n@.take(fd as int));
                assert(rest@ =~= n@.skip(fd as int + 2));
            }
            match ws.lookup_child(path, head.as_str()) {
                Option::None => Resolution::NeedChild(path.to_owned(), head),
                Option::Some(Option::None) => Resolution::Fail(BuildError::InvalidPath(head)),
                Option::Some(Option::Some(cp)) => get_step_inner(
                    Option::Some(rest),
                    cp.as_str(),
                    ws,
                    fuel - 1,
                ),
            }
        },
    }
}

/// Materializes one raw step of the document at `path`, resolving its
/// dependencies.
fn generate_step(raw: &RawStep, path: &str, ws: &Workspace, fuel: u64) -> (r: Resolution)
    requires
        fuel >= 1,
    ensures
        resolution_models(
            r,
            spec_generate_step(*raw, path@, ws.files@, ws.children@, fuel as nat),
        ),
    decreases fuel, 1int, 0int,
{
    let tokens = dep_tokens(&raw.depends);
    proof {
        assert(tokens@.skip(0) =~= tokens@);
    }
    match generate_dependencies(&tokens, 0, path, ws, fuel) {
        DepsOutcome::Stopped(r) => r,
        DepsOutcome::Resolved(ds) => {
            let step = Step {
                command: command_lines(&raw.command),
                env: clone_pairs(&raw.env),
                dir: path.to_owned(),
                asynch: match raw.asynch {
                    Option::Some(b) => b,
                    Option::None => false,
                },
                dependencies: ds,
                in_order: match raw.in_order {
                    Option::Some(b) => b,
                    Option::None => false,
                },
                quiet: match raw.quiet {
                    Option::Some(b) => b,
                    Option::None => false,
                },
                watch: match &raw.watch {
                    Option::Some(v) => Option::Some(clone_strings(v)),
                    Option::None => Option::None,
                },
            };
            proof {
                assert(step.env.deep_view() =~= raw.env.deep_view());
                match &raw.watch {
                    Option::Some(v) => {
                        assert(step.watch->Some_0.deep_view() =~= v.deep_view());
                    },
                    Option::None => {},
                }
            }
            Resolution::Done(step)
        },
    }
}

/// Resolves the dependency tokens from position `from` on, left to right.
fn generate_dependencies(
    tokens: &Vec<String>,
    from: usize,
    path: &str,
    ws: &Workspace,
    fuel: u64,
) -> (r: DepsOutcome)
    requires
        fuel >= 1,
        from <= tokens.len(),
    ensures
        deps_models(
            r,
            spec_resolve_deps(
                tokens@.skip(from as int),
                path@,
                ws.files@,
                ws.children@,
                fuel as nat,
            ),
        ),
    decreases fuel, 0int, tokens.len() - from,
{
    if from == tokens.len() {
        proof {
            assert(tokens@.skip(from as int) =~= Seq::<String>::empty());
        }
        return DepsOutcome::Resolved(Vec::new());
    }
    proof {
        assert(tokens@.skip(from as int)[0] == tokens@[from as int]);
        assert(tokens@.skip(from as int).drop_first() =~= tokens@.skip(from as int + 1));
    }
    let token = &tokens[from];
    let first: Resolution = match find_delim(token.as_str()) {
        Option::None => get_step_inner(Option::Some(token.clone()), path, ws, fuel - 1),
        Option::Some(fd) => {
            if fd == 0 {
                Resolution::Fail(BuildError::InvalidStep(token.clone()))
            } else {
                proof {
                    crate::text::lemma_first_delim(token@);
                }
                let t_len = token.as_str().unicode_len();
                let head = token.as_str().substring_char(0, fd).to_owned();
                let rest = token.as_str().substring_char(fd + 2, t_len);
                proof {
                    assert(head@ =~= token@.take(fd as int));
                    assert(rest@ =~= token@.skip(fd as int + 2));
                }
                let target: String = match find_delim(rest) {
                    Option::None => rest.to_owned(),
                    Option::Some(fd2) => {
                        proof {
                            crate::text::lemma_first_delim(rest@);
                        }
                        rest.substring_char(0, fd2).to_owned()
                    },
                };
                proof {
                    if first_delim(rest@) >= 0 {
                        assert(target@ =~= rest@.take(first_delim(rest@)));
                    }
                }
                match ws.lookup_child(path, head.as_str()) {
                    Option::None => Resolution::NeedChild(path.to_owned(), head),
                    Option::Some(Option::None) => Resolution::Fail(
                        BuildError::InvalidPath(head),
                    ),
                    Option::Some(Option::Some(cp)) => get_step_inner(
                        Option::Some(target),
                        cp.as_str(),
                        ws,
                        fuel - 1,
                    ),
                }
            }
        },
    };
    match first {
        Resolution::Done(step) => {
            match generate_dependencies(tokens, from + 1, path, ws, fuel) {
                DepsOutcome::Resolved(mut ds) => {
                    ds.insert(0, step);
                    DepsOutcome::Resolved(ds)
                },
                DepsOutcome::Stopped(r) => DepsOutcome::Stopped(r),
            }
        },
        other => DepsOutcome::Stopped(other),
    }
}

} // verus!
