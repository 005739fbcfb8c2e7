//! Asset resolution: a normalized request path is looked up against a
//! snapshot of what the filesystem answers, honouring hidden-file policy,
//! root containment after canonicalization, and directory-to-index
//! rewriting.
//!
//! The filesystem itself is outside this crate; it enters as answers to two
//! queries, canonicalization and file-kind lookup. `FsView` holds such
//! answers as data, and the resolver also comes as a step machine
//! (`resolve_start` / `resolve_next`) whose queries a host can answer with
//! live filesystem calls.

use vstd::prelude::*;

use crate::config::Args;
use crate::normalize::normalize_path;
use crate::normalize::normalize_spec;
use crate::text::views_of;
use crate::text::str_eq;
use crate::text::view_opt;

verus! {

/// What a filesystem lookup says a path is.
#[derive(Clone, Copy, Debug, PartialEq, Eq, Structural)]
pub enum FileKind {
    /// A regular file.
    File,
    /// A directory.
    Directory,
    /// Missing, or not a regular file or directory.
    Absent,
}

/// Where a request path came from. Client-sourced paths are subject to the
/// hidden-file and containment policy; server-sourced paths (operator
/// configured fallback targets) bypass the hidden-file check.
#[derive(Clone, Copy, Debug, PartialEq, Eq, Structural)]
pub enum PathSource {
    Client,
    Server,
}

/// One filesystem answer: what `path` canonicalizes to, and what kind of
/// entry that is. A path absent from the snapshot fails canonicalization and
/// has kind `Absent`.
pub struct FsNode {
    pub path: String,
    pub canonical: String,
    pub kind: FileKind,
}

/// A snapshot of filesystem answers, keyed by path; the first entry for a
/// path wins.
pub struct FsView {
    pub nodes: Vec<FsNode>,
}

/// The first node recorded for a path.
pub open spec fn find_node(nodes: Seq<FsNode>, p: Seq<char>) -> Option<FsNode>
    decreases nodes.len(),
{
    if nodes.len() == 0 {
        None
    } else if nodes.first().path@ == p {
        Some(nodes.first())
    } else {
        find_node(nodes.drop_first(), p)
    }
}

/// What the snapshot says a path canonicalizes to; `None` is a
/// canonicalization failure.
pub open spec fn canonical_spec(nodes: Seq<FsNode>, p: Seq<char>) -> Option<Seq<char>> {
    match find_node(nodes, p) {
        None => None,
        Some(n) => Some(n.canonical@),
    }
}

/// What kind of entry the snapshot says a path is.
pub open spec fn kind_spec(nodes: Seq<FsNode>, p: Seq<char>) -> FileKind {
    match find_node(nodes, p) {
        None => FileKind::Absent,
        Some(n) => n.kind,
    }
}

impl FsView {
    /// The snapshot's answer to a canonicalization query.
    pub fn canonicalize(&self, p: &str) -> (r: Option<String>)
        ensures
            view_opt(r) == canonical_spec(self.nodes@, p@),
    {
        let n = self.nodes.len();
        let mut i: usize = 0;
        proof {
            assert(self.nodes@.skip(0) =~= self.nodes@);
        }
        while i < n
            invariant
                i <= n,
                n == self.nodes@.len(),
                find_node(self.nodes@, p@) == find_node(self.nodes@.skip(i as int), p@),
            decreases n - i,
        {
            proof {
                assert(self.nodes@.skip(i as int).first() == self.nodes@[i as int]);
                assert(self.nodes@.skip(i as int).drop_first() =~= self.nodes@.skip(i + 1));
            }
            if str_eq(self.nodes[i].path.as_str(), p) {
                return Some(self.nodes[i].canonical.clone());
            }
            i = i + 1;
        }
        proof {
            assert(self.nodes@.skip(n as int).len() == 0);
        }
        None
    }

    /// The snapshot's answer to a file-kind query.
    pub fn kind_of(&self, p: &str) -> (k: FileKind)
        ensures
            k == kind_spec(self.nodes@, p@),
    {
        let n = self.nodes.len();
        let mut i: usize = 0;
        proof {
            assert(self.nodes@.skip(0) =~= self.nodes@);
        }
        while i < n
            invariant
                i <= n,
                n == self.nodes@.len(),
                find_node(self.nodes@, p@) == find_node(self.nodes@.skip(i as int), p@),
            decreases n - i,
        {
            proof {
                assert(self.nodes@.skip(i as int).first() == self.nodes@[i as int]);
                assert(self.nodes@.skip(i as int).drop_first() =~= self.nodes@.skip(i + 1));
            }
            if str_eq(self.nodes[i].path.as_str(), p) {
                return self.nodes[i].kind;
            }
            i = i + 1;
        }
        proof {
            assert(self.nodes@.skip(n as int).len() == 0);
        }
        FileKind::Absent
    }
}

/// Joining one path under another with a separator.
pub open spec fn join_spec(base: Seq<char>, rel: Seq<char>) -> Seq<char> {
    base + seq!['/'] + rel
}

/// Joins a relative path under a base path.
pub fn join_path(base: &str, rel: &str) -> (r: String)
    ensures
        r@ == join_spec(base@, rel@),
{
    let mut s = String::from_str(base);
    s.append("/");
    s.append(rel);
    proof {
        reveal_strlit("/");
        assert("/"@.len() == 1);
        assert(s@ =~= join_spec(base@, rel@));
    }
    s
}

/// Segments joined with separators: empty for no segments, otherwise the
/// segments with one `/` between each pair.
pub open spec fn joined_segments(segs: Seq<Seq<char>>) -> Seq<char>
    decreases segs.len(),
{
    if segs.len() == 0 {
        Seq::empty()
    } else if segs.len() == 1 {
        segs[0]
    } else {
        joined_segments(segs.drop_last()) + seq!['/'] + segs.last()
    }
}

/// Joins a segment list into one path string.
pub fn join_segments(segs: &Vec<String>) -> (r: String)
    ensures
        r@ == joined_segments(views_of(segs@)),
{
    let ghost all = views_of(segs@);
    let mut s = String::new();
    let n = segs.len();
    let mut i: usize = 0;
    proof {
        assert(all.take(0) =~~= Seq::<Seq<char>>::empty());
    }
    while i < n
        invariant
            i <= n,
            n == segs@.len(),
            all == views_of(segs@),
            s@ == joined_segments(all.take(i as int)),
        decreases n - i,
    {
        if i > 0 {
            s.append("/");
        }
        s.append(segs[i].as_str());
        proof {
            reveal_strlit("/");
            assert("/"@.len() == 1);
            let t = all.take(i + 1);
            assert(t.drop_last() =~~= all.take(i as int));
            assert(t.last() == all[i as int]);
            if i == 0 {
                assert(s@ =~= all[0]);
                assert(t.len() == 1);
                assert(t[0] == all[0]);
            } else {
                assert(s@ =~= joined_segments(all.take(i as int)) + seq!['/'] + all[i as int]);
            }
        }
        i = i + 1;
    }
    proof {
        assert(all.take(n as int) =~~= all);
    }
    s
}

/// Whether `target` lies at or under `root`, compared on whole segments: the
/// paths are equal, or `target` continues `root` right after a separator.
pub open spec fn within_root_spec(target: Seq<char>, root: Seq<char>) -> bool {
    target == root || (target.len() > root.len() && target.take(root.len() as int) == root && (
    (root.len() > 0 && root.last() == '/') || target[root.len() as int] == '/'))
}

/// Decides containment of a canonical target under the canonical root.
pub fn path_within_root(target: &str, root: &str) -> (b: bool)
    ensures
        b == within_root_spec(target@, root@),
{
    let n = target.unicode_len();
    let m = root.unicode_len();
    if n < m {
        proof {
            if target@ == root@ {
                assert(target@.len() == root@.len());
            }
        }
        return false;
    }
    let mut i: usize = 0;
    while i < m
        invariant
            i <= m,
            m == root@.len(),
            m <= n,
            n == target@.len(),
            forall|j: int| 0 <= j < i ==> target@[j] == root@[j],
        decreases m - i,
    {
        if target.get_char(i) != root.get_char(i) {
            proof {
                if target@ == root@ {
                    assert(target@[i as int] == root@[i as int]);
                }
                if target@.take(m as int) == root@ {
                    assert(target@.take(m as int)[i as int] == root@[i as int]);
                }
            }
            return false;
        }
        i = i + 1;
    }
    proof {
        assert(target@.take(m as int) =~= root@);
    }
    if n == m {
        proof {
            assert(target@ =~= root@);
        }
        return true;
    }
    if m > 0 && root.get_char(m - 1) == '/' {
        return true;
    }
    target.get_char(m) == '/'
}

/// The extension search, scanning from the end with the characters already
/// passed in `acc`: a separator or the string's start ends the search; a dot
/// yields `acc` unless the name starts with that dot.
pub open spec fn ext_rec(p: Seq<char>, acc: Seq<char>) -> Option<Seq<char>>
    decreases p.len(),
{
    if p.len() == 0 {
        None
    } else if p.last() == '/' {
        None
    } else if p.last() == '.' {
        if p.len() == 1 || p[p.len() - 2] == '/' {
            None
        } else {
            Some(acc)
        }
    } else {
        ext_rec(p.drop_last(), seq![p.last()] + acc)
    }
}

/// The extension of the file a path names: what follows the last dot of the
/// final segment, unless that segment starts with its only dot.
pub open spec fn ext_spec(p: Seq<char>) -> Option<Seq<char>> {
    ext_rec(p, Seq::empty())
}

/// Extracts a path's extension.
pub fn extension_of(path: &str) -> (r: Option<String>)
    ensures
        view_opt(r) == ext_spec(path@),
{
    let n = path.unicode_len();
    let mut i: usize = n;
    proof {
        assert(path@.take(n as int) =~= path@);
        assert(path@.skip(n as int) =~= Seq::<char>::empty());
    }
    while i > 0
        invariant
            i <= n,
            n == path@.len(),
            ext_spec(path@) == ext_rec(path@.take(i as int), path@.skip(i as int)),
        decreases i,
    {
        proof {
            let t = path@.take(i as int);
            assert(t.last() == path@[i - 1]);
            assert(t.drop_last() =~= path@.take(i - 1));
        }
        let c = path.get_char(i - 1);
        if c == '/' {
            return None;
        }
        if c == '.' {
            if i == 1 || path.get_char(i - 2) == '/' {
                return None;
            }
            let e = String::from_str(path.substring_char(i, n));
            proof {
                assert(e@ =~= path@.skip(i as int));
            }
            return Some(e);
        }
        proof {
            assert(seq![path@[i - 1]] + path@.skip(i as int) =~= path@.skip(i - 1));
        }
        i = i - 1;
    }
    None
}

/// Whether the last segment names a hidden file: it starts with a dot.
pub open spec fn is_hidden_name(segs: Seq<Seq<char>>) -> bool {
    segs.len() > 0 && segs.last().len() > 0 && segs.last()[0] == '.'
}

/// Decides whether a normalized segment list ends in a hidden name.
pub fn last_is_hidden(segs: &Vec<String>) -> (b: bool)
    ensures
        b == is_hidden_name(views_of(segs@)),
{
    let n = segs.len();
    if n == 0 {
        return false;
    }
    let last = &segs[n - 1];
    proof {
        assert(views_of(segs@).last() == last@);
    }
    if last.as_str().unicode_len() == 0 {
        return false;
    }
    last.as_str().get_char(0) == '.'
}

/// A successfully resolved asset: the final canonical file path and its
/// extension, from which the cache policy is derived.
pub struct ResolvedAsset {
    pub path: String,
    pub ext: Option<String>,
}

/// The last step of resolution: the target must be a regular file.
pub open spec fn resolve_final(nodes: Seq<FsNode>, t: Seq<char>) -> Option<Seq<char>> {
    if kind_spec(nodes, t) is File {
        Some(t)
    } else {
        None
    }
}

/// Directory-to-index rewriting: a directory target turns into its
/// `index.html`, canonicalized again; anything else is checked as it is.
pub open spec fn resolve_from_target(nodes: Seq<FsNode>, target: Seq<char>) -> Option<Seq<char>> {
    if kind_spec(nodes, target) is Directory {
        match canonical_spec(nodes, join_spec(target, "index.html"@)) {
            None => None,
            Some(c) => resolve_final(nodes, c),
        }
    } else {
        resolve_final(nodes, target)
    }
}

/// The containment gate, then the rest of resolution: a client-sourced
/// target outside the root fails unless symlink-following is allowed.
pub open spec fn resolve_checked(
    nodes: Seq<FsNode>,
    target: Seq<char>,
    client: bool,
    follow_links: bool,
    root: Seq<char>,
) -> Option<Seq<char>> {
    if client && !follow_links && !within_root_spec(target, root) {
        None
    } else {
        resolve_from_target(nodes, target)
    }
}

/// The whole resolution pipeline: normalize, apply the hidden-file policy,
/// join to the root (the empty path becomes the configured index file,
/// uncanonicalized; anything else is canonicalized), check containment, and
/// rewrite directories to their index.
pub open spec fn resolve_spec(
    nodes: Seq<FsNode>,
    path: Seq<char>,
    source: PathSource,
    args: Args,
) -> Option<Seq<char>> {
    match normalize_spec(path) {
        None => None,
        Some(segs) => {
            let client = source is Client;
            if client && !args.all && is_hidden_name(segs) {
                None
            } else if segs.len() == 0 {
                resolve_checked(
                    nodes,
                    join_spec(args.dir.canonical@, args.index@),
                    client,
                    args.follow_links,
                    args.dir.canonical@,
                )
            } else {
                match canonical_spec(
                    nodes,
                    join_spec(args.dir.canonical@, joined_segments(segs)),
                ) {
                    None => None,
                    Some(c) => resolve_checked(
                        nodes,
                        c,
                        client,
                        args.follow_links,
                        args.dir.canonical@,
                    ),
                }
            }
        },
    }
}

/// What the resolver waits for between queries.
pub enum ResolvePhase {
    /// The joined request path is being canonicalized.
    AwaitTargetCanonical,
    /// The kind of `target` is being looked up.
    AwaitTargetKind { target: String },
    /// The directory's index file is being canonicalized.
    AwaitIndexCanonical,
    /// The kind of the final `target` is being looked up.
    AwaitFinalKind { target: String },
}

/// The resolver's state between filesystem queries.
pub struct Resolver {
    pub client: bool,
    pub follow_links: bool,
    pub root: String,
    pub phase: ResolvePhase,
}

/// A filesystem query the resolver asks its host to answer.
pub enum FsQuery {
    Canonicalize(String),
    Lookup(String),
}

/// The host's answer to a filesystem query.
pub enum FsAnswer {
    Canonical(Option<String>),
    Kind(FileKind),
}

/// One step of the resolver: a query with the state to resume from, or the
/// outcome.
pub enum ResolveStep {
    Query(FsQuery, Resolver),
    Done(Option<ResolvedAsset>),
}

/// How many queries a phase may still ask.
pub open spec fn phase_rank(p: ResolvePhase) -> nat {
    match p {
        ResolvePhase::AwaitTargetCanonical => 4,
        ResolvePhase::AwaitTargetKind { .. } => 3,
        ResolvePhase::AwaitIndexCanonical => 2,
        ResolvePhase::AwaitFinalKind { .. } => 1,
    }
}

/// How many queries a step may still ask.
pub open spec fn step_rank(s: ResolveStep) -> nat {
    match s {
        ResolveStep::Query(_, r) => phase_rank(r.phase),
        ResolveStep::Done(_) => 0,
    }
}

/// Whether an answer reports the snapshot's truth about the query.
pub open spec fn answer_truthful(nodes: Seq<FsNode>, q: FsQuery, ans: FsAnswer) -> bool {
    match (q, ans) {
        (FsQuery::Canonicalize(p), FsAnswer::Canonical(c)) => view_opt(c) == canonical_spec(
            nodes,
            p@,
        ),
        (FsQuery::Lookup(p), FsAnswer::Kind(k)) => k == kind_spec(nodes, p@),
        _ => false,
    }
}

/// The step's meaning against a snapshot: continuing it with truthful
/// answers ends in `expect`. A finished step must carry `expect` itself,
/// with the extension drawn from the final path.
pub open spec fn step_denotation_ok(
    nodes: Seq<FsNode>,
    step: ResolveStep,
    expect: Option<Seq<char>>,
) -> bool {
    match step {
        ResolveStep::Done(opt) => match opt {
            None => expect is None,
            Some(a) => expect == Some(a.path@) && view_opt(a.ext) == ext_spec(a.path@),
        },
        ResolveStep::Query(q, r) => match (q, r.phase) {
            (FsQuery::Canonicalize(p), ResolvePhase::AwaitTargetCanonical) => (match canonical_spec(
                nodes,
                p@,
            ) {
                None => None,
                Some(c) => resolve_checked(nodes, c, r.client, r.follow_links, r.root@),
            }) == expect,
            (FsQuery::Lookup(p), ResolvePhase::AwaitTargetKind { target }) => p@ == target@
                && resolve_from_target(nodes, target@) == expect,
            (FsQuery::Canonicalize(p), ResolvePhase::AwaitIndexCanonical) => (match canonical_spec(
                nodes,
                p@,
            ) {
                None => None,
                Some(c) => resolve_final(nodes, c),
            }) == expect,
            (FsQuery::Lookup(p), ResolvePhase::AwaitFinalKind { target }) => p@ == target@
                && resolve_final(nodes, target@) == expect,
            _ => false,
        },
    }
}

/// Builds the resolved asset for a final file path.
fn make_asset(path: String) -> (a: ResolvedAsset)
    ensures
        a.path@ == path@,
        view_opt(a.ext) == ext_spec(path@),
{
    let ext = extension_of(path.as_str());
    ResolvedAsset { path, ext }
}

/// Starts resolving a request path: the pure front of the pipeline
/// (normalization and hidden-file policy) runs at once; the first step that
/// needs the filesystem is returned as a query.
///
/// Whatever snapshot the host's answers are drawn from, continuing this step
/// truthfully ends in `resolve_spec` for that snapshot.
pub fn resolve_start(path: &str, source: PathSource, args: &Args) -> (step: ResolveStep)
    ensures
        forall|nodes: Seq<FsNode>| #[trigger] step_denotation_ok(
            nodes,
            step,
            resolve_spec(nodes, path@, source, *args),
        ),
{
    let client = match source {
        PathSource::Client => true,
        PathSource::Server => false,
    };
    let segs = match normalize_path(path) {
        Ok(v) => v,
        Err(_) => {
            return ResolveStep::Done(None);
        },
    };
    if client && !args.all && last_is_hidden(&segs) {
        return ResolveStep::Done(None);
    }
    let root = args.dir.canonical.clone();
    if segs.len() == 0 {
        let target = join_path(root.as_str(), args.index.as_str());
        if client && !args.follow_links && !path_within_root(target.as_str(), root.as_str()) {
            return ResolveStep::Done(None);
        }
        let t2 = target.clone();
        ResolveStep::Query(
            FsQuery::Lookup(target),
            Resolver {
                client,
                follow_links: args.follow_links,
                root,
                phase: ResolvePhase::AwaitTargetKind { target: t2 },
            },
        )
    } else {
        let rel = join_segments(&segs);
        let q = join_path(root.as_str(), rel.as_str());
        ResolveStep::Query(
            FsQuery::Canonicalize(q),
            Resolver {
                client,
                follow_links: args.follow_links,
                root,
                phase: ResolvePhase::AwaitTargetCanonical,
            },
        )
    }
}

/// Advances the resolver by one answered query.
///
/// If the pending step was sound for a snapshot and the answer reports that
/// snapshot's truth, the returned step is sound for it too; an answer of the
/// wrong shape resolves to nothing. Every step strictly shrinks the number
/// of queries left.
pub fn resolve_next(r: Resolver, ans: FsAnswer) -> (step: ResolveStep)
    ensures
        forall|nodes: Seq<FsNode>, q: FsQuery, expect: Option<Seq<char>>|
            #[trigger] step_denotation_ok(nodes, ResolveStep::Query(q, r), expect)
                && answer_truthful(nodes, q, ans) ==> step_denotation_ok(nodes, step, expect),
        step_rank(step) < phase_rank(r.phase),
{
    let Resolver { client, follow_links, root, phase } = r;
    match phase {
        ResolvePhase::AwaitTargetCanonical => match ans {
            FsAnswer::Canonical(copt) => match copt {
                None => ResolveStep::Done(None),
                Some(c) => {
                    if client && !follow_links && !path_within_root(c.as_str(), root.as_str()) {
                        ResolveStep::Done(None)
                    } else {
                        let t2 = c.clone();
                        ResolveStep::Query(
                            FsQuery::Lookup(c),
                            Resolver {
                                client,
                                follow_links,
                                root,
                                phase: ResolvePhase::AwaitTargetKind { target: t2 },
                            },
                        )
                    }
                },
            },
            FsAnswer::Kind(_) => ResolveStep::Done(None),
        },
        ResolvePhase::AwaitTargetKind { target } => match ans {
            FsAnswer::Kind(k) => match k {
                FileKind::File => ResolveStep::Done(Some(make_asset(target))),
                FileKind::Directory => {
                    let q = join_path(target.as_str(), "index.html");
                    ResolveStep::Query(
                        FsQuery::Canonicalize(q),
                        Resolver {
                            client,
                            follow_links,
                            root,
                            phase: ResolvePhase::AwaitIndexCanonical,
                        },
                    )
                },
                FileKind::Absent => ResolveStep::Done(None),
            },
            FsAnswer::Canonical(_) => ResolveStep::Done(None),
        },
        ResolvePhase::AwaitIndexCanonical => match ans {
            FsAnswer::Canonical(copt) => match copt {
                None => ResolveStep::Done(None),
                Some(c) => {
                    let t2 = c.clone();
                    ResolveStep::Query(
                        FsQuery::Lookup(c),
                        Resolver {
                            client,
                            follow_links,
                            root,
                            phase: ResolvePhase::AwaitFinalKind { target: t2 },
                        },
                    )
                },
            },
            FsAnswer::Kind(_) => ResolveStep::Done(None),
        },
        ResolvePhase::AwaitFinalKind { target } => match ans {
            FsAnswer::Kind(k) => match k {
                FileKind::File => ResolveStep::Done(Some(make_asset(target))),
                FileKind::Directory => ResolveStep::Done(None),
                FileKind::Absent => ResolveStep::Done(None),
            },
            FsAnswer::Canonical(_) => ResolveStep::Done(None),
        },
    }
}

/// Resolves a request path against a snapshot by driving the step machine
/// and answering its queries from the snapshot.
pub fn resolve_in(fs: &FsView, path: &str, source: PathSource, args: &Args) -> (r: Option<
    ResolvedAsset,
>)
    ensures
        match r {
            Some(a) => resolve_spec(fs.nodes@, path@, source, *args) == Some(a.path@) && view_opt(
                a.ext,
            ) == ext_spec(a.path@),
            None => resolve_spec(fs.nodes@, path@, source, *args) is None,
        },
{
    let ghost expect = resolve_spec(fs.nodes@, path@, source, *args);
    let mut step = resolve_start(path, source, args);
    loop
        invariant
            expect == resolve_spec(fs.nodes@, path@, source, *args),
            step_denotation_ok(fs.nodes@, step, expect),
        decreases step_rank(step),
    {
        match step {
            ResolveStep::Done(res) => {
                return res;
            },
            ResolveStep::Query(q, pending) => {
                let ghost gq = q;
                let ghost gpending = pending;
                let ans = match &q {
                    FsQuery::Canonicalize(p) => FsAnswer::Canonical(fs.canonicalize(p.as_str())),
                    FsQuery::Lookup(p) => FsAnswer::Kind(fs.kind_of(p.as_str())),
                };
                proof {
                    assert(answer_truthful(fs.nodes@, gq, ans));
                    assert(step_denotation_ok(fs.nodes@, ResolveStep::Query(gq, gpending), expect));
                }
                step = resolve_next(pending, ans);
            },
        }
    }
}

/// A path joined under a base lies within it.
proof fn lemma_join_within(base: Seq<char>, rel: Seq<char>)
    ensures
        within_root_spec(join_spec(base, rel), base),
{
    let j = join_spec(base, rel);
    assert(j.len() > base.len());
    assert(j.take(base.len() as int) =~= base);
    assert(j[base.len() as int] == '/');
}

/// The containment invariant: for a client request with symlink-following
/// disabled, a resolved asset lies within the canonical root, or is the
/// canonicalized `index.html` of a directory that does. The containment
/// check runs on the canonicalized target, before the directory-to-index
/// rewrite: the rewritten `index.html` is not checked again, so an
/// `index.html` that is itself a symlink out of the root can still be
/// served from a directory inside it.
pub proof fn lemma_client_asset_contained(nodes: Seq<FsNode>, path: Seq<char>, args: Args)
    requires
        !args.follow_links,
    ensures
        resolve_spec(nodes, path, PathSource::Client, args) matches Some(t) ==> within_root_spec(
            t,
            args.dir.canonical@,
        ) || (exists|d: Seq<char>|
            within_root_spec(d, args.dir.canonical@) && kind_spec(nodes, d) is Directory
                && canonical_spec(nodes, join_spec(d, "index.html"@)) == Some(t)),
{
    let root = args.dir.canonical@;
    if resolve_spec(nodes, path, PathSource::Client, args) is Some {
        let t = resolve_spec(nodes, path, PathSource::Client, args)->Some_0;
        let segs = normalize_spec(path)->Some_0;
        let target = if segs.len() == 0 {
            join_spec(root, args.index@)
        } else {
            canonical_spec(nodes, join_spec(root, joined_segments(segs)))->Some_0
        };
        if segs.len() == 0 {
            lemma_join_within(root, args.index@);
        }
        assert(within_root_spec(target, root));
        if kind_spec(nodes, target) is Directory {
            assert(within_root_spec(target, root) && kind_spec(nodes, target) is Directory
                && canonical_spec(nodes, join_spec(target, "index.html"@)) == Some(t));
        }
    }
}

/// Resolution is a pure function of the snapshot, the path, the origin and
/// the configuration: resolving the same client path twice against an
/// unchanged filesystem yields the same asset path, or the same failure.
/// Together with the contract of `resolve_in`, whose result is pinned to
/// `resolve_spec`, two runs can differ in nothing observable.
pub proof fn lemma_resolution_idempotent(
    nodes1: Seq<FsNode>,
    nodes2: Seq<FsNode>,
    path: Seq<char>,
    source: PathSource,
    args: Args,
)
    requires
        nodes1 == nodes2,
    ensures
        resolve_spec(nodes1, path, source, args) == resolve_spec(nodes2, path, source, args),
{
}

} // verus!
