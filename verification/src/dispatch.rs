//! The request dispatcher's fallback chain: direct asset, then the SPA
//! index for html-accepting requests, then the custom not-found page, then a
//! bodyless not-found response — each step attempted only if the previous
//! failed, so no internal failure ever surfaces as a server error.
//!
//! Like the resolver, the chain comes both as a pure function over a
//! filesystem snapshot (`dispatch`) and as a step machine
//! (`dispatch_start` / `dispatch_next`) whose resolution requests a host
//! answers with live resolver runs.

use vstd::prelude::*;

use crate::config::Args;
use crate::resolve::FsNode;
use crate::resolve::FsView;
use crate::resolve::PathSource;
use crate::resolve::ResolvedAsset;
use crate::resolve::ext_spec;
use crate::resolve::resolve_in;
use crate::resolve::resolve_spec;
use crate::text::eq_ignore_ascii_case;
use crate::text::split_by;
use crate::text::split_by_spec;
use crate::text::str_eq_ignore_ascii_case;
use crate::text::view_opt;

verus! {

/// Whitespace allowed around media types in an `Accept` header.
pub open spec fn is_header_ws(c: char) -> bool {
    c == ' ' || c == '\t'
}

/// A sequence with its leading whitespace removed.
pub open spec fn drop_leading_ws(s: Seq<char>) -> Seq<char>
    decreases s.len(),
{
    if s.len() > 0 && is_header_ws(s.first()) {
        drop_leading_ws(s.drop_first())
    } else {
        s
    }
}

/// A sequence with its trailing whitespace removed.
pub open spec fn drop_trailing_ws(s: Seq<char>) -> Seq<char>
    decreases s.len(),
{
    if s.len() > 0 && is_header_ws(s.last()) {
        drop_trailing_ws(s.drop_last())
    } else {
        s
    }
}

/// The part of a sequence before its first `;`.
pub open spec fn take_until_semi(s: Seq<char>) -> Seq<char>
    decreases s.len(),
{
    if s.len() == 0 {
        Seq::empty()
    } else if s.first() == ';' {
        Seq::empty()
    } else {
        seq![s.first()] + take_until_semi(s.drop_first())
    }
}

/// One entry of a comma-separated `Accept` header reduced to its bare media
/// type: surrounding whitespace trimmed and any parameters after `;`
/// dropped.
pub open spec fn media_item(s: Seq<char>) -> Seq<char> {
    drop_trailing_ws(take_until_semi(drop_leading_ws(s)))
}

/// Whether an `Accept` header value names `text/html` among its media
/// types; media types compare ASCII-case-insensitively.
pub open spec fn accepts_html_spec(header: Seq<char>) -> bool {
    exists|i: int|
        0 <= i < split_by_spec(header, ',').len() && eq_ignore_ascii_case(
            media_item(#[trigger] split_by_spec(header, ',')[i]),
            "text/html"@,
        )
}

/// Whether the character at `i` is header whitespace.
fn ws_at(s: &str, i: usize) -> (b: bool)
    requires
        i < s@.len(),
    ensures
        b == is_header_ws(s@[i as int]),
{
    let c = s.get_char(i);
    c == ' ' || c == '\t'
}

/// Reduces one `Accept` entry to its bare media type.
fn media_item_of(s: &String) -> (r: String)
    ensures
        r@ == media_item(s@),
{
    let n: usize = s.as_str().unicode_len();
    let mut i: usize = 0;
    proof {
        assert(s@.skip(0) =~= s@);
    }
    while i < n && ws_at(s.as_str(), i)
        invariant
            i <= n,
            n == s@.len(),
            drop_leading_ws(s@) == drop_leading_ws(s@.skip(i as int)),
        decreases n - i,
    {
        proof {
            assert(s@.skip(i as int).first() == s@[i as int]);
            assert(s@.skip(i as int).drop_first() =~= s@.skip(i + 1));
        }
        i = i + 1;
    }
    proof {
        let rest = s@.skip(i as int);
        if i < n {
            assert(rest.first() == s@[i as int]);
        }
        assert(drop_leading_ws(s@) == rest);
    }
    let start = i;
    let mut j: usize = i;
    while j < n && s.as_str().get_char(j) != ';'
        invariant
            start <= j <= n,
            n == s@.len(),
            forall|k: int| start <= k < j ==> s@[k] != ';',
        decreases n - j,
    {
        j = j + 1;
    }
    proof {
        lemma_take_until_semi_range(s@, start as int, j as int, n as int);
    }
    let mut k: usize = j;
    while k > start && ws_at(s.as_str(), k - 1)
        invariant
            start <= k <= j,
            j <= n,
            n == s@.len(),
            drop_trailing_ws(s@.subrange(start as int, j as int)) == drop_trailing_ws(
                s@.subrange(start as int, k as int),
            ),
        decreases k,
    {
        proof {
            let t = s@.subrange(start as int, k as int);
            assert(t.last() == s@[k - 1]);
            assert(t.drop_last() =~= s@.subrange(start as int, k - 1));
        }
        k = k - 1;
    }
    proof {
        let t = s@.subrange(start as int, k as int);
        if k > start {
            assert(t.last() == s@[k - 1]);
        }
        assert(drop_trailing_ws(t) == t);
    }
    let r = String::from_str(s.as_str().substring_char(start, k));
    proof {
        assert(r@ =~= s@.subrange(start as int, k as int));
    }
    r
}

/// Between `start` (where leading scanning stopped) and `j` (the first `;`
/// at or after `start`, or the end), `take_until_semi` of the tail is
/// exactly that range.
proof fn lemma_take_until_semi_range(s: Seq<char>, start: int, j: int, n: int)
    requires
        0 <= start <= j <= n,
        n == s.len(),
        forall|k: int| start <= k < j ==> s[k] != ';',
        j < n ==> s[j] == ';',
    ensures
        take_until_semi(s.skip(start)) == s.subrange(start, j),
    decreases j - start,
{
    let rest = s.skip(start);
    if start == j {
        if start < n {
            assert(rest.first() == s[start]);
        }
        assert(take_until_semi(rest) =~= s.subrange(start, j));
    } else {
        assert(rest.first() == s[start]);
        assert(rest.drop_first() =~= s.skip(start + 1));
        lemma_take_until_semi_range(s, start + 1, j, n);
        assert(seq![s[start]] + s.subrange(start + 1, j) =~= s.subrange(start, j));
    }
}

/// Whether the request's `Accept` header indicates html is acceptable:
/// some comma-separated entry's bare media type is `text/html`, in any
/// ASCII case.
pub fn accepts_html(header: &str) -> (b: bool)
    ensures
        b == accepts_html_spec(header@),
{
    let items = split_by(header, ',');
    let n = items.len();
    let mut i: usize = 0;
    while i < n
        invariant
            i <= n,
            n == items@.len(),
            crate::text::views_of(items@) == split_by_spec(header@, ','),
            forall|j: int|
                0 <= j < i ==> !eq_ignore_ascii_case(
                    media_item(#[trigger] split_by_spec(header@, ',')[j]),
                    "text/html"@,
                ),
        decreases n - i,
    {
        let item = media_item_of(&items[i]);
        if str_eq_ignore_ascii_case(item.as_str(), "text/html") {
            proof {
                assert(split_by_spec(header@, ',')[i as int] == items@[i as int]@);
                assert(eq_ignore_ascii_case(
                    media_item(split_by_spec(header@, ',')[i as int]),
                    "text/html"@,
                ));
            }
            return true;
        }
        proof {
            assert(split_by_spec(header@, ',')[i as int] == items@[i as int]@);
        }
        i = i + 1;
    }
    false
}

/// The dispatcher's outcome: the asset to serve, if any, and the status the
/// response must carry — `None` lets the file-serving primitive decide
/// (ordinary or conditional success), `Some(200)` marks the SPA fallback,
/// `Some(404)` the not-found paths.
pub struct ResponsePlan {
    pub asset: Option<ResolvedAsset>,
    pub forced_status: Option<u16>,
}

/// The outcome of the not-found step: the custom page with status 404, or a
/// bodyless 404.
pub open spec fn not_found_outcome(nodes: Seq<FsNode>, args: Args) -> (
    Option<Seq<char>>,
    Option<u16>,
) {
    match resolve_spec(nodes, args.not_found@, PathSource::Server, args) {
        Some(t) => (Some(t), Some(404u16)),
        None => (None, Some(404u16)),
    }
}

/// The outcome once the direct asset failed: the SPA index with a forced
/// 200 for html-accepting requests in SPA mode, else the not-found step.
pub open spec fn fallback_outcome(nodes: Seq<FsNode>, args: Args, accepts: bool) -> (
    Option<Seq<char>>,
    Option<u16>,
) {
    if args.spa && accepts {
        match resolve_spec(nodes, args.index@, PathSource::Server, args) {
            Some(t) => (Some(t), Some(200u16)),
            None => not_found_outcome(nodes, args),
        }
    } else {
        not_found_outcome(nodes, args)
    }
}

/// The whole chain: the client-sourced asset as-is, else the fallbacks.
pub open spec fn dispatch_spec(
    nodes: Seq<FsNode>,
    path: Seq<char>,
    accepts: bool,
    args: Args,
) -> (Option<Seq<char>>, Option<u16>) {
    match resolve_spec(nodes, path, PathSource::Client, args) {
        Some(t) => (Some(t), None),
        None => fallback_outcome(nodes, args, accepts),
    }
}

/// Whether a plan carries exactly an expected outcome, with the extension
/// drawn from the asset's path.
pub open spec fn plan_matches(plan: ResponsePlan, expect: (Option<Seq<char>>, Option<u16>)) -> bool {
    &&& plan.forced_status == expect.1
    &&& match plan.asset {
        Some(a) => expect.0 == Some(a.path@) && view_opt(a.ext) == ext_spec(a.path@),
        None => expect.0 is None,
    }
}

/// Which attempt of the chain is pending.
pub enum DispatchPhase {
    /// Resolving the request path itself.
    TryingAsset,
    /// Resolving the SPA index.
    TryingSpa,
    /// Resolving the not-found page.
    TryingNotFound,
}

/// The dispatcher's state between resolution requests.
pub struct Dispatcher {
    pub spa: bool,
    pub accepts: bool,
    pub index: String,
    pub not_found: String,
    pub phase: DispatchPhase,
}

/// One step of the dispatcher: a resolution request (a path and its origin)
/// with the state to resume from, or the finished plan.
pub enum DispatchStep {
    Resolve(String, PathSource, Dispatcher),
    Done(ResponsePlan),
}

/// How many resolution requests a phase may still make.
pub open spec fn dispatch_phase_rank(p: DispatchPhase) -> nat {
    match p {
        DispatchPhase::TryingAsset => 3,
        DispatchPhase::TryingSpa => 2,
        DispatchPhase::TryingNotFound => 1,
    }
}

/// How many resolution requests a step may still make.
pub open spec fn dispatch_step_rank(s: DispatchStep) -> nat {
    match s {
        DispatchStep::Resolve(_, _, d) => dispatch_phase_rank(d.phase),
        DispatchStep::Done(_) => 0,
    }
}

/// Whether a resolution outcome reports what `resolve_spec` says for the
/// requested path and origin — the shape of `resolve_in`'s contract.
pub open spec fn outcome_truthful(
    nodes: Seq<FsNode>,
    args: Args,
    p: Seq<char>,
    source: PathSource,
    outcome: Option<ResolvedAsset>,
) -> bool {
    match outcome {
        Some(a) => resolve_spec(nodes, p, source, args) == Some(a.path@) && view_opt(a.ext)
            == ext_spec(a.path@),
        None => resolve_spec(nodes, p, source, args) is None,
    }
}

/// The step's meaning against a snapshot and configuration: continuing it
/// with truthful resolutions ends in `expect`.
pub open spec fn dispatch_step_ok(
    nodes: Seq<FsNode>,
    args: Args,
    step: DispatchStep,
    expect: (Option<Seq<char>>, Option<u16>),
) -> bool {
    match step {
        DispatchStep::Done(plan) => plan_matches(plan, expect),
        DispatchStep::Resolve(p, source, d) => {
            &&& d.spa == args.spa
            &&& d.index@ == args.index@
            &&& d.not_found@ == args.not_found@
            &&& match d.phase {
                DispatchPhase::TryingAsset => source is Client && (match resolve_spec(
                    nodes,
                    p@,
                    PathSource::Client,
                    args,
                ) {
                    Some(t) => expect == (Some(t), None::<u16>),
                    None => expect == fallback_outcome(nodes, args, d.accepts),
                }),
                DispatchPhase::TryingSpa => source is Server && p@ == args.index@ && args.spa
                    && d.accepts && (match resolve_spec(nodes, p@, PathSource::Server, args) {
                    Some(t) => expect == (Some(t), Some(200u16)),
                    None => expect == not_found_outcome(nodes, args),
                }),
                DispatchPhase::TryingNotFound => source is Server && p@ == args.not_found@
                    && expect == not_found_outcome(nodes, args),
            }
        },
    }
}

/// Starts the fallback chain for a request: the first step resolves the
/// request path itself as a client-sourced asset.
pub fn dispatch_start(req_path: &str, accepts: bool, args: &Args) -> (step: DispatchStep)
    ensures
        forall|nodes: Seq<FsNode>| #[trigger] dispatch_step_ok(
            nodes,
            *args,
            step,
            dispatch_spec(nodes, req_path@, accepts, *args),
        ),
{
    DispatchStep::Resolve(
        String::from_str(req_path),
        PathSource::Client,
        Dispatcher {
            spa: args.spa,
            accepts,
            index: args.index.clone(),
            not_found: args.not_found.clone(),
            phase: DispatchPhase::TryingAsset,
        },
    )
}

/// Advances the chain by one resolution outcome.
///
/// If the pending step was sound for a snapshot and configuration and the
/// outcome reports that snapshot's resolution, the returned step is sound
/// too, and strictly fewer resolution requests remain.
pub fn dispatch_next(d: Dispatcher, outcome: Option<ResolvedAsset>) -> (step: DispatchStep)
    ensures
        forall|nodes: Seq<FsNode>, args: Args, p: String, source: PathSource, expect: (
            Option<Seq<char>>,
            Option<u16>,
        )|
            #[trigger] dispatch_step_ok(nodes, args, DispatchStep::Resolve(p, source, d), expect)
                && outcome_truthful(nodes, args, p@, source, outcome) ==> dispatch_step_ok(
                nodes,
                args,
                step,
                expect,
            ),
        dispatch_step_rank(step) < dispatch_phase_rank(d.phase),
{
    let Dispatcher { spa, accepts, index, not_found, phase } = d;
    match phase {
        DispatchPhase::TryingAsset => match outcome {
            Some(a) => DispatchStep::Done(
                ResponsePlan { asset: Some(a), forced_status: None },
            ),
            None => {
                if spa && accepts {
                    let p = index.clone();
                    DispatchStep::Resolve(
                        p,
                        PathSource::Server,
                        Dispatcher {
                            spa,
                            accepts,
                            index,
                            not_found,
                            phase: DispatchPhase::TryingSpa,
                        },
                    )
                } else {
                    let p = not_found.clone();
                    DispatchStep::Resolve(
                        p,
                        PathSource::Server,
                        Dispatcher {
                            spa,
                            accepts,
                            index,
                            not_found,
                            phase: DispatchPhase::TryingNotFound,
                        },
                    )
                }
            },
        },
        DispatchPhase::TryingSpa => match outcome {
            Some(a) => DispatchStep::Done(
                ResponsePlan { asset: Some(a), forced_status: Some(200) },
            ),
            None => {
                let p = not_found.clone();
                DispatchStep::Resolve(
                    p,
                    PathSource::Server,
                    Dispatcher {
                        spa,
                        accepts,
                        index,
                        not_found,
                        phase: DispatchPhase::TryingNotFound,
                    },
                )
            },
        },
        DispatchPhase::TryingNotFound => match outcome {
            Some(a) => DispatchStep::Done(
                ResponsePlan { asset: Some(a), forced_status: Some(404) },
            ),
            None => DispatchStep::Done(ResponsePlan { asset: None, forced_status: Some(404) }),
        },
    }
}

/// Runs the whole fallback chain against a snapshot by driving the step
/// machine and answering its resolution requests with `resolve_in`.
pub fn dispatch(fs: &FsView, req_path: &str, accepts: bool, args: &Args) -> (plan: ResponsePlan)
    ensures
        plan_matches(plan, dispatch_spec(fs.nodes@, req_path@, accepts, *args)),
{
    let ghost expect = dispatch_spec(fs.nodes@, req_path@, accepts, *args);
    let mut step = dispatch_start(req_path, accepts, args);
    loop
        invariant
            expect == dispatch_spec(fs.nodes@, req_path@, accepts, *args),
            dispatch_step_ok(fs.nodes@, *args, step, expect),
        decreases dispatch_step_rank(step),
    {
        match step {
            DispatchStep::Done(plan) => {
                return plan;
            },
            DispatchStep::Resolve(p, source, pending) => {
                let ghost gp = p;
                let ghost gpending = pending;
                let outcome = resolve_in(fs, p.as_str(), source, args);
                proof {
                    assert(outcome_truthful(fs.nodes@, *args, gp@, source, outcome));
                    assert(dispatch_step_ok(
                        fs.nodes@,
                        *args,
                        DispatchStep::Resolve(gp, source, gpending),
                        expect,
                    ));
                }
                step = dispatch_next(pending, outcome);
            },
        }
    }
}

/// The pairs of headers attached to every outbound response: the
/// product-identifying header unless anonymized, and the
/// allow-any-origin header unless cross-origin sharing is disabled.
pub open spec fn header_pairs_spec(anonymize: bool, no_cors: bool) -> Seq<(Seq<char>, Seq<char>)> {
    (if !anonymize {
        seq![("Server"@, "Zy/0.1.0"@)]
    } else {
        Seq::<(Seq<char>, Seq<char>)>::empty()
    }) + (if !no_cors {
        seq![("Access-Control-Allow-Origin"@, "*"@)]
    } else {
        Seq::<(Seq<char>, Seq<char>)>::empty()
    })
}

/// The views of a list of header pairs.
pub open spec fn views_of_pairs(v: Seq<(String, String)>) -> Seq<(Seq<char>, Seq<char>)> {
    v.map_values(|p: (String, String)| (p.0@, p.1@))
}

/// The headers attached to every outbound response, error responses
/// included, per the anonymize and no-cors flags.
pub fn response_headers(args: &Args) -> (v: Vec<(String, String)>)
    ensures
        views_of_pairs(v@) == header_pairs_spec(args.anonymize, args.no_cors),
{
    let mut v: Vec<(String, String)> = Vec::new();
    if !args.anonymize {
        v.push((String::from_str("Server"), String::from_str("Zy/0.1.0")));
    }
    if !args.no_cors {
        v.push((String::from_str("Access-Control-Allow-Origin"), String::from_str("*")));
    }
    proof {
        assert(views_of_pairs(v@) =~~= header_pairs_spec(args.anonymize, args.no_cors));
    }
    v
}

/// Whether a response status admits cache headers: only ordinary and
/// partial success do.
pub fn status_allows_caching(status: u16) -> (b: bool)
    ensures
        b == (status == 200 || status == 206),
{
    status == 200 || status == 206
}

} // verus!
