//! Cache-policy classification: a file's media type (derived from its
//! extension) and, for a few font extensions, the raw extension decide which
//! `Cache-Control` directives the response carries.
//!
//! The html entry document must always be revalidated so that references to
//! fingerprinted assets stay consistent after a deploy; scripts, styles,
//! images and fonts are safe to cache for the configured duration; anything
//! else is left to browser heuristics.

use vstd::prelude::*;

use crate::text::str_eq;
use crate::text::view_opt;

verus! {

/// Which caching stance a response takes.
#[derive(Clone, Copy, Debug, PartialEq, Eq, Structural)]
pub enum CachePolicy {
    /// Must revalidate, never store: the html entry document.
    NoCache,
    /// Public, with the configured max-age: static assets.
    ShouldCache,
    /// No directive emitted: unknown types.
    Undetermined,
}

/// One `Cache-Control` directive.
#[derive(Clone, Copy, Debug, PartialEq, Eq, Structural)]
pub enum CacheDirective {
    NoCache,
    NoStore,
    Public,
    MaxAge(u32),
}

/// The classification rules, first match wins: text/html is never cached;
/// javascript, css, every image, text and font type is cached; so are the
/// `otf` and `woff` extensions whatever their media type; the rest is left
/// undetermined.
pub open spec fn classify_spec(ty: Seq<char>, sub: Seq<char>, ext: Seq<char>) -> CachePolicy {
    if ty == "text"@ && sub == "html"@ {
        CachePolicy::NoCache
    } else if (ty == "application"@ && sub == "javascript"@) || (ty == "text"@ && sub == "css"@)
        || ty == "image"@ || ty == "text"@ || ty == "font"@ {
        CachePolicy::ShouldCache
    } else if ext == "otf"@ || ext == "woff"@ {
        CachePolicy::ShouldCache
    } else {
        CachePolicy::Undetermined
    }
}

/// Classifies a media type, given as its type and subtype, with the raw
/// extension for the narrow font cases.
pub fn classify(ty: &str, sub: &str, ext: &str) -> (r: CachePolicy)
    ensures
        r == classify_spec(ty@, sub@, ext@),
{
    if str_eq(ty, "text") && str_eq(sub, "html") {
        CachePolicy::NoCache
    } else if (str_eq(ty, "application") && str_eq(sub, "javascript")) || (str_eq(ty, "text")
        && str_eq(sub, "css")) || str_eq(ty, "image") || str_eq(ty, "text") || str_eq(ty, "font") {
        CachePolicy::ShouldCache
    } else if str_eq(ext, "otf") || str_eq(ext, "woff") {
        CachePolicy::ShouldCache
    } else {
        CachePolicy::Undetermined
    }
}

/// The media type the extension table assigns to a file extension, as a
/// (type, subtype) pair; a function of the extension alone.
pub uninterp spec fn mime_of(ext: Seq<char>) -> (Seq<char>, Seq<char>);

/// Relies on actix_files::file_extension_to_mime: a pure lookup of the
/// extension in mime_guess's table, falling back to application/octet-stream;
/// the table's entries for html, css, png, js, woff and otf are as stated.
#[verifier::external_body]
fn extension_mime(ext: &str) -> (r: (String, String))
    ensures
        (r.0@, r.1@) == mime_of(ext@),
        ext@ == "html"@ ==> (r.0@, r.1@) == ("text"@, "html"@),
        ext@ == "css"@ ==> (r.0@, r.1@) == ("text"@, "css"@),
        ext@ == "png"@ ==> (r.0@, r.1@) == ("image"@, "png"@),
        ext@ == "js"@ ==> (r.0@, r.1@) == ("text"@, "javascript"@),
        ext@ == "woff"@ ==> (r.0@, r.1@) == ("application"@, "font-woff"@),
        ext@ == "otf"@ ==> (r.0@, r.1@) == ("application"@, "font-sfnt"@),
{
    let m = actix_files::file_extension_to_mime(ext);
    (m.type_().as_str().to_string(), m.subtype().as_str().to_string())
}

/// The cache policy of a file with the given extension: a missing extension
/// is undetermined (it falls back to application/octet-stream); otherwise the
/// extension's media type is classified.
pub open spec fn policy_spec(ext: Option<Seq<char>>) -> CachePolicy {
    match ext {
        None => CachePolicy::Undetermined,
        Some(e) => classify_spec(mime_of(e).0, mime_of(e).1, e),
    }
}

/// Classifies a file by its extension.
///
/// The contract also restates the fixed points of the rules: `html` is always
/// `NoCache`; `js`, `css`, `png`, `woff` and `otf` are always `ShouldCache`.
pub fn cache_policy_for_extension(ext: &Option<String>) -> (r: CachePolicy)
    ensures
        r == policy_spec(view_opt(*ext)),
        *ext matches Some(e) && e@ == "html"@ ==> r == CachePolicy::NoCache,
        *ext matches Some(e) && (e@ == "js"@ || e@ == "css"@ || e@ == "png"@ || e@ == "woff"@
            || e@ == "otf"@) ==> r == CachePolicy::ShouldCache,
{
    match ext {
        None => CachePolicy::Undetermined,
        Some(e) => {
            let m = extension_mime(e.as_str());
            let r = classify(m.0.as_str(), m.1.as_str(), e.as_str());
            proof {
                reveal_strlit("text");
                reveal_strlit("html");
                reveal_strlit("application");
                reveal_strlit("javascript");
                reveal_strlit("css");
                reveal_strlit("image");
                reveal_strlit("font");
                reveal_strlit("font-woff");
                reveal_strlit("font-sfnt");
                assert("text"@.len() == 4);
                assert("html"@.len() == 4);
                assert("application"@.len() == 11);
                assert("javascript"@.len() == 10);
                assert("css"@.len() == 3);
                assert("image"@.len() == 5);
                assert("font"@.len() == 4);
                assert("font-woff"@.len() == 9);
                assert("font-sfnt"@.len() == 9);
            }
            r
        },
    }
}

/// The directives emitted for a policy: revalidate-and-never-store for
/// `NoCache`, public with the configured max-age for `ShouldCache`, nothing
/// for `Undetermined`.
pub fn cache_directives(policy: CachePolicy, max_age: u32) -> (v: Vec<CacheDirective>)
    ensures
        policy is NoCache ==> v@ == seq![CacheDirective::NoCache, CacheDirective::NoStore],
        policy is ShouldCache ==> v@ == seq![
            CacheDirective::Public,
            CacheDirective::MaxAge(max_age),
        ],
        policy is Undetermined ==> v@ == Seq::<CacheDirective>::empty(),
{
    let mut v: Vec<CacheDirective> = Vec::new();
    match policy {
        CachePolicy::NoCache => {
            v.push(CacheDirective::NoCache);
            v.push(CacheDirective::NoStore);
            proof {
                assert(v@ =~= seq![CacheDirective::NoCache, CacheDirective::NoStore]);
            }
        },
        CachePolicy::ShouldCache => {
            v.push(CacheDirective::Public);
            v.push(CacheDirective::MaxAge(max_age));
            proof {
                assert(v@ =~= seq![CacheDirective::Public, CacheDirective::MaxAge(max_age)]);
            }
        },
        CachePolicy::Undetermined => {
            proof {
                assert(v@ =~= Seq::<CacheDirective>::empty());
            }
        },
    }
    v
}




} // verus!
