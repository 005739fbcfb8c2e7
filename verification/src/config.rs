//! The server's immutable configuration, constructed once at startup and
//! shared read-only across all request handling.

use vstd::prelude::*;

verus! {

/// A directory path as the operator gave it, together with the canonical
/// absolute form the host resolved it to. The canonical form is what every
/// containment check in the resolver compares against.
pub struct CanonicalizedPath {
    pub raw: String,
    pub canonical: String,
}

/// Server configuration. Never mutated after construction; request handlers
/// only read it.
pub struct Args {
    /// Directory to serve.
    pub dir: CanonicalizedPath,
    /// Addresses to listen on, in textual form.
    pub listen: Vec<String>,
    /// Run as a single-page application.
    pub spa: bool,
    /// Index file served from the base directory.
    pub index: String,
    /// Not-found file served from the base directory.
    pub not_found: String,
    /// Cache time (max-age) in seconds.
    pub cache: u32,
    /// Disable cross-origin resource sharing.
    pub no_cors: bool,
    /// Serve hidden files.
    pub all: bool,
    /// Follow symlinks outside of the base directory.
    pub follow_links: bool,
    /// Emit one log line per successful resolution.
    pub verbose: bool,
    /// Require a second interrupt before exiting.
    pub confirm_exit: bool,
    /// Hide the product-identifying response header.
    pub anonymize: bool,
}

/// Shared per-process state handed to every request handler.
pub struct ServerState {
    pub args: Args,
}

} // verus!
