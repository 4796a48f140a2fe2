//! The process-wide native-library cache, as explicit state.
//!
//! The native function table is loaded at most once per process: the first
//! successful load wins and every later request is answered from the cache,
//! which is never torn down during normal operation.  The cache value here
//! records that contract; the host owns the actual handle and symbol table
//! and consults `plan_load` for what to do.

use vstd::prelude::*;

verus! {

/// Whether the native function table was loaded in this process.
pub struct LoaderCache {
    loaded: bool,
}

/// What a load request must do next.
pub enum LoadPlan {
    /// The table is already cached: hand it out, load nothing.
    AlreadyLoaded,
    /// No library path was configured: the request fails.
    MissingPath,
    /// Load the library from this path and record the outcome.
    LoadFrom(String),
}

impl LoaderCache {
    pub closed spec fn spec_loaded(self) -> bool {
        self.loaded
    }

    /// A fresh process: nothing loaded yet.
    pub fn new() -> (r: LoaderCache)
        ensures
            !r.spec_loaded(),
    {
        LoaderCache { loaded: false }
    }
}

/// Whether the native function table was loaded.
pub fn is_library_loaded(cache: &LoaderCache) -> (r: bool)
    ensures
        r == cache.spec_loaded(),
{
    cache.loaded
}

/// Decides a load request: a request without a configured path fails, a
/// request with the table already cached loads nothing, and otherwise the
/// library is loaded from the configured path.
pub fn plan_load(cache: &LoaderCache, path: Option<String>) -> (p: LoadPlan)
    ensures
        path is None ==> p is MissingPath,
        path is Some && cache.spec_loaded() ==> p is AlreadyLoaded,
        !cache.spec_loaded() ==> (path matches Some(s) ==> (p matches LoadPlan::LoadFrom(t) && t
            == s)),
{
    match path {
        None => LoadPlan::MissingPath,
        Some(s) => {
            if cache.loaded {
                LoadPlan::AlreadyLoaded
            } else {
                LoadPlan::LoadFrom(s)
            }
        },
    }
}

/// Records a load attempt's outcome.  The first success wins: once loaded,
/// the cache never goes back.
pub fn record_load(cache: &mut LoaderCache, success: bool)
    ensures
        final(cache).spec_loaded() == (old(cache).spec_loaded() || success),
{
    if success {
        cache.loaded = true;
    }
}

} // verus!
