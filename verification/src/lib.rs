//! Verified core of a URL-shortening service: alias validation and
//! short-code derivation, models of the URL store, redirect cache and
//! event publisher, and the redirect-resolution decision logic.

pub mod cache;
pub mod codec;
pub mod event;
pub mod resolver;
pub mod store;
pub mod text;

use vstd::prelude::*;

verus! {

/// Default lifetime of a cache entry, in seconds.
pub const DEFAULT_TTL_SECONDS: u64 = 3600;

} // verus!
