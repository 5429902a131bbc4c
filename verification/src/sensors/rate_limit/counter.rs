//! The counter of the rate-limit sensor: the cache is bumped only under a
//! request's rate key.

use vstd::prelude::*;

use super::{next_count, rate_key};
use crate::provider::ProviderId;
use crate::request::RequestContext;

verus! {

/// Calls `Cache::entry(key).and_upsert_with`, whose closure maps the live entry's
/// value through [`next_count`], and returns the stored value.  Nothing is stated
/// of it: which entries are live depends on the time of the call.
#[verifier::external_body]
fn bump_counter(cache: &moka::sync::Cache<String, u32>, key: String) -> u32 {
    cache.entry(key).and_upsert_with(|e| next_count(e.map(|v| v.into_value()))).into_value()
}

/// Counts a request under `key`, which must be the rate key of `ctx` for
/// `source` (see [`rate_key`]), and returns the count the cache now holds for
/// it.
pub(super) fn count_under(
    cache: &moka::sync::Cache<String, u32>,
    key: String,
    Ghost(ctx): Ghost<RequestContext>,
    Ghost(source): Ghost<ProviderId>,
) -> u32
    requires
        key@ == rate_key(ctx, source),
{
    bump_counter(cache, key)
}

} // verus!
