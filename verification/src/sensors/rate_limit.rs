//! Scores the per-key request rate within a time window.

use std::sync::Arc;

use vstd::prelude::*;

mod counter;

use counter::count_under;

use crate::net::{format_ip, ip_text};
use crate::plugin::{plugin_error, Plugin, PluginError};
use crate::provider::{provider_id_of, ProviderId};
use crate::request::RequestContext;
use crate::score::Score;
use crate::sensors::Sensor;
use crate::value::{get_integer, get_str, value_get, value_int, value_str, ConfigValue};

verus! {

broadcast use vstd::std_specs::hash::group_hash_axioms;

/// `std::time::Instant`, held opaque.
#[verifier::external_type_specification]
#[verifier::external_body]
pub struct ExInstant(std::time::Instant);

/// `moka::sync::Cache`, held opaque.
#[verifier::external_type_specification]
#[verifier::external_body]
#[verifier::reject_recursive_types(K)]
#[verifier::reject_recursive_types(V)]
#[verifier::reject_recursive_types(S)]
pub struct ExCache<K, V, S>(moka::sync::Cache<K, V, S>);

/// Abstraction over wall-clock time.
pub trait Clock: Send + Sync {
    /// The current instant.
    fn now(&self) -> std::time::Instant;
}

/// Calls `std::time::Instant::now`.  Nothing is stated of the result: it is the time.
#[verifier::external_body]
fn instant_now() -> std::time::Instant {
    std::time::Instant::now()
}

/// Calls `Instant::checked_add`: `None` when the sum does not fit.  Nothing more
/// is stated of the result: it is a time.
#[verifier::external_body]
fn instant_checked_add(t: std::time::Instant, d: std::time::Duration) -> Option<std::time::Instant> {
    t.checked_add(d)
}

/// Production clock.
pub struct SystemClock;

impl Clock for SystemClock {
    fn now(&self) -> std::time::Instant {
        instant_now()
    }
}

/// Test clock with a configurable offset from the system clock.
pub struct MockClock {
    /// Amount of time added to the current instant.
    pub offset: std::time::Duration,
}

impl Clock for MockClock {
    /// The current instant plus the offset, or the current instant where that
    /// sum is out of the range of `Instant`.
    fn now(&self) -> std::time::Instant {
        let t = instant_now();
        match instant_checked_add(t, self.offset) {
            Some(u) => u,
            None => t,
        }
    }
}

/// Builds a `moka::sync::Cache` whose entries live `window_secs` seconds
/// (`time_to_live`).  `build` panics for a time-to-live over 1000 years, which
/// `requires` leaves out.
#[verifier::external_body]
fn new_counter_cache(window_secs: u64) -> moka::sync::Cache<String, u32>
    requires
        window_secs <= MAX_WINDOW_SECS,
{
    moka::sync::Cache::builder().time_to_live(std::time::Duration::from_secs(window_secs)).build()
}

/// The count stored after a hit: one more than the live count, or 1.
pub open spec fn next_count_spec(prev: Option<u32>) -> u32 {
    match prev {
        Some(v) => if v == u32::MAX { 0 } else { (v + 1) as u32 },
        None => 1,
    }
}

/// One more than the live count (wrapping), or 1 for a key without one.
pub fn next_count(prev: Option<u32>) -> (r: u32)
    ensures
        r == next_count_spec(prev),
{
    match prev {
        Some(v) => v.wrapping_add(1),
        None => 1,
    }
}

/// Sensor that scores `count / limit` for the number of requests per key in the window.
///
/// The key is the metadata entry of the source provider, or else the client address.
pub struct RateLimitSensor;

/// Compiled arguments for [`RateLimitSensor`].
pub struct RateLimitArgs {
    /// Counter cache (key to hit count), with the window as its time-to-live.
    pub cache: Arc<moka::sync::Cache<String, u32>>,
    /// Number of requests at which the score reaches 100.
    pub limit: u32,
    /// Provider whose metadata entry is used as the rate-limit key.
    pub source_provider_id: ProviderId,
    /// Clock used for time operations.
    pub clock: Box<dyn Clock>,
}

/// Derives a [`ProviderId`] from a sensor name.
pub fn name_to_provider_id(name: &str) -> (r: ProviderId)
    ensures
        r == provider_id_of(name@),
{
    ProviderId::from_name(name)
}

/// The key a request is counted under: the source provider's metadata, or the
/// client address as text.
pub open spec fn rate_key(ctx: RequestContext, source: ProviderId) -> Seq<char> {
    if ctx.metadata@.contains_key(source.0) {
        ctx.metadata@[source.0]@
    } else {
        ip_text(ctx.client_ip)
    }
}

/// Requests for which the source provider recorded the same value share a
/// counter, whatever their client addresses; a request without such a value
/// is counted under its client address as text.
pub proof fn lemma_rate_key_groups(c1: RequestContext, c2: RequestContext, source: ProviderId)
    ensures
        c1.metadata@.contains_key(source.0) && c2.metadata@.contains_key(source.0) && c1.metadata@[source.0]@
            == c2.metadata@[source.0]@ ==> rate_key(c1, source) == rate_key(c2, source),
        !c1.metadata@.contains_key(source.0) ==> rate_key(c1, source) == ip_text(c1.client_ip),
{
}

/// The key a request is counted under.
pub fn rate_limit_key(ctx: &RequestContext, source: ProviderId) -> (r: String)
    ensures
        r@ == rate_key(*ctx, source),
{
    match ctx.metadata.get(&source.0) {
        Some(k) => k.clone(),
        None => format_ip(ctx.client_ip),
    }
}

/// The score for `count` requests against `limit`: `count * 100 / limit`
/// (truncating), clamped to `[0, 100]`.  A zero limit maps a positive count
/// to 100 and no requests to 0.
pub open spec fn rate_score(count: nat, limit: nat) -> u8 {
    if limit == 0 {
        if count == 0 { 0 } else { 100 }
    } else if count * 100 / limit >= 100 {
        100
    } else {
        (count * 100 / limit) as u8
    }
}

/// The score for `count` requests against `limit`.
pub fn rate_limit_score(count: u32, limit: u32) -> (r: Score)
    ensures
        r.0 == rate_score(count as nat, limit as nat),
        r.0 <= 100,
{
    if limit == 0 {
        return if count == 0 { Score(0) } else { Score(100) };
    }
    let scaled: u64 = count as u64 * 100;
    let q: u64 = scaled / limit as u64;
    if q >= 100 {
        Score(100)
    } else {
        Score(q as u8)
    }
}

/// `window_secs` is a whole number of seconds from zero to [`MAX_WINDOW_SECS`].
pub open spec fn window_ok(args: ConfigValue) -> bool {
    value_int(value_get(args, "window_secs"@)) matches Some(w) && 0 <= w <= MAX_WINDOW_SECS
}

/// The longest counting window, in seconds: the cache refuses a time-to-live
/// over 1000 years.
pub const MAX_WINDOW_SECS: u64 = 31536000000;

impl Plugin for RateLimitSensor {}

impl Sensor for RateLimitSensor {
    type Args = RateLimitArgs;

    open spec fn accepts(&self, args: ConfigValue) -> bool {
        value_int(value_get(args, "limit"@)) is Some && window_ok(args) && value_str(value_get(args, "source_provider_id"@)) is Some
    }

    open spec fn compiles_to(&self, args: ConfigValue, a: RateLimitArgs) -> bool {
        &&& a.limit == value_int(value_get(args, "limit"@))->0 as u32
        &&& a.source_provider_id == provider_id_of(value_str(value_get(args, "source_provider_id"@))->0)
    }

    open spec fn scores(&self, ctx: RequestContext, a: RateLimitArgs, s: Score) -> bool {
        exists|count: u32| s.0 == rate_score(count as nat, a.limit as nat)
    }

    fn try_compile_args(&self, args: &ConfigValue) -> (r: Result<RateLimitArgs, PluginError>)
        ensures
            r is Ok <==> (value_int(value_get(*args, "limit"@)) is Some && window_ok(*args) && value_str(value_get(*args, "source_provider_id"@)) is Some),
            r matches Ok(a) ==> {
                &&& a.limit == value_int(value_get(*args, "limit"@))->0 as u32
                &&& a.source_provider_id == provider_id_of(value_str(value_get(*args, "source_provider_id"@))->0)
            },
    {
        let limit = match get_integer(args, "limit") {
            Some(v) => v as u32,
            None => return Err(plugin_error("sensor-rate-limit: missing 'limit'")),
        };
        let window_secs = match get_integer(args, "window_secs") {
            Some(v) => {
                if v < 0 || v > MAX_WINDOW_SECS as i64 {
                    return Err(plugin_error("sensor-rate-limit: 'window_secs' must be between 0 and 1000 years"));
                }
                v as u64
            },
            None => return Err(plugin_error("sensor-rate-limit: missing 'window_secs'")),
        };
        let source = match get_str(args, "source_provider_id") {
            Some(s) => s,
            None => return Err(plugin_error("sensor-rate-limit: missing 'source_provider_id'")),
        };
        let source_provider_id = name_to_provider_id(source);
        let clock: Box<dyn Clock> = Box::new(SystemClock);
        Ok(RateLimitArgs {
            cache: Arc::new(new_counter_cache(window_secs)),
            limit,
            source_provider_id,
            clock,
        })
    }

    fn evaluate(&self, ctx: &mut RequestContext, args: &RateLimitArgs) -> (r: Score)
        ensures
            exists|count: u32| r.0 == rate_score(count as nat, args.limit as nat),
    {
        let key = rate_limit_key(ctx, args.source_provider_id);
        let count = count_under(&args.cache, key, Ghost(*ctx), Ghost(args.source_provider_id));
        rate_limit_score(count, args.limit)
    }
}

} // verus!
