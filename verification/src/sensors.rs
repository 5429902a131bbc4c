//! The built-in sensors, and the typed trait that sensors implement.

pub mod body_size;
pub mod cookie;
pub mod geo;
pub mod ip;
pub mod rate_limit;
pub mod regex;
pub mod string_match;

use vstd::prelude::*;

use crate::plugin::{Plugin, PluginError, SensorEntry, SensorFn};
use crate::request::RequestContext;
use crate::score::Score;
use crate::value::ConfigValue;

verus! {

/// Typed trait for sensor plugins: compile arguments once, then score each request.
///
/// Sensors of this trait leave the request, its metadata and the engine's
/// score cache as they found them.  Scores are in `[0, 100]`.
pub trait Sensor: Plugin {
    /// Compiled, request-independent configuration.
    type Args: Send + Sync;

    /// Whether the sensor accepts the arguments `args`.
    spec fn accepts(&self, args: ConfigValue) -> bool;

    /// Whether `compiled` is what the arguments `args` compile to.
    spec fn compiles_to(&self, args: ConfigValue, compiled: Self::Args) -> bool;

    /// Whether `s` is a score the sensor may give `ctx` with compiled `args`.
    spec fn scores(&self, ctx: RequestContext, args: Self::Args, s: Score) -> bool;

    /// Parses the sensor's arguments, or says why it refuses them.
    fn try_compile_args(&self, args: &ConfigValue) -> (r: Result<Self::Args, PluginError>)
        ensures
            r is Ok <==> self.accepts(*args),
            r matches Ok(a) ==> self.compiles_to(*args, a),
    ;

    /// Parses arguments that the sensor accepts.
    fn compile_args(&self, args: &ConfigValue) -> (r: Self::Args)
        requires
            self.accepts(*args),
        ensures
            self.compiles_to(*args, r),
    {
        match self.try_compile_args(args) {
            Ok(a) => a,
            Err(_) => vstd::pervasive::unreached(),
        }
    }

    /// Scores `ctx` with the compiled `args`.
    fn evaluate(&self, ctx: &mut RequestContext, args: &Self::Args) -> (r: Score)
        ensures
            self.scores(*old(ctx), *args, r),
            final(ctx).cache@ == old(ctx).cache@,
            final(ctx).metadata@ == old(ctx).metadata@,
            final(ctx).client_ip == old(ctx).client_ip,
            final(ctx).uri@ == old(ctx).uri@,
            final(ctx).method@ == old(ctx).method@,
            final(ctx).headers == old(ctx).headers,
            final(ctx).body == old(ctx).body,
            final(ctx).current_score == old(ctx).current_score,
            r.0 <= 100,
    ;
}

/// A sensor together with its compiled arguments.
pub struct SensorNode<S: Sensor> {
    /// The sensor.
    pub sensor: S,
    /// Its compiled arguments.
    pub args: S::Args,
}

impl<S: Sensor> SensorFn for SensorNode<S> {
    open spec fn scores(&self, before: RequestContext, after: RequestContext, s: Score) -> bool {
        self.sensor.scores(before, self.args, s) && after.metadata@ == before.metadata@
    }

    fn evaluate(&self, ctx: &mut RequestContext) -> (r: Score) {
        self.sensor.evaluate(ctx, &self.args)
    }
}

/// `e` scores requests as `sensor` does with what `args` compile to, and
/// leaves the metadata as it was.
pub open spec fn entry_of<S: Sensor>(sensor: S, args: ConfigValue, e: SensorEntry) -> bool {
    exists|a: S::Args| sensor.compiles_to(args, a) && forall|before: RequestContext, after: RequestContext, s: Score|
        #[trigger] e.evaluate.scores(before, after, s) == (sensor.scores(before, a, s) && after.metadata@
        == before.metadata@)
}

/// Compiles `args` for `sensor` and wraps both in a registry entry.
pub fn into_entry<S: Sensor + 'static>(sensor: S, args: &ConfigValue) -> (r: Result<SensorEntry, PluginError>)
    where S::Args: 'static,
    ensures
        r is Ok <==> sensor.accepts(*args),
        r matches Ok(e) ==> entry_of(sensor, *args, e),
{
    let compiled = sensor.try_compile_args(args)?;
    let ghost a = compiled;
    let ghost sn = sensor;
    let e = SensorEntry { evaluate: Box::new(SensorNode { sensor, args: compiled }) };
    proof {
        assert(sn.compiles_to(*args, a));
        assert forall|before: RequestContext, after: RequestContext, s: Score|
            #[trigger] e.evaluate.scores(before, after, s) == (sn.scores(before, a, s) && after.metadata@
            == before.metadata@) by {}
    }
    Ok(e)
}

} // verus!
