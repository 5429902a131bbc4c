//! Scores the size of the buffered request body.

use vstd::prelude::*;

use crate::plugin::{plugin_error, Plugin, PluginError};
use crate::request::RequestContext;
use crate::score::{fraction_score, Score};
use crate::sensors::Sensor;
use crate::value::{get_integer, value_get, value_int, ConfigValue};

use crate::rounding::DOUBLE_FRACTION_BITS;

verus! {

/// Sensor that returns a proportional score based on the size of the request body.
///
/// `Score(0)` when the body is absent or at most `min_bytes` long, `Score(100)`
/// when it is at least `max_bytes` long, and in between the fraction of the way
/// from `min_bytes` to `max_bytes` as a score computed in double precision.
pub struct BodySizeSensor;

/// Compiled arguments for [`BodySizeSensor`].
#[derive(Debug)]
pub struct BodySizeArgs {
    /// Lower bound in bytes; bodies at or below this size score 0.
    pub min_bytes: usize,
    /// Upper bound in bytes; bodies at or above this size score 100.
    pub max_bytes: usize,
}

/// The score of a body of `size` bytes.
pub open spec fn body_size_score(size: nat, min_bytes: nat, max_bytes: nat) -> u8 {
    if size <= min_bytes {
        0
    } else if size >= max_bytes {
        100
    } else {
        fraction_score((size - min_bytes) as nat, (max_bytes - min_bytes) as nat, DOUBLE_FRACTION_BITS as nat)
    }
}

/// An integer argument converted to `usize` the way `as usize` converts it.
pub open spec fn as_usize(v: i64) -> usize {
    v as usize
}

impl Plugin for BodySizeSensor {}

impl Sensor for BodySizeSensor {
    type Args = BodySizeArgs;

    open spec fn accepts(&self, args: ConfigValue) -> bool {
        value_int(value_get(args, "max_bytes"@)) matches Some(max) && as_usize(max) > match value_int(
            value_get(args, "min_bytes"@),
        ) {
            Some(min) => as_usize(min),
            None => 0usize,
        }
    }

    open spec fn compiles_to(&self, args: ConfigValue, a: BodySizeArgs) -> bool {
        &&& value_int(value_get(args, "max_bytes"@)) matches Some(max) && a.max_bytes == as_usize(max)
        &&& a.min_bytes == match value_int(value_get(args, "min_bytes"@)) {
            Some(min) => as_usize(min),
            None => 0usize,
        }
    }

    open spec fn scores(&self, ctx: RequestContext, a: BodySizeArgs, s: Score) -> bool {
        s.0 == match ctx.body {
            Some(b) => body_size_score(b@.len(), a.min_bytes as nat, a.max_bytes as nat),
            None => 0,
        }
    }

    fn try_compile_args(&self, args: &ConfigValue) -> (r: Result<BodySizeArgs, PluginError>)
        ensures
            match r {
                Ok(a) => {
                    &&& value_int(value_get(*args, "max_bytes"@)) matches Some(max) && a.max_bytes == as_usize(max)
                    &&& a.min_bytes == match value_int(value_get(*args, "min_bytes"@)) {
                        Some(min) => as_usize(min),
                        None => 0usize,
                    }
                    &&& a.max_bytes > a.min_bytes
                },
                Err(_) => value_int(value_get(*args, "max_bytes"@)) is None || {
                    let max = as_usize(value_int(value_get(*args, "max_bytes"@))->0);
                    let min = match value_int(value_get(*args, "min_bytes"@)) {
                        Some(min) => as_usize(min),
                        None => 0usize,
                    };
                    max <= min
                },
            },
    {
        let min_bytes = match get_integer(args, "min_bytes") {
            Some(v) => v as usize,
            None => 0,
        };
        let max_bytes = match get_integer(args, "max_bytes") {
            Some(v) => v as usize,
            None => return Err(plugin_error("sensor-body-size: missing 'max_bytes'")),
        };
        if max_bytes <= min_bytes {
            return Err(plugin_error("sensor-body-size: 'max_bytes' must be greater than 'min_bytes'"));
        }
        Ok(BodySizeArgs { min_bytes, max_bytes })
    }

    fn evaluate(&self, ctx: &mut RequestContext, args: &BodySizeArgs) -> (r: Score)
        ensures
            r.0 == match old(ctx).body {
                Some(b) => body_size_score(b@.len(), args.min_bytes as nat, args.max_bytes as nat),
                None => 0,
            },
    {
        let size = match &ctx.body {
            Some(b) => b.len(),
            None => return Score(0),
        };
        if size <= args.min_bytes {
            return Score(0);
        }
        if size >= args.max_bytes {
            return Score(100);
        }
        Score::from_fraction((size - args.min_bytes) as u64, (args.max_bytes - args.min_bytes) as u64, DOUBLE_FRACTION_BITS)
    }
}

/// A body at most `min_bytes` long scores 0, and one at least `max_bytes`
/// long (and longer than `min_bytes`) scores 100.
pub proof fn lemma_body_size_score_bounds(size: nat, min_bytes: nat, max_bytes: nat)
    ensures
        size <= min_bytes ==> body_size_score(size, min_bytes, max_bytes) == 0,
        min_bytes < size && max_bytes <= size ==> body_size_score(size, min_bytes, max_bytes) == 100,
{
}

/// The score depends only on how far the body is past `min_bytes` and on the
/// width of the range: moving the body size and both bounds by the same
/// amount leaves it unchanged.
pub proof fn lemma_body_size_score_shift(size: nat, min_bytes: nat, max_bytes: nat, k: nat)
    ensures
        body_size_score(size + k, min_bytes + k, max_bytes + k) == body_size_score(size, min_bytes, max_bytes),
{
    assert((size + k - (min_bytes + k)) as nat == (size - min_bytes) as nat);
    assert((max_bytes + k - (min_bytes + k)) as nat == (max_bytes - min_bytes) as nat);
}

/// A body halfway between `min_bytes` and `min_bytes + 2` scores 50,
/// wherever the range starts.
pub proof fn lemma_body_size_score_midpoint(min_bytes: nat)
    ensures
        body_size_score(min_bytes + 1, min_bytes, min_bytes + 2) == 50,
{
    crate::rounding::lemma_half_scores_fifty();
    lemma_body_size_score_shift(1, 0, 2, min_bytes);
}

} // verus!
