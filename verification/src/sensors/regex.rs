//! Scores the fraction of configured patterns that match a request field.

use vstd::prelude::*;
use vstd::string::StringSliceAdditionalSpecFns;
use vstd::utf8::{decode_utf8, encode_utf8, valid_utf8};

use crate::patterns::{regex_set_compiles, regex_set_match_count, PatternSet};
use crate::plugin::{plugin_error, Plugin, PluginError};
use crate::request::RequestContext;
use crate::score::{fraction_score, Score};
use crate::sensors::Sensor;
use crate::text::{chars_of, starts_with, str_lowercase, string_of_range, to_lowercase, utf8_text,
    vec_starts_with};
use crate::value::{all_strings, get_array, get_str, str_eq, string_texts, strings_of, value_array,
    value_get, value_str, ConfigValue};

use crate::rounding::SINGLE_FRACTION_BITS;

verus! {

broadcast use vstd::utf8::encode_utf8_decode_utf8;

/// Inputs longer than this many bytes are skipped by default.
pub const DEFAULT_MAX_LEN: usize = 8192;

/// Which part of the request to match patterns against.
#[derive(Debug)]
pub enum Target {
    /// The request URI (path + query).
    Uri,
    /// The raw request body, read as UTF-8.
    Body,
    /// A header value (lower-cased name).
    Header(String),
}

/// Sensor that scores `matched / total` over a set of patterns, the fraction
/// taken to a score in single precision.
pub struct RegexSensor;

/// Compiled arguments for [`RegexSensor`].
#[derive(Debug)]
pub struct RegexArgs {
    /// Pre-compiled set of patterns.
    pub set: PatternSet,
    /// Total number of patterns (denominator of the score).
    pub total: usize,
    /// Which request field to inspect.
    pub target: Target,
    /// Inputs longer than this (in bytes) score 0.
    pub max_len: usize,
}

/// What a [`Target`] denotes, as a specification value.
pub enum TargetView {
    /// The request URI.
    Uri,
    /// The request body.
    Body,
    /// The header of this (lower-cased) name.
    Header(Seq<char>),
}

/// The specification value of a target.
pub open spec fn target_view(t: Target) -> TargetView {
    match t {
        Target::Uri => TargetView::Uri,
        Target::Body => TargetView::Body,
        Target::Header(n) => TargetView::Header(n@),
    }
}

/// The target that a `target` argument names: `uri`, `body`, or
/// `header:<name>` (the name lower-cased).
pub open spec fn spec_target(s: Seq<char>) -> Option<TargetView> {
    if s == "uri"@ {
        Some(TargetView::Uri)
    } else if s == "body"@ {
        Some(TargetView::Body)
    } else if starts_with(s, "header:"@) {
        Some(TargetView::Header(str_lowercase(s.skip(7))))
    } else {
        None
    }
}

/// Whether `s` is a `target` argument: `uri`, `body` or `header:<name>`.
pub fn is_target(s: &str) -> (r: bool)
    ensures
        r == spec_target(s@) is Some,
{
    if str_eq(s, "uri") || str_eq(s, "body") {
        return true;
    }
    let u = chars_of(s);
    let prefix = chars_of("header:");
    vec_starts_with(&u, &prefix)
}

/// Parses a `target` argument, which is `uri`, `body` or `header:<name>`.
pub fn parse_target(s: &str) -> (r: Target)
    requires
        spec_target(s@) is Some,
    ensures
        spec_target(s@) == Some(target_view(r)),
{
    if str_eq(s, "uri") {
        return Target::Uri;
    }
    if str_eq(s, "body") {
        return Target::Body;
    }
    let u = chars_of(s);
    let prefix = chars_of("header:");
    proof {
        reveal_strlit("header:");
        assert(starts_with(s@, "header:"@));
    }
    let rest = string_of_range(&u, 7, u.len());
    proof {
        assert(u@.subrange(7, u@.len() as int) =~= s@.skip(7));
    }
    Target::Header(to_lowercase(rest.as_str()))
}

/// The text of the target, if the request has one (a body must be valid UTF-8).
pub open spec fn target_text(t: TargetView, ctx: RequestContext) -> Option<Seq<char>> {
    match t {
        TargetView::Uri => Some(ctx.uri@),
        TargetView::Body => match ctx.body {
            Some(b) => if valid_utf8(b@) { Some(decode_utf8(b@)) } else { None },
            None => None,
        },
        TargetView::Header(n) => ctx.headers.spec_get(n),
    }
}

/// The score for `args` on the request.
pub open spec fn regex_score(args: RegexArgs, ctx: RequestContext) -> u8 {
    if args.total == 0 {
        0
    } else {
        match target_text(target_view(args.target), ctx) {
            None => 0,
            Some(t) => if (encode_utf8(t).len() as usize) > args.max_len {
                0
            } else {
                fraction_score(regex_set_match_count(args.set.sources(), t), args.total as nat, SINGLE_FRACTION_BITS as nat)
            },
        }
    }
}

/// The well-formed arguments: a `patterns` array of strings that compile as a
/// set, and a `target` that names a field.
pub open spec fn regex_args_ok(args: ConfigValue) -> bool {
    &&& value_array(value_get(args, "patterns"@)) matches Some(a) && all_strings(a)
        && regex_set_compiles(string_texts(a))
    &&& value_str(value_get(args, "target"@)) matches Some(t) && spec_target(t) is Some
}

impl Plugin for RegexSensor {}

impl Sensor for RegexSensor {
    type Args = RegexArgs;

    open spec fn accepts(&self, args: ConfigValue) -> bool {
        regex_args_ok(args)
    }

    open spec fn compiles_to(&self, args: ConfigValue, a: RegexArgs) -> bool {
        &&& value_array(value_get(args, "patterns"@)) matches Some(p) && a.set.sources() == string_texts(p)
            && a.total == p.len()
        &&& value_str(value_get(args, "target"@)) matches Some(t) && spec_target(t) == Some(target_view(a.target))
        &&& a.max_len == DEFAULT_MAX_LEN
    }

    open spec fn scores(&self, ctx: RequestContext, a: RegexArgs, s: Score) -> bool {
        s.0 == regex_score(a, ctx)
    }

    fn try_compile_args(&self, args: &ConfigValue) -> (r: Result<RegexArgs, PluginError>)
        ensures
            r is Ok <==> regex_args_ok(*args),
            r matches Ok(a) ==> {
                &&& value_array(value_get(*args, "patterns"@)) matches Some(p) && a.set.sources() == string_texts(p)
                    && a.total == p.len()
                &&& value_str(value_get(*args, "target"@)) matches Some(t) && spec_target(t) == Some(target_view(a.target))
                &&& a.max_len == DEFAULT_MAX_LEN
            },
    {
        let arr = match get_array(args, "patterns") {
            Some(a) => a,
            None => return Err(plugin_error("sensor-regex: missing 'patterns' array")),
        };
        let patterns = match strings_of(arr) {
            Some(p) => p,
            None => return Err(plugin_error("sensor-regex: patterns must be strings")),
        };
        let target_str = match get_str(args, "target") {
            Some(t) => t,
            None => return Err(plugin_error("sensor-regex: missing 'target'")),
        };
        if !is_target(target_str) {
            return Err(plugin_error("sensor-regex: target must be 'uri', 'body', or 'header:<name>'"));
        }
        let target = parse_target(target_str);
        let total = patterns.len();
        proof {
            assert(patterns@.map_values(|s: String| s@).len() == patterns@.len());
        }
        let set = match PatternSet::new(patterns) {
            Some(s) => s,
            None => return Err(plugin_error("sensor-regex: invalid regex pattern")),
        };
        Ok(RegexArgs { set, total, target, max_len: DEFAULT_MAX_LEN })
    }

    fn evaluate(&self, ctx: &mut RequestContext, args: &RegexArgs) -> (r: Score)
        ensures
            r.0 == regex_score(*args, *old(ctx)),
    {
        if args.total == 0 {
            return Score(0);
        }
        let text: &str = match &args.target {
            Target::Uri => ctx.uri.as_str(),
            Target::Body => match &ctx.body {
                Some(b) => match utf8_text(b.as_slice()) {
                    Some(t) => {
                        proof {
                            vstd::utf8::encode_utf8_decode_utf8(t@);
                            assert(t.spec_bytes() == encode_utf8(t@));
                        }
                        t
                    },
                    None => return Score(0),
                },
                None => return Score(0),
            },
            Target::Header(name) => match ctx.headers.get(name.as_str()) {
                Some(v) => v.as_str(),
                None => return Score(0),
            },
        };
        proof {
            assert(target_text(target_view(args.target), *old(ctx)) == Some(text@));
        }
        let n = text.len();
        proof {
            assert(n == encode_utf8(text@).len() as usize);
        }
        if n > args.max_len {
            return Score(0);
        }
        let matched = args.set.count_matches(text);
        Score::from_fraction(matched as u64, args.total as u64, SINGLE_FRACTION_BITS)
    }
}

} // verus!
