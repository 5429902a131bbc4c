//! Scores 100 when a named HTTP field matches one of the configured values.

use vstd::prelude::*;

use crate::plugin::{plugin_error, Plugin, PluginError};
use crate::request::RequestContext;
use crate::score::Score;
use crate::sensors::Sensor;
use crate::text::{chars_of, contains_str, ends_with, first_index, first_index_of, starts_with,
    string_of_range, vec_contains, vec_ends_with, vec_eq, vec_starts_with};
use crate::value::{all_strings, get_array, get_str, str_eq, string_texts, strings_of, value_array,
    value_get, value_str, ConfigValue};

verus! {

/// Which HTTP field to extract and compare.
#[derive(Debug, Clone, Copy, PartialEq, Eq, Structural)]
pub enum Field {
    /// HTTP method (e.g. `GET`, `POST`).
    Method,
    /// URL path component, without the query string.
    Path,
    /// URL query string, without the leading `?`.
    Query,
    /// `Host` request header value.
    Host,
    /// `Content-Type` request header value.
    ContentType,
}

/// How to compare the extracted field value against each entry in `values`.
#[derive(Debug, Clone, Copy, PartialEq, Eq, Structural)]
pub enum Op {
    /// Exact equality.
    Eq,
    /// Field starts with the pattern.
    Prefix,
    /// Field ends with the pattern.
    Suffix,
    /// Pattern is a substring of the field.
    Contains,
}

/// Sensor that scores 100 when a named HTTP field matches any of the configured values.
pub struct StringMatchSensor;

/// Compiled arguments for [`StringMatchSensor`].
#[derive(Debug)]
pub struct StringMatchArgs {
    /// Which field to extract from the request.
    pub field: Field,
    /// Comparison operator.
    pub op: Op,
    /// Patterns; any match scores 100.
    pub values: Vec<String>,
}

/// The field that a `field` argument names.
pub open spec fn parse_field(s: Seq<char>) -> Option<Field> {
    if s == "method"@ {
        Some(Field::Method)
    } else if s == "path"@ {
        Some(Field::Path)
    } else if s == "query"@ {
        Some(Field::Query)
    } else if s == "host"@ {
        Some(Field::Host)
    } else if s == "content-type"@ {
        Some(Field::ContentType)
    } else {
        None
    }
}

/// The operator that an `op` argument names (`eq` when absent).
pub open spec fn parse_op(s: Option<Seq<char>>) -> Option<Op> {
    match s {
        None => Some(Op::Eq),
        Some(s) => if s == "eq"@ {
            Some(Op::Eq)
        } else if s == "prefix"@ {
            Some(Op::Prefix)
        } else if s == "suffix"@ {
            Some(Op::Suffix)
        } else if s == "contains"@ {
            Some(Op::Contains)
        } else {
            None
        },
    }
}

/// The path of a URI: everything before the first `?`.
pub open spec fn uri_path(uri: Seq<char>) -> Seq<char> {
    let i = first_index(uri, '?');
    if i >= 0 { uri.take(i) } else { uri }
}

/// The query of a URI: everything after the first `?`, or nothing.
pub open spec fn uri_query(uri: Seq<char>) -> Seq<char> {
    let i = first_index(uri, '?');
    if i >= 0 { uri.skip(i + 1) } else { Seq::empty() }
}

/// The value of `field` in the request, if present.
pub open spec fn field_value(field: Field, ctx: RequestContext) -> Option<Seq<char>> {
    match field {
        Field::Method => Some(ctx.method@),
        Field::Path => Some(uri_path(ctx.uri@)),
        Field::Query => Some(uri_query(ctx.uri@)),
        Field::Host => ctx.headers.spec_get("host"@),
        Field::ContentType => ctx.headers.spec_get("content-type"@),
    }
}

/// Whether `value` matches `pat` under `op`.
pub open spec fn op_matches(op: Op, value: Seq<char>, pat: Seq<char>) -> bool {
    match op {
        Op::Eq => value == pat,
        Op::Prefix => starts_with(value, pat),
        Op::Suffix => ends_with(value, pat),
        Op::Contains => contains_str(value, pat),
    }
}

/// Whether some pattern matches.
pub open spec fn any_matches(op: Op, value: Seq<char>, pats: Seq<String>) -> bool {
    exists|i: int| 0 <= i < pats.len() && op_matches(op, value, #[trigger] pats[i]@)
}

fn field_of(s: &str) -> (r: Option<Field>)
    ensures
        r == parse_field(s@),
{
    if str_eq(s, "method") {
        Some(Field::Method)
    } else if str_eq(s, "path") {
        Some(Field::Path)
    } else if str_eq(s, "query") {
        Some(Field::Query)
    } else if str_eq(s, "host") {
        Some(Field::Host)
    } else if str_eq(s, "content-type") {
        Some(Field::ContentType)
    } else {
        None
    }
}

fn op_of(s: Option<&str>) -> (r: Option<Op>)
    ensures
        r == parse_op(match s { Some(t) => Some(t@), None => None }),
{
    match s {
        None => Some(Op::Eq),
        Some(s) => if str_eq(s, "eq") {
            Some(Op::Eq)
        } else if str_eq(s, "prefix") {
            Some(Op::Prefix)
        } else if str_eq(s, "suffix") {
            Some(Op::Suffix)
        } else if str_eq(s, "contains") {
            Some(Op::Contains)
        } else {
            None
        },
    }
}

fn op_test(op: Op, value: &Vec<char>, pat: &Vec<char>) -> (r: bool)
    ensures
        r == op_matches(op, value@, pat@),
{
    match op {
        Op::Eq => vec_eq(value, pat),
        Op::Prefix => vec_starts_with(value, pat),
        Op::Suffix => vec_ends_with(value, pat),
        Op::Contains => vec_contains(value, pat),
    }
}

/// The well-formed arguments: a known `field`, a known `op` (default `eq`),
/// and a `values` array of strings.
pub open spec fn spec_string_match_args(args: ConfigValue) -> Option<(Field, Op, Seq<Seq<char>>)> {
    match (value_str(value_get(args, "field"@)), value_array(value_get(args, "values"@))) {
        (Some(f), Some(vs)) => match (parse_field(f), parse_op(value_str(value_get(args, "op"@)))) {
            (Some(field), Some(op)) => if all_strings(vs) {
                Some((field, op, string_texts(vs)))
            } else {
                None
            },
            _ => None,
        },
        _ => None,
    }
}

impl Plugin for StringMatchSensor {}

impl Sensor for StringMatchSensor {
    type Args = StringMatchArgs;

    open spec fn accepts(&self, args: ConfigValue) -> bool {
        spec_string_match_args(args) is Some
    }

    open spec fn compiles_to(&self, args: ConfigValue, a: StringMatchArgs) -> bool {
        spec_string_match_args(args) == Some((a.field, a.op, a.values@.map_values(|s: String| s@)))
    }

    open spec fn scores(&self, ctx: RequestContext, a: StringMatchArgs, s: Score) -> bool {
        s.0 == match field_value(a.field, ctx) {
            Some(v) => if any_matches(a.op, v, a.values@) { 100u8 } else { 0u8 },
            None => 0u8,
        }
    }

    fn try_compile_args(&self, args: &ConfigValue) -> (r: Result<StringMatchArgs, PluginError>)
        ensures
            match r {
                Ok(a) => spec_string_match_args(*args) == Some(
                    (a.field, a.op, a.values@.map_values(|s: String| s@)),
                ),
                Err(_) => spec_string_match_args(*args) is None,
            },
    {
        let field_str = match get_str(args, "field") {
            Some(s) => s,
            None => return Err(plugin_error("sensor-string-match: missing 'field'")),
        };
        let field = match field_of(field_str) {
            Some(f) => f,
            None => return Err(plugin_error("sensor-string-match: unknown field")),
        };
        let op = match op_of(get_str(args, "op")) {
            Some(o) => o,
            None => return Err(plugin_error("sensor-string-match: unknown op")),
        };
        let arr = match get_array(args, "values") {
            Some(a) => a,
            None => return Err(plugin_error("sensor-string-match: missing 'values' array")),
        };
        let values = match strings_of(arr) {
            Some(v) => v,
            None => return Err(plugin_error("sensor-string-match: values must be strings")),
        };
        Ok(StringMatchArgs { field, op, values })
    }

    fn evaluate(&self, ctx: &mut RequestContext, args: &StringMatchArgs) -> (r: Score)
        ensures
            r.0 == match field_value(args.field, *old(ctx)) {
                Some(v) => if any_matches(args.op, v, args.values@) { 100u8 } else { 0u8 },
                None => 0u8,
            },
    {
        let value: Vec<char> = match args.field {
            Field::Method => chars_of(ctx.method.as_str()),
            Field::Path => {
                let u = chars_of(ctx.uri.as_str());
                match first_index_of(&u, '?') {
                    Some(i) => {
                        let p = string_of_range(&u, 0, i);
                        proof {
                            assert(u@.subrange(0, i as int) =~= u@.take(i as int));
                        }
                        chars_of(p.as_str())
                    },
                    None => u,
                }
            },
            Field::Query => {
                let u = chars_of(ctx.uri.as_str());
                match first_index_of(&u, '?') {
                    Some(i) => {
                        let q = string_of_range(&u, i + 1, u.len());
                        proof {
                            assert(u@.subrange(i + 1, u@.len() as int) =~= u@.skip(i + 1));
                        }
                        chars_of(q.as_str())
                    },
                    None => Vec::new(),
                }
            },
            Field::Host => match ctx.headers.get("host") {
                Some(h) => chars_of(h.as_str()),
                None => return Score(0),
            },
            Field::ContentType => match ctx.headers.get("content-type") {
                Some(h) => chars_of(h.as_str()),
                None => return Score(0),
            },
        };
        proof {
            assert(field_value(args.field, *old(ctx)) == Some(value@));
        }
        let mut i: usize = 0;
        while i < args.values.len()
            invariant
                i <= args.values@.len(),
                field_value(args.field, *old(ctx)) == Some(value@),
                forall|j: int| 0 <= j < i ==> !op_matches(args.op, value@, #[trigger] args.values@[j]@),
            decreases args.values.len() - i,
        {
            let pat = chars_of(args.values[i].as_str());
            if op_test(args.op, &value, &pat) {
                proof {
                    assert(op_matches(args.op, value@, args.values@[i as int]@));
                }
                return Score(100);
            }
            i = i + 1;
        }
        Score(0)
    }
}

} // verus!
