//! Inspects a single named cookie from the `Cookie` request header.

use vstd::prelude::*;

use crate::patterns::{regex_compiles, regex_is_match, Pattern};
use crate::plugin::{plugin_error, Plugin, PluginError};
use crate::request::RequestContext;
use crate::score::Score;
use crate::sensors::Sensor;
use crate::text::{chars_of, find_char_in, first_index, is_first_index, lemma_first_index_none,
    lemma_first_index_unique, range_eq, string_of_range, trim, trim_bounds};
use crate::value::{get_str, str_eq, value_get, value_str, ConfigValue};

verus! {

/// Sensor that inspects a single named cookie from the `Cookie` request header.
pub struct CookieSensor;

/// How to test the cookie value after it is found by name.
#[derive(Debug)]
pub enum CookieOp {
    /// Cookie is present (its value is not checked).
    Present,
    /// Cookie value equals the configured string exactly.
    Eq(String),
    /// Cookie value matches a compiled regular expression.
    Regex(Pattern),
}

/// Compiled arguments for [`CookieSensor`].
#[derive(Debug)]
pub struct CookieArgs {
    /// Cookie name to look up (case-sensitive).
    pub name: String,
    /// How to test the cookie once found.
    pub op: CookieOp,
}

/// The value that one `;`-separated piece of a `Cookie` header gives cookie
/// `name`: the piece is trimmed and split at its first `=`; the trimmed key
/// must equal `name`, and the value is the rest after `=`, untrimmed.  A piece
/// without `=` that equals `name` gives the empty value.
pub open spec fn cookie_in_piece(piece: Seq<char>, name: Seq<char>) -> Option<Seq<char>> {
    let t = trim(piece);
    let e = first_index(t, '=');
    if e >= 0 {
        if trim(t.take(e)) == name { Some(t.skip(e + 1)) } else { None }
    } else if t == name {
        Some(Seq::empty())
    } else {
        None
    }
}

/// The value of cookie `name` in a raw `Cookie` header: that of the first
/// `;`-separated piece that names it.
pub open spec fn find_cookie_spec(raw: Seq<char>, name: Seq<char>) -> Option<Seq<char>>
    decreases raw.len(),
{
    let i = first_index(raw, ';');
    if 0 <= i < raw.len() {
        match cookie_in_piece(raw.take(i), name) {
            Some(v) => Some(v),
            None => find_cookie_spec(raw.skip(i + 1), name),
        }
    } else {
        cookie_in_piece(raw, name)
    }
}

/// The value of one piece `u[from..to]`.
fn piece_value(u: &Vec<char>, from: usize, to: usize, name: &Vec<char>) -> (r: Option<String>)
    requires
        from <= to <= u.len(),
    ensures
        match r {
            Some(v) => cookie_in_piece(u@.subrange(from as int, to as int), name@) == Some(v@),
            None => cookie_in_piece(u@.subrange(from as int, to as int), name@) is None,
        },
{
    let ghost piece = u@.subrange(from as int, to as int);
    let (a, b) = trim_bounds(u, from, to);
    let ghost t = u@.subrange(a as int, b as int);
    assert(t == trim(piece));
    match find_char_in(u, '=', a, b) {
        Some(e) => {
            proof {
                assert(is_first_index(t, '=', e - a));
                lemma_first_index_unique(t, '=', e - a);
            }
            let (ka, kb) = trim_bounds(u, a, e);
            proof {
                assert(u@.subrange(a as int, e as int) =~= t.take(e - a));
                assert(u@.subrange(e + 1, b as int) =~= t.skip(e - a + 1));
            }
            if range_eq(u, ka, kb, name) {
                Some(string_of_range(u, e + 1, b))
            } else {
                None
            }
        },
        None => {
            proof {
                lemma_first_index_none(t, '=');
            }
            if range_eq(u, a, b, name) {
                let s = String::new();
                proof {
                    assert(s@ =~= Seq::<char>::empty());
                }
                Some(s)
            } else {
                None
            }
        },
    }
}

/// Parses a raw `Cookie` header value and returns the value for `name`, if present.
///
/// Pieces are split on `;`, trimmed, and split on their first `=`.
pub fn find_cookie(raw: &str, name: &str) -> (r: Option<String>)
    ensures
        match r {
            Some(v) => find_cookie_spec(raw@, name@) == Some(v@),
            None => find_cookie_spec(raw@, name@) is None,
        },
{
    let u = chars_of(raw);
    let n = chars_of(name);
    let mut start: usize = 0;
    proof {
        assert(u@.skip(0) =~= u@);
    }
    while start <= u.len()
        invariant
            start <= u.len(),
            find_cookie_spec(raw@, name@) == find_cookie_spec(u@.skip(start as int), name@),
            u@ == raw@,
            n@ == name@,
        decreases u.len() + 1 - start,
    {
        let ghost rest = u@.skip(start as int);
        match find_char_in(&u, ';', start, u.len()) {
            Some(e) => {
                proof {
                    assert(is_first_index(rest, ';', e - start));
                    lemma_first_index_unique(rest, ';', e - start);
                    assert(u@.subrange(start as int, e as int) =~= rest.take(e - start));
                    assert(rest.skip(e - start + 1) =~= u@.skip(e + 1));
                }
                match piece_value(&u, start, e, &n) {
                    Some(v) => {
                        return Some(v);
                    },
                    None => {},
                }
                start = e + 1;
            },
            None => {
                proof {
                    lemma_first_index_none(rest, ';');
                    assert(u@.subrange(start as int, u@.len() as int) =~= rest);
                }
                return piece_value(&u, start, u.len(), &n);
            },
        }
    }
    None
}

/// The operator an `op` argument names (`present` when absent).
pub open spec fn spec_cookie_op(args: ConfigValue) -> Option<int> {
    match value_str(value_get(args, "op"@)) {
        None => Some(0),
        Some(o) => if o == "present"@ {
            Some(0)
        } else if o == "eq"@ {
            Some(1)
        } else if o == "regex"@ {
            Some(2)
        } else {
            None
        },
    }
}

/// Whether the cookie arguments are well formed: a `name` string, a known
/// `op`, a `value` string for `eq` and `regex`, and a valid pattern for `regex`.
pub open spec fn cookie_args_ok(args: ConfigValue) -> bool {
    &&& value_str(value_get(args, "name"@)) is Some
    &&& spec_cookie_op(args) is Some
    &&& spec_cookie_op(args) != Some(0int) ==> value_str(value_get(args, "value"@)) is Some
    &&& spec_cookie_op(args) == Some(2int) ==> regex_compiles(value_str(value_get(args, "value"@))->0)
}

impl Plugin for CookieSensor {}

impl Sensor for CookieSensor {
    type Args = CookieArgs;

    open spec fn accepts(&self, args: ConfigValue) -> bool {
        cookie_args_ok(args)
    }

    open spec fn compiles_to(&self, args: ConfigValue, a: CookieArgs) -> bool {
        &&& value_str(value_get(args, "name"@)) == Some(a.name@)
        &&& match a.op {
            CookieOp::Present => spec_cookie_op(args) == Some(0int),
            CookieOp::Eq(v) => spec_cookie_op(args) == Some(1int) && value_str(value_get(args, "value"@)) == Some(v@),
            CookieOp::Regex(p) => spec_cookie_op(args) == Some(2int) && value_str(value_get(args, "value"@)) == Some(p.source()),
        }
    }

    open spec fn scores(&self, ctx: RequestContext, a: CookieArgs, s: Score) -> bool {
        s.0 == match ctx.headers.spec_get("cookie"@) {
            None => 0u8,
            Some(raw) => match find_cookie_spec(raw, a.name@) {
                None => 0u8,
                Some(v) => match a.op {
                    CookieOp::Present => 100u8,
                    CookieOp::Eq(e) => if v == e@ { 100u8 } else { 0u8 },
                    CookieOp::Regex(p) => if regex_is_match(p.source(), v) { 100u8 } else { 0u8 },
                },
            },
        }
    }

    fn try_compile_args(&self, args: &ConfigValue) -> (r: Result<CookieArgs, PluginError>)
        ensures
            r is Ok <==> cookie_args_ok(*args),
            r matches Ok(a) ==> {
                &&& value_str(value_get(*args, "name"@)) == Some(a.name@)
                &&& match a.op {
                    CookieOp::Present => spec_cookie_op(*args) == Some(0int),
                    CookieOp::Eq(v) => spec_cookie_op(*args) == Some(1int) && value_str(value_get(*args, "value"@)) == Some(v@),
                    CookieOp::Regex(p) => spec_cookie_op(*args) == Some(2int) && value_str(value_get(*args, "value"@)) == Some(p.source()),
                }
            },
    {
        let name = match get_str(args, "name") {
            Some(n) => n.to_owned(),
            None => return Err(plugin_error("sensor-cookie: missing 'name'")),
        };
        let op_str = match get_str(args, "op") {
            Some(o) => o,
            None => "present",
        };
        proof {
            reveal_strlit("present");
        }
        let op = if str_eq(op_str, "present") {
            CookieOp::Present
        } else if str_eq(op_str, "eq") {
            match get_str(args, "value") {
                Some(v) => CookieOp::Eq(v.to_owned()),
                None => return Err(plugin_error("sensor-cookie: 'eq' op requires 'value'")),
            }
        } else if str_eq(op_str, "regex") {
            let pat = match get_str(args, "value") {
                Some(v) => v,
                None => return Err(plugin_error("sensor-cookie: 'regex' op requires 'value'")),
            };
            match Pattern::new(pat) {
                Some(p) => CookieOp::Regex(p),
                None => return Err(plugin_error("sensor-cookie: invalid regex in 'value'")),
            }
        } else {
            return Err(plugin_error("sensor-cookie: unknown op"));
        };
        Ok(CookieArgs { name, op })
    }

    fn evaluate(&self, ctx: &mut RequestContext, args: &CookieArgs) -> (r: Score)
        ensures
            r.0 == match old(ctx).headers.spec_get("cookie"@) {
                None => 0u8,
                Some(raw) => match find_cookie_spec(raw, args.name@) {
                    None => 0u8,
                    Some(v) => match args.op {
                        CookieOp::Present => 100u8,
                        CookieOp::Eq(e) => if v == e@ { 100u8 } else { 0u8 },
                        CookieOp::Regex(p) => if regex_is_match(p.source(), v) { 100u8 } else { 0u8 },
                    },
                },
            },
    {
        let raw = match ctx.headers.get("cookie") {
            Some(v) => v.as_str(),
            None => return Score(0),
        };
        let found = find_cookie(raw, args.name.as_str());
        match &args.op {
            CookieOp::Present => Score::from_bool(found.is_some()),
            CookieOp::Eq(val) => match &found {
                Some(v) => Score::from_bool(str_eq(v.as_str(), val.as_str())),
                None => Score(0),
            },
            CookieOp::Regex(re) => match &found {
                Some(v) => Score::from_bool(re.is_match(v.as_str())),
                None => Score(0),
            },
        }
    }
}

} // verus!
