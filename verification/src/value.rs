//! Plugin arguments: a TOML value tree held as plain data.

use vstd::prelude::*;

verus! {

/// A TOML value as the plugin argument compilers read it.
///
/// Floats are kept as their IEEE-754 bit pattern (`f64::to_bits`).
#[derive(Debug)]
pub enum ConfigValue {
    /// A string.
    String(String),
    /// A 64-bit integer.
    Integer(i64),
    /// A float, by its bit pattern.
    Float(u64),
    /// A boolean.
    Boolean(bool),
    /// A date-time, by its TOML text.
    Datetime(String),
    /// An array.
    Array(Vec<ConfigValue>),
    /// A table: keys are distinct, in document order.
    Table(Vec<(String, ConfigValue)>),
}

/// The value stored under `key` in the entries of a table (the first such entry).
pub open spec fn entries_get(entries: Seq<(String, ConfigValue)>, key: Seq<char>) -> Option<ConfigValue>
    decreases entries.len(),
{
    if entries.len() == 0 {
        None
    } else if entries[0].0@ == key {
        Some(entries[0].1)
    } else {
        entries_get(entries.drop_first(), key)
    }
}

/// `v[key]`: the value under `key` when `v` is a table holding it.
pub open spec fn value_get(v: ConfigValue, key: Seq<char>) -> Option<ConfigValue> {
    match v {
        ConfigValue::Table(entries) => entries_get(entries@, key),
        _ => None,
    }
}

/// The string held by `v`, if it is a string.
pub open spec fn value_str(v: Option<ConfigValue>) -> Option<Seq<char>> {
    match v {
        Some(ConfigValue::String(s)) => Some(s@),
        _ => None,
    }
}

/// The integer held by `v`, if it is an integer.
pub open spec fn value_int(v: Option<ConfigValue>) -> Option<i64> {
    match v {
        Some(ConfigValue::Integer(i)) => Some(i),
        _ => None,
    }
}

/// The elements of `v`, if it is an array.
pub open spec fn value_array(v: Option<ConfigValue>) -> Option<Seq<ConfigValue>> {
    match v {
        Some(ConfigValue::Array(a)) => Some(a@),
        _ => None,
    }
}

/// The strings of an array whose elements are all strings.
pub open spec fn all_strings(a: Seq<ConfigValue>) -> bool {
    forall|i: int| 0 <= i < a.len() ==> a[i] is String
}

/// The texts of an array whose elements are all strings.
pub open spec fn string_texts(a: Seq<ConfigValue>) -> Seq<Seq<char>> {
    a.map_values(|v: ConfigValue| match v {
        ConfigValue::String(s) => s@,
        _ => Seq::empty(),
    })
}

impl ConfigValue {
    /// `self[key]` for a table; `None` for anything else or a missing key.
    pub fn get(&self, key: &str) -> (r: Option<&ConfigValue>)
        ensures
            match r {
                Some(v) => value_get(*self, key@) == Some(*v),
                None => value_get(*self, key@) is None,
            },
    {
        match self {
            ConfigValue::Table(entries) => {
                let mut i: usize = 0;
                proof {
                    assert(entries@.skip(0) =~= entries@);
                }
                while i < entries.len()
                    invariant
                        i <= entries.len(),
                        entries_get(entries@, key@) == entries_get(entries@.skip(i as int), key@),
                        value_get(*self, key@) == entries_get(entries@, key@),
                    decreases entries.len() - i,
                {
                    let k = entries[i].0.as_str();
                    proof {
                        let rest = entries@.skip(i as int);
                        assert(rest[0] == entries@[i as int]);
                        assert(rest.drop_first() =~= entries@.skip(i + 1));
                    }
                    if str_eq(k, key) {
                        proof {
                            let rest = entries@.skip(i as int);
                            assert(rest.len() > 0);
                            assert(rest[0].0@ == key@);
                            assert(entries_get(rest, key@) == Some(rest[0].1));
                            assert(entries_get(entries@, key@) == Some(entries@[i as int].1));
                        }
                        return Some(&entries[i].1);
                    }
                    i = i + 1;
                }
                None
            },
            _ => None,
        }
    }

    /// The string, if `self` is a string.
    pub fn as_str(&self) -> (r: Option<&str>)
        ensures
            match r {
                Some(s) => value_str(Some(*self)) == Some(s@),
                None => value_str(Some(*self)) is None,
            },
    {
        match self {
            ConfigValue::String(s) => Some(s.as_str()),
            _ => None,
        }
    }

    /// The integer, if `self` is an integer.
    pub fn as_integer(&self) -> (r: Option<i64>)
        ensures
            r == value_int(Some(*self)),
    {
        match self {
            ConfigValue::Integer(i) => Some(*i),
            _ => None,
        }
    }

    /// The elements, if `self` is an array.
    pub fn as_array(&self) -> (r: Option<&Vec<ConfigValue>>)
        ensures
            match r {
                Some(a) => value_array(Some(*self)) == Some(a@),
                None => value_array(Some(*self)) is None,
            },
    {
        match self {
            ConfigValue::Array(a) => Some(a),
            _ => None,
        }
    }
}

/// Whether two strings are equal.
pub fn str_eq(a: &str, b: &str) -> (r: bool)
    ensures
        r == (a@ == b@),
{
    let x = crate::text::chars_of(a);
    let y = crate::text::chars_of(b);
    crate::text::vec_eq(&x, &y)
}

/// The string under `key`, when present and a string.
pub fn get_str<'a>(v: &'a ConfigValue, key: &str) -> (r: Option<&'a str>)
    ensures
        match r {
            Some(s) => value_str(value_get(*v, key@)) == Some(s@),
            None => value_str(value_get(*v, key@)) is None,
        },
{
    match v.get(key) {
        Some(x) => x.as_str(),
        None => None,
    }
}

/// The integer under `key`, when present and an integer.
pub fn get_integer(v: &ConfigValue, key: &str) -> (r: Option<i64>)
    ensures
        r == value_int(value_get(*v, key@)),
{
    match v.get(key) {
        Some(x) => x.as_integer(),
        None => None,
    }
}

/// The array under `key`, when present and an array.
pub fn get_array<'a>(v: &'a ConfigValue, key: &str) -> (r: Option<&'a Vec<ConfigValue>>)
    ensures
        match r {
            Some(a) => value_array(value_get(*v, key@)) == Some(a@),
            None => value_array(value_get(*v, key@)) is None,
        },
{
    match v.get(key) {
        Some(x) => x.as_array(),
        None => None,
    }
}

/// The texts of an array of strings, or `None` when an element is not a string.
pub fn strings_of(a: &Vec<ConfigValue>) -> (r: Option<Vec<String>>)
    ensures
        match r {
            Some(v) => all_strings(a@) && v@.map_values(|s: String| s@) == string_texts(a@),
            None => !all_strings(a@),
        },
{
    let mut out: Vec<String> = Vec::new();
    let mut i: usize = 0;
    while i < a.len()
        invariant
            i <= a.len(),
            out.len() == i,
            forall|j: int| 0 <= j < i ==> a@[j] is String,
            forall|j: int| 0 <= j < i ==> out@[j]@ == string_texts(a@)[j],
        decreases a.len() - i,
    {
        match &a[i] {
            ConfigValue::String(s) => {
                out.push(s.clone());
            },
            _ => {
                return None;
            },
        }
        i = i + 1;
    }
    proof {
        assert(out@.map_values(|s: String| s@) =~= string_texts(a@));
    }
    Some(out)
}

} // verus!
