//! Match the client's country or autonomous system, resolved by a database
//! that the caller opens, and record what was resolved in the request metadata.

use vstd::prelude::*;

use crate::plugin::{plugin_error, Plugin, PluginError, SensorFn};
use crate::provider::ProviderId;
use crate::request::{IpAddress, RequestContext};
use crate::score::Score;
use crate::text::{decimal, decimal_string, str_uppercase, to_uppercase};
use crate::value::{all_strings, get_array, get_str, value_array, value_get, value_str, ConfigValue};

verus! {

broadcast use vstd::std_specs::hash::group_hash_axioms;

/// Resolves an address to a country code (ISO 3166-1 alpha-2, upper-case).
pub trait GeoResolver: Send + Sync {
    /// Whether `code` is an answer this resolver may give for `ip`.  A
    /// resolver that does not say may give any answer.
    open spec fn answers(&self, ip: IpAddress, code: Option<Seq<char>>) -> bool {
        true
    }

    /// The country code of `ip`, or `None` if unknown.
    fn country_code(&self, ip: IpAddress) -> (r: Option<String>)
        ensures
            self.answers(ip, opt_text(r)),
    ;
}

/// The text of an optional string.
pub open spec fn opt_text(s: Option<String>) -> Option<Seq<char>> {
    match s {
        Some(t) => Some(t@),
        None => None,
    }
}

/// The text recorded for an optional answer: the answer, or empty.
pub open spec fn answer_text(code: Option<Seq<char>>) -> Seq<char> {
    match code {
        Some(c) => c,
        None => Seq::empty(),
    }
}

/// The number recorded for an optional answer: the answer, or 0.
pub open spec fn answer_number(asn: Option<u32>) -> u32 {
    match asn {
        Some(a) => a,
        None => 0,
    }
}

/// Resolves an address to its autonomous system number.
pub trait AsnResolver: Send + Sync {
    /// Whether `asn` is an answer this resolver may give for `ip`.  A
    /// resolver that does not say may give any answer.
    open spec fn answers(&self, ip: IpAddress, asn: Option<u32>) -> bool {
        true
    }

    /// The AS number of `ip`, or `None` if unknown.
    fn asn(&self, ip: IpAddress) -> (r: Option<u32>)
        ensures
            self.answers(ip, r),
    ;
}

/// The settings of a database-backed sensor: where its database is, and what it matches.
#[derive(Debug)]
pub struct DatabaseSettings<T> {
    /// Path of the `.mmdb` database.
    pub db_path: String,
    /// The values to match.
    pub values: Vec<T>,
}

/// Sensor that scores 100 if the client address belongs to one of the configured countries.
pub struct GeoSensor;

/// Compiled arguments for [`GeoSensor`].
pub struct GeoArgs {
    /// Country resolver.
    pub resolver: Box<dyn GeoResolver>,
    /// Country codes to match (upper-case).
    pub countries: Vec<String>,
    /// This sensor's own id: the metadata key for the resolved country code.
    pub provider_id: ProviderId,
}

/// The well-formed geo arguments: a `db_path` string and a `countries` array of strings.
pub open spec fn geo_args_ok(args: ConfigValue) -> bool {
    &&& value_str(value_get(args, "db_path"@)) is Some
    &&& value_array(value_get(args, "countries"@)) matches Some(a) && all_strings(a)
}

impl Plugin for GeoSensor {}

impl GeoSensor {
    /// Reads the database path and the country codes (upper-cased).
    pub fn compile_settings(&self, args: &ConfigValue) -> (r: Result<DatabaseSettings<String>, PluginError>)
        ensures
            r is Ok <==> geo_args_ok(*args),
            r matches Ok(s) ==> {
                &&& value_str(value_get(*args, "db_path"@)) == Some(s.db_path@)
                &&& value_array(value_get(*args, "countries"@)) matches Some(a) && s.values@.len() == a.len()
                    && forall|i: int| 0 <= i < a.len() ==> (#[trigger] a[i] matches ConfigValue::String(c)
                        && s.values@[i]@ == str_uppercase(c@))
            },
    {
        let db_path = match get_str(args, "db_path") {
            Some(p) => p.to_owned(),
            None => return Err(plugin_error("sensor-geo: missing 'db_path'")),
        };
        let arr = match get_array(args, "countries") {
            Some(a) => a,
            None => return Err(plugin_error("sensor-geo: missing 'countries' array")),
        };
        let mut values: Vec<String> = Vec::new();
        let mut i: usize = 0;
        while i < arr.len()
            invariant
                value_array(value_get(*args, "countries"@)) == Some(arr@),
                i <= arr.len(),
                values@.len() == i,
                forall|j: int| 0 <= j < i ==> (#[trigger] arr@[j] matches ConfigValue::String(c)
                    && values@[j]@ == str_uppercase(c@)),
            decreases arr.len() - i,
        {
            match arr[i].as_str() {
                Some(c) => values.push(to_uppercase(c)),
                None => return Err(plugin_error("sensor-geo: country codes must be strings")),
            }
            i = i + 1;
        }
        Ok(DatabaseSettings { db_path, values })
    }

    /// Resolves the client's country, records it (empty when unknown) under the
    /// sensor's own id in the metadata, and scores 100 when it is one of the
    /// configured countries.
    pub fn evaluate(&self, ctx: &mut RequestContext, args: &GeoArgs) -> (r: Score)
        ensures
            final(ctx).metadata@ == old(ctx).metadata@.insert(args.provider_id.0, final(ctx).metadata@[args.provider_id.0]),
            exists|code: Option<Seq<char>>| #[trigger] args.resolver.answers(old(ctx).client_ip, code)
                && final(ctx).metadata@[args.provider_id.0]@ == answer_text(code),
            r.0 == if args.countries@.map_values(|s: String| s@).contains(final(ctx).metadata@[args.provider_id.0]@) {
                100u8
            } else {
                0u8
            },
            final(ctx).cache@ == old(ctx).cache@,
            final(ctx).client_ip == old(ctx).client_ip,
            final(ctx).uri@ == old(ctx).uri@,
            final(ctx).method@ == old(ctx).method@,
            final(ctx).headers == old(ctx).headers,
            final(ctx).body == old(ctx).body,
            final(ctx).current_score == old(ctx).current_score,
    {
        let answer = args.resolver.country_code(ctx.client_ip);
        let ghost res = opt_text(answer);
        let code = match answer {
            Some(c) => c,
            None => String::new(),
        };
        assert(code@ == answer_text(res));
        let found = contains_string(&args.countries, &code);
        ctx.metadata.insert(args.provider_id.0, code);
        Score::from_bool(found)
    }
}

/// Whether `v` holds a string equal to `s`.
fn contains_string(v: &Vec<String>, s: &String) -> (r: bool)
    ensures
        r == v@.map_values(|x: String| x@).contains(s@),
{
    let mut i: usize = 0;
    while i < v.len()
        invariant
            i <= v@.len(),
            forall|j: int| 0 <= j < i ==> v@[j]@ != s@,
        decreases v.len() - i,
    {
        if v[i] == *s {
            proof {
                assert(v@.map_values(|x: String| x@)[i as int] == s@);
            }
            return true;
        }
        i = i + 1;
    }
    proof {
        let m = v@.map_values(|x: String| x@);
        if m.contains(s@) {
            let k = choose|k: int| 0 <= k < m.len() && m[k] == s@;
            assert(v@[k]@ == s@);
        }
    }
    false
}

/// A geo sensor bound to its arguments.
pub struct GeoNode {
    /// The compiled arguments.
    pub args: GeoArgs,
}

impl SensorFn for GeoNode {
    /// The country the resolver gave is recorded under the sensor's id, and
    /// the score is 100 exactly when it is one of the configured countries.
    open spec fn scores(&self, before: RequestContext, after: RequestContext, s: Score) -> bool {
        let id = self.args.provider_id.0;
        &&& after.metadata@ == before.metadata@.insert(id, after.metadata@[id])
        &&& exists|code: Option<Seq<char>>| #[trigger] self.args.resolver.answers(before.client_ip, code)
            && after.metadata@[id]@ == answer_text(code)
        &&& s.0 == if self.args.countries@.map_values(|c: String| c@).contains(after.metadata@[id]@) {
            100u8
        } else {
            0u8
        }
    }

    fn evaluate(&self, ctx: &mut RequestContext) -> (r: Score) {
        GeoSensor.evaluate(ctx, &self.args)
    }
}

/// Sensor that scores 100 when the client address belongs to one of the
/// configured autonomous systems, and records the resolved number.
pub struct AsnSensor;

/// Compiled arguments for [`AsnSensor`].
pub struct AsnArgs {
    /// AS-number resolver.
    pub resolver: Box<dyn AsnResolver>,
    /// AS numbers to match.
    pub asns: Vec<u32>,
    /// This sensor's own id: the metadata key for the resolved AS number.
    pub provider_id: ProviderId,
}

/// The well-formed ASN arguments: a `db_path` string and an `asns` array of integers.
pub open spec fn asn_args_ok(args: ConfigValue) -> bool {
    &&& value_str(value_get(args, "db_path"@)) is Some
    &&& value_array(value_get(args, "asns"@)) matches Some(a)
        && forall|i: int| 0 <= i < a.len() ==> #[trigger] a[i] is Integer
}

impl Plugin for AsnSensor {}

impl AsnSensor {
    /// Reads the database path and the AS numbers (each converted `as u32`).
    pub fn compile_settings(&self, args: &ConfigValue) -> (r: Result<DatabaseSettings<u32>, PluginError>)
        ensures
            r is Ok <==> asn_args_ok(*args),
            r matches Ok(s) ==> {
                &&& value_str(value_get(*args, "db_path"@)) == Some(s.db_path@)
                &&& value_array(value_get(*args, "asns"@)) matches Some(a) && s.values@.len() == a.len()
                    && forall|i: int| 0 <= i < a.len() ==> (#[trigger] a[i] matches ConfigValue::Integer(n)
                        && s.values@[i] == n as u32)
            },
    {
        let db_path = match get_str(args, "db_path") {
            Some(p) => p.to_owned(),
            None => return Err(plugin_error("sensor-asn: missing 'db_path'")),
        };
        let arr = match get_array(args, "asns") {
            Some(a) => a,
            None => return Err(plugin_error("sensor-asn: missing 'asns' array")),
        };
        let mut values: Vec<u32> = Vec::new();
        let mut i: usize = 0;
        while i < arr.len()
            invariant
                value_array(value_get(*args, "asns"@)) == Some(arr@),
                i <= arr.len(),
                values@.len() == i,
                forall|j: int| 0 <= j < i ==> (#[trigger] arr@[j] matches ConfigValue::Integer(n) && values@[j] == n as u32),
            decreases arr.len() - i,
        {
            match arr[i].as_integer() {
                Some(n) => values.push(n as u32),
                None => return Err(plugin_error("sensor-asn: each entry in 'asns' must be an integer")),
            }
            i = i + 1;
        }
        Ok(DatabaseSettings { db_path, values })
    }

    /// Resolves the client's AS number (0 when unknown), records it as decimal
    /// text under the sensor's own id in the metadata, and scores 100 when it is
    /// one of the configured numbers.
    pub fn evaluate(&self, ctx: &mut RequestContext, args: &AsnArgs) -> (r: Score)
        ensures
            exists|res: Option<u32>| {
                &&& #[trigger] args.resolver.answers(old(ctx).client_ip, res)
                &&& final(ctx).metadata@ == old(ctx).metadata@.insert(args.provider_id.0, final(ctx).metadata@[args.provider_id.0])
                &&& final(ctx).metadata@[args.provider_id.0]@ == decimal(answer_number(res) as nat)
                &&& r.0 == if args.asns@.contains(answer_number(res)) { 100u8 } else { 0u8 }
            },
            final(ctx).cache@ == old(ctx).cache@,
            final(ctx).client_ip == old(ctx).client_ip,
            final(ctx).uri@ == old(ctx).uri@,
            final(ctx).method@ == old(ctx).method@,
            final(ctx).headers == old(ctx).headers,
            final(ctx).body == old(ctx).body,
            final(ctx).current_score == old(ctx).current_score,
    {
        let res = args.resolver.asn(ctx.client_ip);
        let asn = match res {
            Some(a) => a,
            None => 0,
        };
        let text = decimal_string(asn as u64);
        let mut found = false;
        let mut i: usize = 0;
        while i < args.asns.len()
            invariant
                i <= args.asns@.len(),
                found == exists|j: int| 0 <= j < i && args.asns@[j] == asn,
            decreases args.asns.len() - i,
        {
            if args.asns[i] == asn {
                found = true;
            }
            i = i + 1;
        }
        ctx.metadata.insert(args.provider_id.0, text);
        Score::from_bool(found)
    }
}

/// An ASN sensor bound to its arguments.
pub struct AsnNode {
    /// The compiled arguments.
    pub args: AsnArgs,
}

impl SensorFn for AsnNode {
    /// The AS number the resolver gave (0 when unknown) is recorded as decimal
    /// text under the sensor's id, and the score is 100 exactly when it is one
    /// of the configured numbers.
    open spec fn scores(&self, before: RequestContext, after: RequestContext, s: Score) -> bool {
        let id = self.args.provider_id.0;
        exists|res: Option<u32>| {
            &&& #[trigger] self.args.resolver.answers(before.client_ip, res)
            &&& after.metadata@ == before.metadata@.insert(id, after.metadata@[id])
            &&& after.metadata@[id]@ == decimal(answer_number(res) as nat)
            &&& s.0 == if self.args.asns@.contains(answer_number(res)) { 100u8 } else { 0u8 }
        }
    }

    fn evaluate(&self, ctx: &mut RequestContext) -> (r: Score) {
        AsnSensor.evaluate(ctx, &self.args)
    }
}

/// What a geo sensor records, and matches, is its resolver's answer for the
/// request's own client address: the score is 100 exactly when that answer is
/// one of the configured countries.
pub proof fn lemma_geo_answer_for_client(node: GeoNode, before: RequestContext, after: RequestContext, s: Score)
    requires
        node.scores(before, after, s),
    ensures
        exists|code: Option<Seq<char>>| #[trigger] node.args.resolver.answers(before.client_ip, code)
            && after.metadata@[node.args.provider_id.0]@ == answer_text(code) && (s.0 == 100
            <==> node.args.countries@.map_values(|c: String| c@).contains(answer_text(code))),
{
}

/// What an ASN sensor records, and matches, is its resolver's answer for the
/// request's own client address (0 when it has none): the score is 100
/// exactly when that number is one of the configured ones.
pub proof fn lemma_asn_answer_for_client(node: AsnNode, before: RequestContext, after: RequestContext, s: Score)
    requires
        node.scores(before, after, s),
    ensures
        exists|res: Option<u32>| #[trigger] node.args.resolver.answers(before.client_ip, res)
            && after.metadata@[node.args.provider_id.0]@ == decimal(answer_number(res) as nat) && (s.0 == 100
            <==> node.args.asns@.contains(answer_number(res))),
{
}

} // verus!
