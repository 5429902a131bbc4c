//! Match the client address against a list of addresses or of networks.

use vstd::prelude::*;

use crate::net::{cidr_parse, ip_parse, net_contains, parse_ip, IpNetwork};
use crate::plugin::{plugin_error, Plugin, PluginError};
use crate::request::{IpAddress, RequestContext};
use crate::score::Score;
use crate::sensors::Sensor;
use crate::value::{get_array, value_array, value_get, ConfigValue};

verus! {

/// Sensor that scores 100 if the client IP is one of the configured addresses.
pub struct IpSensor;

/// Compiled arguments for [`IpSensor`].
#[derive(Debug)]
pub struct IpArgs {
    /// Addresses to match against.
    pub allowed: Vec<IpAddress>,
}

/// Each element of `a` is a string that parses with `f`.
pub open spec fn all_parse<T>(a: Seq<ConfigValue>, f: spec_fn(Seq<char>) -> Option<T>) -> bool {
    forall|i: int| 0 <= i < a.len() ==> (#[trigger] a[i] matches ConfigValue::String(s) && f(s@) is Some)
}

/// What `f` reads from element `i`, which is a string that parses.
pub open spec fn parsed_at<T>(a: Seq<ConfigValue>, f: spec_fn(Seq<char>) -> Option<T>, i: int) -> T {
    match a[i] {
        ConfigValue::String(s) => f(s@)->0,
        _ => f(Seq::empty())->0,
    }
}

impl Plugin for IpSensor {}

impl Sensor for IpSensor {
    type Args = IpArgs;

    open spec fn accepts(&self, args: ConfigValue) -> bool {
        value_array(value_get(args, "ips"@)) matches Some(a) && all_parse(a, |t: Seq<char>| ip_parse(t))
    }

    open spec fn compiles_to(&self, args: ConfigValue, x: IpArgs) -> bool {
        value_array(value_get(args, "ips"@)) matches Some(a) && x.allowed@.len() == a.len()
            && forall|i: int| 0 <= i < a.len() ==> x.allowed@[i] == parsed_at(a, |t: Seq<char>| ip_parse(t), i)
    }

    open spec fn scores(&self, ctx: RequestContext, a: IpArgs, s: Score) -> bool {
        s.0 == if a.allowed@.contains(ctx.client_ip) { 100u8 } else { 0u8 }
    }

    fn try_compile_args(&self, args: &ConfigValue) -> (r: Result<IpArgs, PluginError>)
        ensures
            r is Ok <==> (value_array(value_get(*args, "ips"@)) matches Some(a) && all_parse(a, |t: Seq<char>| ip_parse(t))),
            r matches Ok(x) ==> value_array(value_get(*args, "ips"@)) matches Some(a) && x.allowed@.len() == a.len()
                && forall|i: int| 0 <= i < a.len() ==> x.allowed@[i] == parsed_at(a, |t: Seq<char>| ip_parse(t), i),
    {
        let ips = match get_array(args, "ips") {
            Some(a) => a,
            None => return Err(plugin_error("sensor-ip: missing 'ips' array")),
        };
        let mut allowed: Vec<IpAddress> = Vec::new();
        let mut i: usize = 0;
        while i < ips.len()
            invariant
                value_array(value_get(*args, "ips"@)) == Some(ips@),
                i <= ips.len(),
                allowed@.len() == i,
                forall|j: int| 0 <= j < i ==> (#[trigger] ips@[j] matches ConfigValue::String(s) && ip_parse(s@) is Some),
                forall|j: int| 0 <= j < i ==> allowed@[j] == parsed_at(ips@, |t: Seq<char>| ip_parse(t), j),
            decreases ips.len() - i,
        {
            let text = match ips[i].as_str() {
                Some(t) => t,
                None => return Err(plugin_error("sensor-ip: each entry in 'ips' must be a string")),
            };
            match parse_ip(text) {
                Some(ip) => allowed.push(ip),
                None => return Err(plugin_error("sensor-ip: invalid IP address")),
            }
            i = i + 1;
        }
        Ok(IpArgs { allowed })
    }

    fn evaluate(&self, ctx: &mut RequestContext, args: &IpArgs) -> (r: Score)
        ensures
            r.0 == if args.allowed@.contains(old(ctx).client_ip) { 100u8 } else { 0u8 },
    {
        let ip = ctx.client_ip;
        let mut i: usize = 0;
        while i < args.allowed.len()
            invariant
                i <= args.allowed@.len(),
                ip == old(ctx).client_ip,
                forall|j: int| 0 <= j < i ==> args.allowed@[j] != ip,
            decreases args.allowed.len() - i,
        {
            if args.allowed[i] == ip {
                proof {
                    assert(args.allowed@[i as int] == ip);
                }
                return Score(100);
            }
            i = i + 1;
        }
        Score(0)
    }
}

/// Sensor that scores 100 if the client IP falls within any configured network.
pub struct SubnetSensor;

/// Compiled arguments for [`SubnetSensor`].
#[derive(Debug)]
pub struct SubnetArgs {
    /// Networks to match against.
    pub nets: Vec<IpNetwork>,
}

impl Plugin for SubnetSensor {}

impl Sensor for SubnetSensor {
    type Args = SubnetArgs;

    open spec fn accepts(&self, args: ConfigValue) -> bool {
        value_array(value_get(args, "cidrs"@)) matches Some(a) && all_parse(a, |t: Seq<char>| cidr_parse(t))
    }

    open spec fn compiles_to(&self, args: ConfigValue, x: SubnetArgs) -> bool {
        value_array(value_get(args, "cidrs"@)) matches Some(a) && x.nets@.len() == a.len()
            && forall|i: int| 0 <= i < a.len() ==> x.nets@[i].spec_parts() == parsed_at(a, |t: Seq<char>| cidr_parse(t), i)
    }

    open spec fn scores(&self, ctx: RequestContext, a: SubnetArgs, s: Score) -> bool {
        s.0 == if exists|i: int| 0 <= i < a.nets@.len() && net_contains(#[trigger] a.nets@[i].spec_parts(), ctx.client_ip) {
            100u8
        } else {
            0u8
        }
    }

    fn try_compile_args(&self, args: &ConfigValue) -> (r: Result<SubnetArgs, PluginError>)
        ensures
            r is Ok <==> (value_array(value_get(*args, "cidrs"@)) matches Some(a) && all_parse(a, |t: Seq<char>| cidr_parse(t))),
            r matches Ok(x) ==> value_array(value_get(*args, "cidrs"@)) matches Some(a) && x.nets@.len() == a.len()
                && forall|i: int| 0 <= i < a.len() ==> x.nets@[i].spec_parts() == parsed_at(a, |t: Seq<char>| cidr_parse(t), i),
    {
        let cidrs = match get_array(args, "cidrs") {
            Some(a) => a,
            None => return Err(plugin_error("sensor-subnet: missing 'cidrs' array")),
        };
        let mut nets: Vec<IpNetwork> = Vec::new();
        let mut i: usize = 0;
        while i < cidrs.len()
            invariant
                value_array(value_get(*args, "cidrs"@)) == Some(cidrs@),
                i <= cidrs.len(),
                nets@.len() == i,
                forall|j: int| 0 <= j < i ==> (#[trigger] cidrs@[j] matches ConfigValue::String(s) && cidr_parse(s@) is Some),
                forall|j: int| 0 <= j < i ==> nets@[j].spec_parts() == parsed_at(cidrs@, |t: Seq<char>| cidr_parse(t), j),
            decreases cidrs.len() - i,
        {
            let text = match cidrs[i].as_str() {
                Some(t) => t,
                None => return Err(plugin_error("sensor-subnet: each entry in 'cidrs' must be a string")),
            };
            match IpNetwork::parse(text) {
                Some(n) => nets.push(n),
                None => return Err(plugin_error("sensor-subnet: invalid CIDR notation")),
            }
            i = i + 1;
        }
        Ok(SubnetArgs { nets })
    }

    fn evaluate(&self, ctx: &mut RequestContext, args: &SubnetArgs) -> (r: Score)
        ensures
            r.0 == if exists|i: int| 0 <= i < args.nets@.len() && net_contains(#[trigger] args.nets@[i].spec_parts(), old(ctx).client_ip) {
                100u8
            } else {
                0u8
            },
    {
        let ip = ctx.client_ip;
        let mut i: usize = 0;
        while i < args.nets.len()
            invariant
                i <= args.nets@.len(),
                ip == old(ctx).client_ip,
                forall|j: int| 0 <= j < i ==> !net_contains(#[trigger] args.nets@[j].spec_parts(), ip),
            decreases args.nets.len() - i,
        {
            if args.nets[i].contains(ip) {
                proof {
                    assert(net_contains(args.nets@[i as int].spec_parts(), ip));
                }
                return Score(100);
            }
            i = i + 1;
        }
        Score(0)
    }
}

} // verus!
