//! The plugins that ship with the library, and a catalog holding them.
//!
//! Plugins that need the outside world to be built (the geo and ASN sensors
//! open databases, the hooks start workers) are registered by the program.

use vstd::prelude::*;

use crate::catalog::{
    register, PluginCatalog, PluginFactory, SensorBuild, SensorFactory, TerminatorBuild, TerminatorFactory,
    TransformerBuild, TransformerFactory,
};
use crate::plugin::{NodeKind, PluginError, SensorEntry, TerminatorAction, TerminatorEntry, TransformerEntry};
use crate::provider::ProviderId;
use crate::sensors::body_size::BodySizeSensor;
use crate::sensors::cookie::CookieSensor;
use crate::sensors::{entry_of, into_entry, Sensor};
use crate::sensors::ip::{IpSensor, SubnetSensor};
use crate::sensors::rate_limit::RateLimitSensor;
use crate::sensors::regex::RegexSensor;
use crate::sensors::string_match::StringMatchSensor;
use crate::terminators::{
    int_or, is_header_response, is_status_response, BlockTerminator, BypassTerminator, DropTerminator, RateLimitedTerminator, RedirectTerminator,
    TimeoutTerminator,
};
use crate::text::decimal;
use crate::transformers::and::{and_entry, AndTransformer};
use crate::transformers::clamp::{clamp_entry, spec_clamp_args, ClampTransformer};
use crate::transformers::not::{not_entry, spec_input, NotTransformer};
use crate::transformers::or::{or_entry, OrTransformer};
use crate::transformers::spec_inputs;
use crate::value::{value_get, value_str, ConfigValue};

verus! {

impl SensorBuild for IpSensor {
    open spec fn builds(&self, args: ConfigValue, own_id: ProviderId, e: SensorEntry) -> bool {
        entry_of(IpSensor, args, e)
    }

    fn build(&self, args: &ConfigValue, _own_id: ProviderId) -> (r: Result<SensorEntry, PluginError>)
        ensures
            r is Ok <==> IpSensor.accepts(*args),
            r matches Ok(e) ==> entry_of(IpSensor, *args, e),
    {
        into_entry(IpSensor, args)
    }
}

impl SensorBuild for SubnetSensor {
    open spec fn builds(&self, args: ConfigValue, own_id: ProviderId, e: SensorEntry) -> bool {
        entry_of(SubnetSensor, args, e)
    }

    fn build(&self, args: &ConfigValue, _own_id: ProviderId) -> (r: Result<SensorEntry, PluginError>)
        ensures
            r is Ok <==> SubnetSensor.accepts(*args),
            r matches Ok(e) ==> entry_of(SubnetSensor, *args, e),
    {
        into_entry(SubnetSensor, args)
    }
}

impl SensorBuild for StringMatchSensor {
    open spec fn builds(&self, args: ConfigValue, own_id: ProviderId, e: SensorEntry) -> bool {
        entry_of(StringMatchSensor, args, e)
    }

    fn build(&self, args: &ConfigValue, _own_id: ProviderId) -> (r: Result<SensorEntry, PluginError>)
        ensures
            r is Ok <==> StringMatchSensor.accepts(*args),
            r matches Ok(e) ==> entry_of(StringMatchSensor, *args, e),
    {
        into_entry(StringMatchSensor, args)
    }
}

impl SensorBuild for CookieSensor {
    open spec fn builds(&self, args: ConfigValue, own_id: ProviderId, e: SensorEntry) -> bool {
        entry_of(CookieSensor, args, e)
    }

    fn build(&self, args: &ConfigValue, _own_id: ProviderId) -> (r: Result<SensorEntry, PluginError>)
        ensures
            r is Ok <==> CookieSensor.accepts(*args),
            r matches Ok(e) ==> entry_of(CookieSensor, *args, e),
    {
        into_entry(CookieSensor, args)
    }
}

impl SensorBuild for BodySizeSensor {
    open spec fn builds(&self, args: ConfigValue, own_id: ProviderId, e: SensorEntry) -> bool {
        entry_of(BodySizeSensor, args, e)
    }

    fn build(&self, args: &ConfigValue, _own_id: ProviderId) -> (r: Result<SensorEntry, PluginError>)
        ensures
            r is Ok <==> BodySizeSensor.accepts(*args),
            r matches Ok(e) ==> entry_of(BodySizeSensor, *args, e),
    {
        into_entry(BodySizeSensor, args)
    }
}

impl SensorBuild for RegexSensor {
    open spec fn builds(&self, args: ConfigValue, own_id: ProviderId, e: SensorEntry) -> bool {
        entry_of(RegexSensor, args, e)
    }

    fn build(&self, args: &ConfigValue, _own_id: ProviderId) -> (r: Result<SensorEntry, PluginError>)
        ensures
            r is Ok <==> RegexSensor.accepts(*args),
            r matches Ok(e) ==> entry_of(RegexSensor, *args, e),
    {
        into_entry(RegexSensor, args)
    }
}

impl SensorBuild for RateLimitSensor {
    open spec fn builds(&self, args: ConfigValue, own_id: ProviderId, e: SensorEntry) -> bool {
        entry_of(RateLimitSensor, args, e)
    }

    fn build(&self, args: &ConfigValue, _own_id: ProviderId) -> (r: Result<SensorEntry, PluginError>)
        ensures
            r is Ok <==> RateLimitSensor.accepts(*args),
            r matches Ok(e) ==> entry_of(RateLimitSensor, *args, e),
    {
        into_entry(RateLimitSensor, args)
    }
}

impl TransformerBuild for AndTransformer {
    open spec fn builds(&self, args: ConfigValue, e: TransformerEntry) -> bool {
        and_entry(args, e)
    }

    fn build(&self, args: &ConfigValue) -> (r: Result<TransformerEntry, PluginError>)
        ensures
            r is Ok <==> spec_inputs(*args) is Some,
            r matches Ok(e) ==> and_entry(*args, e),
    {
        AndTransformer.into_entry(args)
    }
}

impl TransformerBuild for OrTransformer {
    open spec fn builds(&self, args: ConfigValue, e: TransformerEntry) -> bool {
        or_entry(args, e)
    }

    fn build(&self, args: &ConfigValue) -> (r: Result<TransformerEntry, PluginError>)
        ensures
            r is Ok <==> spec_inputs(*args) is Some,
            r matches Ok(e) ==> or_entry(*args, e),
    {
        OrTransformer.into_entry(args)
    }
}

impl TransformerBuild for NotTransformer {
    open spec fn builds(&self, args: ConfigValue, e: TransformerEntry) -> bool {
        not_entry(args, e)
    }

    fn build(&self, args: &ConfigValue) -> (r: Result<TransformerEntry, PluginError>)
        ensures
            r is Ok <==> spec_input(*args) is Some,
            r matches Ok(e) ==> not_entry(*args, e),
    {
        NotTransformer.into_entry(args)
    }
}

impl TransformerBuild for ClampTransformer {
    open spec fn builds(&self, args: ConfigValue, e: TransformerEntry) -> bool {
        clamp_entry(args, e)
    }

    fn build(&self, args: &ConfigValue) -> (r: Result<TransformerEntry, PluginError>)
        ensures
            r is Ok <==> spec_clamp_args(*args) is Some,
            r matches Ok(e) ==> clamp_entry(*args, e),
    {
        ClampTransformer.into_entry(args)
    }
}

/// Builds `block` terminators.
pub struct BlockPlugin;

impl TerminatorBuild for BlockPlugin {
    open spec fn allows(&self, args: ConfigValue, a: TerminatorAction) -> bool {
        is_status_response(a, int_or(args, "status"@, 403) as u16)
    }

    fn build(&self, args: &ConfigValue) -> (r: Result<TerminatorEntry, PluginError>)
        ensures
            r matches Ok(t) && forall|a: TerminatorAction| #[trigger] t.decide.acts(a) == is_status_response(a, int_or(*args, "status"@, 403) as u16),
    {
        Ok(TerminatorEntry { decide: Box::new(BlockTerminator::from_args(args)) })
    }
}

/// Builds `drop` terminators.
pub struct DropPlugin;

impl TerminatorBuild for DropPlugin {
    open spec fn allows(&self, args: ConfigValue, a: TerminatorAction) -> bool {
        (a == (TerminatorAction::Close { delay_ms: 0 }))
    }

    fn build(&self, _args: &ConfigValue) -> (r: Result<TerminatorEntry, PluginError>)
        ensures
            r matches Ok(t) && forall|a: TerminatorAction| #[trigger] t.decide.acts(a) == (a == (TerminatorAction::Close { delay_ms: 0 })),
    {
        Ok(TerminatorEntry { decide: Box::new(DropTerminator) })
    }
}

/// Builds `pass` and `bypass` terminators.
pub struct BypassPlugin;

impl TerminatorBuild for BypassPlugin {
    open spec fn allows(&self, args: ConfigValue, a: TerminatorAction) -> bool {
        (a == TerminatorAction::Pass)
    }

    fn build(&self, _args: &ConfigValue) -> (r: Result<TerminatorEntry, PluginError>)
        ensures
            r matches Ok(t) && forall|a: TerminatorAction| #[trigger] t.decide.acts(a) == (a == TerminatorAction::Pass),
    {
        Ok(TerminatorEntry { decide: Box::new(BypassTerminator) })
    }
}

/// Builds `rate_limited` terminators.
pub struct RateLimitedPlugin;

impl TerminatorBuild for RateLimitedPlugin {
    open spec fn allows(&self, args: ConfigValue, a: TerminatorAction) -> bool {
        is_header_response(a, 429, "retry-after"@, decimal((int_or(args, "retry_after"@, 60) as u32) as nat))
    }

    fn build(&self, args: &ConfigValue) -> (r: Result<TerminatorEntry, PluginError>)
        ensures
            r matches Ok(t) && forall|a: TerminatorAction| #[trigger] t.decide.acts(a) == is_header_response(a, 429, "retry-after"@, decimal((int_or(*args, "retry_after"@, 60) as u32) as nat)),
    {
        Ok(TerminatorEntry { decide: Box::new(RateLimitedTerminator::from_args(args)) })
    }
}

/// Builds `redirect` terminators.
pub struct RedirectPlugin;

impl TerminatorBuild for RedirectPlugin {
    open spec fn allows(&self, args: ConfigValue, a: TerminatorAction) -> bool {
        is_header_response(
                a,
                int_or(args, "status_code"@, 302) as u16,
                "location"@,
                match value_str(value_get(args, "target_url"@)) {
                    Some(u) => u,
                    None => "/"@,
                },
            )
    }

    fn build(&self, args: &ConfigValue) -> (r: Result<TerminatorEntry, PluginError>)
        ensures
            r matches Ok(t) && forall|a: TerminatorAction| #[trigger] t.decide.acts(a) == is_header_response(
                a,
                int_or(*args, "status_code"@, 302) as u16,
                "location"@,
                match value_str(value_get(*args, "target_url"@)) {
                    Some(u) => u,
                    None => "/"@,
                },
            ),
    {
        Ok(TerminatorEntry { decide: Box::new(RedirectTerminator::from_args(args)) })
    }
}

/// Builds `timeout` terminators.
pub struct TimeoutPlugin;

impl TerminatorBuild for TimeoutPlugin {
    open spec fn allows(&self, args: ConfigValue, a: TerminatorAction) -> bool {
        (a == (TerminatorAction::Close { delay_ms: int_or(args, "delay_ms"@, 5000) as u64 }))
    }

    fn build(&self, args: &ConfigValue) -> (r: Result<TerminatorEntry, PluginError>)
        ensures
            r matches Ok(t) && forall|a: TerminatorAction| #[trigger] t.decide.acts(a) == (a == (TerminatorAction::Close { delay_ms: int_or(*args, "delay_ms"@, 5000) as u64 })),
    {
        Ok(TerminatorEntry { decide: Box::new(TimeoutTerminator::from_args(args)) })
    }
}

/// The built-in plugins by name.
pub open spec fn builtin_kinds() -> Map<Seq<char>, NodeKind> {
    map![
        "sensor-ip"@ => NodeKind::Sensor,
        "sensor-subnet"@ => NodeKind::Sensor,
        "sensor-string-match"@ => NodeKind::Sensor,
        "sensor-cookie"@ => NodeKind::Sensor,
        "sensor-body-size"@ => NodeKind::Sensor,
        "sensor-regex"@ => NodeKind::Sensor,
        "sensor-rate-limit"@ => NodeKind::Sensor,
        "and"@ => NodeKind::Transformer,
        "or"@ => NodeKind::Transformer,
        "not"@ => NodeKind::Transformer,
        "clamp"@ => NodeKind::Transformer,
        "block"@ => NodeKind::Terminator,
        "drop"@ => NodeKind::Terminator,
        "pass"@ => NodeKind::Terminator,
        "bypass"@ => NodeKind::Terminator,
        "rate_limited"@ => NodeKind::Terminator,
        "redirect"@ => NodeKind::Terminator,
        "timeout"@ => NodeKind::Terminator
    ]
}

/// The catalog holds, under `name`, a sensor factory of that name whose
/// builder builds exactly what `plugin` builds.
pub open spec fn holds_sensor<S: SensorBuild>(cat: PluginCatalog, name: Seq<char>, plugin: S) -> bool {
    &&& cat.factory(name) matches PluginFactory::Sensor(f)
    &&& cat.factory(name)->Sensor_0.name@ == name
    &&& forall|a: ConfigValue, id: ProviderId, e: SensorEntry| #[trigger] cat.factory(name)->Sensor_0.build.builds(a, id, e)
        == plugin.builds(a, id, e)
}

/// The catalog holds, under `name`, a transformer factory of that name whose
/// builder builds exactly what `plugin` builds.
pub open spec fn holds_transformer<T: TransformerBuild>(cat: PluginCatalog, name: Seq<char>, plugin: T) -> bool {
    &&& cat.factory(name) matches PluginFactory::Transformer(f)
    &&& cat.factory(name)->Transformer_0.name@ == name
    &&& forall|a: ConfigValue, e: TransformerEntry| #[trigger] cat.factory(name)->Transformer_0.build.builds(a, e)
        == plugin.builds(a, e)
}

/// The catalog holds, under `name`, a terminator factory of that name whose
/// builder allows exactly what `plugin` allows.
pub open spec fn holds_terminator<T: TerminatorBuild>(cat: PluginCatalog, name: Seq<char>, plugin: T) -> bool {
    &&& cat.factory(name) matches PluginFactory::Terminator(f)
    &&& cat.factory(name)->Terminator_0.name@ == name
    &&& forall|a: ConfigValue, act: TerminatorAction| #[trigger] cat.factory(name)->Terminator_0.build.allows(a, act)
        == plugin.allows(a, act)
}

impl PluginCatalog {
    /// A catalog holding every built-in plugin that needs nothing from the
    /// outside world to be built, each under its own name.
    #[verifier::rlimit(60)]
    pub fn with_builtins() -> (r: PluginCatalog)
        ensures
            r.kinds() == builtin_kinds(),
            holds_sensor(r, "sensor-ip"@, IpSensor),
            holds_sensor(r, "sensor-subnet"@, SubnetSensor),
            holds_sensor(r, "sensor-string-match"@, StringMatchSensor),
            holds_sensor(r, "sensor-cookie"@, CookieSensor),
            holds_sensor(r, "sensor-body-size"@, BodySizeSensor),
            holds_sensor(r, "sensor-regex"@, RegexSensor),
            holds_sensor(r, "sensor-rate-limit"@, RateLimitSensor),
            holds_transformer(r, "and"@, AndTransformer),
            holds_transformer(r, "or"@, OrTransformer),
            holds_transformer(r, "not"@, NotTransformer),
            holds_transformer(r, "clamp"@, ClampTransformer),
            holds_terminator(r, "block"@, BlockPlugin),
            holds_terminator(r, "drop"@, DropPlugin),
            holds_terminator(r, "pass"@, BypassPlugin),
            holds_terminator(r, "bypass"@, BypassPlugin),
            holds_terminator(r, "rate_limited"@, RateLimitedPlugin),
            holds_terminator(r, "redirect"@, RedirectPlugin),
            holds_terminator(r, "timeout"@, TimeoutPlugin),
    {
        let mut c = PluginCatalog::new();
        proof {
            reveal_strlit("sensor-ip");
            reveal_strlit("sensor-subnet");
            reveal_strlit("sensor-string-match");
            reveal_strlit("sensor-cookie");
            reveal_strlit("sensor-body-size");
            reveal_strlit("sensor-regex");
            reveal_strlit("sensor-rate-limit");
            reveal_strlit("and");
            reveal_strlit("or");
            reveal_strlit("not");
            reveal_strlit("clamp");
            reveal_strlit("block");
            reveal_strlit("drop");
            reveal_strlit("pass");
            reveal_strlit("bypass");
            reveal_strlit("rate_limited");
            reveal_strlit("redirect");
            reveal_strlit("timeout");
            assert("sensor-ip"@.len() == 9);
            assert("sensor-subnet"@.len() == 13);
            assert("sensor-string-match"@.len() == 19);
            assert("sensor-cookie"@.len() == 13);
            assert("sensor-body-size"@.len() == 16);
            assert("sensor-regex"@.len() == 12);
            assert("sensor-rate-limit"@.len() == 17);
            assert("and"@.len() == 3);
            assert("or"@.len() == 2);
            assert("not"@.len() == 3);
            assert("clamp"@.len() == 5);
            assert("block"@.len() == 5);
            assert("drop"@.len() == 4);
            assert("pass"@.len() == 4);
            assert("bypass"@.len() == 6);
            assert("rate_limited"@.len() == 12);
            assert("redirect"@.len() == 8);
            assert("timeout"@.len() == 7);
            assert("sensor-subnet"@[7] != "sensor-cookie"@[7]);
            assert("sensor-regex"@[0] != "rate_limited"@[0]);
            assert("and"@[0] != "not"@[0]);
            assert("clamp"@[0] != "block"@[0]);
            assert("drop"@[0] != "pass"@[0]);
        }
        register(&mut c, PluginFactory::Sensor(SensorFactory { name: "sensor-ip", build: Box::new(IpSensor) }));
        register(&mut c, PluginFactory::Sensor(SensorFactory { name: "sensor-subnet", build: Box::new(SubnetSensor) }));
        register(&mut c, PluginFactory::Sensor(SensorFactory { name: "sensor-string-match", build: Box::new(StringMatchSensor) }));
        register(&mut c, PluginFactory::Sensor(SensorFactory { name: "sensor-cookie", build: Box::new(CookieSensor) }));
        register(&mut c, PluginFactory::Sensor(SensorFactory { name: "sensor-body-size", build: Box::new(BodySizeSensor) }));
        register(&mut c, PluginFactory::Sensor(SensorFactory { name: "sensor-regex", build: Box::new(RegexSensor) }));
        register(&mut c, PluginFactory::Sensor(SensorFactory { name: "sensor-rate-limit", build: Box::new(RateLimitSensor) }));
        register(&mut c, PluginFactory::Transformer(TransformerFactory { name: "and", build: Box::new(AndTransformer) }));
        register(&mut c, PluginFactory::Transformer(TransformerFactory { name: "or", build: Box::new(OrTransformer) }));
        register(&mut c, PluginFactory::Transformer(TransformerFactory { name: "not", build: Box::new(NotTransformer) }));
        register(&mut c, PluginFactory::Transformer(TransformerFactory { name: "clamp", build: Box::new(ClampTransformer) }));
        register(&mut c, PluginFactory::Terminator(TerminatorFactory { name: "block", build: Box::new(BlockPlugin) }));
        register(&mut c, PluginFactory::Terminator(TerminatorFactory { name: "drop", build: Box::new(DropPlugin) }));
        register(&mut c, PluginFactory::Terminator(TerminatorFactory { name: "pass", build: Box::new(BypassPlugin) }));
        register(&mut c, PluginFactory::Terminator(TerminatorFactory { name: "bypass", build: Box::new(BypassPlugin) }));
        register(&mut c, PluginFactory::Terminator(TerminatorFactory { name: "rate_limited", build: Box::new(RateLimitedPlugin) }));
        register(&mut c, PluginFactory::Terminator(TerminatorFactory { name: "redirect", build: Box::new(RedirectPlugin) }));
        register(&mut c, PluginFactory::Terminator(TerminatorFactory { name: "timeout", build: Box::new(TimeoutPlugin) }));
        proof {
            assert(c.kinds() =~= builtin_kinds());
        }
        c
    }
}

} // verus!
