use ferrum::catalog::{get_sensor, get_terminator, get_transformer, PluginCatalog};
use ferrum::config::raw::{Config, HookConfig, PluginConfig, RuleConfig, ServerConfig};
use ferrum::config::{compile_rules, try_compile_rules, CompileError, CompiledAction};
use ferrum::loader::{build_config, try_build_config, FerrumConfig, LoadError};
use ferrum::plugin::{NodeKind, TerminatorAction};
use ferrum::provider::ProviderId;
use ferrum::proxy::{evaluate_request, handled, needs_body, BodyBuffer, Step, Verdict, BODY_LIMIT};
use ferrum::registry::RegistryError;
use ferrum::request::{IpAddress, RequestContext};
use ferrum::score::Score;
use ferrum::value::ConfigValue;

/// The library's form of an address written in text.
fn addr(text: &str) -> IpAddress {
    match text.parse::<core::net::IpAddr>().unwrap() {
        core::net::IpAddr::V4(a) => IpAddress::V4(u32::from(a)),
        core::net::IpAddr::V6(a) => IpAddress::V6(u128::from(a)),
    }
}

fn table(entries: Vec<(&str, ConfigValue)>) -> ConfigValue {
    ConfigValue::Table(entries.into_iter().map(|(k, v)| (k.to_string(), v)).collect())
}

fn text(s: &str) -> ConfigValue {
    ConfigValue::String(s.to_string())
}

fn strings(items: &[&str]) -> ConfigValue {
    ConfigValue::Array(items.iter().map(|s| text(s)).collect())
}

fn block(name: &str, plugin: &str, args: Vec<(&str, ConfigValue)>) -> (String, PluginConfig) {
    (name.to_string(), PluginConfig { plugin: plugin.to_string(), args: table(args) })
}

fn rule(id: &str, input: &str, threshold: u8, if_action: Option<&str>, else_action: Option<&str>, buffer_body: bool) -> RuleConfig {
    RuleConfig {
        id: id.to_string(),
        threshold: Score(threshold),
        input: input.to_string(),
        if_action: if_action.map(|s| s.to_string()),
        else_action: else_action.map(|s| s.to_string()),
        buffer_body,
    }
}

fn config(
    sensors: Vec<(String, PluginConfig)>,
    transformers: Vec<(String, PluginConfig)>,
    terminators: Vec<(String, PluginConfig)>,
    rules: Vec<RuleConfig>,
) -> Config {
    Config {
        server: ServerConfig::default(),
        entry: None,
        sensors,
        transformers,
        terminators,
        hooks: Vec::new(),
        rules,
    }
}

fn sample_config() -> Config {
    config(
        vec![
            block("block_ip", "sensor-ip", vec![("ips", strings(&["1.2.3.4"]))]),
            block(
                "sqli_body",
                "sensor-regex",
                vec![("patterns", strings(&["(?i)union.*select", "(?i)' or '1'='1"])), ("target", text("body"))],
            ),
        ],
        vec![],
        vec![block("block_403", "block", vec![("status", ConfigValue::Integer(403))])],
        vec![
            rule("check-ip", "block_ip", 100, Some("block_403"), Some("check-sqli"), false),
            rule("check-sqli", "sqli_body", 50, Some("block_403"), None, true),
        ],
    )
}

fn sqli_uri_config() -> Config {
    config(
        vec![block("sqli", "sensor-regex", vec![("patterns", strings(&["(?i)union.*select"])), ("target", text("uri"))])],
        vec![],
        vec![block("block_403", "block", vec![("status", ConfigValue::Integer(403))])],
        vec![rule("block-sqli", "sqli", 100, Some("block_403"), None, false)],
    )
}

fn load(c: &Config) -> FerrumConfig {
    build_config(c, &PluginCatalog::with_builtins()).unwrap()
}

fn request(method: &str, uri: &str) -> RequestContext {
    RequestContext::new(addr("127.0.0.1"), method.into(), uri.into())
}

/// The status the client sees: a terminator's response, or the upstream's 200.
fn status(cfg: &FerrumConfig, ctx: &mut RequestContext) -> u16 {
    let walk = evaluate_request(cfg, ctx);
    if !handled(&walk) {
        return 200;
    }
    match walk.verdict {
        Verdict::Terminate { action: TerminatorAction::Respond { status, .. }, .. } => status,
        _ => 0,
    }
}

// ── compilation ─────────────────────────────────────────────────────────────

#[test]
fn parse_and_compile_sample_config() {
    let out = compile_rules(&sample_config());

    assert_eq!(out.provider_ids.len(), 2);
    assert!(out.provider_ids.iter().any(|(n, _)| n == "block_ip"));
    assert!(out.provider_ids.iter().any(|(n, _)| n == "sqli_body"));

    assert_eq!(out.rules.len(), 2);
    assert!(out.rules.contains_key(&ProviderId::from("check-ip").0));
    assert!(out.rules.contains_key(&ProviderId::from("check-sqli").0));
    assert_eq!(out.entry, CompiledAction::Rule(ProviderId::from("check-ip")));

    assert!(out.terminators.contains_key(&ProviderId::from("block_403").0));
    assert!(out.hooks.is_empty());

    assert_eq!(out.server.listen, "0.0.0.0:8080");
    assert_eq!(out.server.upstream, "127.0.0.1:8081");
}

#[test]
fn server_section_overrides_defaults() {
    let mut c = config(
        vec![block("foo", "sensor-ip", vec![("ips", strings(&[]))])],
        vec![],
        vec![],
        vec![rule("r", "foo", 100, Some("block"), None, false)],
    );
    c.server.listen = "0.0.0.0:9000".to_string();
    c.server.upstream = "10.0.0.1:80".to_string();
    let out = compile_rules(&c);
    assert_eq!(out.server.listen, "0.0.0.0:9000");
    assert_eq!(out.server.upstream, "10.0.0.1:80");
    assert_eq!(out.server.metrics_listen, "0.0.0.0:9090");
}

#[test]
fn dangling_input_reference_panics() {
    let c = config(
        vec![block("foo", "sensor-ip", vec![("ips", strings(&[]))])],
        vec![],
        vec![],
        vec![rule("bad", "nonexistent", 100, Some("block"), None, false)],
    );
    assert_eq!(
        try_compile_rules(&c).unwrap_err(),
        CompileError::UnknownInput { rule: "bad".to_string(), input: "nonexistent".to_string() }
    );
}

#[test]
fn compile_rejects_missing_entry_and_duplicates() {
    let empty = config(vec![], vec![], vec![], vec![]);
    assert_eq!(try_compile_rules(&empty).unwrap_err(), CompileError::MissingEntry);
    let dup = config(
        vec![block("x", "sensor-ip", vec![])],
        vec![block("x", "not", vec![])],
        vec![],
        vec![rule("r", "x", 1, None, None, false)],
    );
    assert_eq!(try_compile_rules(&dup).unwrap_err(), CompileError::DuplicateProvider("x".to_string()));
}

#[test]
fn actions_resolve_rules_then_hooks_then_terminators() {
    let mut c = sample_config();
    c.hooks.push((
        "audit".to_string(),
        HookConfig { plugin: "hook-syslog".to_string(), next: Some("check-sqli".to_string()), args: table(vec![]) },
    ));
    c.rules[0].if_action = Some("audit".to_string());
    c.rules[1].else_action = Some("drop".to_string());
    c.entry = Some("audit".to_string());
    let out = compile_rules(&c);
    let ip = out.rules[&ProviderId::from("check-ip").0];
    assert_eq!(ip.if_action, CompiledAction::Hook(ProviderId::from("audit")));
    assert_eq!(ip.else_action, CompiledAction::Rule(ProviderId::from("check-sqli")));
    let sqli = out.rules[&ProviderId::from("check-sqli").0];
    assert_eq!(sqli.else_action, CompiledAction::Terminator(ProviderId::from("drop")));
    assert_eq!(out.hooks[&ProviderId::from("audit").0].next, CompiledAction::Rule(ProviderId::from("check-sqli")));
    assert_eq!(out.entry, CompiledAction::Hook(ProviderId::from("audit")));
    let inline = &out.terminators[&ProviderId::from("drop").0];
    assert_eq!((inline.section.as_str(), inline.plugin.as_str()), ("drop", "drop"));
}

// ── catalog and loading ─────────────────────────────────────────────────────

#[test]
fn builtin_catalog_finds_plugins_by_kind() {
    let cat = PluginCatalog::with_builtins();
    assert!(get_sensor(&cat, "sensor-regex").is_some());
    assert!(get_transformer(&cat, "or").is_some());
    assert!(get_transformer(&cat, "sensor-regex").is_none());
    assert!(get_terminator(&cat, "bypass").is_some());
    assert!(get_sensor(&cat, "sensor-nope").is_none());
}

#[test]
fn load_registers_every_node_with_its_kind() {
    let cfg = load(&sample_config());
    assert_eq!(cfg.registry.node_kind(ProviderId::from("block_ip")), Some(NodeKind::Sensor));
    assert_eq!(cfg.registry.node_kind(ProviderId::from("sqli_body")), Some(NodeKind::Sensor));
    assert_eq!(cfg.registry.node_kind(ProviderId::from("block_403")), Some(NodeKind::Terminator));
    assert_eq!(cfg.registry.len(), 3);
}

#[test]
fn load_reports_unknown_plugins_and_bad_arguments() {
    let mut c = sqli_uri_config();
    c.sensors[0].1.plugin = "sensor-nope".to_string();
    match try_build_config(&c, &PluginCatalog::with_builtins()) {
        Err(LoadError::UnknownPlugin { kind, name }) => {
            assert_eq!(kind, NodeKind::Sensor);
            assert_eq!(name, "sensor-nope");
        },
        _ => panic!("expected an unknown plugin"),
    }
    let mut c = sqli_uri_config();
    c.rules[0].if_action = Some("teleport".to_string());
    assert!(matches!(
        try_build_config(&c, &PluginCatalog::with_builtins()),
        Err(LoadError::UnknownPlugin { kind: NodeKind::Terminator, .. })
    ));
    let mut c = sqli_uri_config();
    c.sensors[0].1.args = table(vec![("target", text("uri"))]);
    match try_build_config(&c, &PluginCatalog::with_builtins()) {
        Err(LoadError::Plugin { provider, .. }) => assert_eq!(provider, "sqli"),
        _ => panic!("expected a plugin error"),
    }
    let mut c = sqli_uri_config();
    c.rules[0].input = "nope".to_string();
    assert!(matches!(try_build_config(&c, &PluginCatalog::with_builtins()), Err(LoadError::Compile(_))));
}

#[test]
fn load_rejects_a_hook_named_like_a_sensor() {
    let mut c = sqli_uri_config();
    c.hooks.push((
        "sqli".to_string(),
        HookConfig { plugin: "hook-syslog".to_string(), next: None, args: table(vec![]) },
    ));
    let mut cat = PluginCatalog::with_builtins();
    ferrum::catalog::register(
        &mut cat,
        ferrum::catalog::PluginFactory::Hook(ferrum::catalog::HookFactory { name: "hook-syslog", build: Box::new(NoHook) }),
    );
    match try_build_config(&c, &cat) {
        Err(LoadError::Registry(RegistryError::Duplicate(id))) => assert_eq!(id, ProviderId::from("sqli")),
        _ => panic!("expected a duplicate id"),
    }
}

struct NoHook;

impl ferrum::catalog::HookBuild for NoHook {
    fn build(&self, _args: &ConfigValue) -> Result<ferrum::plugin::HookEntry, ferrum::plugin::PluginError> {
        Ok(ferrum::plugin::HookEntry { trigger: Box::new(Silent) })
    }
}

struct Silent;

impl ferrum::plugin::HookFn for Silent {
    fn trigger(&self, _ctx: &RequestContext) {}
}

// ── requests ────────────────────────────────────────────────────────────────

#[test]
fn clean_request_passes_to_upstream() {
    let cfg = load(&sqli_uri_config());
    assert_eq!(status(&cfg, &mut request("GET", "/hello")), 200);
}

#[test]
fn sqli_in_uri_returns_403() {
    let cfg = load(&sqli_uri_config());
    assert_eq!(status(&cfg, &mut request("GET", "/search?q=UNION+SELECT+1")), 403);
}

#[test]
fn sqli_in_body_returns_403() {
    let c = config(
        vec![block("sqli_body", "sensor-regex", vec![("patterns", strings(&["(?i)union.*select"])), ("target", text("body"))])],
        vec![],
        vec![block("block_403", "block", vec![("status", ConfigValue::Integer(403))])],
        vec![rule("block-sqli", "sqli_body", 100, Some("block_403"), None, true)],
    );
    let cfg = load(&c);
    assert!(needs_body(&cfg.rules));
    let mut buf = BodyBuffer::new();
    assert!(buf.push_chunk(b"1 UNION SELECT * FROM users"));
    let mut ctx = request("POST", "/login");
    ctx.body = buf.finish();
    assert_eq!(status(&cfg, &mut ctx), 403);
}

#[test]
fn or_transformer_fires_on_either_input() {
    let c = config(
        vec![
            block("sqli_uri", "sensor-regex", vec![("patterns", strings(&["(?i)union.*select"])), ("target", text("uri"))]),
            block("sqli_body", "sensor-regex", vec![("patterns", strings(&["(?i)union.*select"])), ("target", text("body"))]),
        ],
        vec![block("sqli_combined", "or", vec![("inputs", strings(&["sqli_uri", "sqli_body"]))])],
        vec![block("block_403", "block", vec![("status", ConfigValue::Integer(403))])],
        vec![rule("block-sqli", "sqli_combined", 100, Some("block_403"), None, true)],
    );
    let cfg = load(&c);
    assert_eq!(status(&cfg, &mut request("GET", "/?q=UNION+SELECT+1")), 403, "URI SQLi should be blocked");
    assert_eq!(status(&cfg, &mut request("GET", "/hello")), 200, "clean request should pass");
}

#[test]
fn redirect_terminator_returns_302() {
    let c = config(
        vec![block("bot", "sensor-regex", vec![("patterns", strings(&["(?i)sqlmap"])), ("target", text("header:User-Agent"))])],
        vec![],
        vec![block(
            "redirect_login",
            "redirect",
            vec![("target_url", text("/login")), ("status_code", ConfigValue::Integer(302))],
        )],
        vec![rule("block-bot", "bot", 100, Some("redirect_login"), None, false)],
    );
    let cfg = load(&c);
    let mut ctx = request("GET", "/");
    ctx.headers.insert("user-agent".to_string(), "sqlmap/1.0".to_string());
    let walk = evaluate_request(&cfg, &mut ctx);
    match walk.verdict {
        Verdict::Terminate { action: TerminatorAction::Respond { status, headers }, .. } => {
            assert_eq!(status, 302);
            assert_eq!(headers, vec![("location".to_string(), "/login".to_string())]);
        },
        _ => panic!("expected a redirect"),
    }
}

#[test]
fn walk_records_rules_and_scores() {
    let cfg = load(&sample_config());
    let mut ctx = request("POST", "/login");
    ctx.body = Some(b"' or '1'='1".to_vec());
    let walk = evaluate_request(&cfg, &mut ctx);
    assert_eq!(
        walk.steps,
        vec![
            Step::Rule { id: ProviderId::from("check-ip"), score: Score(0), fired: false },
            Step::Rule { id: ProviderId::from("check-sqli"), score: Score(50), fired: true },
        ]
    );
    assert_eq!(ctx.current_score, Score(50));
    assert!(handled(&walk));
}

#[test]
fn bypass_terminator_lets_the_request_through() {
    let c = config(
        vec![block("any", "sensor-ip", vec![("ips", strings(&["127.0.0.1"]))])],
        vec![],
        vec![],
        vec![rule("allow", "any", 100, Some("bypass"), Some("block"), false)],
    );
    let cfg = load(&c);
    let walk = evaluate_request(&cfg, &mut request("GET", "/"));
    assert!(!handled(&walk));
    assert!(matches!(walk.verdict, Verdict::Terminate { action: TerminatorAction::Pass, .. }));
}

#[test]
fn body_buffer_drops_oversized_bodies() {
    let mut buf = BodyBuffer::new();
    assert!(buf.push_chunk(&vec![1u8; BODY_LIMIT - 1]));
    assert!(!buf.push_chunk(b"ab"));
    assert!(!buf.push_chunk(b"c"));
    assert_eq!(buf.finish(), None);
    let mut buf = BodyBuffer::new();
    assert!(buf.push_chunk(b"ab"));
    assert!(buf.push_chunk(b"c"));
    assert_eq!(buf.finish(), Some(b"abc".to_vec()));
}

#[test]
fn terminator_is_built_from_its_own_section() {
    let c = config(
        vec![block("sqli", "sensor-regex", vec![("patterns", strings(&["(?i)union.*select"])), ("target", text("uri"))])],
        vec![],
        vec![
            block("legal", "block", vec![("status", ConfigValue::Integer(451))]),
            block("teapot", "block", vec![("status", ConfigValue::Integer(418))]),
        ],
        vec![rule("block-sqli", "sqli", 100, Some("legal"), Some("teapot"), false)],
    );
    let cfg = load(&c);
    assert_eq!(status(&cfg, &mut request("GET", "/?q=UNION+SELECT+1")), 451);
    assert_eq!(status(&cfg, &mut request("GET", "/hello")), 418);
}

#[test]
fn inline_terminator_uses_its_plugin_defaults() {
    let c = config(
        vec![block("sqli", "sensor-regex", vec![("patterns", strings(&["(?i)union.*select"])), ("target", text("uri"))])],
        vec![],
        vec![],
        vec![rule("block-sqli", "sqli", 100, Some("block"), None, false)],
    );
    let cfg = load(&c);
    assert_eq!(status(&cfg, &mut request("GET", "/?q=UNION+SELECT+1")), 403);
    assert_eq!(status(&cfg, &mut request("GET", "/hello")), 200);
}
