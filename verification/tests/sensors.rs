use std::sync::Arc;
use std::time::Duration;

use ferrum::provider::ProviderId;
use ferrum::request::{IpAddress, RequestContext};
use ferrum::score::Score;
use ferrum::sensors::body_size::BodySizeSensor;
use ferrum::sensors::cookie::{find_cookie, CookieSensor};
use ferrum::sensors::geo::{AsnArgs, AsnResolver, AsnSensor, GeoArgs, GeoResolver, GeoSensor};
use ferrum::sensors::ip::{IpSensor, SubnetSensor};
use ferrum::sensors::rate_limit::{name_to_provider_id, rate_limit_score, RateLimitArgs, RateLimitSensor, SystemClock};
use ferrum::sensors::regex::{is_target, parse_target, RegexSensor, Target};
use ferrum::sensors::string_match::StringMatchSensor;
use ferrum::sensors::Sensor;
use ferrum::value::ConfigValue;

/// The library's form of an address written in text.
fn addr(text: &str) -> IpAddress {
    match text.parse::<core::net::IpAddr>().unwrap() {
        core::net::IpAddr::V4(a) => IpAddress::V4(u32::from(a)),
        core::net::IpAddr::V6(a) => IpAddress::V6(u128::from(a)),
    }
}

fn table(entries: Vec<(&str, ConfigValue)>) -> ConfigValue {
    ConfigValue::Table(entries.into_iter().map(|(k, v)| (k.to_string(), v)).collect())
}

fn text(s: &str) -> ConfigValue {
    ConfigValue::String(s.to_string())
}

fn strings(items: &[&str]) -> ConfigValue {
    ConfigValue::Array(items.iter().map(|s| text(s)).collect())
}

fn request(ip: &str, method: &str, uri: &str) -> RequestContext {
    RequestContext::new(addr(ip), method.into(), uri.into())
}

// ── body size ───────────────────────────────────────────────────────────────

fn body_size_args(min_bytes: Option<i64>, max_bytes: i64) -> ConfigValue {
    let mut entries = Vec::new();
    if let Some(min) = min_bytes {
        entries.push(("min_bytes", ConfigValue::Integer(min)));
    }
    entries.push(("max_bytes", ConfigValue::Integer(max_bytes)));
    table(entries)
}

fn body_ctx(body: Option<&[u8]>) -> RequestContext {
    let mut ctx = request("1.2.3.4", "POST", "/upload");
    ctx.body = body.map(|b| b.to_vec());
    ctx
}

#[test]
fn no_body_returns_zero() {
    let s = BodySizeSensor;
    let args = s.compile_args(&body_size_args(None, 1024));
    assert_eq!(s.evaluate(&mut body_ctx(None), &args), Score(0));
}

#[test]
fn empty_body_returns_zero() {
    let s = BodySizeSensor;
    let args = s.compile_args(&body_size_args(None, 1024));
    assert_eq!(s.evaluate(&mut body_ctx(Some(b"")), &args), Score(0));
}

#[test]
fn at_max_returns_hundred() {
    let s = BodySizeSensor;
    let args = s.compile_args(&body_size_args(None, 4));
    assert_eq!(s.evaluate(&mut body_ctx(Some(b"abcd")), &args), Score(100));
}

#[test]
fn above_max_returns_hundred() {
    let s = BodySizeSensor;
    let args = s.compile_args(&body_size_args(None, 4));
    assert_eq!(s.evaluate(&mut body_ctx(Some(b"abcde")), &args), Score(100));
}

#[test]
fn halfway_returns_fifty() {
    let s = BodySizeSensor;
    // min=0, max=100 → 50 bytes → Score(50)
    let args = s.compile_args(&body_size_args(None, 100));
    let body = vec![0u8; 50];
    assert_eq!(s.evaluate(&mut body_ctx(Some(&body)), &args), Score(50));
}

#[test]
fn below_min_returns_zero() {
    let s = BodySizeSensor;
    // min=100, max=200 → 50 bytes → below min → Score(0)
    let args = s.compile_args(&body_size_args(Some(100), 200));
    let body = vec![0u8; 50];
    assert_eq!(s.evaluate(&mut body_ctx(Some(&body)), &args), Score(0));
}

#[test]
fn between_min_and_max_is_proportional() {
    let s = BodySizeSensor;
    // min=0, max=200 → 100 bytes → 50%
    let args = s.compile_args(&body_size_args(Some(0), 200));
    let body = vec![0u8; 100];
    assert_eq!(s.evaluate(&mut body_ctx(Some(&body)), &args), Score(50));
}

#[test]
fn body_size_requires_max_bytes() {
    assert!(BodySizeSensor.try_compile_args(&table(vec![])).is_err());
}

// ── cookie ──────────────────────────────────────────────────────────────────

fn cookie_args(name: &str, op: &str, value: Option<&str>) -> ConfigValue {
    let mut entries = vec![("name", text(name)), ("op", text(op))];
    if let Some(v) = value {
        entries.push(("value", text(v)));
    }
    table(entries)
}

fn cookie_ctx(cookie: &str) -> RequestContext {
    let mut ctx = request("1.2.3.4", "GET", "/");
    ctx.headers.insert("cookie".into(), cookie.into());
    ctx
}

#[test]
fn present_found() {
    let s = CookieSensor;
    let args = s.compile_args(&cookie_args("session", "present", None));
    assert_eq!(s.evaluate(&mut cookie_ctx("session=abc123; other=x"), &args), Score(100));
}

#[test]
fn present_not_found() {
    let s = CookieSensor;
    let args = s.compile_args(&cookie_args("session", "present", None));
    assert_eq!(s.evaluate(&mut cookie_ctx("csrf=tok"), &args), Score(0));
}

#[test]
fn no_cookie_header_returns_zero() {
    let s = CookieSensor;
    let args = s.compile_args(&cookie_args("session", "present", None));
    let mut ctx = request("1.2.3.4", "GET", "/");
    assert_eq!(s.evaluate(&mut ctx, &args), Score(0));
}

#[test]
fn eq_match() {
    let s = CookieSensor;
    let args = s.compile_args(&cookie_args("role", "eq", Some("admin")));
    assert_eq!(s.evaluate(&mut cookie_ctx("role=admin"), &args), Score(100));
}

#[test]
fn eq_no_match() {
    let s = CookieSensor;
    let args = s.compile_args(&cookie_args("role", "eq", Some("admin")));
    assert_eq!(s.evaluate(&mut cookie_ctx("role=user"), &args), Score(0));
}

#[test]
fn regex_match() {
    let s = CookieSensor;
    let args = s.compile_args(&cookie_args("token", "regex", Some(r"^[0-9a-f]{32}$")));
    assert_eq!(
        s.evaluate(&mut cookie_ctx("token=deadbeefdeadbeefdeadbeefdeadbeef"), &args),
        Score(100)
    );
}

#[test]
fn regex_no_match() {
    let s = CookieSensor;
    let args = s.compile_args(&cookie_args("token", "regex", Some(r"^[0-9a-f]{32}$")));
    assert_eq!(s.evaluate(&mut cookie_ctx("token=short"), &args), Score(0));
}

#[test]
fn multiple_cookies_finds_correct_one() {
    let s = CookieSensor;
    let args = s.compile_args(&cookie_args("b", "eq", Some("2")));
    assert_eq!(s.evaluate(&mut cookie_ctx("a=1; b=2; c=3"), &args), Score(100));
}

#[test]
fn find_cookie_trims_and_splits_at_first_equals() {
    assert_eq!(find_cookie("  a = 1 ;b=x=y", "b"), Some("x=y".to_string()));
    assert_eq!(find_cookie("a=1; b=2", "a"), Some("1".to_string()));
    assert_eq!(find_cookie("a=1; b=2", "c"), None);
}

#[test]
fn cookie_rejects_unknown_op_and_bad_regex() {
    assert!(CookieSensor.try_compile_args(&cookie_args("a", "like", Some("x"))).is_err());
    assert!(CookieSensor.try_compile_args(&cookie_args("a", "regex", Some("("))).is_err());
    assert!(CookieSensor.try_compile_args(&cookie_args("a", "eq", None)).is_err());
}

// ── string match ────────────────────────────────────────────────────────────

fn match_args(field: &str, op: &str, values: &[&str]) -> ConfigValue {
    table(vec![("field", text(field)), ("op", text(op)), ("values", strings(values))])
}

fn ctx_with_header(method: &str, uri: &str, name: &str, value: &str) -> RequestContext {
    let mut ctx = request("1.2.3.4", method, uri);
    ctx.headers.insert(name.to_string(), value.to_string());
    ctx
}

#[test]
fn method_eq_match() {
    let s = StringMatchSensor;
    let args = s.compile_args(&match_args("method", "eq", &["POST", "PUT"]));
    assert_eq!(s.evaluate(&mut request("1.2.3.4", "POST", "/"), &args), Score(100));
}

#[test]
fn method_eq_no_match() {
    let s = StringMatchSensor;
    let args = s.compile_args(&match_args("method", "eq", &["POST"]));
    assert_eq!(s.evaluate(&mut request("1.2.3.4", "GET", "/"), &args), Score(0));
}

#[test]
fn path_prefix_match() {
    let s = StringMatchSensor;
    let args = s.compile_args(&match_args("path", "prefix", &["/admin"]));
    assert_eq!(s.evaluate(&mut request("1.2.3.4", "GET", "/admin/users"), &args), Score(100));
}

#[test]
fn path_strips_query() {
    let s = StringMatchSensor;
    let args = s.compile_args(&match_args("path", "eq", &["/search"]));
    assert_eq!(s.evaluate(&mut request("1.2.3.4", "GET", "/search?q=foo"), &args), Score(100));
}

#[test]
fn query_contains_match() {
    let s = StringMatchSensor;
    let args = s.compile_args(&match_args("query", "contains", &["drop table"]));
    assert_eq!(
        s.evaluate(&mut request("1.2.3.4", "GET", "/page?q=drop table users"), &args),
        Score(100)
    );
}

#[test]
fn query_empty_when_no_question_mark() {
    let s = StringMatchSensor;
    let args = s.compile_args(&match_args("query", "eq", &[""]));
    assert_eq!(s.evaluate(&mut request("1.2.3.4", "GET", "/page"), &args), Score(100));
}

#[test]
fn host_eq_match() {
    let s = StringMatchSensor;
    let args = s.compile_args(&match_args("host", "eq", &["example.com"]));
    let mut ctx = ctx_with_header("GET", "/", "host", "example.com");
    assert_eq!(s.evaluate(&mut ctx, &args), Score(100));
}

#[test]
fn host_missing_returns_zero() {
    let s = StringMatchSensor;
    let args = s.compile_args(&match_args("host", "eq", &["example.com"]));
    assert_eq!(s.evaluate(&mut request("1.2.3.4", "GET", "/"), &args), Score(0));
}

#[test]
fn content_type_suffix_match() {
    let s = StringMatchSensor;
    let args = s.compile_args(&match_args("content-type", "suffix", &["/json"]));
    let mut ctx = ctx_with_header("POST", "/api", "content-type", "application/json");
    assert_eq!(s.evaluate(&mut ctx, &args), Score(100));
}

#[test]
fn string_match_rejects_unknown_field_and_op() {
    assert!(StringMatchSensor.try_compile_args(&match_args("cookie", "eq", &["x"])).is_err());
    assert!(StringMatchSensor.try_compile_args(&match_args("path", "regex", &["x"])).is_err());
}

// ── ip and subnet ───────────────────────────────────────────────────────────

fn ip_args(ips: &[&str]) -> ConfigValue {
    table(vec![("ips", strings(ips))])
}

fn subnet_args(cidrs: &[&str]) -> ConfigValue {
    table(vec![("cidrs", strings(cidrs))])
}

fn ip_ctx(ip: &str) -> RequestContext {
    request(ip, "GET", "/")
}

#[test]
fn ipv4_match() {
    let sensor = IpSensor;
    let compiled = sensor.compile_args(&ip_args(&["1.2.3.4", "5.6.7.8"]));
    assert_eq!(sensor.evaluate(&mut ip_ctx("1.2.3.4"), &compiled), Score(100));
}

#[test]
fn ipv4_no_match() {
    let sensor = IpSensor;
    let compiled = sensor.compile_args(&ip_args(&["1.2.3.4"]));
    assert_eq!(sensor.evaluate(&mut ip_ctx("9.9.9.9"), &compiled), Score(0));
}

#[test]
fn ipv6_match() {
    let sensor = IpSensor;
    let compiled = sensor.compile_args(&ip_args(&["::1", "2001:db8::1"]));
    assert_eq!(sensor.evaluate(&mut ip_ctx("::1"), &compiled), Score(100));
}

#[test]
fn ipv6_no_match() {
    let sensor = IpSensor;
    let compiled = sensor.compile_args(&ip_args(&["::1"]));
    assert_eq!(sensor.evaluate(&mut ip_ctx("::2"), &compiled), Score(0));
}

#[test]
fn ip_rejects_unparsable_address() {
    assert!(IpSensor.try_compile_args(&ip_args(&["1.2.3"])).is_err());
}

#[test]
fn listed_addresses_are_read_as_numbers() {
    let compiled = IpSensor.compile_args(&ip_args(&["10.0.0.1"]));
    let mut ctx = ip_ctx("10.0.0.2");
    ctx.client_ip = IpAddress::V4(0x0a000001);
    assert_eq!(IpSensor.evaluate(&mut ctx, &compiled), Score(100));
}

#[test]
fn ipv4_inside() {
    let sensor = SubnetSensor;
    let compiled = sensor.compile_args(&subnet_args(&["192.168.1.0/24"]));
    assert_eq!(sensor.evaluate(&mut ip_ctx("192.168.1.100"), &compiled), Score(100));
}

#[test]
fn ipv4_outside() {
    let sensor = SubnetSensor;
    let compiled = sensor.compile_args(&subnet_args(&["192.168.1.0/24"]));
    assert_eq!(sensor.evaluate(&mut ip_ctx("192.168.2.1"), &compiled), Score(0));
}

#[test]
fn ipv4_network_address() {
    let sensor = SubnetSensor;
    let compiled = sensor.compile_args(&subnet_args(&["10.0.0.0/8"]));
    assert_eq!(sensor.evaluate(&mut ip_ctx("10.0.0.0"), &compiled), Score(100));
}

#[test]
fn ipv4_broadcast_address() {
    let sensor = SubnetSensor;
    let compiled = sensor.compile_args(&subnet_args(&["10.0.0.0/8"]));
    assert_eq!(sensor.evaluate(&mut ip_ctx("10.255.255.255"), &compiled), Score(100));
}

#[test]
fn ipv6_inside() {
    let sensor = SubnetSensor;
    let compiled = sensor.compile_args(&subnet_args(&["2001:db8::/32"]));
    assert_eq!(sensor.evaluate(&mut ip_ctx("2001:db8::1"), &compiled), Score(100));
}

#[test]
fn ipv6_outside() {
    let sensor = SubnetSensor;
    let compiled = sensor.compile_args(&subnet_args(&["2001:db8::/32"]));
    assert_eq!(sensor.evaluate(&mut ip_ctx("2001:db9::1"), &compiled), Score(0));
}

#[test]
fn subnet_v4_net_does_not_hold_v6_address() {
    let sensor = SubnetSensor;
    let compiled = sensor.compile_args(&subnet_args(&["0.0.0.0/0"]));
    assert_eq!(sensor.evaluate(&mut ip_ctx("1.1.1.1"), &compiled), Score(100));
    assert_eq!(sensor.evaluate(&mut ip_ctx("::1"), &compiled), Score(0));
    assert!(sensor.try_compile_args(&subnet_args(&["10.0.0.0/33"])).is_err());
}

// ── regex ───────────────────────────────────────────────────────────────────

fn regex_args(patterns: &[&str], target: &str) -> ConfigValue {
    table(vec![("patterns", strings(patterns)), ("target", text(target))])
}

fn ctx_with_body(body: &str) -> RequestContext {
    let mut ctx = request("1.2.3.4", "POST", "/login");
    ctx.body = Some(body.as_bytes().to_vec());
    ctx
}

#[test]
fn sqli_union_select_in_body() {
    let sensor = RegexSensor;
    let compiled = sensor.compile_args(&regex_args(&["(?i)union.*select"], "body"));
    let mut ctx = ctx_with_body("1 UNION SELECT * FROM users");
    assert_eq!(sensor.evaluate(&mut ctx, &compiled), Score(100));
}

#[test]
fn sqli_or_tautology_in_body() {
    let sensor = RegexSensor;
    let compiled = sensor
        .compile_args(&regex_args(&["(?i)union.*select", "(?i)' or '1'='1"], "body"));
    let mut ctx = ctx_with_body("' or '1'='1");
    // 1 of 2 patterns matched → 50
    assert_eq!(sensor.evaluate(&mut ctx, &compiled), Score(50));
}

#[test]
fn sqli_union_select_in_uri() {
    let sensor = RegexSensor;
    let compiled = sensor.compile_args(&regex_args(&["(?i)union.*select"], "uri"));
    let mut ctx = request("1.2.3.4", "GET", "/search?q=1+UNION+SELECT+1");
    assert_eq!(sensor.evaluate(&mut ctx, &compiled), Score(100));
}

#[test]
fn body_exceeds_max_len_returns_zero() {
    let sensor = RegexSensor;
    let mut compiled = sensor.compile_args(&regex_args(&["(?i)union.*select"], "body"));
    compiled.max_len = 4;
    let mut ctx = ctx_with_body("UNION SELECT 1");
    assert_eq!(sensor.evaluate(&mut ctx, &compiled), Score(0));
}

#[test]
fn no_match_returns_zero() {
    let sensor = RegexSensor;
    let compiled = sensor.compile_args(&regex_args(&["(?i)union.*select"], "body"));
    let mut ctx = ctx_with_body("hello world");
    assert_eq!(sensor.evaluate(&mut ctx, &compiled), Score(0));
}

#[test]
fn regex_header_target_and_errors() {
    let sensor = RegexSensor;
    let compiled = sensor.compile_args(&regex_args(&["bot"], "header:User-Agent"));
    let mut ctx = ctx_with_header("GET", "/", "user-agent", "evilbot/1.0");
    assert_eq!(sensor.evaluate(&mut ctx, &compiled), Score(100));
    assert!(sensor.try_compile_args(&regex_args(&["("], "body")).is_err());
    assert!(sensor.try_compile_args(&regex_args(&["a"], "cookie")).is_err());
}

// ── rate limit ──────────────────────────────────────────────────────────────

fn rate_args(limit: u32, window_secs: u64, source: ProviderId) -> RateLimitArgs {
    let cache = Arc::new(moka::sync::Cache::builder().time_to_live(Duration::from_secs(window_secs)).build());
    RateLimitArgs {
        cache,
        limit,
        source_provider_id: source,
        clock: Box::new(SystemClock),
    }
}

#[test]
fn score_increases_with_requests() {
    let sensor = RateLimitSensor;
    let args = rate_args(10, 60, ProviderId(0));
    let mut ctx = request("1.2.3.4", "GET", "/");
    for _ in 0..9 {
        let score = sensor.evaluate(&mut ctx, &args);
        assert!(score < Score(100));
    }
    let score = sensor.evaluate(&mut ctx, &args);
    assert_eq!(score, Score(100));
}

#[test]
fn score_clamps_at_one() {
    let sensor = RateLimitSensor;
    let args = rate_args(3, 60, ProviderId(0));
    let mut ctx = request("1.2.3.4", "GET", "/");
    for _ in 0..5 {
        sensor.evaluate(&mut ctx, &args);
    }
    let score = sensor.evaluate(&mut ctx, &args);
    assert_eq!(score, Score(100));
}

#[test]
fn uses_metadata_key_when_present() {
    let sensor = RateLimitSensor;
    let source_id = name_to_provider_id("geo");
    let args = rate_args(2, 60, source_id);
    let mut ctx = request("1.2.3.4", "GET", "/");
    ctx.metadata.insert(source_id.0, "RU".into());
    sensor.evaluate(&mut ctx, &args);
    let score = sensor.evaluate(&mut ctx, &args);
    assert_eq!(score, Score(100));
}

#[test]
fn rate_limit_counts_per_key() {
    let sensor = RateLimitSensor;
    let args = rate_args(4, 60, ProviderId(0));
    let mut a = request("1.2.3.4", "GET", "/");
    let mut b = request("5.6.7.8", "GET", "/");
    assert_eq!(sensor.evaluate(&mut a, &args), Score(25));
    assert_eq!(sensor.evaluate(&mut a, &args), Score(50));
    assert_eq!(sensor.evaluate(&mut b, &args), Score(25));
}

// ── geo and asn ─────────────────────────────────────────────────────────────

struct StubGeo(Option<String>);

impl GeoResolver for StubGeo {
    fn country_code(&self, _ip: IpAddress) -> Option<String> {
        self.0.clone()
    }
}

struct StubAsn(Option<u32>);

impl AsnResolver for StubAsn {
    fn asn(&self, _ip: IpAddress) -> Option<u32> {
        self.0
    }
}

const GEO_ID: ProviderId = ProviderId(42);
const ASN_ID: ProviderId = ProviderId(99);

fn geo_args(code: Option<&str>, countries: &[&str]) -> GeoArgs {
    GeoArgs {
        resolver: Box::new(StubGeo(code.map(|c| c.to_string()))),
        countries: countries.iter().map(|s| s.to_string()).collect(),
        provider_id: GEO_ID,
    }
}

fn asn_args(asn: Option<u32>, asns: &[u32]) -> AsnArgs {
    AsnArgs {
        resolver: Box::new(StubAsn(asn)),
        asns: asns.to_vec(),
        provider_id: ASN_ID,
    }
}

#[test]
fn match_country() {
    let args = geo_args(Some("US"), &["US", "CA"]);
    let mut ctx = request("1.2.3.4", "GET", "/");
    assert_eq!(GeoSensor.evaluate(&mut ctx, &args), Score(100));
}

#[test]
fn no_match_country() {
    let args = geo_args(Some("DE"), &["US"]);
    let mut ctx = request("1.2.3.4", "GET", "/");
    assert_eq!(GeoSensor.evaluate(&mut ctx, &args), Score(0));
}

#[test]
fn unknown_ip_writes_empty_metadata() {
    let args = geo_args(None, &["US"]);
    let mut ctx = request("1.2.3.4", "GET", "/");
    let score = GeoSensor.evaluate(&mut ctx, &args);
    assert_eq!(score, Score(0));
    assert_eq!(ctx.metadata.get(&GEO_ID.0), Some(&String::new()));
}

#[test]
fn metadata_written_on_match() {
    let args = geo_args(Some("RU"), &["RU"]);
    let mut ctx = request("1.2.3.4", "GET", "/");
    GeoSensor.evaluate(&mut ctx, &args);
    assert_eq!(ctx.metadata.get(&GEO_ID.0), Some(&"RU".to_string()));
}

#[test]
fn geo_settings_upper_case_countries() {
    let settings = GeoSensor
        .compile_settings(&table(vec![("db_path", text("/tmp/x.mmdb")), ("countries", strings(&["us", "Ca"]))]))
        .unwrap();
    assert_eq!(settings.db_path, "/tmp/x.mmdb");
    assert_eq!(settings.values, vec!["US".to_string(), "CA".to_string()]);
    assert!(GeoSensor.compile_settings(&table(vec![("countries", strings(&["us"]))])).is_err());
}

#[test]
fn asn_match() {
    let args = asn_args(Some(14061), &[14061, 16509]);
    let mut ctx = request("1.2.3.4", "GET", "/");
    assert_eq!(AsnSensor.evaluate(&mut ctx, &args), Score(100));
}

#[test]
fn asn_no_match() {
    let args = asn_args(Some(12345), &[14061]);
    let mut ctx = request("1.2.3.4", "GET", "/");
    assert_eq!(AsnSensor.evaluate(&mut ctx, &args), Score(0));
}

#[test]
fn unknown_ip_returns_zero() {
    let args = asn_args(None, &[14061]);
    let mut ctx = request("1.2.3.4", "GET", "/");
    assert_eq!(AsnSensor.evaluate(&mut ctx, &args), Score(0));
}

#[test]
fn lib_metadata_written_on_match() {
    let args = asn_args(Some(14061), &[14061]);
    let mut ctx = request("1.2.3.4", "GET", "/");
    AsnSensor.evaluate(&mut ctx, &args);
    assert_eq!(ctx.metadata.get(&ASN_ID.0), Some(&"14061".to_string()));
}

#[test]
fn metadata_written_as_zero_when_unknown() {
    let args = asn_args(None, &[14061]);
    let mut ctx = request("1.2.3.4", "GET", "/");
    AsnSensor.evaluate(&mut ctx, &args);
    assert_eq!(ctx.metadata.get(&ASN_ID.0), Some(&"0".to_string()));
}

#[test]
fn asn_settings_read_numbers() {
    let settings = AsnSensor
        .compile_settings(&table(vec![
            ("db_path", text("/tmp/a.mmdb")),
            ("asns", ConfigValue::Array(vec![ConfigValue::Integer(14061), ConfigValue::Integer(16509)])),
        ]))
        .unwrap();
    assert_eq!(settings.values, vec![14061u32, 16509]);
}

#[test]
fn rate_limit_score_truncates() {
    assert_eq!(rate_limit_score(2, 3), Score(66));
    assert_eq!(rate_limit_score(1, 3), Score(33));
    assert_eq!(rate_limit_score(7, 3), Score(100));
    assert_eq!(rate_limit_score(0, 0), Score(0));
}

#[test]
fn rate_limit_rejects_windows_over_a_thousand_years() {
    let args = |w: i64| {
        ConfigValue::Table(vec![
            ("limit".to_string(), ConfigValue::Integer(3)),
            ("window_secs".to_string(), ConfigValue::Integer(w)),
            ("source_provider_id".to_string(), ConfigValue::String("s".to_string())),
        ])
    };
    assert!(RateLimitSensor.try_compile_args(&args(60)).is_ok());
    assert!(RateLimitSensor.try_compile_args(&args(31_536_000_001)).is_err());
    assert!(RateLimitSensor.try_compile_args(&args(-1)).is_err());
}

#[test]
fn regex_targets_are_uri_body_or_a_header() {
    assert!(is_target("uri") && is_target("body") && is_target("header:X-Api"));
    assert!(!is_target("cookie"));
    assert!(matches!(parse_target("header:X-Api"), Target::Header(h) if h == "x-api"));
    assert!(matches!(parse_target("body"), Target::Body));
}

#[test]
fn header_names_are_stored_lower_cased() {
    let mut ctx = request("1.2.3.4", "GET", "/");
    ctx.headers.insert_lowercased("User-Agent", "evilbot/1.0".to_string());
    assert_eq!(ctx.headers.get("user-agent").map(|s| s.as_str()), Some("evilbot/1.0"));
    assert_eq!(ctx.headers.get("User-Agent"), None);
}
