use ferrum::hooks::{
    parse_facility, parse_severity, syslog_message, syslog_settings, webhook_event, webhook_settings, SyslogFacility,
    SyslogSeverity,
};
use ferrum::plugin::TerminatorAction;
use ferrum::request::{IpAddress, RequestContext};
use ferrum::terminators::{BlockTerminator, RateLimitedTerminator, RedirectTerminator, TimeoutTerminator};
use ferrum::value::ConfigValue;

/// The library's form of an address written in text.
fn addr(text: &str) -> IpAddress {
    match text.parse::<core::net::IpAddr>().unwrap() {
        core::net::IpAddr::V4(a) => IpAddress::V4(u32::from(a)),
        core::net::IpAddr::V6(a) => IpAddress::V6(u128::from(a)),
    }
}

fn table(entries: Vec<(&str, ConfigValue)>) -> ConfigValue {
    ConfigValue::Table(entries.into_iter().map(|(k, v)| (k.to_string(), v)).collect())
}

fn text(s: &str) -> ConfigValue {
    ConfigValue::String(s.to_string())
}

fn request() -> RequestContext {
    RequestContext::new(addr("10.1.2.3"), "GET".into(), "/x?y=1".into())
}

#[test]
fn syslog_line_names_method_uri_address_and_agent() {
    let mut ctx = request();
    assert_eq!(syslog_message(&ctx), "GET /x?y=1 10.1.2.3 ua=\"-\"");
    ctx.headers.insert("user-agent".into(), "curl/8".into());
    assert_eq!(syslog_message(&ctx), "GET /x?y=1 10.1.2.3 ua=\"curl/8\"");
}

#[test]
fn syslog_names_map_to_facilities_and_severities() {
    assert_eq!(parse_facility("local3"), SyslogFacility::Local3);
    assert_eq!(parse_facility("kern"), SyslogFacility::Kern);
    assert_eq!(parse_facility("bogus"), SyslogFacility::Daemon);
    assert_eq!(parse_severity("warn"), SyslogSeverity::Warning);
    assert_eq!(parse_severity("error"), SyslogSeverity::Error);
    assert_eq!(parse_severity("whatever"), SyslogSeverity::Info);
    let s = syslog_settings(&table(vec![("facility", text("auth")), ("ident", text("waf"))]));
    assert_eq!(s.facility, SyslogFacility::Auth);
    assert_eq!(s.ident, "waf");
    assert_eq!(s.severity, SyslogSeverity::Info);
    let d = syslog_settings(&table(vec![]));
    assert_eq!((d.facility, d.ident.as_str()), (SyslogFacility::Daemon, "ferrum"));
}

#[test]
fn webhook_settings_require_url() {
    assert!(webhook_settings(&table(vec![])).is_err());
    let s = webhook_settings(&table(vec![
        ("url", text("http://hooks.local/waf")),
        ("headers", table(vec![("x-token", text("t")), ("x-n", ConfigValue::Integer(1))])),
    ]))
    .unwrap();
    assert_eq!(s.url, "http://hooks.local/waf");
    assert_eq!(s.timeout_ms, 3000);
    assert_eq!(s.headers, vec![("x-token".to_string(), "t".to_string()), ("x-n".to_string(), String::new())]);
}

#[test]
fn webhook_event_reports_the_request() {
    let mut ctx = request();
    ctx.headers.insert("user-agent".into(), "ua".into());
    let e = webhook_event(&ctx, 1700000000);
    assert_eq!((e.method.as_str(), e.uri.as_str(), e.client_ip.as_str()), ("GET", "/x?y=1", "10.1.2.3"));
    assert_eq!((e.user_agent.as_str(), e.timestamp), ("ua", 1700000000));
}

#[test]
fn addresses_format_as_std_does() {
    let mut ctx = request();
    ctx.client_ip = addr("2001:db8::1");
    assert_eq!(syslog_message(&ctx), "GET /x?y=1 2001:db8::1 ua=\"-\"");
    ctx.client_ip = IpAddress::V4(0xc0a80001);
    assert_eq!(webhook_event(&ctx, 0).client_ip, "192.168.0.1");
}

#[test]
fn terminators_read_their_settings() {
    let b = BlockTerminator::from_args(&table(vec![]));
    assert_eq!(b.status, 403);
    assert_eq!(b.action(), TerminatorAction::Respond { status: 403, headers: vec![] });
    let r = RedirectTerminator::from_args(&table(vec![("target_url", text("/login"))]));
    assert_eq!(
        r.action(),
        TerminatorAction::Respond { status: 302, headers: vec![("location".to_string(), "/login".to_string())] }
    );
    let l = RateLimitedTerminator::from_args(&table(vec![("retry_after", ConfigValue::Integer(30))]));
    assert_eq!(
        l.action(),
        TerminatorAction::Respond { status: 429, headers: vec![("retry-after".to_string(), "30".to_string())] }
    );
    assert_eq!(TimeoutTerminator::from_args(&table(vec![])).delay_ms, 5000);
}
