//! The built-in hooks: what they report about a request, and how they hand it
//! to the background worker that delivers it.

use std::sync::mpsc::SyncSender;

use vstd::prelude::*;

use crate::net::{format_ip, ip_text};
use crate::plugin::{plugin_error, HookFn, Plugin, PluginError};
use crate::request::RequestContext;
use crate::text::push_str;
use crate::value::{get_integer, get_str, str_eq, value_get, value_int, value_str, ConfigValue};

verus! {

/// `std::sync::mpsc::SyncSender`, held opaque.
#[verifier::external_type_specification]
#[verifier::external_body]
#[verifier::reject_recursive_types(T)]
pub struct ExSyncSender<T>(SyncSender<T>);

/// Calls `SyncSender::try_send` and drops its result: a full channel or a gone
/// worker loses the event rather than blocking the request.
#[verifier::external_body]
fn offer<T>(sender: &SyncSender<T>, event: T) {
    let _ = sender.try_send(event);
}

/// The value under `key` when it is a string, else `default`.
pub open spec fn str_or(args: ConfigValue, key: Seq<char>, default: Seq<char>) -> Seq<char> {
    match value_str(value_get(args, key)) {
        Some(v) => v,
        None => default,
    }
}

fn string_or(args: &ConfigValue, key: &str, default: &str) -> (r: String)
    ensures
        r@ == str_or(*args, key@, default@),
{
    match get_str(args, key) {
        Some(v) => v.to_owned(),
        None => default.to_owned(),
    }
}

/// The `User-Agent` of a request, or `-`.
pub open spec fn user_agent_or_dash(ctx: RequestContext) -> Seq<char> {
    match ctx.headers.spec_get("user-agent"@) {
        Some(u) => u,
        None => "-"@,
    }
}

/// The syslog line for a request: `METHOD URI IP ua="AGENT"`.
pub open spec fn syslog_line(ctx: RequestContext) -> Seq<char> {
    ctx.method@ + " "@ + ctx.uri@ + " "@ + ip_text(ctx.client_ip) + " ua=\""@ + user_agent_or_dash(ctx) + "\""@
}

/// Formats the syslog line for a request.
pub fn syslog_message(ctx: &RequestContext) -> (r: String)
    ensures
        r@ == syslog_line(*ctx),
{
    let mut s = String::new();
    push_str(&mut s, ctx.method.as_str());
    push_str(&mut s, " ");
    push_str(&mut s, ctx.uri.as_str());
    push_str(&mut s, " ");
    let ip = format_ip(ctx.client_ip);
    push_str(&mut s, ip.as_str());
    push_str(&mut s, " ua=\"");
    match ctx.headers.get("user-agent") {
        Some(u) => push_str(&mut s, u.as_str()),
        None => push_str(&mut s, "-"),
    }
    push_str(&mut s, "\"");
    proof {
        assert(s@ =~= syslog_line(*ctx));
    }
    s
}

/// Syslog facilities.
#[derive(Debug, Clone, Copy, PartialEq, Eq, Structural)]
pub enum SyslogFacility {
    Kern,
    User,
    Mail,
    Daemon,
    Auth,
    Syslog,
    Lpr,
    News,
    Cron,
    Local0,
    Local1,
    Local2,
    Local3,
    Local4,
    Local5,
    Local6,
    Local7,
}

/// The facility a name denotes; unknown names denote `daemon`.
pub open spec fn facility_of(s: Seq<char>) -> SyslogFacility {
    if s == "kern"@ { SyslogFacility::Kern }
    else if s == "user"@ { SyslogFacility::User }
    else if s == "mail"@ { SyslogFacility::Mail }
    else if s == "auth"@ { SyslogFacility::Auth }
    else if s == "syslog"@ { SyslogFacility::Syslog }
    else if s == "lpr"@ { SyslogFacility::Lpr }
    else if s == "news"@ { SyslogFacility::News }
    else if s == "cron"@ { SyslogFacility::Cron }
    else if s == "local0"@ { SyslogFacility::Local0 }
    else if s == "local1"@ { SyslogFacility::Local1 }
    else if s == "local2"@ { SyslogFacility::Local2 }
    else if s == "local3"@ { SyslogFacility::Local3 }
    else if s == "local4"@ { SyslogFacility::Local4 }
    else if s == "local5"@ { SyslogFacility::Local5 }
    else if s == "local6"@ { SyslogFacility::Local6 }
    else if s == "local7"@ { SyslogFacility::Local7 }
    else { SyslogFacility::Daemon }
}

/// Parses a facility name; unknown names give `daemon`.
pub fn parse_facility(s: &str) -> (r: SyslogFacility)
    ensures
        r == facility_of(s@),
{
    if str_eq(s, "kern") { SyslogFacility::Kern }
    else if str_eq(s, "user") { SyslogFacility::User }
    else if str_eq(s, "mail") { SyslogFacility::Mail }
    else if str_eq(s, "auth") { SyslogFacility::Auth }
    else if str_eq(s, "syslog") { SyslogFacility::Syslog }
    else if str_eq(s, "lpr") { SyslogFacility::Lpr }
    else if str_eq(s, "news") { SyslogFacility::News }
    else if str_eq(s, "cron") { SyslogFacility::Cron }
    else if str_eq(s, "local0") { SyslogFacility::Local0 }
    else if str_eq(s, "local1") { SyslogFacility::Local1 }
    else if str_eq(s, "local2") { SyslogFacility::Local2 }
    else if str_eq(s, "local3") { SyslogFacility::Local3 }
    else if str_eq(s, "local4") { SyslogFacility::Local4 }
    else if str_eq(s, "local5") { SyslogFacility::Local5 }
    else if str_eq(s, "local6") { SyslogFacility::Local6 }
    else if str_eq(s, "local7") { SyslogFacility::Local7 }
    else { SyslogFacility::Daemon }
}

/// Syslog severities used by the hook.
#[derive(Debug, Clone, Copy, PartialEq, Eq, Structural)]
pub enum SyslogSeverity {
    Notice,
    Warning,
    Error,
    Info,
}

/// The severity a name denotes; unknown names denote `info`.
pub open spec fn severity_of(s: Seq<char>) -> SyslogSeverity {
    if s == "notice"@ { SyslogSeverity::Notice }
    else if s == "warning"@ || s == "warn"@ { SyslogSeverity::Warning }
    else if s == "err"@ || s == "error"@ { SyslogSeverity::Error }
    else { SyslogSeverity::Info }
}

/// Parses a severity name; unknown names give `info`.
pub fn parse_severity(s: &str) -> (r: SyslogSeverity)
    ensures
        r == severity_of(s@),
{
    if str_eq(s, "notice") { SyslogSeverity::Notice }
    else if str_eq(s, "warning") || str_eq(s, "warn") { SyslogSeverity::Warning }
    else if str_eq(s, "err") || str_eq(s, "error") { SyslogSeverity::Error }
    else { SyslogSeverity::Info }
}

/// Settings of `hook-syslog`.
#[derive(Debug)]
pub struct SyslogSettings {
    /// Facility (`daemon` by default).
    pub facility: SyslogFacility,
    /// Process name (`ferrum` by default).
    pub ident: String,
    /// Severity (`info` by default).
    pub severity: SyslogSeverity,
}

/// Reads the syslog hook's settings.
pub fn syslog_settings(args: &ConfigValue) -> (r: SyslogSettings)
    ensures
        r.facility == facility_of(str_or(*args, "facility"@, "daemon"@)),
        r.ident@ == str_or(*args, "ident"@, "ferrum"@),
        r.severity == severity_of(str_or(*args, "severity"@, "info"@)),
{
    let facility = parse_facility(string_or(args, "facility", "daemon").as_str());
    let ident = string_or(args, "ident", "ferrum");
    let severity = parse_severity(string_or(args, "severity", "info").as_str());
    SyslogSettings { facility, ident, severity }
}

/// Typed trait for hook plugins: fire for a request with compiled arguments.
///
/// A hook never blocks the request: it hands what it reports to a background
/// worker, which the program starts when it compiles the hook's arguments.
pub trait Hook: Plugin {
    /// Compiled arguments.
    type Args: Send + Sync;

    /// Fires the hook for `ctx`.
    fn trigger(&self, ctx: &RequestContext, args: &Self::Args);
}

/// Compiled args for `hook-syslog`: the sending end of a bounded channel whose
/// receiving end a background worker drains into syslog.
pub struct SyslogArgs {
    /// The channel to the worker.
    pub sender: SyncSender<String>,
}

/// `hook-syslog`: reports each request as one syslog line.
pub struct SyslogHook;

impl Plugin for SyslogHook {}

impl Hook for SyslogHook {
    type Args = SyslogArgs;

    /// Formats the line and offers it to the worker, without blocking.
    fn trigger(&self, ctx: &RequestContext, args: &SyslogArgs) {
        let msg = syslog_message(ctx);
        offer(&args.sender, msg);
    }
}

impl HookFn for SyslogArgs {
    fn trigger(&self, ctx: &RequestContext) {
        SyslogHook.trigger(ctx, self)
    }
}

/// What `hook-webhook` reports about a request.
#[derive(Debug)]
pub struct WebhookEvent {
    /// The method.
    pub method: String,
    /// The URI.
    pub uri: String,
    /// The client address as text.
    pub client_ip: String,
    /// The `User-Agent`, or empty.
    pub user_agent: String,
    /// Seconds since the Unix epoch.
    pub timestamp: u64,
}

/// `std::time::SystemTime`, held opaque.
#[verifier::external_type_specification]
#[verifier::external_body]
pub struct ExSystemTime(std::time::SystemTime);

/// Calls `SystemTime::now`.  Nothing is stated of the result: it is the time.
#[verifier::external_body]
fn system_now() -> std::time::SystemTime {
    std::time::SystemTime::now()
}

/// Calls `SystemTime::duration_since(UNIX_EPOCH)`, giving the whole seconds of
/// the duration, or `None` for a time before the epoch.  Nothing more is
/// stated: the result depends on the time held.
#[verifier::external_body]
fn secs_since_epoch(t: std::time::SystemTime) -> Option<u64> {
    match t.duration_since(std::time::UNIX_EPOCH) {
        Ok(d) => Some(d.as_secs()),
        Err(_) => None,
    }
}

/// Whole seconds since the Unix epoch, or 0 for a clock before it.
fn unix_time_secs() -> u64 {
    match secs_since_epoch(system_now()) {
        Some(s) => s,
        None => 0,
    }
}

/// The event for a request at time `timestamp`.
pub fn webhook_event(ctx: &RequestContext, timestamp: u64) -> (e: WebhookEvent)
    ensures
        e.method@ == ctx.method@,
        e.uri@ == ctx.uri@,
        e.client_ip@ == ip_text(ctx.client_ip),
        e.user_agent@ == match ctx.headers.spec_get("user-agent"@) {
            Some(u) => u,
            None => Seq::<char>::empty(),
        },
        e.timestamp == timestamp,
{
    let user_agent = match ctx.headers.get("user-agent") {
        Some(u) => u.clone(),
        None => String::new(),
    };
    WebhookEvent {
        method: ctx.method.clone(),
        uri: ctx.uri.clone(),
        client_ip: format_ip(ctx.client_ip),
        user_agent,
        timestamp,
    }
}

/// Settings of `hook-webhook`.
#[derive(Debug)]
pub struct WebhookSettings {
    /// Where events are posted.
    pub url: String,
    /// Request timeout in milliseconds (3000 by default).
    pub timeout_ms: u64,
    /// Extra headers: each entry of the `headers` table, non-strings as empty.
    pub headers: Vec<(String, String)>,
}

/// Reads the webhook hook's settings; `url` is required.
pub fn webhook_settings(args: &ConfigValue) -> (r: Result<WebhookSettings, PluginError>)
    ensures
        r is Ok <==> value_str(value_get(*args, "url"@)) is Some,
        r matches Ok(s) ==> s.url@ == value_str(value_get(*args, "url"@))->0
            && s.timeout_ms == int_or_3000(*args)
            && s.headers@.len() == header_entries(*args).len()
            && forall|i: int| 0 <= i < s.headers@.len() ==> {
                &&& (#[trigger] s.headers@[i]).0@ == header_entries(*args)[i].0@
                &&& s.headers@[i].1@ == match header_entries(*args)[i].1 {
                    ConfigValue::String(v) => v@,
                    _ => Seq::<char>::empty(),
                }
            },
{
    let url = match get_str(args, "url") {
        Some(u) => u.to_owned(),
        None => return Err(plugin_error("hook-webhook: 'url' is required")),
    };
    let timeout_ms = match get_integer(args, "timeout_ms") {
        Some(v) => v as u64,
        None => 3000,
    };
    let mut headers: Vec<(String, String)> = Vec::new();
    match args.get("headers") {
        Some(ConfigValue::Table(entries)) => {
            let mut i: usize = 0;
            while i < entries.len()
                invariant
                    i <= entries@.len(),
                    entries@ == header_entries(*args),
                    headers@.len() == i,
                    forall|j: int| 0 <= j < i ==> {
                        &&& (#[trigger] headers@[j]).0@ == entries@[j].0@
                        &&& headers@[j].1@ == match entries@[j].1 {
                            ConfigValue::String(v) => v@,
                            _ => Seq::<char>::empty(),
                        }
                    },
                decreases entries.len() - i,
            {
                let v = match entries[i].1.as_str() {
                    Some(v) => v.to_owned(),
                    None => String::new(),
                };
                headers.push((entries[i].0.clone(), v));
                i = i + 1;
            }
        },
        _ => {},
    }
    Ok(WebhookSettings { url, timeout_ms, headers })
}

/// The entries of the `headers` table; none when there is no such table.
pub open spec fn header_entries(args: ConfigValue) -> Seq<(String, ConfigValue)> {
    match value_get(args, "headers"@) {
        Some(ConfigValue::Table(entries)) => entries@,
        _ => Seq::empty(),
    }
}

/// The `timeout_ms` setting converted `as u64`, 3000 when absent.
pub open spec fn int_or_3000(args: ConfigValue) -> u64 {
    match value_int(value_get(args, "timeout_ms"@)) {
        Some(v) => v as u64,
        None => 3000,
    }
}

/// Compiled args for `hook-webhook`: the sending end of a bounded channel whose
/// receiving end a background worker posts from.
pub struct WebhookArgs {
    /// The channel to the worker.
    pub sender: SyncSender<WebhookEvent>,
}

/// `hook-webhook`: posts each request as a JSON event.
pub struct WebhookHook;

impl Plugin for WebhookHook {}

impl Hook for WebhookHook {
    type Args = WebhookArgs;

    /// Builds the event and offers it to the worker, without blocking.
    fn trigger(&self, ctx: &RequestContext, args: &WebhookArgs) {
        let event = webhook_event(ctx, unix_time_secs());
        offer(&args.sender, event);
    }
}

impl HookFn for WebhookArgs {
    fn trigger(&self, ctx: &RequestContext) {
        WebhookHook.trigger(ctx, self)
    }
}

} // verus!
