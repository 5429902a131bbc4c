//! The built-in terminators: how a request that a rule stops is answered.

use vstd::prelude::*;

use crate::plugin::{Plugin, Terminator, TerminatorAction};
use crate::request::RequestContext;
use crate::text::{decimal, decimal_string};
use crate::value::{get_integer, get_str, value_get, value_int, value_str, ConfigValue};

verus! {

/// `a` is a response with status `code` and no headers.
pub open spec fn is_status_response(a: TerminatorAction, code: u16) -> bool {
    a matches TerminatorAction::Respond { status, headers } && status == code && headers@.len() == 0
}

/// `a` is a response with status `code` and the one header `name: value`.
pub open spec fn is_header_response(a: TerminatorAction, code: u16, name: Seq<char>, value: Seq<char>) -> bool {
    a matches TerminatorAction::Respond { status, headers } && status == code && headers@.len() == 1
        && headers@[0].0@ == name && headers@[0].1@ == value
}

/// The integer under `key`, or `default` where there is none.
pub open spec fn int_or(args: ConfigValue, key: Seq<char>, default: i64) -> i64 {
    match value_int(value_get(args, key)) {
        Some(v) => v,
        None => default,
    }
}

fn integer_or(args: &ConfigValue, key: &str, default: i64) -> (r: i64)
    ensures
        r == int_or(*args, key@, default),
{
    match get_integer(args, key) {
        Some(v) => v,
        None => default,
    }
}

/// `block`: answers with a status code (403 by default) and an empty body.
#[derive(Debug)]
pub struct BlockTerminator {
    /// The response status.
    pub status: u16,
}

impl Plugin for BlockTerminator {}

impl BlockTerminator {
    /// Reads `status` (default 403, converted `as u16`).
    pub fn from_args(args: &ConfigValue) -> (r: BlockTerminator)
        ensures
            r.status == int_or(*args, "status"@, 403) as u16,
    {
        BlockTerminator { status: integer_or(args, "status", 403) as u16 }
    }

    /// The response: the status, no headers.
    pub fn action(&self) -> (r: TerminatorAction)
        ensures
            r matches TerminatorAction::Respond { status, headers } && status == self.status && headers@.len() == 0,
    {
        TerminatorAction::Respond { status: self.status, headers: Vec::new() }
    }
}

impl Terminator for BlockTerminator {
    open spec fn acts(&self, a: TerminatorAction) -> bool {
        is_status_response(a, self.status)
    }

    fn decide(&self, _ctx: &RequestContext) -> (r: TerminatorAction)
        ensures
            r matches TerminatorAction::Respond { status, headers } && status == self.status && headers@.len() == 0,
    {
        self.action()
    }
}

/// `drop`: drops the connection without a response.
#[derive(Debug)]
pub struct DropTerminator;

impl Plugin for DropTerminator {}

impl Terminator for DropTerminator {
    open spec fn acts(&self, a: TerminatorAction) -> bool {
        a == (TerminatorAction::Close { delay_ms: 0 })
    }

    fn decide(&self, _ctx: &RequestContext) -> (r: TerminatorAction)
        ensures
            r == (TerminatorAction::Close { delay_ms: 0 }),
    {
        TerminatorAction::Close { delay_ms: 0 }
    }
}

/// `pass` / `bypass`: lets the request through to the upstream.
#[derive(Debug)]
pub struct BypassTerminator;

impl Plugin for BypassTerminator {}

impl Terminator for BypassTerminator {
    open spec fn acts(&self, a: TerminatorAction) -> bool {
        a == TerminatorAction::Pass
    }

    fn decide(&self, _ctx: &RequestContext) -> (r: TerminatorAction)
        ensures
            r == TerminatorAction::Pass,
    {
        TerminatorAction::Pass
    }
}

/// `rate_limited`: answers 429 with a `retry-after` header (60 s by default).
#[derive(Debug)]
pub struct RateLimitedTerminator {
    /// Seconds announced in `retry-after`.
    pub retry_after: u32,
}

impl Plugin for RateLimitedTerminator {}

impl RateLimitedTerminator {
    /// Reads `retry_after` (default 60, converted `as u32`).
    pub fn from_args(args: &ConfigValue) -> (r: RateLimitedTerminator)
        ensures
            r.retry_after == int_or(*args, "retry_after"@, 60) as u32,
    {
        RateLimitedTerminator { retry_after: integer_or(args, "retry_after", 60) as u32 }
    }

    /// The response: 429 with `retry-after`.
    pub fn action(&self) -> (r: TerminatorAction)
        ensures
            r matches TerminatorAction::Respond { status, headers } && status == 429 && headers@.len() == 1
                && headers@[0].0@ == "retry-after"@ && headers@[0].1@ == decimal(self.retry_after as nat),
    {
        let mut headers: Vec<(String, String)> = Vec::new();
        headers.push(("retry-after".to_owned(), decimal_string(self.retry_after as u64)));
        TerminatorAction::Respond { status: 429, headers }
    }
}

impl Terminator for RateLimitedTerminator {
    open spec fn acts(&self, a: TerminatorAction) -> bool {
        is_header_response(a, 429, "retry-after"@, decimal(self.retry_after as nat))
    }

    fn decide(&self, _ctx: &RequestContext) -> (r: TerminatorAction)
        ensures
            r matches TerminatorAction::Respond { status, headers } && status == 429 && headers@.len() == 1
                && headers@[0].0@ == "retry-after"@ && headers@[0].1@ == decimal(self.retry_after as nat),
    {
        self.action()
    }
}

/// `redirect`: answers with a redirect status (302 by default) to `target_url` (`/` by default).
#[derive(Debug)]
pub struct RedirectTerminator {
    /// The `location` header value.
    pub target_url: String,
    /// The response status.
    pub status_code: u16,
}

impl Plugin for RedirectTerminator {}

impl RedirectTerminator {
    /// Reads `target_url` (default `/`) and `status_code` (default 302, converted `as u16`).
    pub fn from_args(args: &ConfigValue) -> (r: RedirectTerminator)
        ensures
            r.target_url@ == match value_str(value_get(*args, "target_url"@)) {
                Some(u) => u,
                None => "/"@,
            },
            r.status_code == int_or(*args, "status_code"@, 302) as u16,
    {
        let target_url = match get_str(args, "target_url") {
            Some(u) => u.to_owned(),
            None => "/".to_owned(),
        };
        RedirectTerminator { target_url, status_code: integer_or(args, "status_code", 302) as u16 }
    }

    /// The response: the status with `location`.
    pub fn action(&self) -> (r: TerminatorAction)
        ensures
            r matches TerminatorAction::Respond { status, headers } && status == self.status_code && headers@.len() == 1
                && headers@[0].0@ == "location"@ && headers@[0].1@ == self.target_url@,
    {
        let mut headers: Vec<(String, String)> = Vec::new();
        headers.push(("location".to_owned(), self.target_url.clone()));
        TerminatorAction::Respond { status: self.status_code, headers }
    }
}

impl Terminator for RedirectTerminator {
    open spec fn acts(&self, a: TerminatorAction) -> bool {
        is_header_response(a, self.status_code, "location"@, self.target_url@)
    }

    fn decide(&self, _ctx: &RequestContext) -> (r: TerminatorAction)
        ensures
            r matches TerminatorAction::Respond { status, headers } && status == self.status_code && headers@.len() == 1
                && headers@[0].0@ == "location"@ && headers@[0].1@ == self.target_url@,
    {
        self.action()
    }
}

/// `timeout`: waits (5000 ms by default), then drops the connection.
#[derive(Debug)]
pub struct TimeoutTerminator {
    /// Milliseconds to wait.
    pub delay_ms: u64,
}

impl Plugin for TimeoutTerminator {}

impl TimeoutTerminator {
    /// Reads `delay_ms` (default 5000, converted `as u64`).
    pub fn from_args(args: &ConfigValue) -> (r: TimeoutTerminator)
        ensures
            r.delay_ms == int_or(*args, "delay_ms"@, 5000) as u64,
    {
        TimeoutTerminator { delay_ms: integer_or(args, "delay_ms", 5000) as u64 }
    }
}

impl Terminator for TimeoutTerminator {
    open spec fn acts(&self, a: TerminatorAction) -> bool {
        a == (TerminatorAction::Close { delay_ms: self.delay_ms })
    }

    fn decide(&self, _ctx: &RequestContext) -> (r: TerminatorAction)
        ensures
            r == (TerminatorAction::Close { delay_ms: self.delay_ms }),
    {
        TerminatorAction::Close { delay_ms: self.delay_ms }
    }
}

} // verus!
