//! The configuration as read from the TOML file, before compilation.

use vstd::prelude::*;

use crate::score::Score;
use crate::value::ConfigValue;

verus! {

/// The whole configuration file.
///
/// Tables of the TOML file become lists of `(name, block)` pairs; names within
/// one list are distinct, as TOML table keys are.
#[derive(Debug)]
pub struct Config {
    /// The `[server]` section.
    pub server: ServerConfig,
    /// Name of the entry-point node (rule id, hook name, or terminator name).
    /// Defaults to the first `[[rules]]` id when omitted.
    pub entry: Option<String>,
    /// `[sensors.*]` blocks.
    pub sensors: Vec<(String, PluginConfig)>,
    /// `[transformers.*]` blocks.
    pub transformers: Vec<(String, PluginConfig)>,
    /// `[terminators.*]` blocks.
    pub terminators: Vec<(String, PluginConfig)>,
    /// `[hooks.*]` blocks.
    pub hooks: Vec<(String, HookConfig)>,
    /// `[[rules]]` blocks, in file order.
    pub rules: Vec<RuleConfig>,
}

/// The `[server]` section; missing keys take the defaults below.
#[derive(Debug)]
pub struct ServerConfig {
    /// Address the proxy listens on.
    pub listen: String,
    /// Upstream that requests are forwarded to.
    pub upstream: String,
    /// Address the metrics server listens on.
    pub metrics_listen: String,
}

/// Default listen address.
pub fn default_listen() -> (s: String)
    ensures
        s@ == "0.0.0.0:8080"@,
{
    "0.0.0.0:8080".to_owned()
}

/// Default upstream address.
pub fn default_upstream() -> (s: String)
    ensures
        s@ == "127.0.0.1:8081"@,
{
    "127.0.0.1:8081".to_owned()
}

/// Default metrics listen address.
pub fn default_metrics_listen() -> (s: String)
    ensures
        s@ == "0.0.0.0:9090"@,
{
    "0.0.0.0:9090".to_owned()
}

impl Default for ServerConfig {
    fn default() -> (r: Self)
        ensures
            r.listen@ == "0.0.0.0:8080"@,
            r.upstream@ == "127.0.0.1:8081"@,
            r.metrics_listen@ == "0.0.0.0:9090"@,
    {
        ServerConfig {
            listen: default_listen(),
            upstream: default_upstream(),
            metrics_listen: default_metrics_listen(),
        }
    }
}

/// A `[sensors.*]`, `[transformers.*]` or `[terminators.*]` block.
#[derive(Debug)]
pub struct PluginConfig {
    /// Plugin name.
    pub plugin: String,
    /// The whole block, passed to the plugin as its arguments.
    pub args: ConfigValue,
}

/// A `[hooks.*]` block.
#[derive(Debug)]
pub struct HookConfig {
    /// Plugin name.
    pub plugin: String,
    /// Name of the rule, hook, or terminator to continue to after this hook fires.
    pub next: Option<String>,
    /// The whole block, passed to the plugin as its arguments.
    pub args: ConfigValue,
}

/// A `[[rules]]` block.
#[derive(Debug)]
pub struct RuleConfig {
    /// Rule id.
    pub id: String,
    /// The rule fires when the input's score is at least this.
    pub threshold: Score,
    /// Name of the sensor or transformer whose score is compared.
    pub input: String,
    /// Action when the rule fires.
    pub if_action: Option<String>,
    /// Action when it does not.
    pub else_action: Option<String>,
    /// Whether the request body must be buffered before this rule runs.
    pub buffer_body: bool,
}

} // verus!
