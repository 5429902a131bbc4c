# ferrum

A scoring web-application firewall. Sensors score a request, transformers
combine scores, and rules compare a score with a threshold to choose the next
action: another rule, a hook, or a terminator that answers the request.

The library under `src/` is written in Verus and verified:

* `score` — fuzzy scores and their algebra (`and`, `or`, `not`), with its laws;
* `rounding` — the binary floating-point steps that turn a fraction into a
  score, computed exactly on integers;
* `config`, `loader` — compiling a configuration into a rule graph and a
  registry of plugin instances built from a `catalog` of plugin factories;
* `engine`, `registry` — memoised evaluation of providers against a request;
* `proxy` — the walk through the rule graph, and request-body buffering;
* `sensors`, `transformers`, `terminators`, `hooks` — the built-in plugins;
* `graph`, `xferrum` — the DOT rendering of a configuration, and the crate
  generated to build a binary with a chosen set of plugins.

`app/` holds what the verifier does not see: the Pingora proxy, metrics,
TOML parsing, MaxMind lookups, hook delivery workers, the floating-point
`weighted_sum` transformer, and the command-line tools.
