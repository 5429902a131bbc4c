//! Ferrum: a scoring web-application firewall.
//!
//! Requests are scored by sensors, scores are combined by transformers, and
//! rules compare scores against thresholds to pick the next action.

pub mod rounding;
pub mod score;
pub mod text;
pub mod provider;
pub mod value;
pub mod patterns;
pub mod config;
pub mod request;
pub mod net;
pub mod plugin;
pub mod transformers;
pub mod registry;
pub mod engine;
pub mod sensors;
pub mod terminators;
pub mod hooks;
pub mod catalog;
pub mod builtins;
pub mod loader;
pub mod proxy;
pub mod xferrum;
pub mod lexical;
pub mod graph;
