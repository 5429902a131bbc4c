use ferrum::config::raw::RuleConfig;
use ferrum::graph::{
    ensure_action_node, provider_nid, render_graph, sanitize, terminator_label, GraphConfig, GraphTerminator,
    GraphTransformer, TransformerInputs,
};
use ferrum::score::Score;
use ferrum::xferrum::{
    cargo_manifest, cargo_name_from_manifest, crate_ident, main_source, parse_plugin_spec, plugins_from_manifests,
    ParsedSpec, PluginDep, PluginSource, SpecError,
};

// ── plugin specs and the generated crate ────────────────────────────────────

#[test]
fn local_specs_are_paths() {
    assert_eq!(parse_plugin_spec("./plugins/geo"), Ok(ParsedSpec::Local));
    assert_eq!(parse_plugin_spec("../x"), Ok(ParsedSpec::Local));
    assert_eq!(parse_plugin_spec("/abs/x@1"), Ok(ParsedSpec::Local));
}

#[test]
fn github_specs_name_the_repository() {
    assert_eq!(
        parse_plugin_spec("github.com/acme/waf-geo@v1.2.3"),
        Ok(ParsedSpec::Remote(PluginDep {
            name: "waf-geo".to_string(),
            source: PluginSource::Git { url: "https://github.com/acme/waf-geo".to_string(), tag: Some("v1.2.3".to_string()) },
        }))
    );
    assert_eq!(
        parse_plugin_spec("github.com/acme/waf-geo"),
        Ok(ParsedSpec::Remote(PluginDep {
            name: "waf-geo".to_string(),
            source: PluginSource::Git { url: "https://github.com/acme/waf-geo".to_string(), tag: None },
        }))
    );
}

#[test]
fn registry_specs_and_unrecognized_specs() {
    assert_eq!(
        parse_plugin_spec("sensor-ip@1.0"),
        Ok(ParsedSpec::Remote(PluginDep {
            name: "sensor-ip".to_string(),
            source: PluginSource::Registry { version: "1.0".to_string() },
        }))
    );
    assert_eq!(parse_plugin_spec("sensor-ip"), Err(SpecError::Unrecognized("sensor-ip".to_string())));
}

#[test]
fn manifests_give_package_names() {
    assert_eq!(cargo_name_from_manifest("[package]\nname = \"sensor-ip\"\n"), Ok("sensor-ip".to_string()));
    assert_eq!(cargo_name_from_manifest("[package\nname ="), Err(SpecError::ManifestSyntax));
    assert_eq!(cargo_name_from_manifest("[package]\nname = 5\n"), Err(SpecError::MissingName));
    assert_eq!(cargo_name_from_manifest("[lib]\n"), Err(SpecError::MissingName));
    let found = vec![
        ("/p/a".to_string(), "[package]\nname = \"a\"\n".to_string()),
        ("/p/b".to_string(), "not toml [".to_string()),
    ];
    assert_eq!(
        plugins_from_manifests(&found),
        vec![PluginDep { name: "a".to_string(), source: PluginSource::Path("/p/a".to_string()) }]
    );
}

#[test]
fn generated_manifest_lists_every_plugin() {
    let plugins = vec![
        PluginDep { name: "sensor-ip".to_string(), source: PluginSource::Path("/w/plugins/ip".to_string()) },
        PluginDep {
            name: "geo".to_string(),
            source: PluginSource::Git { url: "https://github.com/a/geo".to_string(), tag: Some("v1".to_string()) },
        },
        PluginDep { name: "asn".to_string(), source: PluginSource::Git { url: "https://github.com/a/asn".to_string(), tag: None } },
        PluginDep { name: "clamp".to_string(), source: PluginSource::Registry { version: "0.2".to_string() } },
    ];
    let expected = "[package]\nname = \"ferrum-custom\"\nversion = \"0.1.0\"\nedition = \"2024\"\n\n[dependencies]\nferrum = { path = \"/w/ferrum\" }\nclap = { version = \"4\", features = [\"derive\", \"env\"] }\n\"sensor-ip\" = { path = \"/w/plugins/ip\" }\n\"geo\" = { git = \"https://github.com/a/geo\", tag = \"v1\" }\n\"asn\" = { git = \"https://github.com/a/asn\" }\n\"clamp\" = { version = \"0.2\" }\n";
    assert_eq!(cargo_manifest("/w/ferrum", &plugins), expected);
    let main = main_source(&plugins);
    assert!(main.starts_with("use sensor_ip as _;\nuse geo as _;\nuse asn as _;\nuse clamp as _;\n\nuse clap::Parser;\n"));
    assert!(main.ends_with("    ferrum::run(&args.config);\n}\n"));
    assert_eq!(crate_ident("a-b-c"), "a_b_c");
}

// ── the DOT graph ───────────────────────────────────────────────────────────

fn graph_rule(id: &str, input: &str, threshold: u8, if_action: Option<&str>, else_action: Option<&str>) -> RuleConfig {
    RuleConfig {
        id: id.to_string(),
        threshold: Score(threshold),
        input: input.to_string(),
        if_action: if_action.map(|s| s.to_string()),
        else_action: else_action.map(|s| s.to_string()),
        buffer_body: false,
    }
}

#[test]
fn sanitize_keeps_alphanumerics_and_underscores() {
    assert_eq!(sanitize("block-ip.v2_x"), "block_ip_v2_x");
    let sensors = vec![("a-b".to_string(), "sensor-ip".to_string())];
    assert_eq!(provider_nid("a-b", &sensors), "s_a_b");
    assert_eq!(provider_nid("c", &sensors), "t_c");
}

#[test]
fn terminator_labels_sort_their_keys() {
    let t = GraphTerminator {
        plugin: "redirect".to_string(),
        extra: vec![("target_url".to_string(), "/login".to_string()), ("status_code".to_string(), "302".to_string())],
    };
    assert_eq!(terminator_label("go", &t), "go\\n(redirect)\\nstatus_code=302, target_url=/login");
    let bare = GraphTerminator { plugin: "drop".to_string(), extra: vec![] };
    assert_eq!(terminator_label("d", &bare), "d\\n(drop)");
}

#[test]
fn action_nodes_are_emitted_once() {
    let mut emitted = Vec::new();
    let mut out = String::new();
    let nid = ensure_action_node("block", &vec![], &mut emitted, &mut out);
    assert_eq!(nid, "a_block");
    assert_eq!(out, "  a_block [label=\"block\\n(HTTP 403)\", shape=box3d, style=filled, fillcolor=\"#f1948a\"];\n");
    ensure_action_node("block", &vec![], &mut emitted, &mut out);
    assert_eq!(out.lines().count(), 1);
    ensure_action_node("bypass", &vec![], &mut emitted, &mut out);
    assert!(out.ends_with("  a_bypass [label=\"pass\\n(allow)\", shape=box3d, style=filled, fillcolor=\"#a9dfbf\"];\n"));
}

#[test]
fn graph_of_a_small_config() {
    let cfg = GraphConfig {
        entry: None,
        sensors: vec![("ip_bad".to_string(), "sensor-ip".to_string())],
        transformers: vec![],
        hooks: vec![],
        terminators: vec![(
            "block_403".to_string(),
            GraphTerminator { plugin: "block".to_string(), extra: vec![("status".to_string(), "403".to_string())] },
        )],
        rules: vec![graph_rule("r1", "ip_bad", 100, Some("block_403"), None)],
    };
    let expected = [
        "digraph ferrum {\n",
        "  rankdir=LR;\n",
        "  node [fontname=\"Helvetica\", fontsize=11];\n",
        "  edge [fontsize=9, color=\"#555555\"];\n\n",
        "  s_ip_bad [label=\"ip_bad\\n(sensor-ip)\", shape=ellipse, style=filled, fillcolor=\"#aed6f1\"];\n",
        "\n",
        "  request [label=\"request\", shape=circle, style=filled, fillcolor=\"#d5d8dc\"];\n\n",
        "  r_r1 [label=\"[1] r1\\nscore ≥ 100?\", shape=diamond, style=\"filled,bold\", fillcolor=\"#d7bde2\"];\n",
        "\n",
        "  s_ip_bad -> r_r1 [label=\"score\"];\n",
        "  a_block_403 [label=\"block_403\\n(block)\\nstatus=403\", shape=box3d, style=filled, fillcolor=\"#f1948a\"];\n",
        "  r_r1 -> a_block_403 [label=\"yes\", color=\"#922b21\", penwidth=2];\n",
        "  r_r1 -> final_pass [label=\"no\", color=\"#555555\" penwidth=1];\n",
        "\n",
        "  final_pass [label=\"pass\\n(allow)\", shape=box3d, style=filled, fillcolor=\"#a9dfbf\"];\n\n",
        "  request -> r_r1;\n",
        "}\n",
    ]
    .concat();
    assert_eq!(render_graph(&cfg), expected);
}

#[test]
fn graph_sorts_sensors_and_draws_transformer_inputs() {
    let cfg = GraphConfig {
        entry: Some("nowhere".to_string()),
        sensors: vec![("b".to_string(), "sensor-ip".to_string()), ("a".to_string(), "sensor-ip".to_string())],
        transformers: vec![(
            "both".to_string(),
            GraphTransformer {
                plugin: "or".to_string(),
                inputs: TransformerInputs::Listed(vec![Some("a".to_string()), None, Some("b".to_string())]),
            },
        )],
        hooks: vec![],
        terminators: vec![],
        rules: vec![],
    };
    let out = render_graph(&cfg);
    let a = out.find("  s_a [").unwrap();
    let b = out.find("  s_b [").unwrap();
    assert!(a < b);
    assert!(out.contains("  s_a -> t_both [style=dashed, color=\"#d4ac0d\"];\n  s_b -> t_both [style=dashed, color=\"#d4ac0d\"];\n"));
    assert!(out.ends_with("  request -> a_nowhere;\n}\n"));
}

#[test]
fn trimming_uses_unicode_white_space() {
    for u in 0u32..=0x3100 {
        if let Some(c) = char::from_u32(u) {
            let v = vec![c, 'x'];
            let (a, _) = ferrum::text::trim_bounds(&v, 0, 2);
            assert_eq!(a == 1, c.is_whitespace(), "U+{u:04X}");
        }
    }
}
