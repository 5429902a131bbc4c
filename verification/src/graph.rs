//! The provider and rule graph of a configuration, as a Graphviz DOT document.

use vstd::prelude::*;

use crate::config::raw::RuleConfig;
use crate::lexical::{
    distinct_keys, is_permutation, key_order, keys_of, lemma_sorted_order_canonical, sorted_by, sorted_order,
};
use crate::text::{
    char_is_alphanumeric, chars_of, contains_str, decimal, decimal_string, is_alphanumeric, push_char, push_str,
    vec_contains,
};
use crate::value::str_eq;

verus! {

/// A `[hooks.*]` block as the graph shows it.
pub struct GraphHook {
    /// Plugin name.
    pub plugin: String,
    /// The action after the hook.
    pub next: Option<String>,
}

/// A `[terminators.*]` block as the graph shows it.
pub struct GraphTerminator {
    /// Plugin name.
    pub plugin: String,
    /// The block's other keys with their values as text; no key occurs twice.
    pub extra: Vec<(String, String)>,
}

/// The inputs a transformer block declares.
pub enum TransformerInputs {
    /// `inputs = { name = weight, .. }`: each input with its edge label.
    Weighted(Vec<(String, String)>),
    /// `inputs = [..]`: each entry, as a string where it is one.
    Listed(Vec<Option<String>>),
    /// `input = "name"`.
    Single(String),
    /// None of these.
    Absent,
}

/// A `[transformers.*]` block as the graph shows it.
pub struct GraphTransformer {
    /// Plugin name.
    pub plugin: String,
    /// Its inputs.
    pub inputs: TransformerInputs,
}

/// The parts of a configuration that the graph shows.  Names within each
/// table are distinct, as TOML table keys are.
pub struct GraphConfig {
    /// The entry point, if named.
    pub entry: Option<String>,
    /// Sensors: name and plugin.
    pub sensors: Vec<(String, String)>,
    /// Transformers by name.
    pub transformers: Vec<(String, GraphTransformer)>,
    /// Hooks by name.
    pub hooks: Vec<(String, GraphHook)>,
    /// Terminators by name.
    pub terminators: Vec<(String, GraphTerminator)>,
    /// Rules in file order.
    pub rules: Vec<RuleConfig>,
}

// ---------------------------------------------------------------------------
// Node ids
// ---------------------------------------------------------------------------

/// A character as it may stand in a DOT id: alphanumerics and `_` stay, the rest become `_`.
pub open spec fn sanitize_char(c: char) -> char {
    if char_is_alphanumeric(c) || c == '_' { c } else { '_' }
}

/// `s` with every character sanitized.
pub open spec fn sanitized(s: Seq<char>) -> Seq<char> {
    s.map_values(|c: char| sanitize_char(c))
}

/// Replaces every character that is neither alphanumeric nor `_` by `_`.
pub fn sanitize(s: &str) -> (r: String)
    ensures
        r@ == sanitized(s@),
{
    let u = chars_of(s);
    let mut r = String::new();
    let mut i: usize = 0;
    while i < u.len()
        invariant
            i <= u@.len(),
            u@ == s@,
            r@ == sanitized(s@.take(i as int)),
        decreases u.len() - i,
    {
        let c = u[i];
        let d = if is_alphanumeric(c) || c == '_' { c } else { '_' };
        push_char(&mut r, d);
        proof {
            assert(sanitized(s@.take(i + 1)) =~= sanitized(s@.take(i as int)).push(d));
        }
        i = i + 1;
    }
    proof {
        assert(s@.take(i as int) =~= s@);
    }
    r
}

/// The DOT id of a node: a kind prefix and the sanitized name.
pub open spec fn node_id(prefix: Seq<char>, name: Seq<char>) -> Seq<char> {
    prefix + sanitized(name)
}

fn prefixed(prefix: &str, name: &str) -> (r: String)
    ensures
        r@ == node_id(prefix@, name@),
{
    let mut r = String::new();
    push_str(&mut r, prefix);
    let s = sanitize(name);
    push_str(&mut r, s.as_str());
    proof {
        assert(r@ =~= prefix@ + sanitized(name@));
    }
    r
}

/// Node id of a sensor.
pub fn sensor_nid(name: &str) -> (r: String)
    ensures
        r@ == node_id("s_"@, name@),
{
    prefixed("s_", name)
}

/// Node id of a transformer.
pub fn transformer_nid(name: &str) -> (r: String)
    ensures
        r@ == node_id("t_"@, name@),
{
    prefixed("t_", name)
}

/// Node id of a rule.
pub fn rule_nid(id: &str) -> (r: String)
    ensures
        r@ == node_id("r_"@, id@),
{
    prefixed("r_", id)
}

/// Node id of a hook.
pub fn hook_nid(name: &str) -> (r: String)
    ensures
        r@ == node_id("h_"@, name@),
{
    prefixed("h_", name)
}

/// Node id of a terminator action.
pub fn action_nid(key: &str) -> (r: String)
    ensures
        r@ == node_id("a_"@, key@),
{
    prefixed("a_", key)
}

fn has_key<T>(pairs: &Vec<(String, T)>, name: &str) -> (r: bool)
    ensures
        r == keys_of(pairs@).contains(name@),
{
    let mut i: usize = 0;
    while i < pairs.len()
        invariant
            i <= pairs@.len(),
            forall|j: int| 0 <= j < i ==> pairs@[j].0@ != name@,
        decreases pairs.len() - i,
    {
        if str_eq(pairs[i].0.as_str(), name) {
            proof {
                assert(keys_of(pairs@)[i as int] == name@);
            }
            return true;
        }
        i = i + 1;
    }
    proof {
        if keys_of(pairs@).contains(name@) {
            let k = choose|k: int| 0 <= k < keys_of(pairs@).len() && keys_of(pairs@)[k] == name@;
            assert(pairs@[k].0@ == name@);
        }
    }
    false
}

/// The node id of a rule input: a sensor when a sensor has that name, and a
/// transformer otherwise.
pub open spec fn provider_node(sensors: Seq<(String, String)>, name: Seq<char>) -> Seq<char> {
    if keys_of(sensors).contains(name) {
        node_id("s_"@, name)
    } else {
        node_id("t_"@, name)
    }
}

/// Node id of the provider `name`.
pub fn provider_nid(name: &str, sensors: &Vec<(String, String)>) -> (r: String)
    ensures
        r@ == provider_node(sensors@, name@),
{
    if has_key(sensors, name) {
        sensor_nid(name)
    } else {
        transformer_nid(name)
    }
}

/// Whether `name` is a hook.
pub fn is_hook(name: &str, hooks: &Vec<(String, GraphHook)>) -> (r: bool)
    ensures
        r == keys_of(hooks@).contains(name@),
{
    has_key(hooks, name)
}

/// The ids of a list of rules.
pub open spec fn rule_ids(rules: Seq<RuleConfig>) -> Seq<Seq<char>> {
    rules.map_values(|r: RuleConfig| r.id@)
}

/// Returns true if `name` refers to a rule (by id).
pub fn is_rule(name: &str, rules: &Vec<RuleConfig>) -> (r: bool)
    ensures
        r == rule_ids(rules@).contains(name@),
{
    let mut i: usize = 0;
    while i < rules.len()
        invariant
            i <= rules@.len(),
            forall|j: int| 0 <= j < i ==> rules@[j].id@ != name@,
        decreases rules.len() - i,
    {
        if str_eq(rules[i].id.as_str(), name) {
            proof {
                assert(rule_ids(rules@)[i as int] == name@);
            }
            return true;
        }
        i = i + 1;
    }
    proof {
        if rule_ids(rules@).contains(name@) {
            let k = choose|k: int| 0 <= k < rule_ids(rules@).len() && rule_ids(rules@)[k] == name@;
            assert(rules@[k].id@ == name@);
        }
    }
    false
}

// ---------------------------------------------------------------------------
// Terminator labels
// ---------------------------------------------------------------------------

/// Items joined with `", "`.
pub open spec fn join(items: Seq<Seq<char>>) -> Seq<char>
    decreases items.len(),
{
    if items.len() == 0 {
        Seq::empty()
    } else if items.len() == 1 {
        items[0]
    } else {
        join(items.drop_last()) + ", "@ + items.last()
    }
}

/// The `key=value` items of `extra`, in the order `order`.
pub open spec fn extra_items(extra: Seq<(String, String)>, order: Seq<usize>) -> Seq<Seq<char>> {
    Seq::new(order.len(), |i: int| extra[order[i] as int].0@ + "="@ + extra[order[i] as int].1@)
}

/// A terminator's label: its name, its plugin, and its other keys in the order `order`.
pub open spec fn label_text(name: Seq<char>, plugin: Seq<char>, extra: Seq<(String, String)>, order: Seq<usize>) -> Seq<char> {
    if extra.len() == 0 {
        name + "\\n("@ + plugin + ")"@
    } else {
        name + "\\n("@ + plugin + ")\\n"@ + join(extra_items(extra, order))
    }
}

/// `label` is the label of terminator `name`: its keys sorted by name.
pub open spec fn is_terminator_label(name: Seq<char>, t: GraphTerminator, label: Seq<char>) -> bool {
    exists|o: Seq<usize>| is_permutation(o, t.extra@.len()) && sorted_by(keys_of(t.extra@), o)
        && label == #[trigger] label_text(name, t.plugin@, t.extra@, o)
}

/// The label of terminator `name`, its keys read in increasing order.
pub open spec fn terminator_text(name: Seq<char>, t: GraphTerminator) -> Seq<char> {
    label_text(name, t.plugin@, t.extra@, sorted_order(keys_of(t.extra@)))
}

/// Where a terminator's keys are distinct, its label is [`terminator_text`].
pub proof fn lemma_terminator_label_unique(name: Seq<char>, t: GraphTerminator, label: Seq<char>)
    requires
        distinct_keys(keys_of(t.extra@)),
        is_terminator_label(name, t, label),
    ensures
        label == terminator_text(name, t),
{
    let o = choose|o: Seq<usize>| is_permutation(o, t.extra@.len()) && sorted_by(keys_of(t.extra@), o)
        && label == #[trigger] label_text(name, t.plugin@, t.extra@, o);
    lemma_sorted_order_canonical(keys_of(t.extra@), o);
}

/// Formats a terminator label from its plugin and its other keys, sorted by key.
pub fn terminator_label(name: &str, t: &GraphTerminator) -> (r: String)
    ensures
        is_terminator_label(name@, *t, r@),
{
    let order = key_order(&t.extra);
    let mut out = String::new();
    push_str(&mut out, name);
    push_str(&mut out, "\\n(");
    push_str(&mut out, t.plugin.as_str());
    if t.extra.len() == 0 {
        push_str(&mut out, ")");
        proof {
            assert(out@ =~= label_text(name@, t.plugin@, t.extra@, order@));
        }
        return out;
    }
    push_str(&mut out, ")\\n");
    let ghost head = out@;
    let ghost items = extra_items(t.extra@, order@);
    let mut i: usize = 0;
    while i < order.len()
        invariant
            i <= order@.len(),
            is_permutation(order@, t.extra@.len()),
            items == extra_items(t.extra@, order@),
            out@ == head + join(items.take(i as int)),
        decreases order.len() - i,
    {
        if i > 0 {
            push_str(&mut out, ", ");
        }
        let k = order[i];
        push_str(&mut out, t.extra[k].0.as_str());
        push_str(&mut out, "=");
        push_str(&mut out, t.extra[k].1.as_str());
        proof {
            let t2 = items.take(i + 1);
            assert(t2.drop_last() =~= items.take(i as int));
            assert(t2.last() == items[i as int]);
            if i == 0 {
                assert(out@ =~= head + join(t2));
            } else {
                assert(out@ =~= head + join(t2));
            }
        }
        i = i + 1;
    }
    proof {
        assert(items.take(i as int) =~= items);
        assert(out@ =~= label_text(name@, t.plugin@, t.extra@, order@));
    }
    out
}

// ---------------------------------------------------------------------------
// Action nodes and rule edges
// ---------------------------------------------------------------------------

/// The fill colour of an action node: red for names that mention blocking,
/// denying or rejecting, green for the others.
pub open spec fn action_fill(name: Seq<char>) -> Seq<char> {
    if contains_str(name, "block"@) || contains_str(name, "deny"@) || contains_str(name, "reject"@) {
        "#f1948a"@
    } else {
        "#a9dfbf"@
    }
}

/// `label` is the label of action `name`: fixed for `block`, `pass` and
/// `bypass`, the terminator label for a `[terminators.*]` block (the first of
/// that name), and the name itself otherwise.
pub open spec fn is_action_label(name: Seq<char>, terms: Seq<(String, GraphTerminator)>, label: Seq<char>) -> bool {
    if name == "block"@ {
        label == "block\\n(HTTP 403)"@
    } else if name == "pass"@ || name == "bypass"@ {
        label == "pass\\n(allow)"@
    } else if keys_of(terms).contains(name) {
        exists|i: int| #[trigger] is_first_key(keys_of(terms), name, i) && is_terminator_label(name, terms[i].1, label)
    } else {
        label == name
    }
}

/// `i` is the first position of `name` in `keys`.
pub open spec fn is_first_key(keys: Seq<Seq<char>>, name: Seq<char>, i: int) -> bool {
    0 <= i < keys.len() && keys[i] == name && forall|j: int| 0 <= j < i ==> keys[j] != name
}

/// The DOT line of an action node.
pub open spec fn action_line(name: Seq<char>, label: Seq<char>) -> Seq<char> {
    "  "@ + node_id("a_"@, name) + " [label=\""@ + label + "\", shape=box3d, style=filled, fillcolor=\""@
        + action_fill(name) + "\"];\n"@
}

/// The first position of `name` in `keys`.
pub open spec fn first_key(keys: Seq<Seq<char>>, name: Seq<char>) -> int {
    choose|i: int| is_first_key(keys, name, i)
}

/// Every terminator's keys are distinct, as the keys of a TOML table are.
pub open spec fn terminators_well_formed(terms: Seq<(String, GraphTerminator)>) -> bool {
    forall|i: int| 0 <= i < terms.len() ==> distinct_keys(keys_of(#[trigger] terms[i].1.extra@))
}

/// The label of action `name`: fixed for `block`, `pass` and `bypass`, the
/// label of the first `[terminators.*]` block of that name, and the name
/// itself otherwise.
pub open spec fn action_label_text(name: Seq<char>, terms: Seq<(String, GraphTerminator)>) -> Seq<char> {
    if name == "block"@ {
        "block\\n(HTTP 403)"@
    } else if name == "pass"@ || name == "bypass"@ {
        "pass\\n(allow)"@
    } else if keys_of(terms).contains(name) {
        terminator_text(name, terms[first_key(keys_of(terms), name)].1)
    } else {
        name
    }
}

/// With well-formed terminators, an action's label is [`action_label_text`].
pub proof fn lemma_action_label_unique(name: Seq<char>, terms: Seq<(String, GraphTerminator)>, label: Seq<char>)
    requires
        terminators_well_formed(terms),
        is_action_label(name, terms, label),
    ensures
        label == action_label_text(name, terms),
{
    if name != "block"@ && name != "pass"@ && name != "bypass"@ && keys_of(terms).contains(name) {
        let keys = keys_of(terms);
        let i = choose|i: int| #[trigger] is_first_key(keys, name, i) && is_terminator_label(name, terms[i].1, label);
        let j = first_key(keys, name);
        assert(is_first_key(keys, name, j));
        if i < j {
            assert(keys[i] == name);
        } else if j < i {
            assert(keys[j] == name);
        }
        assert(i == j);
        assert(distinct_keys(keys_of(terms[i].1.extra@)));
        lemma_terminator_label_unique(name, terms[i].1, label);
    }
}

/// Emitting the node of action `name`: its line, unless one was emitted
/// already, and the names emitted after it.
pub open spec fn action_step(name: Seq<char>, terms: Seq<(String, GraphTerminator)>, emitted: Seq<Seq<char>>) -> (
    Seq<char>,
    Seq<Seq<char>>,
) {
    if emitted.contains(name) {
        (Seq::empty(), emitted)
    } else {
        (action_line(name, action_label_text(name, terms)), emitted.push(name))
    }
}

fn first_with_key<T>(pairs: &Vec<(String, T)>, name: &str) -> (r: Option<usize>)
    ensures
        match r {
            Some(i) => is_first_key(keys_of(pairs@), name@, i as int),
            None => !keys_of(pairs@).contains(name@),
        },
{
    let mut i: usize = 0;
    while i < pairs.len()
        invariant
            i <= pairs@.len(),
            forall|j: int| 0 <= j < i ==> pairs@[j].0@ != name@,
        decreases pairs.len() - i,
    {
        if str_eq(pairs[i].0.as_str(), name) {
            proof {
                let ks = keys_of(pairs@);
                assert forall|j: int| 0 <= j < i implies ks[j] != name@ by {
                    assert(ks[j] == pairs@[j].0@);
                }
            }
            return Some(i);
        }
        i = i + 1;
    }
    proof {
        if keys_of(pairs@).contains(name@) {
            let k = choose|k: int| 0 <= k < keys_of(pairs@).len() && keys_of(pairs@)[k] == name@;
            assert(pairs@[k].0@ == name@);
        }
    }
    None
}

fn action_label(name: &str, terminators: &Vec<(String, GraphTerminator)>) -> (r: String)
    ensures
        is_action_label(name@, terminators@, r@),
{
    if str_eq(name, "block") {
        "block\\n(HTTP 403)".to_owned()
    } else if str_eq(name, "pass") || str_eq(name, "bypass") {
        "pass\\n(allow)".to_owned()
    } else {
        match first_with_key(terminators, name) {
            Some(i) => {
                let l = terminator_label(name, &terminators[i].1);
                proof {
                    assert(is_first_key(keys_of(terminators@), name@, i as int));
                    assert(keys_of(terminators@)[i as int] == name@);
                }
                l
            },
            None => name.to_owned(),
        }
    }
}

fn has_name(names: &Vec<String>, name: &str) -> (r: bool)
    ensures
        r == names@.map_values(|s: String| s@).contains(name@),
{
    let mut i: usize = 0;
    while i < names.len()
        invariant
            i <= names@.len(),
            forall|j: int| 0 <= j < i ==> names@[j]@ != name@,
        decreases names.len() - i,
    {
        if str_eq(names[i].as_str(), name) {
            proof {
                assert(names@.map_values(|s: String| s@)[i as int] == name@);
            }
            return true;
        }
        i = i + 1;
    }
    proof {
        let v = names@.map_values(|s: String| s@);
        if v.contains(name@) {
            let k = choose|k: int| 0 <= k < v.len() && v[k] == name@;
            assert(names@[k]@ == name@);
        }
    }
    false
}

/// The names of the action nodes emitted so far.
pub open spec fn emitted_names(emitted: Seq<String>) -> Seq<Seq<char>> {
    emitted.map_values(|s: String| s@)
}

/// Ensures a styled terminator action node exists, emitting it if not yet
/// seen.  Returns the node id.
pub fn ensure_action_node(
    name: &str,
    terminators: &Vec<(String, GraphTerminator)>,
    emitted: &mut Vec<String>,
    out: &mut String,
) -> (r: String)
    ensures
        r@ == node_id("a_"@, name@),
        emitted_names(old(emitted)@).contains(name@) ==> final(out)@ == old(out)@ && final(emitted)@ == old(emitted)@,
        !emitted_names(old(emitted)@).contains(name@) ==> {
            &&& emitted_names(final(emitted)@) == emitted_names(old(emitted)@).push(name@)
            &&& exists|label: Seq<char>| is_action_label(name@, terminators@, label)
                && final(out)@ == old(out)@ + #[trigger] action_line(name@, label)
        },
        terminators_well_formed(terminators@) ==> {
            let step = action_step(name@, terminators@, emitted_names(old(emitted)@));
            &&& final(out)@ == old(out)@ + step.0
            &&& emitted_names(final(emitted)@) == step.1
        },
{
    let nid = action_nid(name);
    if !has_name(emitted, name) {
        let label = action_label(name, terminators);
        let ghost before = emitted@;
        emitted.push(name.to_owned());
        proof {
            assert(emitted_names(emitted@) =~= emitted_names(before).push(name@));
        }
        let n = chars_of(name);
        let red = vec_contains(&n, &chars_of("block")) || vec_contains(&n, &chars_of("deny"))
            || vec_contains(&n, &chars_of("reject"));
        let fill = if red { "#f1948a" } else { "#a9dfbf" };
        let ghost start = out@;
        push_str(out, "  ");
        push_str(out, nid.as_str());
        push_str(out, " [label=\"");
        push_str(out, label.as_str());
        push_str(out, "\", shape=box3d, style=filled, fillcolor=\"");
        push_str(out, fill);
        push_str(out, "\"];\n");
        proof {
            assert(fill@ == action_fill(name@));
            assert(out@ =~= start + action_line(name@, label@));
            if terminators_well_formed(terminators@) {
                lemma_action_label_unique(name@, terminators@, label@);
            }
        }
    }
    nid
}

/// The node an action name leads to: a rule, a hook, or a terminator action.
pub open spec fn target_node(rules: Seq<RuleConfig>, hooks: Seq<(String, GraphHook)>, name: Seq<char>) -> Seq<char> {
    if rule_ids(rules).contains(name) {
        node_id("r_"@, name)
    } else if keys_of(hooks).contains(name) {
        node_id("h_"@, name)
    } else {
        node_id("a_"@, name)
    }
}

/// A branch edge from a rule diamond to `target`.
pub open spec fn edge_line(from: Seq<char>, target: Seq<char>, label: Seq<char>, color: Seq<char>, penwidth: Seq<char>) -> Seq<char> {
    "  "@ + from + " -> "@ + target + " [label=\""@ + label + "\", color=\""@ + color + "\", penwidth="@ + penwidth
        + "];\n"@
}

/// A branch edge from a rule diamond to the final pass node.
pub open spec fn pass_edge_line(from: Seq<char>, label: Seq<char>, color: Seq<char>, penwidth: Seq<char>) -> Seq<char> {
    "  "@ + from + " -> final_pass [label=\""@ + label + "\", color=\""@ + color + "\" penwidth="@ + penwidth + "];\n"@
}

/// Going to action `name`: nothing to emit for a rule or a hook, else the
/// action's node (see [`action_step`]).
pub open spec fn goto_step(
    rules: Seq<RuleConfig>,
    hooks: Seq<(String, GraphHook)>,
    terms: Seq<(String, GraphTerminator)>,
    name: Seq<char>,
    emitted: Seq<Seq<char>>,
) -> (Seq<char>, Seq<Seq<char>>) {
    if rule_ids(rules).contains(name) || keys_of(hooks).contains(name) {
        (Seq::empty(), emitted)
    } else {
        action_step(name, terms, emitted)
    }
}

/// A rule branch: the text it emits, the action names emitted after it, and
/// whether it leads to the final pass node.
pub open spec fn branch_step(
    from: Seq<char>,
    action: Option<String>,
    label: Seq<char>,
    color: Seq<char>,
    penwidth: Seq<char>,
    rules: Seq<RuleConfig>,
    hooks: Seq<(String, GraphHook)>,
    terms: Seq<(String, GraphTerminator)>,
    emitted: Seq<Seq<char>>,
) -> (Seq<char>, Seq<Seq<char>>, bool) {
    match action {
        None => (pass_edge_line(from, label, color, penwidth), emitted, true),
        Some(name) => {
            let g = goto_step(rules, hooks, terms, name@, emitted);
            (g.0 + edge_line(from, target_node(rules, hooks, name@), label, color, penwidth), g.1, false)
        },
    }
}

/// Emits a single if/else edge from a rule diamond, creating action nodes as needed.
#[verifier::rlimit(30)]
pub fn emit_action_edge(
    from_nid: &str,
    action: &Option<String>,
    label: &str,
    color: &str,
    penwidth: &str,
    rules: &Vec<RuleConfig>,
    hooks: &Vec<(String, GraphHook)>,
    terminators: &Vec<(String, GraphTerminator)>,
    emitted: &mut Vec<String>,
    need_final_pass: &mut bool,
    out: &mut String,
)
    ensures
        action is None ==> *final(need_final_pass) && final(emitted)@ == old(emitted)@
            && final(out)@ == old(out)@ + pass_edge_line(from_nid@, label@, color@, penwidth@),
        action matches Some(name) ==> {
            let target = target_node(rules@, hooks@, name@);
            let edge = edge_line(from_nid@, target, label@, color@, penwidth@);
            &&& *final(need_final_pass) == *old(need_final_pass)
            &&& (rule_ids(rules@).contains(name@) || keys_of(hooks@).contains(name@)
                || emitted_names(old(emitted)@).contains(name@)) ==> final(emitted)@ == old(emitted)@
                && final(out)@ == old(out)@ + edge
            &&& !(rule_ids(rules@).contains(name@) || keys_of(hooks@).contains(name@)
                || emitted_names(old(emitted)@).contains(name@)) ==> {
                &&& emitted_names(final(emitted)@) == emitted_names(old(emitted)@).push(name@)
                &&& exists|l: Seq<char>| is_action_label(name@, terminators@, l)
                    && final(out)@ == old(out)@ + #[trigger] action_line(name@, l) + edge
            }
        },
        terminators_well_formed(terminators@) ==> {
            let st = branch_step(from_nid@, *action, label@, color@, penwidth@, rules@, hooks@, terminators@,
                emitted_names(old(emitted)@));
            &&& final(out)@ == old(out)@ + st.0
            &&& emitted_names(final(emitted)@) == st.1
            &&& *final(need_final_pass) == (*old(need_final_pass) || st.2)
        },
{
    let target = match action {
        None => {
            *need_final_pass = true;
            let ghost start = out@;
            push_str(out, "  ");
            push_str(out, from_nid);
            push_str(out, " -> final_pass [label=\"");
            push_str(out, label);
            push_str(out, "\", color=\"");
            push_str(out, color);
            push_str(out, "\" penwidth=");
            push_str(out, penwidth);
            push_str(out, "];\n");
            proof {
                assert(out@ =~= start + pass_edge_line(from_nid@, label@, color@, penwidth@));
            }
            return;
        },
        Some(name) => {
            if is_rule(name.as_str(), rules) {
                rule_nid(name.as_str())
            } else if is_hook(name.as_str(), hooks) {
                hook_nid(name.as_str())
            } else {
                ensure_action_node(name.as_str(), terminators, emitted, out)
            }
        },
    };
    let ghost mid = out@;
    push_str(out, "  ");
    push_str(out, from_nid);
    push_str(out, " -> ");
    push_str(out, target.as_str());
    push_str(out, " [label=\"");
    push_str(out, label);
    push_str(out, "\", color=\"");
    push_str(out, color);
    push_str(out, "\", penwidth=");
    push_str(out, penwidth);
    push_str(out, "];\n");
    proof {
        let name = action->0;
        assert(target@ == target_node(rules@, hooks@, name@));
        let edge = edge_line(from_nid@, target@, label@, color@, penwidth@);
        assert(out@ =~= mid + edge);
        if !(rule_ids(rules@).contains(name@) || keys_of(hooks@).contains(name@)
            || emitted_names(old(emitted)@).contains(name@)) {
            let l = choose|l: Seq<char>| is_action_label(name@, terminators@, l) && mid == old(out)@ + #[trigger] action_line(name@, l);
            assert(out@ =~= old(out)@ + action_line(name@, l) + edge);
        }
        if terminators_well_formed(terminators@) {
            let g = goto_step(rules@, hooks@, terminators@, name@, emitted_names(old(emitted)@));
            assert(mid == old(out)@ + g.0);
            assert(out@ =~= old(out)@ + (g.0 + edge));
        }
    }
}


// ---------------------------------------------------------------------------
// The document
// ---------------------------------------------------------------------------

/// The node the request enters: the named entry (a rule, a hook, or a
/// terminator action), else the first rule, else the final pass node.
pub open spec fn entry_node(cfg: GraphConfig) -> Seq<char> {
    match cfg.entry {
        Some(name) => target_node(cfg.rules@, cfg.hooks@, name@),
        None => if cfg.rules@.len() > 0 {
            node_id("r_"@, cfg.rules@[0].id@)
        } else {
            "final_pass"@
        },
    }
}

/// The opening lines of the document.
pub open spec fn graph_header() -> Seq<char> {
    "digraph ferrum {\n  rankdir=LR;\n  node [fontname=\"Helvetica\", fontsize=11];\n  edge [fontsize=9, color=\"#555555\"];\n\n"@
}

/// The closing lines of the document: the edge into the entry node.
pub open spec fn graph_footer(cfg: GraphConfig) -> Seq<char> {
    "  request -> "@ + entry_node(cfg) + ";\n}\n"@
}

fn entry_nid(cfg: &GraphConfig) -> (r: String)
    ensures
        r@ == entry_node(*cfg),
{
    match &cfg.entry {
        Some(name) => {
            if is_rule(name.as_str(), &cfg.rules) {
                rule_nid(name.as_str())
            } else if is_hook(name.as_str(), &cfg.hooks) {
                hook_nid(name.as_str())
            } else {
                action_nid(name.as_str())
            }
        },
        None => {
            if cfg.rules.len() > 0 {
                rule_nid(cfg.rules[0].id.as_str())
            } else {
                "final_pass".to_owned()
            }
        },
    }
}

/// Lines `line(0)`, .., `line(n - 1)`, one after the other.
#[verifier::opaque]
pub open spec fn lines(n: nat, line: spec_fn(int) -> Seq<char>) -> Seq<char>
    decreases n,
{
    if n == 0 {
        Seq::empty()
    } else {
        lines((n - 1) as nat, line) + line(n - 1)
    }
}

proof fn lemma_lines_base(s: Seq<char>, line: spec_fn(int) -> Seq<char>)
    ensures
        s + lines(0, line) == s,
{
    reveal_with_fuel(lines, 1);
    assert(s + lines(0, line) =~= s);
}

/// The line of a named node with its plugin.
pub open spec fn node_line(nid: Seq<char>, name: Seq<char>, plugin: Seq<char>, style: Seq<char>) -> Seq<char> {
    "  "@ + nid + " [label=\""@ + name + "\\n("@ + plugin + ")\", "@ + style + "];\n"@
}

/// The style of sensor nodes.
pub open spec fn sensor_style() -> Seq<char> {
    "shape=ellipse, style=filled, fillcolor=\"#aed6f1\""@
}

/// The style of transformer nodes.
pub open spec fn transformer_style() -> Seq<char> {
    "shape=box, style=filled, fillcolor=\"#fdebd0\""@
}

/// The style of hook nodes.
pub open spec fn hook_style() -> Seq<char> {
    "shape=hexagon, style=filled, fillcolor=\"#d7bde2\""@
}

/// The sensor node lines, `order` giving which sensor comes `i`th.
pub open spec fn sensor_node_lines(sensors: Seq<(String, String)>, order: Seq<usize>) -> spec_fn(int) -> Seq<char> {
    |i: int| {
        let e = sensors[order[i] as int];
        node_line(node_id("s_"@, e.0@), e.0@, e.1@, sensor_style())
    }
}

/// The transformer node lines, `order` giving which transformer comes `i`th.
pub open spec fn transformer_node_lines(ts: Seq<(String, GraphTransformer)>, order: Seq<usize>) -> spec_fn(int) -> Seq<char> {
    |i: int| {
        let e = ts[order[i] as int];
        node_line(node_id("t_"@, e.0@), e.0@, e.1.plugin@, transformer_style())
    }
}

/// The hook node lines, `order` giving which hook comes `i`th.
pub open spec fn hook_node_lines(hs: Seq<(String, GraphHook)>, order: Seq<usize>) -> spec_fn(int) -> Seq<char> {
    |i: int| {
        let e = hs[order[i] as int];
        node_line(node_id("h_"@, e.0@), e.0@, e.1.plugin@, hook_style())
    }
}

/// A dashed edge into a transformer, with an optional label.
pub open spec fn input_edge_line(src: Seq<char>, dst: Seq<char>, label: Option<Seq<char>>) -> Seq<char> {
    "  "@ + src + " -> "@ + dst + match label {
        Some(l) => " [label=\""@ + l + "\", style=dashed, color=\"#d4ac0d\"];\n"@,
        None => " [style=dashed, color=\"#d4ac0d\"];\n"@,
    }
}

/// The edges of weighted inputs, by input name.
pub open spec fn weighted_edge_lines(sensors: Seq<(String, String)>, dst: Seq<char>, pairs: Seq<(String, String)>, order: Seq<usize>) -> spec_fn(int) -> Seq<char> {
    |j: int| {
        let p = pairs[order[j] as int];
        input_edge_line(provider_node(sensors, p.0@), dst, Some(p.1@))
    }
}

/// The edges of listed inputs; entries that are not strings have none.
pub open spec fn listed_edge_lines(sensors: Seq<(String, String)>, dst: Seq<char>, values: Seq<Option<String>>) -> spec_fn(int) -> Seq<char> {
    |j: int| match values[j] {
        Some(v) => input_edge_line(provider_node(sensors, v@), dst, None),
        None => Seq::empty(),
    }
}

/// The input edges of transformer `name`.
pub open spec fn transformer_edges_text(sensors: Seq<(String, String)>, name: Seq<char>, inputs: TransformerInputs) -> Seq<char> {
    let dst = node_id("t_"@, name);
    match inputs {
        TransformerInputs::Weighted(pairs) => lines(
            pairs@.len(),
            weighted_edge_lines(sensors, dst, pairs@, sorted_order(keys_of(pairs@))),
        ),
        TransformerInputs::Listed(values) => lines(values@.len(), listed_edge_lines(sensors, dst, values@)),
        TransformerInputs::Single(input) => input_edge_line(provider_node(sensors, input@), dst, None),
        TransformerInputs::Absent => Seq::empty(),
    }
}

/// The input edges of every transformer, in the order of the list.
pub open spec fn transformer_edge_lines(sensors: Seq<(String, String)>, ts: Seq<(String, GraphTransformer)>) -> spec_fn(int) -> Seq<char> {
    |i: int| transformer_edges_text(sensors, ts[i].0@, ts[i].1.inputs)
}

/// Weighted inputs name each input once, as the keys of a TOML table do.
pub open spec fn inputs_well_formed(inputs: TransformerInputs) -> bool {
    inputs matches TransformerInputs::Weighted(pairs) ==> distinct_keys(keys_of(pairs@))
}

/// The transformer section: nodes by name, then the input edges.
pub open spec fn transformer_section(cfg: GraphConfig, order: Seq<usize>) -> Seq<char> {
    let ts = cfg.transformers@;
    if ts.len() == 0 {
        Seq::empty()
    } else {
        lines(ts.len(), transformer_node_lines(ts, order)) + "\n"@ + lines(
            ts.len(),
            transformer_edge_lines(cfg.sensors@, ts),
        ) + "\n"@
    }
}

/// The dashed edge from a hook to its `next`.
pub open spec fn next_edge_line(from: Seq<char>, target: Seq<char>) -> Seq<char> {
    "  "@ + from + " -> "@ + target + " [label=\"next\", style=dashed, color=\"#8e44ad\"];\n"@
}

/// The `next` edges of the first `n` hooks in the order `order` (with the
/// action nodes they need), and the action names emitted after them.
#[verifier::opaque]
pub open spec fn hook_next_steps(cfg: GraphConfig, order: Seq<usize>, n: nat) -> (Seq<char>, Seq<Seq<char>>)
    decreases n,
{
    if n == 0 {
        (Seq::empty(), Seq::empty())
    } else {
        let prev = hook_next_steps(cfg, order, (n - 1) as nat);
        let h = cfg.hooks@[order[n - 1] as int];
        match h.1.next {
            None => prev,
            Some(next) => {
                let g = goto_step(cfg.rules@, cfg.hooks@, cfg.terminators@, next@, prev.1);
                (
                    prev.0 + g.0 + next_edge_line(node_id("h_"@, h.0@), target_node(cfg.rules@, cfg.hooks@, next@)),
                    g.1,
                )
            },
        }
    }
}

/// `t` occurs in `s` as a contiguous piece.
pub open spec fn occurs_in(t: Seq<char>, s: Seq<char>) -> bool {
    exists|i: int| 0 <= i && i + t.len() <= s.len() && #[trigger] s.subrange(i, i + t.len()) == t
}

/// The dashed `next` edge that starts at the node of hook `hook` and ends at
/// the node `target`.
pub open spec fn hook_next_edge(hook: Seq<char>, target: Seq<char>) -> Seq<char> {
    "  h_"@ + sanitized(hook) + " -> "@ + target + " [label=\"next\", style=dashed, color=\"#8e44ad\"];\n"@
}

/// What occurs in a text occurs in it with anything written before or after.
pub proof fn lemma_occurs_in_concat(t: Seq<char>, a: Seq<char>, b: Seq<char>)
    ensures
        occurs_in(t, a) ==> occurs_in(t, a + b),
        occurs_in(t, b) ==> occurs_in(t, a + b),
        occurs_in(t, t),
{
    if occurs_in(t, a) {
        let i = choose|i: int| 0 <= i && i + t.len() <= a.len() && #[trigger] a.subrange(i, i + t.len()) == t;
        assert((a + b).subrange(i, i + t.len()) =~= a.subrange(i, i + t.len()));
    }
    if occurs_in(t, b) {
        let i = choose|i: int| 0 <= i && i + t.len() <= b.len() && #[trigger] b.subrange(i, i + t.len()) == t;
        assert((a + b).subrange(a.len() + i, a.len() + i + t.len()) =~= b.subrange(i, i + t.len()));
    }
    let z: int = 0;
    assert(t.subrange(z, z + t.len()) =~= t);
}

/// Every hook among the first `n` in the order `order` that has a `next`
/// action gets an edge from its own node to the node of that action.
pub proof fn lemma_hook_next_steps_edges(cfg: GraphConfig, order: Seq<usize>, n: nat)
    requires
        is_permutation(order, cfg.hooks@.len()),
        n <= cfg.hooks@.len(),
    ensures
        forall|j: int| 0 <= j < n && (#[trigger] cfg.hooks@[order[j] as int]).1.next is Some ==> occurs_in(
            hook_next_edge(
                cfg.hooks@[order[j] as int].0@,
                target_node(cfg.rules@, cfg.hooks@, cfg.hooks@[order[j] as int].1.next->0@),
            ),
            hook_next_steps(cfg, order, n).0,
        ),
    decreases n,
{
    reveal_with_fuel(hook_next_steps, 1);
    if n > 0 {
        let m = (n - 1) as nat;
        lemma_hook_next_steps_edges(cfg, order, m);
        let prev = hook_next_steps(cfg, order, m);
        let h = cfg.hooks@[order[m as int] as int];
        match h.1.next {
            None => {},
            Some(next) => {
                let g = goto_step(cfg.rules@, cfg.hooks@, cfg.terminators@, next@, prev.1);
                let line = next_edge_line(node_id("h_"@, h.0@), target_node(cfg.rules@, cfg.hooks@, next@));
                reveal_strlit("  ");
                reveal_strlit("h_");
                reveal_strlit("  h_");
                assert(line =~= hook_next_edge(h.0@, target_node(cfg.rules@, cfg.hooks@, next@)));
                assert forall|j: int| 0 <= j < n && (#[trigger] cfg.hooks@[order[j] as int]).1.next is Some implies occurs_in(
                    hook_next_edge(
                        cfg.hooks@[order[j] as int].0@,
                        target_node(cfg.rules@, cfg.hooks@, cfg.hooks@[order[j] as int].1.next->0@),
                    ),
                    hook_next_steps(cfg, order, n).0,
                ) by {
                    let t = hook_next_edge(
                        cfg.hooks@[order[j] as int].0@,
                        target_node(cfg.rules@, cfg.hooks@, cfg.hooks@[order[j] as int].1.next->0@),
                    );
                    lemma_occurs_in_concat(t, prev.0, g.0);
                    lemma_occurs_in_concat(t, prev.0 + g.0, line);
                }
            },
        }
    }
}

/// Every hook with a `next` action gets, among the hook section's edges, an
/// edge that starts at the hook's own node and ends at the node of that action.
pub proof fn lemma_hook_next_edges(cfg: GraphConfig, order: Seq<usize>)
    requires
        is_permutation(order, cfg.hooks@.len()),
    ensures
        forall|k: int| 0 <= k < cfg.hooks@.len() && (#[trigger] cfg.hooks@[k]).1.next is Some ==> occurs_in(
            hook_next_edge(cfg.hooks@[k].0@, target_node(cfg.rules@, cfg.hooks@, cfg.hooks@[k].1.next->0@)),
            hook_next_steps(cfg, order, cfg.hooks@.len()).0,
        ),
{
    lemma_hook_next_steps_edges(cfg, order, cfg.hooks@.len());
    assert forall|k: int| 0 <= k < cfg.hooks@.len() && (#[trigger] cfg.hooks@[k]).1.next is Some implies occurs_in(
        hook_next_edge(cfg.hooks@[k].0@, target_node(cfg.rules@, cfg.hooks@, cfg.hooks@[k].1.next->0@)),
        hook_next_steps(cfg, order, cfg.hooks@.len()).0,
    ) by {
        crate::lexical::lemma_permutation_onto(order, cfg.hooks@.len(), k);
        let q = choose|q: int| 0 <= q < cfg.hooks@.len() && order[q] == k;
        assert(cfg.hooks@[order[q] as int] == cfg.hooks@[k]);
    }
}

/// The hook section, and the action names it emits.
pub open spec fn hook_section(cfg: GraphConfig, order: Seq<usize>) -> (Seq<char>, Seq<Seq<char>>) {
    let hs = cfg.hooks@;
    if hs.len() == 0 {
        (Seq::empty(), Seq::empty())
    } else {
        let next = hook_next_steps(cfg, order, hs.len());
        (lines(hs.len(), hook_node_lines(hs, order)) + "\n"@ + next.0 + "\n"@, next.1)
    }
}

/// The node of the request.
pub open spec fn request_line() -> Seq<char> {
    "  request [label=\"request\", shape=circle, style=filled, fillcolor=\"#d5d8dc\"];\n\n"@
}

/// The diamond of the rule at position `i`.
pub open spec fn rule_line(i: int, rule: RuleConfig) -> Seq<char> {
    "  "@ + node_id("r_"@, rule.id@) + " [label=\"["@ + decimal((i + 1) as nat) + "] "@ + rule.id@ + "\\nscore ≥ "@
        + decimal(rule.threshold.0 as nat) + "?"@ + (if rule.buffer_body {
        "\\nbuffers body"@
    } else {
        Seq::empty()
    }) + "\", shape=diamond, style=\"filled,bold\", fillcolor=\"#d7bde2\"];\n"@
}

/// The rule diamonds, in file order.
pub open spec fn rule_lines(rules: Seq<RuleConfig>) -> spec_fn(int) -> Seq<char> {
    |i: int| rule_line(i, rules[i])
}

/// The score edge into rule `rn` from its input.
pub open spec fn score_edge_line(sensors: Seq<(String, String)>, input: Seq<char>, rn: Seq<char>) -> Seq<char> {
    "  "@ + provider_node(sensors, input) + " -> "@ + rn + " [label=\"score\"];\n"@
}

/// The edges of one rule (with the action nodes they need), the action names
/// emitted after them, and whether a branch leads to the final pass node.
pub open spec fn rule_edge_step(cfg: GraphConfig, rule: RuleConfig, emitted: Seq<Seq<char>>) -> (Seq<char>, Seq<Seq<char>>, bool) {
    let rn = node_id("r_"@, rule.id@);
    let yes = branch_step(rn, rule.if_action, "yes"@, "#922b21"@, "2"@, cfg.rules@, cfg.hooks@, cfg.terminators@, emitted);
    let no = branch_step(rn, rule.else_action, "no"@, "#555555"@, "1"@, cfg.rules@, cfg.hooks@, cfg.terminators@, yes.1);
    (score_edge_line(cfg.sensors@, rule.input@, rn) + yes.0 + no.0 + "\n"@, no.1, yes.2 || no.2)
}

/// The edges of the first `n` rules, the action names emitted after them, and
/// whether a branch leads to the final pass node.
#[verifier::opaque]
pub open spec fn rule_edge_steps(cfg: GraphConfig, n: nat, emitted: Seq<Seq<char>>) -> (Seq<char>, Seq<Seq<char>>, bool)
    decreases n,
{
    if n == 0 {
        (Seq::empty(), emitted, false)
    } else {
        let prev = rule_edge_steps(cfg, (n - 1) as nat, emitted);
        let step = rule_edge_step(cfg, cfg.rules@[n - 1], prev.1);
        (prev.0 + step.0, step.1, prev.2 || step.2)
    }
}

/// The final pass node.
pub open spec fn final_pass_line() -> Seq<char> {
    "  final_pass [label=\"pass\\n(allow)\", shape=box3d, style=filled, fillcolor=\"#a9dfbf\"];\n\n"@
}

/// The names in each table are distinct, as are each terminator's keys and the
/// names of weighted inputs (as in a TOML document).
pub open spec fn graph_well_formed(cfg: GraphConfig) -> bool {
    &&& distinct_keys(keys_of(cfg.sensors@))
    &&& distinct_keys(keys_of(cfg.transformers@))
    &&& distinct_keys(keys_of(cfg.hooks@))
    &&& terminators_well_formed(cfg.terminators@)
    &&& forall|i: int| 0 <= i < cfg.transformers@.len() ==> inputs_well_formed(#[trigger] cfg.transformers@[i].1.inputs)
}

/// What stands between the header and the entry edge: sensors, transformers
/// and hooks by name, the request node, the rule diamonds, their edges, and the
/// final pass node when a branch leads there.
pub open spec fn graph_body(cfg: GraphConfig) -> Seq<char> {
    let hooks = hook_section(cfg, sorted_order(keys_of(cfg.hooks@)));
    let edges = rule_edge_steps(cfg, cfg.rules@.len(), hooks.1);
    lines(cfg.sensors@.len(), sensor_node_lines(cfg.sensors@, sorted_order(keys_of(cfg.sensors@)))) + "\n"@
        + transformer_section(cfg, sorted_order(keys_of(cfg.transformers@))) + hooks.0 + request_line() + lines(
        cfg.rules@.len(),
        rule_lines(cfg.rules@),
    ) + "\n"@ + edges.0 + (if edges.2 {
        final_pass_line()
    } else {
        Seq::empty()
    })
}

/// The DOT document of `cfg`.
pub open spec fn graph_text(cfg: GraphConfig) -> Seq<char> {
    graph_header() + graph_body(cfg) + graph_footer(cfg)
}

/// Every hook with a `next` action gets, in the document, an edge that
/// starts at the hook's own node and ends at the node of that action.
pub proof fn lemma_graph_text_next_edges(cfg: GraphConfig)
    requires
        is_permutation(sorted_order(keys_of(cfg.hooks@)), cfg.hooks@.len()),
    ensures
        forall|k: int| 0 <= k < cfg.hooks@.len() && (#[trigger] cfg.hooks@[k]).1.next is Some ==> occurs_in(
            hook_next_edge(cfg.hooks@[k].0@, target_node(cfg.rules@, cfg.hooks@, cfg.hooks@[k].1.next->0@)),
            graph_text(cfg),
        ),
{
    let o = sorted_order(keys_of(cfg.hooks@));
    lemma_hook_next_edges(cfg, o);
    let hooks = hook_section(cfg, o);
    let edges = rule_edge_steps(cfg, cfg.rules@.len(), hooks.1);
    let p1 = lines(cfg.sensors@.len(), sensor_node_lines(cfg.sensors@, sorted_order(keys_of(cfg.sensors@)))) + "\n"@
        + transformer_section(cfg, sorted_order(keys_of(cfg.transformers@)));
    let q1 = request_line();
    let q2 = lines(cfg.rules@.len(), rule_lines(cfg.rules@));
    let q3 = "\n"@;
    let q4 = edges.0;
    let q5 = if edges.2 { final_pass_line() } else { Seq::empty() };
    assert(graph_body(cfg) == p1 + hooks.0 + q1 + q2 + q3 + q4 + q5);
    assert forall|k: int| 0 <= k < cfg.hooks@.len() && (#[trigger] cfg.hooks@[k]).1.next is Some implies occurs_in(
        hook_next_edge(cfg.hooks@[k].0@, target_node(cfg.rules@, cfg.hooks@, cfg.hooks@[k].1.next->0@)),
        graph_text(cfg),
    ) by {
        let t = hook_next_edge(cfg.hooks@[k].0@, target_node(cfg.rules@, cfg.hooks@, cfg.hooks@[k].1.next->0@));
        let next = hook_next_steps(cfg, o, cfg.hooks@.len());
        let l = lines(cfg.hooks@.len(), hook_node_lines(cfg.hooks@, o)) + "\n"@;
        lemma_occurs_in_concat(t, l, next.0);
        lemma_occurs_in_concat(t, l + next.0, "\n"@);
        assert(hooks.0 == l + next.0 + "\n"@);
        lemma_occurs_in_concat(t, p1, hooks.0);
        lemma_occurs_in_concat(t, p1 + hooks.0, q1);
        lemma_occurs_in_concat(t, p1 + hooks.0 + q1, q2);
        lemma_occurs_in_concat(t, p1 + hooks.0 + q1 + q2, q3);
        lemma_occurs_in_concat(t, p1 + hooks.0 + q1 + q2 + q3, q4);
        lemma_occurs_in_concat(t, p1 + hooks.0 + q1 + q2 + q3 + q4, q5);
        lemma_occurs_in_concat(t, graph_header(), graph_body(cfg));
        lemma_occurs_in_concat(t, graph_header() + graph_body(cfg), graph_footer(cfg));
    }
}

fn push_node(out: &mut String, nid: &str, name: &str, plugin: &str, style: &str)
    ensures
        final(out)@ == old(out)@ + node_line(nid@, name@, plugin@, style@),
{
    let ghost start = out@;
    push_str(out, "  ");
    push_str(out, nid);
    push_str(out, " [label=\"");
    push_str(out, name);
    push_str(out, "\\n(");
    push_str(out, plugin);
    push_str(out, ")\", ");
    push_str(out, style);
    push_str(out, "];\n");
    proof {
        assert(out@ =~= start + node_line(nid@, name@, plugin@, style@));
    }
}

fn push_sensor_nodes(out: &mut String, sensors: &Vec<(String, String)>, order: &Vec<usize>)
    requires
        is_permutation(order@, sensors@.len()),
    ensures
        final(out)@ == old(out)@ + lines(sensors@.len(), sensor_node_lines(sensors@, order@)),
{
    proof {
        lemma_lines_base(out@, sensor_node_lines(sensors@, order@));
    }
    let mut i: usize = 0;
    while i < order.len()
        invariant
            i <= order@.len(),
            is_permutation(order@, sensors@.len()),
            out@ == old(out)@ + lines(i as nat, sensor_node_lines(sensors@, order@)),
        decreases order.len() - i,
    {
        let k = order[i];
        let nid = sensor_nid(sensors[k].0.as_str());
        push_node(out, nid.as_str(), sensors[k].0.as_str(), sensors[k].1.as_str(),
            "shape=ellipse, style=filled, fillcolor=\"#aed6f1\"");
        proof {
            let f = sensor_node_lines(sensors@, order@);
            assert(lines((i + 1) as nat, f) == lines(i as nat, f) + f(i as int)) by {
                    reveal_with_fuel(lines, 1);
                }
            assert(out@ =~= old(out)@ + lines((i + 1) as nat, f));
        }
        i = i + 1;
    }
}

fn push_transformer_nodes(out: &mut String, ts: &Vec<(String, GraphTransformer)>, order: &Vec<usize>)
    requires
        is_permutation(order@, ts@.len()),
    ensures
        final(out)@ == old(out)@ + lines(ts@.len(), transformer_node_lines(ts@, order@)),
{
    proof {
        lemma_lines_base(out@, transformer_node_lines(ts@, order@));
    }
    let mut i: usize = 0;
    while i < order.len()
        invariant
            i <= order@.len(),
            is_permutation(order@, ts@.len()),
            out@ == old(out)@ + lines(i as nat, transformer_node_lines(ts@, order@)),
        decreases order.len() - i,
    {
        let k = order[i];
        let nid = transformer_nid(ts[k].0.as_str());
        push_node(out, nid.as_str(), ts[k].0.as_str(), ts[k].1.plugin.as_str(),
            "shape=box, style=filled, fillcolor=\"#fdebd0\"");
        proof {
            let f = transformer_node_lines(ts@, order@);
            assert(lines((i + 1) as nat, f) == lines(i as nat, f) + f(i as int)) by {
                    reveal_with_fuel(lines, 1);
                }
            assert(out@ =~= old(out)@ + lines((i + 1) as nat, f));
        }
        i = i + 1;
    }
}

fn push_hook_nodes(out: &mut String, hs: &Vec<(String, GraphHook)>, order: &Vec<usize>)
    requires
        is_permutation(order@, hs@.len()),
    ensures
        final(out)@ == old(out)@ + lines(hs@.len(), hook_node_lines(hs@, order@)),
{
    proof {
        lemma_lines_base(out@, hook_node_lines(hs@, order@));
    }
    let mut i: usize = 0;
    while i < order.len()
        invariant
            i <= order@.len(),
            is_permutation(order@, hs@.len()),
            out@ == old(out)@ + lines(i as nat, hook_node_lines(hs@, order@)),
        decreases order.len() - i,
    {
        let k = order[i];
        let nid = hook_nid(hs[k].0.as_str());
        push_node(out, nid.as_str(), hs[k].0.as_str(), hs[k].1.plugin.as_str(),
            "shape=hexagon, style=filled, fillcolor=\"#d7bde2\"");
        proof {
            let f = hook_node_lines(hs@, order@);
            assert(lines((i + 1) as nat, f) == lines(i as nat, f) + f(i as int)) by {
                    reveal_with_fuel(lines, 1);
                }
            assert(out@ =~= old(out)@ + lines((i + 1) as nat, f));
        }
        i = i + 1;
    }
}

fn push_input_edge(out: &mut String, input: &str, dst: &str, sensors: &Vec<(String, String)>, label: Option<&str>)
    ensures
        final(out)@ == old(out)@ + input_edge_line(provider_node(sensors@, input@), dst@, match label {
            Some(l) => Some(l@),
            None => None,
        }),
{
    let ghost start = out@;
    let src = provider_nid(input, sensors);
    push_str(out, "  ");
    push_str(out, src.as_str());
    push_str(out, " -> ");
    push_str(out, dst);
    match label {
        Some(l) => {
            push_str(out, " [label=\"");
            push_str(out, l);
            push_str(out, "\", style=dashed, color=\"#d4ac0d\"];\n");
            proof {
                assert(out@ =~= start + input_edge_line(provider_node(sensors@, input@), dst@, Some(l@)));
            }
        },
        None => {
            push_str(out, " [style=dashed, color=\"#d4ac0d\"];\n");
            proof {
                assert(out@ =~= start + input_edge_line(provider_node(sensors@, input@), dst@, None));
            }
        },
    }
}

fn push_transformer_edges(out: &mut String, name: &str, t: &GraphTransformer, sensors: &Vec<(String, String)>)
    ensures
        inputs_well_formed(t.inputs) ==> final(out)@ == old(out)@ + transformer_edges_text(sensors@, name@, t.inputs),
{
    let dst = transformer_nid(name);
    match &t.inputs {
        TransformerInputs::Weighted(pairs) => {
            let order = key_order(pairs);
            proof {
                lemma_lines_base(out@, weighted_edge_lines(sensors@, dst@, pairs@, order@));
            }
            let mut i: usize = 0;
            while i < order.len()
                invariant
                    i <= order@.len(),
                    is_permutation(order@, pairs@.len()),
                    dst@ == node_id("t_"@, name@),
                    out@ == old(out)@ + lines(i as nat, weighted_edge_lines(sensors@, dst@, pairs@, order@)),
                decreases order.len() - i,
            {
                let k = order[i];
                push_input_edge(out, pairs[k].0.as_str(), dst.as_str(), sensors, Some(pairs[k].1.as_str()));
                proof {
                    let f = weighted_edge_lines(sensors@, dst@, pairs@, order@);
                    assert(lines((i + 1) as nat, f) == lines(i as nat, f) + f(i as int)) by {
                    reveal_with_fuel(lines, 1);
                }
                    assert(out@ =~= old(out)@ + lines((i + 1) as nat, f));
                }
                i = i + 1;
            }
        },
        TransformerInputs::Listed(values) => {
            proof {
                lemma_lines_base(out@, listed_edge_lines(sensors@, dst@, values@));
            }
            let mut i: usize = 0;
            while i < values.len()
                invariant
                    i <= values@.len(),
                    dst@ == node_id("t_"@, name@),
                    out@ == old(out)@ + lines(i as nat, listed_edge_lines(sensors@, dst@, values@)),
                decreases values.len() - i,
            {
                match &values[i] {
                    Some(input) => push_input_edge(out, input.as_str(), dst.as_str(), sensors, None),
                    None => {},
                }
                proof {
                    let f = listed_edge_lines(sensors@, dst@, values@);
                    assert(lines((i + 1) as nat, f) == lines(i as nat, f) + f(i as int)) by {
                    reveal_with_fuel(lines, 1);
                }
                    assert(out@ =~= old(out)@ + lines((i + 1) as nat, f));
                }
                i = i + 1;
            }
        },
        TransformerInputs::Single(input) => {
            push_input_edge(out, input.as_str(), dst.as_str(), sensors, None);
        },
        TransformerInputs::Absent => {
            proof {
                assert(out@ =~= old(out)@ + Seq::<char>::empty());
            }
        },
    }
}

fn push_all_transformer_edges(out: &mut String, cfg: &GraphConfig)
    ensures
        (forall|i: int| 0 <= i < cfg.transformers@.len() ==> inputs_well_formed(#[trigger] cfg.transformers@[i].1.inputs))
            ==> final(out)@ == old(out)@ + lines(
            cfg.transformers@.len(),
            transformer_edge_lines(cfg.sensors@, cfg.transformers@),
        ),
{
    let ghost wf = forall|i: int| 0 <= i < cfg.transformers@.len() ==> inputs_well_formed(#[trigger] cfg.transformers@[i].1.inputs);
    proof {
        lemma_lines_base(out@, transformer_edge_lines(cfg.sensors@, cfg.transformers@));
    }
    let mut i: usize = 0;
    while i < cfg.transformers.len()
        invariant
            i <= cfg.transformers@.len(),
            wf == (forall|i: int| 0 <= i < cfg.transformers@.len() ==> inputs_well_formed(#[trigger] cfg.transformers@[i].1.inputs)),
            wf ==> out@ == old(out)@ + lines(i as nat, transformer_edge_lines(cfg.sensors@, cfg.transformers@)),
        decreases cfg.transformers.len() - i,
    {
        push_transformer_edges(out, cfg.transformers[i].0.as_str(), &cfg.transformers[i].1, &cfg.sensors);
        proof {
            if wf {
                let f = transformer_edge_lines(cfg.sensors@, cfg.transformers@);
                assert(inputs_well_formed(cfg.transformers@[i as int].1.inputs));
                assert(lines((i + 1) as nat, f) == lines(i as nat, f) + f(i as int)) by {
                    reveal_with_fuel(lines, 1);
                }
                assert(out@ =~= old(out)@ + lines((i + 1) as nat, f));
            }
        }
        i = i + 1;
    }
}

fn push_hook_next_edges(out: &mut String, cfg: &GraphConfig, order: &Vec<usize>, emitted: &mut Vec<String>)
    requires
        is_permutation(order@, cfg.hooks@.len()),
        old(emitted)@.len() == 0,
    ensures
        terminators_well_formed(cfg.terminators@) ==> {
            let st = hook_next_steps(*cfg, order@, cfg.hooks@.len());
            &&& final(out)@ == old(out)@ + st.0
            &&& emitted_names(final(emitted)@) == st.1
        },
{
    let ghost wf = terminators_well_formed(cfg.terminators@);
    proof {
        reveal_with_fuel(hook_next_steps, 1);
        assert(emitted_names(emitted@) =~= Seq::<Seq<char>>::empty());
        assert(out@ =~= old(out)@ + hook_next_steps(*cfg, order@, 0).0);
    }
    let mut i: usize = 0;
    while i < order.len()
        invariant
            i <= order@.len(),
            is_permutation(order@, cfg.hooks@.len()),
            wf == terminators_well_formed(cfg.terminators@),
            wf ==> out@ == old(out)@ + hook_next_steps(*cfg, order@, i as nat).0,
            wf ==> emitted_names(emitted@) == hook_next_steps(*cfg, order@, i as nat).1,
        decreases order.len() - i,
    {
        let k = order[i];
        let ghost before = out@;
        match &cfg.hooks[k].1.next {
            Some(next) => {
                let src = hook_nid(cfg.hooks[k].0.as_str());
                let dst = if is_rule(next.as_str(), &cfg.rules) {
                    rule_nid(next.as_str())
                } else if is_hook(next.as_str(), &cfg.hooks) {
                    hook_nid(next.as_str())
                } else {
                    ensure_action_node(next.as_str(), &cfg.terminators, emitted, out)
                };
                let ghost mid = out@;
                push_str(out, "  ");
                push_str(out, src.as_str());
                push_str(out, " -> ");
                push_str(out, dst.as_str());
                push_str(out, " [label=\"next\", style=dashed, color=\"#8e44ad\"];\n");
                proof {
                    reveal_with_fuel(hook_next_steps, 1);
                    assert(dst@ == target_node(cfg.rules@, cfg.hooks@, next@));
                    assert(out@ =~= mid + next_edge_line(src@, dst@));
                    if wf {
                        let prev = hook_next_steps(*cfg, order@, i as nat);
                        let g = goto_step(cfg.rules@, cfg.hooks@, cfg.terminators@, next@, prev.1);
                        assert(mid == before + g.0);
                        assert(out@ =~= old(out)@ + hook_next_steps(*cfg, order@, (i + 1) as nat).0);
                        assert(emitted_names(emitted@) == hook_next_steps(*cfg, order@, (i + 1) as nat).1);
                    }
                }
            },
            None => {
                proof {
                    reveal_with_fuel(hook_next_steps, 1);
                    assert(hook_next_steps(*cfg, order@, (i + 1) as nat) == hook_next_steps(*cfg, order@, i as nat));
                }
            },
        }
        i = i + 1;
    }
}

fn push_rule_node(out: &mut String, n: usize, rule: &RuleConfig)
    requires
        n < usize::MAX,
    ensures
        final(out)@ == old(out)@ + rule_line(n as int, *rule),
{
    let ghost start = out@;
    let rnid = rule_nid(rule.id.as_str());
    push_str(out, "  ");
    push_str(out, rnid.as_str());
    push_str(out, " [label=\"[");
    let num = decimal_string((n + 1) as u64);
    push_str(out, num.as_str());
    push_str(out, "] ");
    push_str(out, rule.id.as_str());
    push_str(out, "\\nscore ≥ ");
    let t = decimal_string(rule.threshold.0 as u64);
    push_str(out, t.as_str());
    push_str(out, "?");
    let ghost mid = out@;
    if rule.buffer_body {
        push_str(out, "\\nbuffers body");
    }
    let ghost mid2 = out@;
    push_str(out, "\", shape=diamond, style=\"filled,bold\", fillcolor=\"#d7bde2\"];\n");
    proof {
        let tail: Seq<char> = if rule.buffer_body { "\\nbuffers body"@ } else { Seq::empty() };
        assert(mid2 =~= mid + tail);
        assert(out@ =~= start + rule_line(n as int, *rule));
    }
}

fn push_rule_nodes(out: &mut String, rules: &Vec<RuleConfig>)
    ensures
        final(out)@ == old(out)@ + lines(rules@.len(), rule_lines(rules@)),
{
    proof {
        lemma_lines_base(out@, rule_lines(rules@));
    }
    let mut i: usize = 0;
    while i < rules.len()
        invariant
            i <= rules@.len(),
            out@ == old(out)@ + lines(i as nat, rule_lines(rules@)),
        decreases rules.len() - i,
    {
        push_rule_node(out, i, &rules[i]);
        proof {
            let f = rule_lines(rules@);
            assert(lines((i + 1) as nat, f) == lines(i as nat, f) + f(i as int)) by {
                    reveal_with_fuel(lines, 1);
                }
            assert(out@ =~= old(out)@ + lines((i + 1) as nat, f));
        }
        i = i + 1;
    }
}

fn push_rule_edge(out: &mut String, cfg: &GraphConfig, rule: &RuleConfig, emitted: &mut Vec<String>, need_final_pass: &mut bool)
    ensures
        terminators_well_formed(cfg.terminators@) ==> {
            let st = rule_edge_step(*cfg, *rule, emitted_names(old(emitted)@));
            &&& final(out)@ == old(out)@ + st.0
            &&& emitted_names(final(emitted)@) == st.1
            &&& *final(need_final_pass) == (*old(need_final_pass) || st.2)
        },
{
    let rnid = rule_nid(rule.id.as_str());
    let input_nid = provider_nid(rule.input.as_str(), &cfg.sensors);
    push_str(out, "  ");
    push_str(out, input_nid.as_str());
    push_str(out, " -> ");
    push_str(out, rnid.as_str());
    push_str(out, " [label=\"score\"];\n");
    let ghost m1 = out@;
    emit_action_edge(rnid.as_str(), &rule.if_action, "yes", "#922b21", "2", &cfg.rules, &cfg.hooks,
        &cfg.terminators, emitted, need_final_pass, out);
    emit_action_edge(rnid.as_str(), &rule.else_action, "no", "#555555", "1", &cfg.rules, &cfg.hooks,
        &cfg.terminators, emitted, need_final_pass, out);
    push_str(out, "\n");
    proof {
        if terminators_well_formed(cfg.terminators@) {
            let rn = node_id("r_"@, rule.id@);
            assert(m1 =~= old(out)@ + score_edge_line(cfg.sensors@, rule.input@, rn));
            let st = rule_edge_step(*cfg, *rule, emitted_names(old(emitted)@));
            assert(out@ =~= old(out)@ + st.0);
        }
    }
}

fn push_rule_edges(out: &mut String, cfg: &GraphConfig, emitted: &mut Vec<String>, need_final_pass: &mut bool)
    requires
        !*old(need_final_pass),
    ensures
        terminators_well_formed(cfg.terminators@) ==> {
            let st = rule_edge_steps(*cfg, cfg.rules@.len(), emitted_names(old(emitted)@));
            &&& final(out)@ == old(out)@ + st.0
            &&& emitted_names(final(emitted)@) == st.1
            &&& *final(need_final_pass) == st.2
        },
{
    let ghost wf = terminators_well_formed(cfg.terminators@);
    let ghost e0 = emitted_names(emitted@);
    proof {
        reveal_with_fuel(rule_edge_steps, 1);
        assert(out@ =~= old(out)@ + rule_edge_steps(*cfg, 0, e0).0);
    }
    let mut i: usize = 0;
    while i < cfg.rules.len()
        invariant
            i <= cfg.rules@.len(),
            wf == terminators_well_formed(cfg.terminators@),
            wf ==> out@ == old(out)@ + rule_edge_steps(*cfg, i as nat, e0).0,
            wf ==> emitted_names(emitted@) == rule_edge_steps(*cfg, i as nat, e0).1,
            wf ==> *need_final_pass == rule_edge_steps(*cfg, i as nat, e0).2,
        decreases cfg.rules.len() - i,
    {
        push_rule_edge(out, cfg, &cfg.rules[i], emitted, need_final_pass);
        proof {
            reveal_with_fuel(rule_edge_steps, 1);
            if wf {
                assert(out@ =~= old(out)@ + rule_edge_steps(*cfg, (i + 1) as nat, e0).0);
            }
        }
        i = i + 1;
    }
}

proof fn lemma_graph_text(
    cfg: GraphConfig,
    a1: Seq<char>,
    a2: Seq<char>,
    a3: Seq<char>,
    a4: Seq<char>,
    a5: Seq<char>,
    a6: Seq<char>,
    emitted: Seq<Seq<char>>,
    need: bool,
)
    requires
        a1 == lines(cfg.sensors@.len(), sensor_node_lines(cfg.sensors@, sorted_order(keys_of(cfg.sensors@)))) + "\n"@,
        cfg.transformers@.len() > 0 ==> a2 == a1 + lines(
            cfg.transformers@.len(),
            transformer_node_lines(cfg.transformers@, sorted_order(keys_of(cfg.transformers@))),
        ) + "\n"@ + lines(cfg.transformers@.len(), transformer_edge_lines(cfg.sensors@, cfg.transformers@)) + "\n"@,
        cfg.transformers@.len() == 0 ==> a2 == a1,
        cfg.hooks@.len() > 0 ==> {
            let order = sorted_order(keys_of(cfg.hooks@));
            let next = hook_next_steps(cfg, order, cfg.hooks@.len());
            &&& a3 == a2 + lines(cfg.hooks@.len(), hook_node_lines(cfg.hooks@, order)) + "\n"@ + next.0 + "\n"@
            &&& emitted == next.1
        },
        cfg.hooks@.len() == 0 ==> a3 == a2 && emitted == Seq::<Seq<char>>::empty(),
        a4 == a3 + request_line() + lines(cfg.rules@.len(), rule_lines(cfg.rules@)) + "\n"@,
        a5 == a4 + rule_edge_steps(cfg, cfg.rules@.len(), emitted).0,
        need == rule_edge_steps(cfg, cfg.rules@.len(), emitted).2,
        need ==> a6 == a5 + final_pass_line(),
        !need ==> a6 == a5,
    ensures
        a6 == graph_body(cfg),
{
    let hooks = hook_section(cfg, sorted_order(keys_of(cfg.hooks@)));
    let edges = rule_edge_steps(cfg, cfg.rules@.len(), hooks.1);
    let ts = transformer_section(cfg, sorted_order(keys_of(cfg.transformers@)));
    assert(a2 == a1 + ts) by {
        if cfg.transformers@.len() == 0 {
            assert(a2 =~= a1 + ts);
        } else {
            assert(a2 =~= a1 + ts);
        }
    }
    assert(a3 == a2 + hooks.0 && emitted == hooks.1) by {
        if cfg.hooks@.len() == 0 {
            assert(a3 =~= a2 + hooks.0);
        } else {
            assert(a3 =~= a2 + hooks.0);
        }
    }
    let fp: Seq<char> = if edges.2 { final_pass_line() } else { Seq::empty() };
    assert(a6 == a5 + fp) by {
        if !need {
            assert(a6 =~= a5 + fp);
        }
    }
    assert(a6 == graph_body(cfg));
}

/// Renders the provider and rule graph of `cfg` as a DOT document: sensors,
/// transformers (with their input edges), hooks (with their `next` edges),
/// rule diamonds with their input edges and their yes/no branches, the
/// terminator actions the branches reach, and the request's entry edge.
/// Sensors, transformers and hooks are listed by name.
pub fn render_graph(cfg: &GraphConfig) -> (r: String)
    ensures
        exists|body: Seq<char>| r@ == graph_header() + body + graph_footer(*cfg),
        graph_well_formed(*cfg) ==> r@ == graph_text(*cfg),
        graph_well_formed(*cfg) ==> forall|k: int| 0 <= k < cfg.hooks@.len() && (#[trigger] cfg.hooks@[k]).1.next is Some
            ==> occurs_in(
            hook_next_edge(cfg.hooks@[k].0@, target_node(cfg.rules@, cfg.hooks@, cfg.hooks@[k].1.next->0@)),
            r@,
        ),
{
    let ghost wf = graph_well_formed(*cfg);
    let mut out = String::new();
    let so = key_order(&cfg.sensors);
    push_sensor_nodes(&mut out, &cfg.sensors, &so);
    push_str(&mut out, "\n");
    let ghost a1 = out@;
    let to = key_order(&cfg.transformers);
    if cfg.transformers.len() > 0 {
        push_transformer_nodes(&mut out, &cfg.transformers, &to);
        push_str(&mut out, "\n");
        push_all_transformer_edges(&mut out, cfg);
        push_str(&mut out, "\n");
    }
    let ghost a2 = out@;
    let mut emitted: Vec<String> = Vec::new();
    let mut need_final_pass = false;
    let ho = key_order(&cfg.hooks);
    if cfg.hooks.len() > 0 {
        push_hook_nodes(&mut out, &cfg.hooks, &ho);
        push_str(&mut out, "\n");
        push_hook_next_edges(&mut out, cfg, &ho, &mut emitted);
        push_str(&mut out, "\n");
    } else {
        proof {
            assert(emitted_names(emitted@) =~= Seq::<Seq<char>>::empty());
        }
    }
    let ghost a3 = out@;
    let ghost em = emitted_names(emitted@);
    push_str(&mut out, "  request [label=\"request\", shape=circle, style=filled, fillcolor=\"#d5d8dc\"];\n\n");
    push_rule_nodes(&mut out, &cfg.rules);
    push_str(&mut out, "\n");
    let ghost a4 = out@;
    push_rule_edges(&mut out, cfg, &mut emitted, &mut need_final_pass);
    let ghost a5 = out@;
    if need_final_pass {
        push_str(&mut out, "  final_pass [label=\"pass\\n(allow)\", shape=box3d, style=filled, fillcolor=\"#a9dfbf\"];\n\n");
    }
    let ghost a6 = out@;
    let mut doc = String::new();
    push_str(&mut doc, "digraph ferrum {\n  rankdir=LR;\n  node [fontname=\"Helvetica\", fontsize=11];\n  edge [fontsize=9, color=\"#555555\"];\n\n");
    push_str(&mut doc, out.as_str());
    let entry = entry_nid(cfg);
    push_str(&mut doc, "  request -> ");
    push_str(&mut doc, entry.as_str());
    push_str(&mut doc, ";\n}\n");
    proof {
        assert(doc@ =~= graph_header() + out@ + graph_footer(*cfg));
        if wf {
            assert(so@ == sorted_order(keys_of(cfg.sensors@)));
            assert(to@ == sorted_order(keys_of(cfg.transformers@)));
            assert(ho@ == sorted_order(keys_of(cfg.hooks@)));
            assert(a1 =~= lines(cfg.sensors@.len(), sensor_node_lines(cfg.sensors@, so@)) + "\n"@);
            lemma_graph_text(*cfg, a1, a2, a3, a4, a5, a6, em, need_final_pass);
            lemma_graph_text_next_edges(*cfg);
        }
    }
    doc
}

} // verus!
