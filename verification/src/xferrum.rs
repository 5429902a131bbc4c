//! Building a custom ferrum binary: plugin specs, and the `Cargo.toml` and
//! `main.rs` of the generated crate.

use vstd::prelude::*;

use crate::text::{
    chars_of, first_index, first_index_of, push_char, push_str, starts_with, string_of_range, vec_starts_with,
};

verus! {

/// Where a plugin crate comes from.
#[derive(Debug, PartialEq, Eq)]
pub enum PluginSource {
    /// A local directory.
    Path(String),
    /// A git repository, at a tag or at its head.
    Git { url: String, tag: Option<String> },
    /// A crates.io release.
    Registry { version: String },
}

/// A plugin crate to depend on.
#[derive(Debug, PartialEq, Eq)]
pub struct PluginDep {
    /// Cargo package name (with dashes), e.g. `sensor-ip`.
    pub name: String,
    /// Where it comes from.
    pub source: PluginSource,
}

/// What a plugin spec denotes.
#[derive(Debug, PartialEq, Eq)]
pub enum ParsedSpec {
    /// A local path (`./..`, `../..` or `/..`), to be resolved against the
    /// working directory; the package name is read from its `Cargo.toml`.
    Local,
    /// A git or crates.io dependency.
    Remote(PluginDep),
}

/// Why a plugin spec or a plugin manifest cannot be used.
#[derive(Debug, PartialEq, Eq)]
pub enum SpecError {
    /// The spec is none of the accepted forms.
    Unrecognized(String),
    /// The `Cargo.toml` is not TOML.
    ManifestSyntax,
    /// The `Cargo.toml` has no string `[package].name`.
    MissingName,
}

// ---------------------------------------------------------------------------
// Plugin specs
// ---------------------------------------------------------------------------

/// `s` split at its first `c`: what comes before and what comes after.
pub open spec fn split_once(s: Seq<char>, c: char) -> Option<(Seq<char>, Seq<char>)> {
    let i = first_index(s, c);
    if i < 0 {
        None
    } else {
        Some((s.take(i), s.skip(i + 1)))
    }
}

/// `i` is the position of the last `c` in `s`.
pub open spec fn is_last_index(s: Seq<char>, c: char, i: int) -> bool {
    0 <= i < s.len() && s[i] == c && forall|j: int| i < j < s.len() ==> s[j] != c
}

/// The part of `s` after its last `c`; all of `s` when it holds none.
pub open spec fn after_last(s: Seq<char>, c: char) -> Seq<char> {
    if exists|i: int| is_last_index(s, c, i) {
        s.skip((choose|i: int| is_last_index(s, c, i)) + 1)
    } else {
        s
    }
}

/// A spec names a local path.
pub open spec fn is_local_spec(s: Seq<char>) -> bool {
    starts_with(s, "./"@) || starts_with(s, "../"@) || starts_with(s, "/"@)
}

/// The dependency a non-local spec denotes, if any.
pub open spec fn remote_dep(s: Seq<char>, dep: PluginDep) -> bool {
    if starts_with(s, "github.com/"@) {
        let (repo, tag) = match split_once(s, '@') {
            Some((r, t)) => (r, Some(t)),
            None => (s, None),
        };
        &&& dep.name@ == after_last(repo, '/')
        &&& dep.source matches PluginSource::Git { url, tag: t } && url@ == "https://"@ + repo && match t {
            Some(t) => tag == Some(t@),
            None => tag is None,
        }
    } else {
        &&& split_once(s, '@') matches Some((n, v))
        &&& dep.name@ == n
        &&& dep.source matches PluginSource::Registry { version } && version@ == v
    }
}

proof fn lemma_last_index_unique(s: Seq<char>, c: char, i: int)
    requires
        is_last_index(s, c, i),
    ensures
        after_last(s, c) == s.skip(i + 1),
{
    let k = choose|k: int| is_last_index(s, c, k);
    if k < i {
        assert(s[i] != c);
    }
    if i < k {
        assert(s[k] != c);
    }
}

/// Position of the last `c` in `s[..to]`, if any.
fn find_last_char(s: &Vec<char>, c: char, to: usize) -> (r: Option<usize>)
    requires
        to <= s.len(),
    ensures
        match r {
            Some(i) => is_last_index(s@.take(to as int), c, i as int),
            None => forall|j: int| 0 <= j < to ==> s@[j] != c,
        },
{
    let mut i = to;
    while i > 0
        invariant
            i <= to <= s.len(),
            forall|j: int| i <= j < to ==> s@[j] != c,
        decreases i,
    {
        if s[i - 1] == c {
            return Some(i - 1);
        }
        i = i - 1;
    }
    None
}

/// Parses a plugin spec given with `--plugin`:
///
/// * `./local/path`, `../path` or `/abs/path` — a local path dependency;
/// * `github.com/owner/repo` or `github.com/owner/repo@tag` — a git dependency,
///   named after the repository;
/// * `crate-name@version` — a crates.io release.
pub fn parse_plugin_spec(spec: &str) -> (r: Result<ParsedSpec, SpecError>)
    ensures
        is_local_spec(spec@) ==> r == Ok::<ParsedSpec, SpecError>(ParsedSpec::Local),
        !is_local_spec(spec@) ==> match r {
            Ok(ParsedSpec::Remote(dep)) => remote_dep(spec@, dep),
            Ok(ParsedSpec::Local) => false,
            Err(SpecError::Unrecognized(s)) => s@ == spec@ && !starts_with(spec@, "github.com/"@) && split_once(spec@, '@') is None,
            Err(_) => false,
        },
{
    let u = chars_of(spec);
    if vec_starts_with(&u, &chars_of("./")) || vec_starts_with(&u, &chars_of("../")) || vec_starts_with(&u, &chars_of("/")) {
        return Ok(ParsedSpec::Local);
    }
    let at = first_index_of(&u, '@');
    if vec_starts_with(&u, &chars_of("github.com/")) {
        let (end, tag) = match at {
            Some(i) => (i, Some(string_of_range(&u, i + 1, u.len()))),
            None => (u.len(), None),
        };
        let repo = string_of_range(&u, 0, end);
        let mut url = String::new();
        push_str(&mut url, "https://");
        push_str(&mut url, repo.as_str());
        let name = match find_last_char(&u, '/', end) {
            Some(i) => {
                proof {
                    lemma_last_index_unique(u@.take(end as int), '/', i as int);
                    assert(u@.take(end as int).skip(i + 1) =~= u@.subrange(i + 1, end as int));
                }
                string_of_range(&u, i + 1, end)
            },
            None => {
                proof {
                    assert(!exists|k: int| is_last_index(u@.take(end as int), '/', k));
                    assert(u@.take(end as int) =~= u@.subrange(0, end as int));
                }
                string_of_range(&u, 0, end)
            },
        };
        proof {
            assert(repo@ =~= u@.take(end as int));
            if at is Some {
                assert(tag->0@ =~= u@.skip(end + 1));
            } else {
                assert(u@.take(end as int) =~= u@);
            }
        }
        return Ok(ParsedSpec::Remote(PluginDep { name, source: PluginSource::Git { url, tag } }));
    }
    match at {
        Some(i) => {
            let name = string_of_range(&u, 0, i);
            let version = string_of_range(&u, i + 1, u.len());
            proof {
                assert(name@ =~= u@.take(i as int));
                assert(version@ =~= u@.skip(i + 1));
            }
            Ok(ParsedSpec::Remote(PluginDep { name, source: PluginSource::Registry { version } }))
        },
        None => Err(SpecError::Unrecognized(spec.to_owned())),
    }
}


// ---------------------------------------------------------------------------
// Plugin manifests
// ---------------------------------------------------------------------------

/// What `[package].name` of a `Cargo.toml` holds, as text.
pub enum ManifestNameView {
    /// The text is not a TOML document.
    Invalid,
    /// There is no `[package]` table with a `name` key.
    Absent,
    /// `[package].name` is not a string.
    NotText,
    /// `[package].name` is this string.
    Text(Seq<char>),
}

/// What `[package].name` of a `Cargo.toml` holds.
#[derive(Debug)]
pub enum ManifestName {
    /// The text is not a TOML document.
    Invalid,
    /// There is no `[package]` table with a `name` key.
    Absent,
    /// `[package].name` is not a string.
    NotText,
    /// `[package].name` is this string.
    Text(String),
}

impl ManifestName {
    /// The name as text.
    pub open spec fn view(&self) -> ManifestNameView {
        match self {
            ManifestName::Invalid => ManifestNameView::Invalid,
            ManifestName::Absent => ManifestNameView::Absent,
            ManifestName::NotText => ManifestNameView::NotText,
            ManifestName::Text(s) => ManifestNameView::Text(s@),
        }
    }
}

/// What `toml_edit` reads as `[package].name` in the manifest text `content`.
pub uninterp spec fn toml_manifest_name(content: Seq<char>) -> ManifestNameView;

/// Parses `content` with `toml_edit` (`str::parse::<DocumentMut>`), then looks up
/// `package` and `name` with `get` and reads the item with `as_str`.  The contract
/// names the outcome: it depends on the text alone.
#[verifier::external_body]
fn read_manifest_name(content: &str) -> (r: ManifestName)
    ensures
        r@ == toml_manifest_name(content@),
{
    match content.parse::<toml_edit::DocumentMut>() {
        Err(_) => ManifestName::Invalid,
        Ok(doc) => match doc.get("package").and_then(|p| p.get("name")) {
            None => ManifestName::Absent,
            Some(item) => match item.as_str() {
                Some(s) => ManifestName::Text(s.to_owned()),
                None => ManifestName::NotText,
            },
        },
    }
}

/// The package name declared by the `Cargo.toml` text `content`.
///
/// Fails when the text is not TOML, and when `[package].name` is missing or is
/// not a string.
pub fn cargo_name_from_manifest(content: &str) -> (r: Result<String, SpecError>)
    ensures
        match toml_manifest_name(content@) {
            ManifestNameView::Invalid => r == Err::<String, SpecError>(SpecError::ManifestSyntax),
            ManifestNameView::Text(n) => r matches Ok(s) && s@ == n,
            _ => r == Err::<String, SpecError>(SpecError::MissingName),
        },
{
    match read_manifest_name(content) {
        ManifestName::Invalid => Err(SpecError::ManifestSyntax),
        ManifestName::Text(s) => Ok(s),
        _ => Err(SpecError::MissingName),
    }
}

/// The plugins a scan finds, as `(name, path)`: every `(path, manifest)`
/// whose manifest declares a package name, in order.
pub open spec fn scanned_plugins(found: Seq<(String, String)>) -> Seq<(Seq<char>, Seq<char>)>
    decreases found.len(),
{
    if found.len() == 0 {
        Seq::empty()
    } else {
        let rest = scanned_plugins(found.drop_last());
        match toml_manifest_name(found.last().1@) {
            ManifestNameView::Text(n) => rest.push((n, found.last().0@)),
            _ => rest,
        }
    }
}

/// A plugin as `(name, path)`, when it is a path dependency.
pub open spec fn path_dep_view(d: PluginDep) -> (Seq<char>, Seq<char>) {
    match d.source {
        PluginSource::Path(p) => (d.name@, p@),
        _ => (d.name@, Seq::empty()),
    }
}

/// The plugins found by scanning: every `(path, manifest)` whose manifest
/// declares a package name becomes a path dependency, in order; the others
/// are skipped.
pub fn plugins_from_manifests(found: &Vec<(String, String)>) -> (r: Vec<PluginDep>)
    ensures
        r@.map_values(|d: PluginDep| path_dep_view(d)) == scanned_plugins(found@),
        forall|i: int| 0 <= i < r@.len() ==> r@[i].source is Path,
{
    let mut out: Vec<PluginDep> = Vec::new();
    let mut i: usize = 0;
    while i < found.len()
        invariant
            i <= found@.len(),
            out@.map_values(|d: PluginDep| path_dep_view(d)) == scanned_plugins(found@.take(i as int)),
            forall|k: int| 0 <= k < out@.len() ==> out@[k].source is Path,
        decreases found.len() - i,
    {
        let ghost before = out@;
        proof {
            assert(found@.take(i + 1).drop_last() =~= found@.take(i as int));
            assert(found@.take(i + 1).last() == found@[i as int]);
        }
        match cargo_name_from_manifest(found[i].1.as_str()) {
            Ok(name) => {
                let dep = PluginDep { name, source: PluginSource::Path(found[i].0.clone()) };
                out.push(dep);
                proof {
                    assert(out@.map_values(|d: PluginDep| path_dep_view(d)) =~= before.map_values(
                        |d: PluginDep| path_dep_view(d),
                    ).push(path_dep_view(dep)));
                }
            },
            Err(_) => {},
        }
        i = i + 1;
    }
    proof {
        assert(found@.take(i as int) =~= found@);
    }
    out
}

// ---------------------------------------------------------------------------
// The generated crate
// ---------------------------------------------------------------------------

/// A Rust identifier from a crate name: dashes become underscores.
pub open spec fn crate_ident_of(name: Seq<char>) -> Seq<char> {
    name.map_values(|c: char| if c == '-' { '_' } else { c })
}

/// Rust identifier from a crate name (dashes → underscores).
pub fn crate_ident(name: &str) -> (r: String)
    ensures
        r@ == crate_ident_of(name@),
{
    let u = chars_of(name);
    let mut r = String::new();
    let mut i: usize = 0;
    while i < u.len()
        invariant
            i <= u@.len(),
            u@ == name@,
            r@ == crate_ident_of(name@.take(i as int)),
        decreases u.len() - i,
    {
        let c = if u[i] == '-' { '_' } else { u[i] };
        push_char(&mut r, c);
        proof {
            assert(crate_ident_of(name@.take(i + 1)) =~= crate_ident_of(name@.take(i as int)).push(c));
        }
        i = i + 1;
    }
    proof {
        assert(name@.take(i as int) =~= name@);
    }
    r
}

/// The dependency table of a plugin source in `Cargo.toml`.
pub open spec fn dep_text(src: PluginSource) -> Seq<char> {
    match src {
        PluginSource::Path(p) => "{ path = \""@ + p@ + "\" }"@,
        PluginSource::Git { url, tag: None } => "{ git = \""@ + url@ + "\" }"@,
        PluginSource::Git { url, tag: Some(t) } => "{ git = \""@ + url@ + "\", tag = \""@ + t@ + "\" }"@,
        PluginSource::Registry { version } => "{ version = \""@ + version@ + "\" }"@,
    }
}

/// The `[dependencies]` line of a plugin.
pub open spec fn dep_line(p: PluginDep) -> Seq<char> {
    "\""@ + p.name@ + "\" = "@ + dep_text(p.source) + "\n"@
}

/// The `[dependencies]` lines of all plugins, in order.
pub open spec fn dep_lines(ps: Seq<PluginDep>) -> Seq<char>
    decreases ps.len(),
{
    if ps.len() == 0 {
        Seq::empty()
    } else {
        dep_lines(ps.drop_last()) + dep_line(ps.last())
    }
}

/// The start of the generated `Cargo.toml`, up to the path of the ferrum library.
pub open spec fn manifest_head() -> Seq<char> {
    "[package]\nname = \"ferrum-custom\"\nversion = \"0.1.0\"\nedition = \"2024\"\n\n[dependencies]\nferrum = { path = \""@
}

/// The part of the generated `Cargo.toml` between the ferrum path and the plugins.
pub open spec fn manifest_middle() -> Seq<char> {
    "\" }\nclap = { version = \"4\", features = [\"derive\", \"env\"] }\n"@
}

/// The generated `Cargo.toml`.
pub open spec fn manifest_text(ferrum_path: Seq<char>, ps: Seq<PluginDep>) -> Seq<char> {
    manifest_head() + ferrum_path + manifest_middle() + dep_lines(ps)
}

fn push_dep(out: &mut String, p: &PluginDep)
    ensures
        final(out)@ == old(out)@ + dep_line(*p),
{
    push_str(out, "\"");
    push_str(out, p.name.as_str());
    push_str(out, "\" = ");
    match &p.source {
        PluginSource::Path(path) => {
            push_str(out, "{ path = \"");
            push_str(out, path.as_str());
            push_str(out, "\" }");
        },
        PluginSource::Git { url, tag: None } => {
            push_str(out, "{ git = \"");
            push_str(out, url.as_str());
            push_str(out, "\" }");
        },
        PluginSource::Git { url, tag: Some(t) } => {
            push_str(out, "{ git = \"");
            push_str(out, url.as_str());
            push_str(out, "\", tag = \"");
            push_str(out, t.as_str());
            push_str(out, "\" }");
        },
        PluginSource::Registry { version } => {
            push_str(out, "{ version = \"");
            push_str(out, version.as_str());
            push_str(out, "\" }");
        },
    }
    push_str(out, "\n");
    proof {
        let d = dep_text(p.source);
        assert(final(out)@ =~= old(out)@ + ("\""@ + p.name@ + "\" = "@ + d + "\n"@));
    }
}

/// The `Cargo.toml` of the generated crate: the ferrum library at
/// `ferrum_path`, clap, and every plugin as a dependency.
pub fn cargo_manifest(ferrum_path: &str, plugins: &Vec<PluginDep>) -> (r: String)
    ensures
        r@ == manifest_text(ferrum_path@, plugins@),
{
    let mut out = String::new();
    push_str(&mut out, "[package]\nname = \"ferrum-custom\"\nversion = \"0.1.0\"\nedition = \"2024\"\n\n[dependencies]\nferrum = { path = \"");
    push_str(&mut out, ferrum_path);
    push_str(&mut out, "\" }\nclap = { version = \"4\", features = [\"derive\", \"env\"] }\n");
    let ghost head = out@;
    let mut i: usize = 0;
    while i < plugins.len()
        invariant
            i <= plugins@.len(),
            head == manifest_head() + ferrum_path@ + manifest_middle(),
            out@ == head + dep_lines(plugins@.take(i as int)),
        decreases plugins.len() - i,
    {
        push_dep(&mut out, &plugins[i]);
        proof {
            let t = plugins@.take(i + 1);
            assert(t.drop_last() =~= plugins@.take(i as int));
            assert(out@ =~= head + dep_lines(t));
        }
        i = i + 1;
    }
    proof {
        assert(plugins@.take(i as int) =~= plugins@);
    }
    out
}

/// The `use` line that links a plugin into the binary.
pub open spec fn use_line(p: PluginDep) -> Seq<char> {
    "use "@ + crate_ident_of(p.name@) + " as _;\n"@
}

/// The `use` lines of all plugins, in order.
pub open spec fn use_lines(ps: Seq<PluginDep>) -> Seq<char>
    decreases ps.len(),
{
    if ps.len() == 0 {
        Seq::empty()
    } else {
        use_lines(ps.drop_last()) + use_line(ps.last())
    }
}

/// The fixed `main` of the generated binary.
pub open spec fn main_tail() -> Seq<char> {
    "\nuse clap::Parser;\n\n#[derive(Parser)]\n#[command(name = \"ferrum\", about = \"Ferrum WAF\")]\nstruct Args {\n    /// Path to the TOML config file\n    #[arg(long, default_value = \"ferrum.toml\", env = \"FERRUM_CONFIG\")]\n    config: String,\n}\n\nfn main() {\n    let args = Args::parse();\n    ferrum::run(&args.config);\n}\n"@
}

/// The `src/main.rs` of the generated crate: one `use` per plugin, so that
/// each registers itself, then a `main` that runs ferrum on `--config`.
pub fn main_source(plugins: &Vec<PluginDep>) -> (r: String)
    ensures
        r@ == use_lines(plugins@) + main_tail(),
{
    let mut out = String::new();
    let mut i: usize = 0;
    while i < plugins.len()
        invariant
            i <= plugins@.len(),
            out@ == use_lines(plugins@.take(i as int)),
        decreases plugins.len() - i,
    {
        let ident = crate_ident(plugins[i].name.as_str());
        push_str(&mut out, "use ");
        push_str(&mut out, ident.as_str());
        push_str(&mut out, " as _;\n");
        proof {
            let t = plugins@.take(i + 1);
            assert(t.drop_last() =~= plugins@.take(i as int));
            assert(out@ =~= use_lines(t));
        }
        i = i + 1;
    }
    proof {
        assert(plugins@.take(i as int) =~= plugins@);
    }
    push_str(&mut out, "\nuse clap::Parser;\n\n#[derive(Parser)]\n#[command(name = \"ferrum\", about = \"Ferrum WAF\")]\nstruct Args {\n    /// Path to the TOML config file\n    #[arg(long, default_value = \"ferrum.toml\", env = \"FERRUM_CONFIG\")]\n    config: String,\n}\n\nfn main() {\n    let args = Args::parse();\n    ferrum::run(&args.config);\n}\n");
    out
}

} // verus!
