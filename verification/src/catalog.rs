//! The catalog of plugin factories, looked up by plugin name when a
//! configuration is loaded.

use vstd::prelude::*;

use crate::plugin::{HookEntry, NodeKind, PluginError, SensorEntry, TerminatorAction, TerminatorEntry, TransformerEntry};
use crate::provider::ProviderId;
use crate::value::{str_eq, ConfigValue};

verus! {

/// Builds a sensor entry from its arguments and its own provider id.
pub trait SensorBuild {
    /// Whether `e` is an entry this plugin may build from `args` for the node
    /// `own_id`.  A plugin that does not say allows any entry.
    open spec fn builds(&self, args: ConfigValue, own_id: ProviderId, e: SensorEntry) -> bool {
        true
    }

    /// Compiles `args` into a ready-to-register sensor entry.
    fn build(&self, args: &ConfigValue, own_id: ProviderId) -> (r: Result<SensorEntry, PluginError>)
        ensures
            r matches Ok(e) ==> self.builds(*args, own_id, e),
    ;
}

/// Builds a transformer entry from its arguments.
pub trait TransformerBuild {
    /// Whether `e` is an entry this plugin may build from `args`.  A plugin
    /// that does not say allows any entry.
    open spec fn builds(&self, args: ConfigValue, e: TransformerEntry) -> bool {
        true
    }

    /// Compiles `args` into a ready-to-register transformer entry.
    fn build(&self, args: &ConfigValue) -> (r: Result<TransformerEntry, PluginError>)
        ensures
            r matches Ok(e) ==> self.builds(*args, e),
    ;
}

/// Builds a hook entry from its arguments.
pub trait HookBuild {
    /// Whether `e` is an entry this plugin may build from `args`.  A plugin
    /// that does not say allows any entry.
    open spec fn builds(&self, args: ConfigValue, e: HookEntry) -> bool {
        true
    }

    /// Compiles `args` into a ready-to-register hook entry.
    fn build(&self, args: &ConfigValue) -> (r: Result<HookEntry, PluginError>)
        ensures
            r matches Ok(e) ==> self.builds(*args, e),
    ;
}

/// Builds a terminator from its arguments.
pub trait TerminatorBuild {
    /// Whether a terminator this plugin builds from `args` may take action
    /// `a`.  A plugin that does not say allows any action.
    open spec fn allows(&self, args: ConfigValue, a: TerminatorAction) -> bool {
        true
    }

    /// Compiles `args` into a terminator.
    fn build(&self, args: &ConfigValue) -> (r: Result<TerminatorEntry, PluginError>)
        ensures
            r matches Ok(t) ==> forall|a: TerminatorAction| #[trigger] t.decide.acts(a) ==> self.allows(*args, a),
    ;
}

/// A named sensor plugin.
pub struct SensorFactory {
    /// The plugin name used in `plugin = "..."`.
    pub name: &'static str,
    /// Builds an instance.
    pub build: Box<dyn SensorBuild>,
}

/// A named transformer plugin.
pub struct TransformerFactory {
    /// The plugin name used in `plugin = "..."`.
    pub name: &'static str,
    /// Builds an instance.
    pub build: Box<dyn TransformerBuild>,
}

/// A named hook plugin.
pub struct HookFactory {
    /// The plugin name used in `plugin = "..."`.
    pub name: &'static str,
    /// Builds an instance.
    pub build: Box<dyn HookBuild>,
}

/// A named terminator plugin.
pub struct TerminatorFactory {
    /// The plugin name used in `plugin = "..."` or as an action name.
    pub name: &'static str,
    /// Builds an instance.
    pub build: Box<dyn TerminatorBuild>,
}

/// A plugin factory of any kind.
pub enum PluginFactory {
    /// A sensor plugin.
    Sensor(SensorFactory),
    /// A transformer plugin.
    Transformer(TransformerFactory),
    /// A hook plugin.
    Hook(HookFactory),
    /// A terminator plugin.
    Terminator(TerminatorFactory),
}

/// The name a factory declares.
pub open spec fn factory_name(f: PluginFactory) -> Seq<char> {
    match f {
        PluginFactory::Sensor(s) => s.name@,
        PluginFactory::Transformer(t) => t.name@,
        PluginFactory::Hook(h) => h.name@,
        PluginFactory::Terminator(t) => t.name@,
    }
}

/// The kind of plugin a factory builds.
pub open spec fn factory_kind(f: PluginFactory) -> NodeKind {
    match f {
        PluginFactory::Sensor(_) => NodeKind::Sensor,
        PluginFactory::Transformer(_) => NodeKind::Transformer,
        PluginFactory::Hook(_) => NodeKind::Hook,
        PluginFactory::Terminator(_) => NodeKind::Terminator,
    }
}

impl PluginFactory {
    /// Returns the plugin name as declared in the factory.
    pub fn name(&self) -> (r: &'static str)
        ensures
            r@ == factory_name(*self),
    {
        match self {
            PluginFactory::Sensor(f) => f.name,
            PluginFactory::Transformer(f) => f.name,
            PluginFactory::Hook(f) => f.name,
            PluginFactory::Terminator(f) => f.name,
        }
    }

    /// Returns the [`NodeKind`] that corresponds to this factory's plugin type.
    pub fn kind(&self) -> (r: NodeKind)
        ensures
            r == factory_kind(*self),
    {
        match self {
            PluginFactory::Sensor(_) => NodeKind::Sensor,
            PluginFactory::Transformer(_) => NodeKind::Transformer,
            PluginFactory::Hook(_) => NodeKind::Hook,
            PluginFactory::Terminator(_) => NodeKind::Terminator,
        }
    }
}

impl From<SensorFactory> for PluginFactory {
    fn from(f: SensorFactory) -> (r: PluginFactory) {
        PluginFactory::Sensor(f)
    }
}

impl vstd::std_specs::convert::FromSpecImpl<SensorFactory> for PluginFactory {
    open spec fn obeys_from_spec() -> bool {
        true
    }

    open spec fn from_spec(f: SensorFactory) -> PluginFactory {
        PluginFactory::Sensor(f)
    }
}

impl From<TransformerFactory> for PluginFactory {
    fn from(f: TransformerFactory) -> (r: PluginFactory) {
        PluginFactory::Transformer(f)
    }
}

impl vstd::std_specs::convert::FromSpecImpl<TransformerFactory> for PluginFactory {
    open spec fn obeys_from_spec() -> bool {
        true
    }

    open spec fn from_spec(f: TransformerFactory) -> PluginFactory {
        PluginFactory::Transformer(f)
    }
}

impl From<HookFactory> for PluginFactory {
    fn from(f: HookFactory) -> (r: PluginFactory) {
        PluginFactory::Hook(f)
    }
}

impl vstd::std_specs::convert::FromSpecImpl<HookFactory> for PluginFactory {
    open spec fn obeys_from_spec() -> bool {
        true
    }

    open spec fn from_spec(f: HookFactory) -> PluginFactory {
        PluginFactory::Hook(f)
    }
}

impl From<TerminatorFactory> for PluginFactory {
    fn from(f: TerminatorFactory) -> (r: PluginFactory) {
        PluginFactory::Terminator(f)
    }
}

impl vstd::std_specs::convert::FromSpecImpl<TerminatorFactory> for PluginFactory {
    open spec fn obeys_from_spec() -> bool {
        true
    }

    open spec fn from_spec(f: TerminatorFactory) -> PluginFactory {
        PluginFactory::Terminator(f)
    }
}

/// Why a factory cannot be added to the catalog.
#[derive(Debug, PartialEq, Eq)]
pub enum CatalogError {
    /// A plugin of this name is already registered.
    DuplicateName(String),
}

/// Plugin factories by name; no name occurs twice.
pub struct PluginCatalog {
    factories: Vec<PluginFactory>,
}

impl PluginCatalog {
    /// The registered names, in registration order.
    pub closed spec fn names(&self) -> Seq<Seq<char>> {
        self.factories@.map_values(|f: PluginFactory| factory_name(f))
    }

    /// The kind of plugin registered under each name.
    pub closed spec fn kinds(&self) -> Map<Seq<char>, NodeKind> {
        Map::new(
            |n: Seq<char>| self.names().contains(n),
            |n: Seq<char>| factory_kind(self.factories@[self.names().index_of(n)]),
        )
    }

    /// The factory registered under `name`.
    pub closed spec fn factory(&self, name: Seq<char>) -> PluginFactory {
        self.factories@[self.names().index_of(name)]
    }

    #[verifier::type_invariant]
    closed spec fn names_distinct(&self) -> bool {
        self.names().no_duplicates()
    }

    /// An empty catalog.
    pub fn new() -> (r: PluginCatalog)
        ensures
            r.kinds() == Map::<Seq<char>, NodeKind>::empty(),
    {
        let r = PluginCatalog { factories: Vec::new() };
        proof {
            assert(r.kinds() =~= Map::<Seq<char>, NodeKind>::empty());
        }
        r
    }

    /// The position of the factory named `name`, if any.
    fn position(&self, name: &str) -> (r: Option<usize>)
        ensures
            match r {
                Some(i) => i < self.names().len() && self.names()[i as int] == name@,
                None => !self.names().contains(name@),
            },
    {
        let mut i: usize = 0;
        while i < self.factories.len()
            invariant
                i <= self.factories@.len(),
                forall|j: int| 0 <= j < i ==> self.names()[j] != name@,
            decreases self.factories.len() - i,
        {
            if str_eq(self.factories[i].name(), name) {
                return Some(i);
            }
            i = i + 1;
        }
        None
    }

    /// Adds `factory`; fails when its name is already registered.
    pub fn register(&mut self, factory: PluginFactory) -> (r: Result<(), CatalogError>)
        ensures
            r is Err <==> old(self).kinds().contains_key(factory_name(factory)),
            r matches Err(CatalogError::DuplicateName(n)) ==> n@ == factory_name(factory),
            r is Ok ==> final(self).kinds() == old(self).kinds().insert(factory_name(factory), factory_kind(factory)),
            r is Ok ==> final(self).factory(factory_name(factory)) == factory,
            r is Err ==> final(self).kinds() == old(self).kinds(),
            forall|n: Seq<char>| #![trigger final(self).factory(n)] old(self).kinds().contains_key(n) ==> final(self).factory(n)
                == old(self).factory(n),
    {
        proof {
            use_type_invariant(&*self);
        }
        let name = factory.name();
        match self.position(name) {
            Some(_) => {
                return Err(CatalogError::DuplicateName(name.to_owned()));
            },
            None => {},
        }
        let ghost old_names = self.names();
        let ghost old_kinds = self.kinds();
        let mut factories = Vec::new();
        std::mem::swap(&mut factories, &mut self.factories);
        factories.push(factory);
        proof {
            let new_names = factories@.map_values(|f: PluginFactory| factory_name(f));
            assert(new_names =~= old_names.push(name@));
            assert(new_names.no_duplicates()) by {
                assert forall|a: int, b: int| 0 <= a < b < new_names.len() implies new_names[a] != new_names[b] by {
                    if b == old_names.len() {
                        assert(old_names[a] == new_names[a]);
                    } else {
                        assert(old_names[a] == new_names[a] && old_names[b] == new_names[b]);
                    }
                }
            }
        }
        self.factories = factories;
        proof {
            let n = name@;
            let new_names = self.names();
            assert(new_names =~= old_names.push(n));
            assert forall|m: Seq<char>| #[trigger] self.kinds().contains_key(m) <==> old_kinds.insert(n, factory_kind(factory)).contains_key(m) by {
                if old_names.contains(m) {
                    let j = old_names.index_of(m);
                    assert(new_names[j] == m);
                }
                if new_names.contains(m) && m != n {
                    let j = new_names.index_of(m);
                    assert(j < old_names.len());
                    assert(old_names[j] == m);
                }
                if m == n {
                    assert(new_names[old_names.len() as int] == n);
                }
            }
            assert forall|m: Seq<char>| #[trigger] self.kinds().contains_key(m) implies self.kinds()[m] == old_kinds.insert(n, factory_kind(factory))[m] by {
                if m == n {
                    assert(new_names[old_names.len() as int] == n);
                    let j = new_names.index_of(m);
                    assert(j == old_names.len());
                } else {
                    let j = new_names.index_of(m);
                    assert(j < old_names.len());
                    assert(old_names[j] == m);
                    assert(old_names.index_of(m) == j) by {
                        let k = old_names.index_of(m);
                        assert(new_names[k] == m);
                    }
                }
            }
            assert(self.kinds() =~= old_kinds.insert(n, factory_kind(factory)));
            assert(new_names.index_of(n) == old_names.len()) by {
                assert(new_names[old_names.len() as int] == n);
            }
            assert(self.factory(n) == factory);
            assert forall|m: Seq<char>| old(self).kinds().contains_key(m) implies #[trigger] self.factory(m) == old(self).factory(m) by {
                let j = old_names.index_of(m);
                assert(old_names[j] == m);
                assert(new_names[j] == m);
                assert(new_names.index_of(m) == j) by {
                    let k = new_names.index_of(m);
                    if k != j {
                        assert(new_names[k] == m);
                    }
                }
            }
        }
        Ok(())
    }
}

/// Registers `factory`, whose name is not yet in `catalog`.
pub fn register(catalog: &mut PluginCatalog, factory: PluginFactory)
    requires
        !old(catalog).kinds().contains_key(factory_name(factory)),
    ensures
        final(catalog).kinds() == old(catalog).kinds().insert(factory_name(factory), factory_kind(factory)),
        final(catalog).factory(factory_name(factory)) == factory,
        forall|n: Seq<char>| #![trigger final(catalog).factory(n)] old(catalog).kinds().contains_key(n) ==> final(
            catalog).factory(n) == old(catalog).factory(n),
{
    let _ = catalog.register(factory);
}

/// Whether `catalog` has a plugin of kind `kind` named `name`.
pub open spec fn has_plugin(catalog: PluginCatalog, name: Seq<char>, kind: NodeKind) -> bool {
    catalog.kinds().contains_key(name) && catalog.kinds()[name] == kind
}

/// Looks up a registered sensor plugin by name.  Returns `None` if not registered.
pub fn get_sensor<'a>(catalog: &'a PluginCatalog, name: &str) -> (r: Option<&'a SensorFactory>)
    ensures
        r is Some <==> has_plugin(*catalog, name@, NodeKind::Sensor),
        r matches Some(f) ==> f.name@ == name@ && catalog.factory(name@) == PluginFactory::Sensor(*f),
{
    proof {
        use_type_invariant(catalog);
    }
    match catalog.position(name) {
        Some(i) => {
            proof {
                assert(catalog.names().index_of(name@) == i);
            }
            match &catalog.factories[i] {
                PluginFactory::Sensor(f) => Some(f),
                _ => None,
            }
        },
        None => None,
    }
}

/// Looks up a registered transformer plugin by name.  Returns `None` if not registered.
pub fn get_transformer<'a>(catalog: &'a PluginCatalog, name: &str) -> (r: Option<&'a TransformerFactory>)
    ensures
        r is Some <==> has_plugin(*catalog, name@, NodeKind::Transformer),
        r matches Some(f) ==> f.name@ == name@ && catalog.factory(name@) == PluginFactory::Transformer(*f),
{
    proof {
        use_type_invariant(catalog);
    }
    match catalog.position(name) {
        Some(i) => {
            proof {
                assert(catalog.names().index_of(name@) == i);
            }
            match &catalog.factories[i] {
                PluginFactory::Transformer(f) => Some(f),
                _ => None,
            }
        },
        None => None,
    }
}

/// Looks up a registered hook plugin by name.  Returns `None` if not registered.
pub fn get_hook<'a>(catalog: &'a PluginCatalog, name: &str) -> (r: Option<&'a HookFactory>)
    ensures
        r is Some <==> has_plugin(*catalog, name@, NodeKind::Hook),
        r matches Some(f) ==> f.name@ == name@ && catalog.factory(name@) == PluginFactory::Hook(*f),
{
    proof {
        use_type_invariant(catalog);
    }
    match catalog.position(name) {
        Some(i) => {
            proof {
                assert(catalog.names().index_of(name@) == i);
            }
            match &catalog.factories[i] {
                PluginFactory::Hook(f) => Some(f),
                _ => None,
            }
        },
        None => None,
    }
}

/// Looks up a registered terminator plugin by name.  Returns `None` if not registered.
pub fn get_terminator<'a>(catalog: &'a PluginCatalog, name: &str) -> (r: Option<&'a TerminatorFactory>)
    ensures
        r is Some <==> has_plugin(*catalog, name@, NodeKind::Terminator),
        r matches Some(f) ==> f.name@ == name@ && catalog.factory(name@) == PluginFactory::Terminator(*f),
{
    proof {
        use_type_invariant(catalog);
    }
    match catalog.position(name) {
        Some(i) => {
            proof {
                assert(catalog.names().index_of(name@) == i);
            }
            match &catalog.factories[i] {
                PluginFactory::Terminator(f) => Some(f),
                _ => None,
            }
        },
        None => None,
    }
}

} // verus!
