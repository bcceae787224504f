use python_packaging::location::{AbstractResourceLocation, ConcreteResourceLocation};
use python_packaging::resource::{
    BytecodeOptimizationLevel, PythonExtensionModule, PythonModuleBytecode, PythonModuleSource,
    PythonPackageDistributionResource, PythonPackageDistributionResourceFlavor, PythonPackageResource,
};
use python_packaging::resource_collection::PythonResourceCollector;
use vstd::prelude::*;

use crate::location::{
    abstract_location, abstract_of, invalid_location_message, location_token, parse_location, parse_spec,
    prefix_of, token_of, AbstractLocation, ConcreteLocation,
};
use crate::text::views;

verus! {

#[verifier::external_type_specification]
#[verifier::external_body]
pub struct ExPythonResourceCollector(PythonResourceCollector);

/// Names of the entries that python_packaging's collector holds (modules and packages).
pub uninterp spec fn collected_names(c: PythonResourceCollector) -> Set<Seq<char>>;

/// The locations python_packaging's collector accepts resources in.
pub uninterp spec fn allowed_of(c: PythonResourceCollector) -> Seq<AbstractLocation>;

/// The locations python_packaging's collector accepts extension modules in.
pub uninterp spec fn extension_allowed_of(c: PythonResourceCollector) -> Seq<AbstractLocation>;

/// The filled slots of python_packaging's collector entries, one record each:
/// (entry name, kind, file name within the entry, placed on the filesystem, prefix kept as given,
/// content). The file name is that of a package resource or distribution file, and empty
/// otherwise. Sources and bytecode placed on the filesystem keep their prefix as given; every
/// other record holds `None` there.
pub uninterp spec fn contributions(c: PythonResourceCollector) -> Set<Contribution>;

/// What an artifact contributes to an entry of the collector.
#[derive(Debug, Clone, Copy, PartialEq, Eq, Structural)]
pub enum ContributionKind {
    Source,
    Bytecode(OptimizeLevel),
    ExtensionModule,
    PackageResource,
    DistributionResource,
}

/// (entry name, kind, file name within the entry, placed on the filesystem, prefix kept as
/// given, content).
pub type Contribution = (Seq<char>, ContributionKind, Seq<char>, bool, Option<Seq<char>>, Seq<u8>);

/// Two contributions fill the same slot: same entry, kind and file, both in memory or both on
/// the filesystem. A later contribution replaces an earlier one in its slot.
pub open spec fn same_slot(x: Contribution, y: Contribution) -> bool {
    &&& x.0 == y.0
    &&& x.1 == y.1
    &&& x.2 == y.2
    &&& x.3 == y.3
}

/// `s` once `c` is recorded: it replaces what filled its slot, and all other slots stay.
pub open spec fn record(s: Set<Contribution>, c: Contribution) -> Set<Contribution> {
    s.filter(|x: Contribution| !same_slot(x, c)).insert(c)
}

/// An optimization level of compiled bytecode.
#[derive(Debug, Clone, Copy, PartialEq, Eq, Structural)]
pub enum OptimizeLevel {
    Zero,
    One,
    Two,
}

/// Source code of a module.
#[derive(Debug, Clone, PartialEq, Eq)]
pub struct ModuleSource {
    pub name: String,
    pub source: Vec<u8>,
    pub is_package: bool,
    pub cache_tag: String,
}

/// Compiled bytecode of a module.
#[derive(Debug, Clone, PartialEq, Eq)]
pub struct ModuleBytecode {
    pub name: String,
    pub bytecode: Vec<u8>,
    pub optimize_level: OptimizeLevel,
    pub is_package: bool,
    pub cache_tag: String,
}

/// A native extension module, with its shared library when one is known.
#[derive(Debug, Clone, PartialEq, Eq)]
pub struct ExtensionModule {
    pub name: String,
    pub init_fn: Option<String>,
    pub extension_file_suffix: String,
    pub shared_library: Option<Vec<u8>>,
    pub is_package: bool,
}

/// A data file of a package.
#[derive(Debug, Clone, PartialEq, Eq)]
pub struct PackageResource {
    pub leaf_package: String,
    pub relative_name: String,
    pub data: Vec<u8>,
}

/// The kind of metadata directory a distribution file comes from.
#[derive(Debug, Clone, Copy, PartialEq, Eq, Structural)]
pub enum DistributionFlavor {
    DistInfo,
    EggInfo,
}

/// A metadata file of a package's distribution.
#[derive(Debug, Clone, PartialEq, Eq)]
pub struct PackageDistributionResource {
    pub flavor: DistributionFlavor,
    pub package: String,
    pub version: String,
    pub name: String,
    pub data: Vec<u8>,
}

/// One packageable unit.
#[derive(Debug, Clone, PartialEq, Eq)]
pub enum Artifact {
    ModuleSource(ModuleSource),
    ModuleBytecode(ModuleBytecode),
    ExtensionModule(ExtensionModule),
    PackageResource(PackageResource),
    PackageDistributionResource(PackageDistributionResource),
}

/// The collector entry an artifact contributes to: its module, or its owning package.
pub open spec fn artifact_key(a: Artifact) -> Seq<char> {
    match a {
        Artifact::ModuleSource(m) => m.name@,
        Artifact::ModuleBytecode(m) => m.name@,
        Artifact::ExtensionModule(m) => m.name@,
        Artifact::PackageResource(r) => r.leaf_package@,
        Artifact::PackageDistributionResource(r) => r.package@,
    }
}

/// What an artifact placed at `l` contributes.
pub open spec fn contribution_of(a: Artifact, l: ConcreteLocation) -> Contribution {
    match a {
        Artifact::ModuleSource(m) => {
            (m.name@, ContributionKind::Source, Seq::empty(), l is RelativePath, prefix_of(l), m.source@)
        },
        Artifact::ModuleBytecode(m) => (
            m.name@,
            ContributionKind::Bytecode(m.optimize_level),
            Seq::empty(),
            l is RelativePath,
            prefix_of(l),
            m.bytecode@,
        ),
        Artifact::ExtensionModule(m) => (
            m.name@,
            ContributionKind::ExtensionModule,
            Seq::empty(),
            l is RelativePath,
            None,
            m.shared_library->0@,
        ),
        Artifact::PackageResource(r) => (
            r.leaf_package@,
            ContributionKind::PackageResource,
            r.relative_name@,
            l is RelativePath,
            None,
            r.data@,
        ),
        Artifact::PackageDistributionResource(r) => {
            (r.package@, ContributionKind::DistributionResource, r.name@, l is RelativePath, None, r.data@)
        },
    }
}

/// Why collecting failed.
#[derive(Debug, Clone, PartialEq, Eq)]
pub enum CollectorError {
    /// A location token names no location.
    InvalidLocation(String),
    /// No location was allowed.
    NoLocations,
    /// An extension module meant for memory carries no shared library.
    MissingSharedLibrary,
    /// The collector refused the artifact whose entry is `name`.
    Rejected { name: String, message: String },
}

/// What python_packaging's collector does on an add of `contribution` that passes its checks
/// when `passes` holds.
pub open spec fn add_outcome(
    before: PythonResourceCollector,
    after: PythonResourceCollector,
    contribution: Contribution,
    passes: bool,
    ok: bool,
) -> bool {
    if passes {
        &&& ok
        &&& collected_names(after) == collected_names(before).insert(contribution.0)
        &&& contributions(after) == record(contributions(before), contribution)
        &&& allowed_of(after) == allowed_of(before)
        &&& extension_allowed_of(after) == extension_allowed_of(before)
    } else {
        !ok && after == before
    }
}

/// Relies on `PythonResourceCollector::new`: an empty collector that allows `allowed` for every
/// kind of resource, extension modules included.
#[verifier::external_body]
fn new_collector(allowed: &Vec<AbstractLocation>) -> (r: PythonResourceCollector)
    ensures
        collected_names(r) == Set::<Seq<char>>::empty(),
        contributions(r) == Set::<Contribution>::empty(),
        allowed_of(r) == allowed@,
        extension_allowed_of(r) == allowed@,
{
    let a: Vec<AbstractResourceLocation> = allowed.iter().map(|l| match l {
        AbstractLocation::InMemory => AbstractResourceLocation::InMemory,
        AbstractLocation::RelativePath => AbstractResourceLocation::RelativePath,
    }).collect();
    PythonResourceCollector::new(a.clone(), a, true, true)
}

/// Relies on `PythonResourceCollector::add_python_module_source`: it checks the location against
/// the allowed ones before it changes anything, then records the source and, on the filesystem,
/// the prefix as given under the module's entry.
#[verifier::external_body]
fn add_source(c: &mut PythonResourceCollector, m: &ModuleSource, l: &ConcreteLocation) -> (r: Result<(), String>)
    ensures
        add_outcome(
            *old(c),
            *final(c),
            (m.name@, ContributionKind::Source, Seq::empty(), *l is RelativePath, prefix_of(*l), m.source@),
            allowed_of(*old(c)).contains(abstract_of(*l)),
            r is Ok,
        ),
{
    let loc = match l {
        ConcreteLocation::InMemory => ConcreteResourceLocation::InMemory,
        ConcreteLocation::RelativePath(p) => ConcreteResourceLocation::RelativePath(p.clone()),
    };
    let module = PythonModuleSource {
        name: m.name.clone(),
        source: m.source.clone().into(),
        is_package: m.is_package,
        cache_tag: m.cache_tag.clone(),
        is_stdlib: false,
        is_test: false,
    };
    c.add_python_module_source(&module, &loc).map(|_| ()).map_err(|e| format!("{:?}", e))
}

/// Relies on `PythonResourceCollector::add_python_module_bytecode`: it checks the location
/// before it changes anything, then records the bytes and, on the filesystem, the prefix as given
/// under the module's entry (bytes in memory always resolve).
#[verifier::external_body]
fn add_bytecode(c: &mut PythonResourceCollector, m: &ModuleBytecode, l: &ConcreteLocation) -> (r: Result<(), String>)
    ensures
        add_outcome(
            *old(c),
            *final(c),
            (
                m.name@,
                ContributionKind::Bytecode(m.optimize_level),
                Seq::empty(),
                *l is RelativePath,
                prefix_of(*l),
                m.bytecode@,
            ),
            allowed_of(*old(c)).contains(abstract_of(*l)),
            r is Ok,
        ),
{
    let loc = match l {
        ConcreteLocation::InMemory => ConcreteResourceLocation::InMemory,
        ConcreteLocation::RelativePath(p) => ConcreteResourceLocation::RelativePath(p.clone()),
    };
    let level = match m.optimize_level {
        OptimizeLevel::Zero => BytecodeOptimizationLevel::Zero,
        OptimizeLevel::One => BytecodeOptimizationLevel::One,
        OptimizeLevel::Two => BytecodeOptimizationLevel::Two,
    };
    let module = PythonModuleBytecode::new(&m.name, level, m.is_package, &m.cache_tag, &m.bytecode);
    c.add_python_module_bytecode(&module, &loc).map(|_| ()).map_err(|e| format!("{:?}", e))
}

/// Relies on `PythonResourceCollector::add_python_package_resource`: it checks the location
/// before it changes anything, then records the bytes under the package's entry; on the
/// filesystem it keeps a path built from the prefix, not the prefix itself.
#[verifier::external_body]
fn add_resource(c: &mut PythonResourceCollector, x: &PackageResource, l: &ConcreteLocation) -> (r: Result<(), String>)
    ensures
        add_outcome(
            *old(c),
            *final(c),
            (
                x.leaf_package@,
                ContributionKind::PackageResource,
                x.relative_name@,
                *l is RelativePath,
                None,
                x.data@,
            ),
            allowed_of(*old(c)).contains(abstract_of(*l)),
            r is Ok,
        ),
{
    let loc = match l {
        ConcreteLocation::InMemory => ConcreteResourceLocation::InMemory,
        ConcreteLocation::RelativePath(p) => ConcreteResourceLocation::RelativePath(p.clone()),
    };
    let resource = PythonPackageResource {
        leaf_package: x.leaf_package.clone(),
        relative_name: x.relative_name.clone(),
        data: x.data.clone().into(),
        is_stdlib: false,
        is_test: false,
    };
    c.add_python_package_resource(&resource, &loc).map(|_| ()).map_err(|e| format!("{:?}", e))
}

/// Relies on `PythonResourceCollector::add_python_package_distribution_resource`: it checks the
/// location before it changes anything, then records the bytes under the package's entry; on the
/// filesystem it keeps a path built from the prefix, not the prefix itself.
#[verifier::external_body]
fn add_distribution_resource(
    c: &mut PythonResourceCollector,
    x: &PackageDistributionResource,
    l: &ConcreteLocation,
) -> (r: Result<(), String>)
    ensures
        add_outcome(
            *old(c),
            *final(c),
            (x.package@, ContributionKind::DistributionResource, x.name@, *l is RelativePath, None, x.data@),
            allowed_of(*old(c)).contains(abstract_of(*l)),
            r is Ok,
        ),
{
    let loc = match l {
        ConcreteLocation::InMemory => ConcreteResourceLocation::InMemory,
        ConcreteLocation::RelativePath(p) => ConcreteResourceLocation::RelativePath(p.clone()),
    };
    let resource = PythonPackageDistributionResource {
        location: match x.flavor {
            DistributionFlavor::DistInfo => PythonPackageDistributionResourceFlavor::DistInfo,
            DistributionFlavor::EggInfo => PythonPackageDistributionResourceFlavor::EggInfo,
        },
        package: x.package.clone(),
        version: x.version.clone(),
        name: x.name.clone(),
        data: x.data.clone().into(),
    };
    c.add_python_package_distribution_resource(&resource, &loc).map(|_| ()).map_err(|e| format!("{:?}", e))
}

/// Relies on `PythonResourceCollector::add_python_extension_module`: before it changes anything it
/// checks the location, then that a shared library is present, then the extension module
/// locations; with no linked libraries it then records the library's bytes under the module's
/// entry, on the filesystem with a path built from the prefix, not the prefix itself.
#[verifier::external_body]
fn add_extension(c: &mut PythonResourceCollector, m: &ExtensionModule, l: &ConcreteLocation) -> (r: Result<(), String>)
    ensures
        add_outcome(
            *old(c),
            *final(c),
            (
                m.name@,
                ContributionKind::ExtensionModule,
                Seq::empty(),
                *l is RelativePath,
                None,
                m.shared_library->0@,
            ),
            allowed_of(*old(c)).contains(abstract_of(*l)) && m.shared_library is Some
                && extension_allowed_of(*old(c)).contains(abstract_of(*l)),
            r is Ok,
        ),
{
    let loc = match l {
        ConcreteLocation::InMemory => ConcreteResourceLocation::InMemory,
        ConcreteLocation::RelativePath(p) => ConcreteResourceLocation::RelativePath(p.clone()),
    };
    let module = PythonExtensionModule {
        name: m.name.clone(), init_fn: m.init_fn.clone(), is_package: m.is_package,
        extension_file_suffix: m.extension_file_suffix.clone(),
        shared_library: m.shared_library.clone().map(|d| d.into()),
        object_file_data: vec![], link_libraries: vec![], license: None, variant: None,
        is_stdlib: false, builtin_default: false, required: false,
    };
    c.add_python_extension_module(&module, &loc).map(|_| ()).map_err(|e| format!("{:?}", e))
}

/// An extension module meant for memory without a shared library: refused before anything else.
pub open spec fn lacks_library_in_memory(loc: ConcreteLocation, a: Artifact) -> bool {
    &&& loc is InMemory
    &&& a matches Artifact::ExtensionModule(m) && m.shared_library is None
}

/// An extension module without a shared library, placed where files are allowed: it lives on
/// the filesystem already, so it is kept aside rather than packaged.
pub open spec fn kept_on_filesystem(allowed: Seq<AbstractLocation>, loc: ConcreteLocation, a: Artifact) -> bool {
    &&& loc is RelativePath
    &&& a matches Artifact::ExtensionModule(m) && m.shared_library is None
    &&& allowed.contains(AbstractLocation::RelativePath)
}

/// Whether python_packaging's collector takes an add of `a` at `loc`, given the allowed locations.
pub open spec fn add_accepted(allowed: Seq<AbstractLocation>, loc: ConcreteLocation, a: Artifact) -> bool {
    &&& allowed.contains(abstract_of(loc))
    &&& (a matches Artifact::ExtensionModule(m) ==> m.shared_library is Some)
}

/// The locations named by `tokens`, when each names one.
pub open spec fn parsed_locations(tokens: Seq<String>) -> Option<Seq<AbstractLocation>> {
    if forall|i: int| 0 <= i < tokens.len() ==> (#[trigger] parse_spec(tokens[i]@)) is Some {
        Some(tokens.map_values(|t: String| parse_spec(t@)->0))
    } else {
        None
    }
}

/// `message` is the one for the first token of `tokens` that names no location.
pub open spec fn names_first_invalid(tokens: Seq<String>, message: Seq<char>) -> bool {
    exists|i: int|
        0 <= i < tokens.len() && (#[trigger] parse_spec(tokens[i]@)) is None
            && (forall|j: int| 0 <= j < i ==> (#[trigger] parse_spec(tokens[j]@)) is Some)
            && message == invalid_location_message(tokens[i]@)
}

/// Gathers artifacts, each at a location, for later compilation into packaged resources.
///
/// Adding to the slot of an earlier contribution (same entry, kind and file, same kind of
/// location) replaces it; contributions to other slots, such as bytecode after source, are kept.
pub struct OxidizedResourceCollector {
    allowed: Vec<AbstractLocation>,
    collector: PythonResourceCollector,
    kept: Vec<(String, String)>,
}

impl OxidizedResourceCollector {
    /// The collector's own records agree with python_packaging's.
    pub closed spec fn wf(&self) -> bool {
        &&& allowed_of(self.collector) == self.allowed@
        &&& extension_allowed_of(self.collector) == self.allowed@
    }

    /// python_packaging's collector underneath.
    pub closed spec fn state(&self) -> PythonResourceCollector {
        self.collector
    }

    /// The locations artifacts may be placed in.
    pub closed spec fn allowed(&self) -> Seq<AbstractLocation> {
        self.allowed@
    }

    /// The modules and packages that have received a contribution.
    pub closed spec fn names(&self) -> Set<Seq<char>> {
        collected_names(self.collector)
    }

    /// The contributions recorded so far.
    pub closed spec fn contributions(&self) -> Set<Contribution> {
        contributions(self.collector)
    }

    /// (name, prefix) of each extension module kept on the filesystem, in order of adding.
    pub closed spec fn kept_on_filesystem(&self) -> Seq<(Seq<char>, Seq<char>)> {
        self.kept@.map_values(|k: (String, String)| (k.0@, k.1@))
    }

    /// What an add of `a` at `loc` returns and how it changes the collector.
    pub open spec fn add_spec(
        before: Self,
        after: Self,
        loc: ConcreteLocation,
        a: Artifact,
        r: Result<(), CollectorError>,
    ) -> bool {
        &&& after.wf()
        &&& after.allowed() == before.allowed()
        &&& if lacks_library_in_memory(loc, a) {
            r == Err::<(), CollectorError>(CollectorError::MissingSharedLibrary) && after == before
        } else if kept_on_filesystem(before.allowed(), loc, a) {
            &&& r == Ok::<(), CollectorError>(())
            &&& after.state() == before.state()
            &&& after.kept_on_filesystem() == before.kept_on_filesystem().push((artifact_key(a), prefix_of(loc)->0))
        } else if add_accepted(before.allowed(), loc, a) {
            &&& r == Ok::<(), CollectorError>(())
            &&& after.names() == before.names().insert(artifact_key(a))
            &&& after.contributions() == record(before.contributions(), contribution_of(a, loc))
            &&& after.kept_on_filesystem() == before.kept_on_filesystem()
        } else {
            &&& r matches Err(CollectorError::Rejected { name, .. }) && name@ == artifact_key(a)
            &&& after == before
        }
    }

    /// A collector that allows the locations named by `allowed_locations`.
    pub fn new(allowed_locations: &Vec<String>) -> (r: Result<Self, CollectorError>)
        ensures
            allowed_locations.len() == 0 ==> r == Err::<Self, CollectorError>(CollectorError::NoLocations),
            allowed_locations.len() > 0 && parsed_locations(allowed_locations@) is None ==> {
                r matches Err(CollectorError::InvalidLocation(m)) && names_first_invalid(allowed_locations@, m@)
            },
            allowed_locations.len() > 0 && parsed_locations(allowed_locations@) is Some ==> {
                &&& r is Ok
                &&& r->Ok_0.wf()
                &&& r->Ok_0.allowed() == parsed_locations(allowed_locations@)->0
                &&& r->Ok_0.names() == Set::<Seq<char>>::empty()
                &&& r->Ok_0.contributions() == Set::<Contribution>::empty()
                &&& r->Ok_0.kept_on_filesystem() == Seq::<(Seq<char>, Seq<char>)>::empty()
            },
    {
        if allowed_locations.len() == 0 {
            return Err(CollectorError::NoLocations);
        }
        let mut allowed: Vec<AbstractLocation> = Vec::new();
        let mut i: usize = 0;
        while i < allowed_locations.len()
            invariant
                i <= allowed_locations.len(),
                allowed.len() == i,
                forall|j: int| 0 <= j < i ==> (#[trigger] parse_spec(allowed_locations@[j]@)) == Some(allowed@[j]),
            decreases allowed_locations.len() - i,
        {
            match parse_location(allowed_locations[i].as_str()) {
                Ok(l) => allowed.push(l),
                Err(message) => {
                    assert(parse_spec(allowed_locations@[i as int]@) is None);
                    assert(names_first_invalid(allowed_locations@, message@));
                    return Err(CollectorError::InvalidLocation(message));
                },
            }
            i += 1;
        }
        assert(allowed@ =~= allowed_locations@.map_values(|t: String| parse_spec(t@)->0));
        let collector = new_collector(&allowed);
        let kept: Vec<(String, String)> = Vec::new();
        let r = OxidizedResourceCollector { allowed, collector, kept };
        assert(r.kept_on_filesystem() =~= Seq::<(Seq<char>, Seq<char>)>::empty());
        Ok(r)
    }

    /// The tokens of the allowed locations, in order.
    pub fn allowed_locations(&self) -> (r: Vec<String>)
        ensures
            views(r@) == self.allowed().map_values(|l: AbstractLocation| token_of(l)),
    {
        let mut r: Vec<String> = Vec::new();
        let mut i: usize = 0;
        while i < self.allowed.len()
            invariant
                i <= self.allowed.len(),
                r.len() == i,
                views(r@) == self.allowed@.take(i as int).map_values(|l: AbstractLocation| token_of(l)),
            decreases self.allowed.len() - i,
        {
            let ghost prev = r@;
            r.push(location_token(self.allowed[i]));
            proof {
                assert forall|j: int| 0 <= j < i implies #[trigger] r@[j]@ == views(prev)[j] by {
                    assert(r@[j] == prev[j]);
                }
            }
            i += 1;
            assert(views(r@) =~= self.allowed@.take(i as int).map_values(|l: AbstractLocation| token_of(l)));
        }
        assert(self.allowed@.take(i as int) =~= self.allowed@);
        r
    }

    /// Whether `l` is allowed.
    fn allows(&self, l: AbstractLocation) -> (r: bool)
        ensures
            r == self.allowed@.contains(l),
    {
        let mut i: usize = 0;
        while i < self.allowed.len()
            invariant
                i <= self.allowed.len(),
                forall|j: int| 0 <= j < i ==> self.allowed@[j] != l,
            decreases self.allowed.len() - i,
        {
            if self.allowed[i] == l {
                assert(self.allowed@[i as int] == l);
                return true;
            }
            i += 1;
        }
        false
    }

    /// Adds `artifact` at `location`. On failure the collector is left as it was.
    pub fn add(&mut self, location: &ConcreteLocation, artifact: &Artifact) -> (r: Result<(), CollectorError>)
        requires
            old(self).wf(),
        ensures
            Self::add_spec(*old(self), *final(self), *location, *artifact, r),
    {
        let (name, outcome) = match artifact {
            Artifact::ExtensionModule(m) => {
                if m.shared_library.is_none() {
                    match location {
                        ConcreteLocation::InMemory => {
                            return Err(CollectorError::MissingSharedLibrary);
                        },
                        ConcreteLocation::RelativePath(prefix) => {
                            if self.allows(AbstractLocation::RelativePath) {
                                let ghost before = self.kept_on_filesystem();
                                self.kept.push((m.name.clone(), prefix.clone()));
                                assert(self.kept_on_filesystem() =~= before.push((m.name@, prefix@)));
                                return Ok(());
                            }
                        },
                    }
                }
                (m.name.clone(), add_extension(&mut self.collector, m, location))
            },
            Artifact::ModuleBytecode(m) => (m.name.clone(), add_bytecode(&mut self.collector, m, location)),
            Artifact::ModuleSource(m) => (m.name.clone(), add_source(&mut self.collector, m, location)),
            Artifact::PackageResource(x) => (x.leaf_package.clone(), add_resource(&mut self.collector, x, location)),
            Artifact::PackageDistributionResource(x) => {
                (x.package.clone(), add_distribution_resource(&mut self.collector, x, location))
            },
        };
        match outcome {
            Ok(()) => Ok(()),
            Err(message) => Err(CollectorError::Rejected { name, message }),
        }
    }

    /// Adds `artifact` to be loaded from memory.
    pub fn add_in_memory(&mut self, artifact: &Artifact) -> (r: Result<(), CollectorError>)
        requires
            old(self).wf(),
        ensures
            Self::add_spec(*old(self), *final(self), ConcreteLocation::InMemory, *artifact, r),
    {
        self.add(&ConcreteLocation::InMemory, artifact)
    }

    /// Adds `artifact` to be installed as a file below `prefix`.
    pub fn add_filesystem_relative(&mut self, prefix: String, artifact: &Artifact) -> (r: Result<(), CollectorError>)
        requires
            old(self).wf(),
        ensures
            Self::add_spec(*old(self), *final(self), ConcreteLocation::RelativePath(prefix), *artifact, r),
    {
        self.add(&ConcreteLocation::RelativePath(prefix), artifact)
    }

    /// python_packaging's collector, for compiling the collected resources.
    pub fn resources(&self) -> (r: &PythonResourceCollector)
        ensures
            *r == self.state(),
    {
        &self.collector
    }

    /// (name, prefix) of each extension module kept on the filesystem, in order of adding.
    pub fn kept_extensions(&self) -> (r: &Vec<(String, String)>)
        ensures
            r@.map_values(|k: (String, String)| (k.0@, k.1@)) == self.kept_on_filesystem(),
    {
        &self.kept
    }
}

} // verus!
