use oxidized_importer::collector::{
    Artifact, CollectorError, DistributionFlavor, ExtensionModule, ModuleBytecode, ModuleSource,
    OptimizeLevel,
    OxidizedResourceCollector, PackageDistributionResource, PackageResource,
};
use oxidized_importer::location::{location_token, parse_location, AbstractLocation};

fn collector(tokens: &[&str]) -> OxidizedResourceCollector {
    let tokens: Vec<String> = tokens.iter().map(|t| t.to_string()).collect();
    OxidizedResourceCollector::new(&tokens).unwrap()
}

fn every_kind() -> Vec<Artifact> {
    vec![
        Artifact::ModuleSource(ModuleSource {
            name: "pkg.mod".to_string(),
            source: b"x = 1\n".to_vec(),
            is_package: false,
            cache_tag: "cpython-312".to_string(),
        }),
        Artifact::ModuleBytecode(ModuleBytecode {
            name: "pkg.mod".to_string(),
            bytecode: vec![1, 2, 3],
            optimize_level: OptimizeLevel::One,
            is_package: false,
            cache_tag: "cpython-312".to_string(),
        }),
        Artifact::ExtensionModule(ExtensionModule {
            name: "pkg._speedups".to_string(),
            init_fn: None,
            extension_file_suffix: ".so".to_string(),
            shared_library: Some(vec![0x7f, b'E', b'L', b'F']),
            is_package: false,
        }),
        Artifact::PackageResource(PackageResource {
            leaf_package: "pkg".to_string(),
            relative_name: "data/file.txt".to_string(),
            data: b"hello".to_vec(),
        }),
        Artifact::PackageDistributionResource(PackageDistributionResource {
            flavor: DistributionFlavor::DistInfo,
            package: "pkg".to_string(),
            version: "1.0".to_string(),
            name: "METADATA".to_string(),
            data: b"Name: pkg\n".to_vec(),
        }),
    ]
}

fn rejected_name(r: Result<(), CollectorError>) -> String {
    match r {
        Err(CollectorError::Rejected { name, .. }) => name,
        other => panic!("expected a rejection, got {:?}", other),
    }
}

#[test]
fn location_tokens_parse() {
    assert_eq!(parse_location("in-memory"), Ok(AbstractLocation::InMemory));
    assert_eq!(parse_location("filesystem-relative"), Ok(AbstractLocation::RelativePath));
    assert!(parse_location("filesystem-relative:lib").is_err());
    assert!(parse_location("").is_err());
    assert_eq!(location_token(AbstractLocation::InMemory), "in-memory");
    assert_eq!(location_token(AbstractLocation::RelativePath), "filesystem-relative");
}

#[test]
fn construction_checks_tokens() {
    let none: Vec<String> = vec![];
    assert!(matches!(OxidizedResourceCollector::new(&none), Err(CollectorError::NoLocations)));
    let bad = vec!["in-memory".to_string(), "on-disk".to_string()];
    assert_eq!(
        OxidizedResourceCollector::new(&bad).err(),
        Some(CollectorError::InvalidLocation(
            "on-disk is not a valid resource location".to_string()
        ))
    );
    let c = collector(&["filesystem-relative", "in-memory"]);
    assert_eq!(
        c.allowed_locations(),
        vec!["filesystem-relative".to_string(), "in-memory".to_string()]
    );
}

#[test]
fn disallowed_location_is_rejected_for_every_kind() {
    let mut memory_only = collector(&["in-memory"]);
    let mut files_only = collector(&["filesystem-relative"]);
    for artifact in every_kind() {
        let key = match &artifact {
            Artifact::ModuleSource(m) => m.name.clone(),
            Artifact::ModuleBytecode(m) => m.name.clone(),
            Artifact::ExtensionModule(m) => m.name.clone(),
            Artifact::PackageResource(r) => r.leaf_package.clone(),
            Artifact::PackageDistributionResource(r) => r.package.clone(),
        };
        assert_eq!(
            rejected_name(memory_only.add_filesystem_relative("lib".to_string(), &artifact)),
            key
        );
        assert_eq!(rejected_name(files_only.add_in_memory(&artifact)), key);
    }
}

#[test]
fn allowed_location_accepts_every_kind() {
    let mut c = collector(&["in-memory", "filesystem-relative"]);
    for artifact in every_kind() {
        assert_eq!(c.add_in_memory(&artifact), Ok(()));
        assert_eq!(c.add_filesystem_relative("lib".to_string(), &artifact), Ok(()));
    }
}

#[test]
fn extension_without_library_is_refused_in_memory() {
    let mut c = collector(&["in-memory", "filesystem-relative"]);
    let bare = Artifact::ExtensionModule(ExtensionModule {
        name: "ext".to_string(),
        init_fn: None,
        extension_file_suffix: ".so".to_string(),
        shared_library: None,
        is_package: false,
    });
    assert_eq!(c.add_in_memory(&bare), Err(CollectorError::MissingSharedLibrary));
    let mut memory_refused = collector(&["filesystem-relative"]);
    assert_eq!(memory_refused.add_in_memory(&bare), Err(CollectorError::MissingSharedLibrary));
}

fn source(name: &str, text: &[u8]) -> Artifact {
    Artifact::ModuleSource(ModuleSource {
        name: name.to_string(),
        source: text.to_vec(),
        is_package: false,
        cache_tag: "cpython-312".to_string(),
    })
}

fn bare_extension(name: &str) -> Artifact {
    Artifact::ExtensionModule(ExtensionModule {
        name: name.to_string(),
        init_fn: None,
        extension_file_suffix: ".so".to_string(),
        shared_library: None,
        is_package: false,
    })
}

#[test]
fn adding_the_same_artifact_twice_overwrites() {
    let mut c = collector(&["in-memory"]);
    assert_eq!(c.add_in_memory(&source("m", b"old = 1\n")), Ok(()));
    assert_eq!(c.add_in_memory(&source("m", b"new = 1\n")), Ok(()));
    let entries: Vec<_> = c.resources().iter_resources().collect();
    assert_eq!(entries.len(), 1);
    let (name, entry) = entries[0];
    assert_eq!(name, "m");
    let stored = entry.in_memory_source.as_ref().unwrap().resolve_content().unwrap();
    assert_eq!(stored, b"new = 1\n".to_vec());
}

#[test]
fn bytecode_after_source_is_merged() {
    let mut c = collector(&["in-memory", "filesystem-relative"]);
    assert_eq!(c.add_in_memory(&source("m", b"x = 1\n")), Ok(()));
    let bytecode = Artifact::ModuleBytecode(ModuleBytecode {
        name: "m".to_string(),
        bytecode: vec![9, 9],
        optimize_level: OptimizeLevel::Zero,
        is_package: false,
        cache_tag: "cpython-312".to_string(),
    });
    assert_eq!(c.add_in_memory(&bytecode), Ok(()));
    assert_eq!(c.add_filesystem_relative("lib".to_string(), &source("m", b"y\n")), Ok(()));
    let (_, entry) = c.resources().iter_resources().next().unwrap();
    assert!(entry.in_memory_source.is_some());
    assert!(entry.in_memory_bytecode.is_some());
    let (prefix, _) = entry.relative_path_module_source.as_ref().unwrap();
    assert_eq!(prefix, "lib");
}

#[test]
fn extension_without_library_is_kept_on_the_filesystem() {
    let mut c = collector(&["filesystem-relative"]);
    assert_eq!(c.add_filesystem_relative("lib".to_string(), &bare_extension("ext")), Ok(()));
    assert_eq!(c.kept_extensions(), &vec![("ext".to_string(), "lib".to_string())]);
    assert_eq!(c.resources().iter_resources().count(), 0);
    let mut memory_only = collector(&["in-memory"]);
    assert_eq!(
        rejected_name(memory_only.add_filesystem_relative("lib".to_string(), &bare_extension("ext"))),
        "ext"
    );
    assert!(memory_only.kept_extensions().is_empty());
}

#[test]
fn rejected_add_changes_nothing() {
    let mut c = collector(&["in-memory"]);
    assert_eq!(c.add_in_memory(&source("a", b"1\n")), Ok(()));
    assert!(c.add_filesystem_relative("lib".to_string(), &source("b", b"2\n")).is_err());
    let names: Vec<String> = c.resources().iter_resources().map(|(n, _)| n.clone()).collect();
    assert_eq!(names, vec!["a".to_string()]);
}
