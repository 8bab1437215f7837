use cargo_ebuild::error::EbuildError;
use cargo_ebuild::graph::{
    add_licenses, collect, format_dependency, from_registry, select_root, DependencyGraph,
    Package, Warning, CRATES_IO_INDEX,
};
use cargo_ebuild::license_set::LicenseSet;

fn strings(items: &[&str]) -> Vec<String> {
    items.iter().map(|s| s.to_string()).collect()
}

fn package(name: &str, version: &str, license: Option<&str>, source: Option<&str>) -> Package {
    Package {
        id: format!("{} {}", name, version),
        name: name.to_string(),
        version: version.to_string(),
        license: license.map(|s| s.to_string()),
        license_file: false,
        source: source.map(|s| s.to_string()),
    }
}

fn lines(warnings: &[Warning]) -> Vec<String> {
    warnings.iter().map(|w| w.message()).collect()
}

fn sample() -> DependencyGraph {
    DependencyGraph {
        packages: vec![
            package("a", "0.1.0", Some("MIT OR Apache-2.0"), None),
            package("b", "1.0.0", Some("BSD-3-Clause"), Some(CRATES_IO_INDEX)),
            package("c", "2.3.4", Some("MIT"), Some(CRATES_IO_INDEX)),
        ],
        resolution_root: Some("a 0.1.0".to_string()),
    }
}

#[test]
fn select_root_without_name_takes_resolution_root() {
    assert_eq!(select_root(&sample(), None).unwrap(), "a 0.1.0");
}

#[test]
fn select_root_by_name_gives_key_of_that_package() {
    assert_eq!(select_root(&sample(), Some("c")).unwrap(), "c 2.3.4");
    assert_eq!(select_root(&sample(), Some("a")).unwrap(), "a 0.1.0");
}

#[test]
fn select_root_by_name_takes_first_of_several() {
    let mut graph = sample();
    graph.packages.push(package("b", "9.9.9", None, None));
    assert_eq!(select_root(&graph, Some("b")).unwrap(), "b 1.0.0");
}

#[test]
fn select_root_fails_without_resolution_root() {
    let mut graph = sample();
    graph.resolution_root = None;
    let e = select_root(&graph, None).unwrap_err();
    assert!(matches!(e, EbuildError::RootUnresolved));
    assert_eq!(e.message(), "cargo metadata failed to resolve the root package");
}

#[test]
fn select_root_fails_for_unknown_name() {
    let e = select_root(&sample(), Some("zzz")).unwrap_err();
    assert!(matches!(e, EbuildError::PackageNotFound));
    assert_eq!(e.message(), "cargo metadata contains no specified package");
}

#[test]
fn select_root_by_name_needs_no_resolution_root() {
    let mut graph = sample();
    graph.resolution_root = None;
    assert_eq!(select_root(&graph, Some("b")).unwrap(), "b 1.0.0");
}

#[test]
fn select_root_matches_names_exactly() {
    assert!(matches!(select_root(&sample(), Some("A")), Err(EbuildError::PackageNotFound)));
    assert!(matches!(select_root(&sample(), Some("")), Err(EbuildError::PackageNotFound)));
}

#[test]
fn select_root_in_empty_graph() {
    let graph = DependencyGraph { packages: Vec::new(), resolution_root: None };
    assert!(matches!(select_root(&graph, Some("a")), Err(EbuildError::PackageNotFound)));
    assert!(matches!(select_root(&graph, None), Err(EbuildError::RootUnresolved)));
}

#[test]
fn collect_lists_registry_packages_in_graph_order() {
    let c = collect(&sample(), "a 0.1.0");
    assert_eq!(c.crates, strings(&["\tb-1.0.0\n", "\tc-2.3.4\n"]));
    assert_eq!(c.root.unwrap().name, "a");
}

#[test]
fn collect_keeps_graph_order_not_name_order() {
    let graph = DependencyGraph {
        packages: vec![
            package("zeta", "1.0.0", None, Some(CRATES_IO_INDEX)),
            package("root", "0.1.0", None, None),
            package("alpha", "2.0.0", None, Some(CRATES_IO_INDEX)),
        ],
        resolution_root: Some("root 0.1.0".to_string()),
    };
    let c = collect(&graph, "root 0.1.0");
    assert_eq!(c.crates, strings(&["\tzeta-1.0.0\n", "\talpha-2.0.0\n"]));
}

#[test]
fn collect_leaves_out_other_sources() {
    let graph = DependencyGraph {
        packages: vec![
            package("git", "1.0.0", None, Some("git+https://github.com/rust-lang/log#abc")),
            package("other", "1.0.0", None, Some("registry+https://example.org/index")),
            package("sparse", "1.0.0", None, Some("sparse+https://index.crates.io/")),
            package("local", "1.0.0", None, None),
            package("real", "1.0.0", None, Some(CRATES_IO_INDEX)),
        ],
        resolution_root: None,
    };
    let c = collect(&graph, "local 1.0.0");
    assert_eq!(c.crates, strings(&["\treal-1.0.0\n"]));
}

#[test]
fn from_registry_tells_the_registry_from_the_rest() {
    assert!(from_registry(&package("a", "1", None, Some(CRATES_IO_INDEX))));
    assert!(from_registry(&package(
        "a",
        "1",
        None,
        Some("registry+https://github.com/rust-lang/crates.io-index")
    )));
    assert!(!from_registry(&package("a", "1", None, None)));
    assert!(!from_registry(&package("a", "1", None, Some(""))));
    assert!(!from_registry(&package("a", "1", None, Some("registry+https://example.org"))));
}

#[test]
fn format_dependency_writes_one_line() {
    assert_eq!(format_dependency("serde", "1.0.130"), "\tserde-1.0.130\n");
    assert_eq!(format_dependency("a-b", "0.1.0-rc.1"), "\ta-b-0.1.0-rc.1\n");
}

#[test]
fn collect_gathers_canonical_licenses_in_order() {
    let c = collect(&sample(), "a 0.1.0");
    assert_eq!(c.licenses.to_vec(), strings(&["Apache-2.0", "BSD", "MIT"]));
    assert!(c.warnings.is_empty());
}

#[test]
fn collect_passes_unknown_tokens_through_and_warns() {
    let graph = DependencyGraph {
        packages: vec![
            package("a", "0.1.0", Some("Apache-2.0 WITH LLVM-exception"), None),
            package("b", "1.0.0", Some("Strange-1.0 OR Zlib"), Some(CRATES_IO_INDEX)),
        ],
        resolution_root: None,
    };
    let c = collect(&graph, "a 0.1.0");
    assert_eq!(
        c.licenses.to_vec(),
        strings(&["Apache-2.0", "LLVM-exception", "Strange-1.0", "ZLIB"])
    );
    assert_eq!(
        lines(&c.warnings),
        strings(&[
            "WARNING: unknown license \"LLVM-exception\", please correct manually",
            "WARNING: unknown license \"Strange-1.0\", please correct manually",
        ])
    );
}

#[test]
fn collect_merges_tokens_that_share_a_canonical_name() {
    let graph = DependencyGraph {
        packages: vec![
            package("a", "0.1.0", Some("GPL-2.0 OR GPL-2.0-only"), None),
            package("b", "0.1.0", Some("Zlib AND zlib-acknowledgement"), None),
        ],
        resolution_root: None,
    };
    let c = collect(&graph, "a 0.1.0");
    assert_eq!(c.licenses.to_vec(), strings(&["GPL-2", "ZLIB"]));
}

#[test]
fn collect_warns_of_license_file_without_expression() {
    let mut with_file = package("filed", "1.0.0", None, Some(CRATES_IO_INDEX));
    with_file.license_file = true;
    let graph = DependencyGraph {
        packages: vec![with_file, package("plain", "1.0.0", None, None)],
        resolution_root: None,
    };
    let c = collect(&graph, "plain 1.0.0");
    assert!(c.licenses.to_vec().is_empty());
    assert_eq!(lines(&c.warnings), strings(&["WARNING: filed uses a license-file, not handled"]));
    assert_eq!(c.crates, strings(&["\tfiled-1.0.0\n"]));
}

#[test]
fn collect_does_not_warn_of_license_file_beside_expression() {
    let mut both = package("both", "1.0.0", Some("MIT"), None);
    both.license_file = true;
    let graph = DependencyGraph { packages: vec![both], resolution_root: None };
    let c = collect(&graph, "both 1.0.0");
    assert_eq!(c.licenses.to_vec(), strings(&["MIT"]));
    assert!(c.warnings.is_empty());
}

#[test]
fn collect_omits_package_with_neither_license_nor_file() {
    let graph = DependencyGraph {
        packages: vec![package("bare", "1.0.0", None, None)],
        resolution_root: None,
    };
    let c = collect(&graph, "bare 1.0.0");
    assert!(c.licenses.to_vec().is_empty());
    assert!(c.warnings.is_empty());
}

#[test]
fn collect_treats_empty_expression_as_no_license() {
    let graph = DependencyGraph {
        packages: vec![package("empty", "1.0.0", Some(""), None)],
        resolution_root: None,
    };
    let c = collect(&graph, "empty 1.0.0");
    assert!(c.licenses.to_vec().is_empty());
    assert!(c.warnings.is_empty());
}

#[test]
fn collect_keeps_warnings_in_package_order() {
    let mut filed = package("m", "1.0.0", None, None);
    filed.license_file = true;
    let graph = DependencyGraph {
        packages: vec![
            package("z", "1.0.0", Some("Zed OR Alpha"), None),
            filed,
            package("a", "1.0.0", Some("Beta"), None),
        ],
        resolution_root: None,
    };
    let c = collect(&graph, "z 1.0.0");
    assert_eq!(
        lines(&c.warnings),
        strings(&[
            "WARNING: unknown license \"Zed\", please correct manually",
            "WARNING: unknown license \"Alpha\", please correct manually",
            "WARNING: m uses a license-file, not handled",
            "WARNING: unknown license \"Beta\", please correct manually",
        ])
    );
    assert_eq!(c.licenses.to_vec(), strings(&["Alpha", "Beta", "Zed"]));
}

#[test]
fn collect_finds_no_root_under_unknown_key() {
    let c = collect(&sample(), "nothing 0.0.0");
    assert!(c.root.is_none());
    assert_eq!(c.crates.len(), 2);
}

#[test]
fn collect_takes_last_package_under_a_key() {
    let mut first = package("dup", "1.0.0", None, None);
    first.id = "same".to_string();
    let mut second = package("dup2", "2.0.0", None, None);
    second.id = "same".to_string();
    let graph = DependencyGraph { packages: vec![first, second], resolution_root: None };
    assert_eq!(collect(&graph, "same").root.unwrap().name, "dup2");
}

#[test]
fn collect_of_empty_graph_is_empty() {
    let graph = DependencyGraph { packages: Vec::new(), resolution_root: None };
    let c = collect(&graph, "a");
    assert!(c.root.is_none());
    assert!(c.crates.is_empty());
    assert!(c.licenses.to_vec().is_empty());
    assert!(c.warnings.is_empty());
}

#[test]
fn add_licenses_adds_to_what_is_there() {
    let mut set = LicenseSet::new();
    set.insert("MIT".to_string());
    let mut warnings = vec![Warning::LicenseFile("earlier".to_string())];
    add_licenses("(Unknown-1 OR MIT) AND ISC", &mut set, &mut warnings);
    assert_eq!(set.to_vec(), strings(&["ISC", "MIT", "Unknown-1"]));
    assert_eq!(
        lines(&warnings),
        strings(&[
            "WARNING: earlier uses a license-file, not handled",
            "WARNING: unknown license \"Unknown-1\", please correct manually",
        ])
    );
}

#[test]
fn duplicate_copies_every_field() {
    let mut p = package("a", "1.2.3", Some("MIT"), Some(CRATES_IO_INDEX));
    p.license_file = true;
    let q = p.duplicate();
    assert_eq!(q.id, p.id);
    assert_eq!(q.name, p.name);
    assert_eq!(q.version, p.version);
    assert_eq!(q.license, p.license);
    assert_eq!(q.license_file, p.license_file);
    assert_eq!(q.source, p.source);
}

#[test]
fn graph_needs_a_resolution() {
    let r = DependencyGraph::resolved(sample().packages, None);
    let e = r.err().unwrap();
    assert!(matches!(e, EbuildError::GraphUnresolved));
    assert_eq!(e.message(), "cargo metadata did not resolve the depend graph");
}

#[test]
fn graph_of_a_resolution_with_and_without_root() {
    let with = DependencyGraph::resolved(sample().packages, Some(Some("a 0.1.0".to_string())))
        .ok()
        .unwrap();
    assert_eq!(with.resolution_root, Some("a 0.1.0".to_string()));
    assert_eq!(with.packages.len(), 3);
    assert_eq!(with.packages[1].name, "b");
    let without = DependencyGraph::resolved(Vec::new(), Some(None)).ok().unwrap();
    assert_eq!(without.resolution_root, None);
    assert!(without.packages.is_empty());
}

#[test]
fn error_messages() {
    assert_eq!(
        EbuildError::NoRootPackage.message(),
        "unable to determine package to generate ebuild for"
    );
    assert_eq!(EbuildError::AuditFailed("the report".to_string()).message(), "the report");
}
