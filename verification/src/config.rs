//! The data of an ebuild: what the template is filled with, and the way from
//! a dependency graph and an audit to that data.

use crate::audit::{audit_result, finding_views, report_text, AuditOutcome};
use crate::error::EbuildError;
use crate::graph::{
    collect, graph_licenses, graph_warnings, optional_str, package_of, registry_entries, root_key,
    select_root, warning_views, DependencyGraph, GraphView, Package, PackageView, Warning,
    WarningView,
};
use crate::license_set::{strictly_sorted, LicenseSet};
use vstd::prelude::*;

verus! {

/// What an ebuild is written from. It is made once and not changed.
pub struct EbuildConfig {
    /// Name and version of the package that the ebuild is for.
    pub name: String,
    pub version: String,
    /// The licenses of all the packages, in ascending order, each once.
    pub licenses: Vec<String>,
    /// The lines of the crates to fetch, in the order of the graph.
    pub crates: Vec<String>,
    /// How many known vulnerabilities the ebuild is written in spite of.
    pub vulnerabilities: usize,
}

/// What an `EbuildConfig` holds, as plain text.
pub struct ConfigView {
    pub name: Seq<char>,
    pub version: Seq<char>,
    pub licenses: Seq<Seq<char>>,
    pub crates: Seq<Seq<char>>,
    pub vulnerabilities: nat,
}

impl View for EbuildConfig {
    type V = ConfigView;

    open spec fn view(&self) -> ConfigView {
        ConfigView {
            name: self.name@,
            version: self.version@,
            licenses: self.licenses.deep_view(),
            crates: self.crates.deep_view(),
            vulnerabilities: self.vulnerabilities as nat,
        }
    }
}

/// The configuration that a root package, the crates to fetch, the licenses
/// and the count of vulnerabilities make.
pub open spec fn config_of(
    root: PackageView,
    crates: Seq<Seq<char>>,
    licenses: Seq<Seq<char>>,
    vulnerabilities: nat,
) -> ConfigView {
    ConfigView { name: root.name, version: root.version, licenses, crates, vulnerabilities }
}

/// The name of the file that the ebuild of a package goes to.
pub open spec fn ebuild_file_name(name: Seq<char>, version: Seq<char>) -> Seq<char> {
    name + "-"@ + version + ".ebuild"@
}

impl EbuildConfig {
    /// The name of the file to write the ebuild to.
    pub fn file_name(&self) -> (r: String)
        ensures
            r@ == ebuild_file_name(self@.name, self@.version),
    {
        let mut r = self.name.clone();
        r.append("-");
        r.append(self.version.as_str());
        r.append(".ebuild");
        r
    }

    /// Makes the configuration for `package` from the crates to fetch and
    /// the licenses gathered.
    pub fn from_package(package: Package, crates: Vec<String>, licenses: &LicenseSet) -> (config:
        EbuildConfig)
        ensures
            config@ == config_of(package@, crates.deep_view(), licenses@, 0),
    {
        EbuildConfig {
            name: package.name,
            version: package.version,
            licenses: licenses.to_vec(),
            crates,
            vulnerabilities: 0,
        }
    }
}

/// Puts together the configuration of an ebuild.
///
/// This fails only where no root package was found, and then with
/// `NoRootPackage`. The audit does not decide here: its count of
/// vulnerabilities is recorded.
pub fn assemble(
    root: Option<Package>,
    crates: Vec<String>,
    licenses: &LicenseSet,
    audit: &AuditOutcome,
) -> (r: Result<EbuildConfig, EbuildError>)
    ensures
        match root {
            Some(package) => r matches Ok(config) && config@ == config_of(
                package@,
                crates.deep_view(),
                licenses@,
                audit.vulnerabilities(),
            ),
            None => r matches Err(e) && e is NoRootPackage,
        },
{
    match root {
        Some(package) => {
            let mut config = EbuildConfig::from_package(package, crates, licenses);
            config.vulnerabilities = audit.count();
            Ok(config)
        },
        None => Err(EbuildError::NoRootPackage),
    }
}

/// Whether the audit stops the work: it was asked for, and it found
/// vulnerabilities.
pub open spec fn audit_stops(audit: bool, outcome: AuditOutcome) -> bool {
    audit && outcome is Found
}

/// Whether the work gets as far as the walk over the packages: a root was
/// chosen, and the audit did not stop the work.
pub open spec fn reaches_walk(
    graph: GraphView,
    name: Option<Seq<char>>,
    audit: bool,
    outcome: AuditOutcome,
) -> bool {
    root_key(graph, name) is Some && !audit_stops(audit, outcome)
}

/// Makes the data of an ebuild from a resolved dependency graph, and hands
/// out beside it what the operator is to be told.
///
/// `package_name` names the package to write the ebuild for; without it the
/// resolution root of the graph is taken. `outcome` is how the audit ended,
/// and `audit` says whether it is to be heeded: an operator who switches the
/// audit off gets an ebuild whatever was found.
///
/// The steps, each of which can end the work: the root is chosen
/// (`PackageNotFound`, `RootUnresolved`); the audit is judged
/// (`AuditFailed`, with the report); every package is walked over and the
/// root package looked up (`NoRootPackage`). The warnings are those of the
/// walk, also where the root package is then missed; there are none where
/// the work ends before the walk.
pub fn gen_ebuild_data(
    graph: &DependencyGraph,
    package_name: Option<&str>,
    audit: bool,
    outcome: &AuditOutcome,
) -> (r: (Result<EbuildConfig, EbuildError>, Vec<Warning>))
    ensures
        match root_key(graph@, optional_str(package_name)) {
            None => r.0 matches Err(e) && (if package_name is Some {
                e is PackageNotFound
            } else {
                e is RootUnresolved
            }),
            Some(key) => if audit_stops(audit, *outcome) {
                &&& r.0 matches Err(EbuildError::AuditFailed(report))
                &&& *outcome matches AuditOutcome::Found { count, list }
                &&& report@ == report_text(count as nat, finding_views(list@))
            } else {
                match package_of(graph@.packages, key) {
                    None => r.0 matches Err(e) && e is NoRootPackage,
                    Some(root) => {
                        &&& r.0 matches Ok(config)
                        &&& config@.name == root.name
                        &&& config@.version == root.version
                        &&& config@.crates == registry_entries(graph@.packages)
                        &&& strictly_sorted(config@.licenses)
                        &&& config@.licenses.to_set() == graph_licenses(graph@.packages)
                        &&& config@.vulnerabilities == outcome.vulnerabilities()
                    },
                }
            },
        },
        warning_views(r.1@) == if reaches_walk(
            graph@,
            optional_str(package_name),
            audit,
            *outcome,
        ) {
            graph_warnings(graph@.packages)
        } else {
            Seq::<WarningView>::empty()
        },
{
    let key = match select_root(graph, package_name) {
        Ok(key) => key,
        Err(e) => {
            let none: Vec<Warning> = Vec::new();
            assert(warning_views(none@) =~= Seq::<WarningView>::empty());
            return (Err(e), none);
        },
    };
    if audit {
        match audit_result(outcome) {
            Ok(()) => {},
            Err(failure) => {
                let none: Vec<Warning> = Vec::new();
                assert(warning_views(none@) =~= Seq::<WarningView>::empty());
                return (Err(EbuildError::AuditFailed(failure.report)), none);
            },
        }
    }
    let collected = collect(graph, key.as_str());
    let config = assemble(collected.root, collected.crates, &collected.licenses, outcome);
    (config, collected.warnings)
}

} // verus!
