//! The resolved dependency graph: choosing the package to write an ebuild
//! for, and gathering from every package of the graph the crates to fetch,
//! the licenses that apply, and what the operator has to be warned of.

use crate::error::EbuildError;
use crate::license::{gentoo_license, license_tokens, normalize_license, split_spdx_license};
use crate::license_set::{strictly_sorted, LicenseSet};
use crate::text::same_text;
use vstd::prelude::*;

verus! {

/// The source that stands for the crates.io registry.
pub const CRATES_IO_INDEX: &'static str = "registry+https://github.com/rust-lang/crates.io-index";

/// One package of a resolved dependency graph.
pub struct Package {
    /// The key under which the graph knows the package.
    pub id: String,
    pub name: String,
    pub version: String,
    /// The license expression that the package declares, if any.
    pub license: Option<String>,
    /// Whether the package names a license file of its own.
    pub license_file: bool,
    /// Where the package comes from; `None` for a local one.
    pub source: Option<String>,
}

/// What a `Package` holds, as plain text.
pub struct PackageView {
    pub id: Seq<char>,
    pub name: Seq<char>,
    pub version: Seq<char>,
    pub license: Option<Seq<char>>,
    pub license_file: bool,
    pub source: Option<Seq<char>>,
}

/// The characters of an optional string.
pub open spec fn optional_text(s: Option<String>) -> Option<Seq<char>> {
    match s {
        Some(t) => Some(t@),
        None => None,
    }
}

impl View for Package {
    type V = PackageView;

    open spec fn view(&self) -> PackageView {
        PackageView {
            id: self.id@,
            name: self.name@,
            version: self.version@,
            license: optional_text(self.license),
            license_file: self.license_file,
            source: optional_text(self.source),
        }
    }
}

fn copy_optional(s: &Option<String>) -> (r: Option<String>)
    ensures
        optional_text(r) == optional_text(*s),
{
    match s {
        Some(t) => Some(t.clone()),
        None => None,
    }
}

impl Package {
    /// A copy of the package.
    pub fn duplicate(&self) -> (r: Package)
        ensures
            r@ == self@,
    {
        Package {
            id: self.id.clone(),
            name: self.name.clone(),
            version: self.version.clone(),
            license: copy_optional(&self.license),
            license_file: self.license_file,
            source: copy_optional(&self.source),
        }
    }
}

/// A resolved dependency graph: its packages in the order in which the
/// resolver lists them, and the key of its resolution root, if it has one.
pub struct DependencyGraph {
    pub packages: Vec<Package>,
    pub resolution_root: Option<String>,
}

/// What a `DependencyGraph` holds, as plain text.
pub struct GraphView {
    pub packages: Seq<PackageView>,
    pub resolution_root: Option<Seq<char>>,
}

/// The views of packages, in order.
pub open spec fn package_views(packages: Seq<Package>) -> Seq<PackageView> {
    packages.map_values(|p: Package| p@)
}

impl View for DependencyGraph {
    type V = GraphView;

    open spec fn view(&self) -> GraphView {
        GraphView {
            packages: package_views(self.packages@),
            resolution_root: optional_text(self.resolution_root),
        }
    }
}

impl DependencyGraph {
    /// Makes the graph from the packages and what the resolver says of the
    /// resolution: nothing where it did not resolve the dependencies, which
    /// is an error, else the key of the resolution root, if there is one.
    pub fn resolved(packages: Vec<Package>, resolution: Option<Option<String>>) -> (r: Result<
        DependencyGraph,
        EbuildError,
    >)
        ensures
            match resolution {
                Some(root) => r matches Ok(graph) && graph.packages == packages
                    && graph.resolution_root == root,
                None => r matches Err(e) && e is GraphUnresolved,
            },
    {
        match resolution {
            Some(root) => Ok(DependencyGraph { packages, resolution_root: root }),
            None => Err(EbuildError::GraphUnresolved),
        }
    }
}

/// Something the operator has to be told, and that does not stop the work.
#[derive(Debug)]
pub enum Warning {
    /// A license token that the table of Gentoo's names lacks. The token
    /// stands in the license set as it was written, to be corrected by hand.
    UnknownLicense(String),
    /// The named package declares no license expression but a license file,
    /// which adds nothing to the license set.
    LicenseFile(String),
}

/// What a `Warning` holds, as plain text.
pub enum WarningView {
    UnknownLicense(Seq<char>),
    LicenseFile(Seq<char>),
}

impl View for Warning {
    type V = WarningView;

    open spec fn view(&self) -> WarningView {
        match self {
            Warning::UnknownLicense(token) => WarningView::UnknownLicense(token@),
            Warning::LicenseFile(name) => WarningView::LicenseFile(name@),
        }
    }
}

/// The views of warnings, in order.
pub open spec fn warning_views(warnings: Seq<Warning>) -> Seq<WarningView> {
    warnings.map_values(|w: Warning| w@)
}

impl WarningView {
    /// The line that tells the operator of the warning.
    pub open spec fn text(self) -> Seq<char> {
        match self {
            WarningView::UnknownLicense(token) => "WARNING: unknown license \""@ + token
                + "\", please correct manually"@,
            WarningView::LicenseFile(name) => "WARNING: "@ + name
                + " uses a license-file, not handled"@,
        }
    }
}

impl Warning {
    /// The line that tells the operator of the warning.
    pub fn message(&self) -> (r: String)
        ensures
            r@ == self@.text(),
    {
        match self {
            Warning::UnknownLicense(token) => {
                let mut r = String::from_str("WARNING: unknown license \"");
                r.append(token.as_str());
                r.append("\", please correct manually");
                r
            },
            Warning::LicenseFile(name) => {
                let mut r = String::from_str("WARNING: ");
                r.append(name.as_str());
                r.append(" uses a license-file, not handled");
                r
            },
        }
    }
}

/// `i` is the first package of that name.
pub open spec fn is_first_named(packages: Seq<PackageView>, name: Seq<char>, i: int) -> bool {
    &&& 0 <= i < packages.len()
    &&& packages[i].name == name
    &&& forall|j: int| 0 <= j < i ==> (#[trigger] packages[j]).name != name
}

/// The characters of an optional string slice.
pub open spec fn optional_str(s: Option<&str>) -> Option<Seq<char>> {
    match s {
        Some(t) => Some(t@),
        None => None,
    }
}

/// The key of the package to write the ebuild for, if the graph has it.
///
/// With a name, it is the key of the first package of that name. Without, it
/// is the resolution root of the graph.
pub open spec fn root_key(graph: GraphView, name: Option<Seq<char>>) -> Option<Seq<char>> {
    match name {
        Some(n) => if exists|i: int| is_first_named(graph.packages, n, i) {
            Some(graph.packages[choose|i: int| is_first_named(graph.packages, n, i)].id)
        } else {
            None
        },
        None => graph.resolution_root,
    }
}

/// Chooses the package to write the ebuild for, and returns its key.
///
/// With a name, it is the first package of that name, and there has to be
/// one. Without, it is the resolution root of the graph, and the graph has to
/// have one.
pub fn select_root(graph: &DependencyGraph, package_name: Option<&str>) -> (r: Result<
    String,
    EbuildError,
>)
    ensures
        match r {
            Ok(id) => root_key(graph@, optional_str(package_name)) == Some(id@),
            Err(e) => {
                &&& root_key(graph@, optional_str(package_name)) is None
                &&& package_name is Some ==> e is PackageNotFound
                &&& package_name is None ==> e is RootUnresolved
            },
        },
{
    match package_name {
        Some(name) => {
            let mut i: usize = 0;
            while i < graph.packages.len()
                invariant
                    i <= graph.packages.len(),
                    package_name == Some(name),
                    forall|j: int| 0 <= j < i ==> (#[trigger] graph@.packages[j]).name != name@,
                decreases graph.packages.len() - i,
            {
                if same_text(graph.packages[i].name.as_str(), name) {
                    let id = graph.packages[i].id.clone();
                    proof {
                        assert(is_first_named(graph@.packages, name@, i as int));
                        let k = choose|k: int| is_first_named(graph@.packages, name@, k);
                        assert(k == i) by {
                            if k < i {
                                assert(graph@.packages[k].name != name@);
                            } else if i < k {
                                assert(graph@.packages[i as int].name != name@);
                            }
                        }
                    }
                    return Ok(id);
                }
                i += 1;
            }
            proof {
                assert forall|k: int| !is_first_named(graph@.packages, name@, k) by {
                    if 0 <= k < graph@.packages.len() {
                        assert(graph@.packages[k].name != name@);
                    }
                }
            }
            Err(EbuildError::PackageNotFound)
        },
        None => match &graph.resolution_root {
            Some(id) => Ok(id.clone()),
            None => Err(EbuildError::RootUnresolved),
        },
    }
}

/// A name chooses a root exactly if some package has that name, and the key
/// chosen is then that of the first such package.
pub proof fn lemma_root_key_named(graph: GraphView, name: Seq<char>)
    ensures
        root_key(graph, Some(name)) is Some <==> exists|i: int|
            0 <= i < graph.packages.len() && (#[trigger] graph.packages[i]).name == name,
        forall|i: int|
            is_first_named(graph.packages, name, i) ==> root_key(graph, Some(name)) == Some(
                (#[trigger] graph.packages[i]).id,
            ),
{
    assert forall|i: int| is_first_named(graph.packages, name, i) implies root_key(
        graph,
        Some(name),
    ) == Some((#[trigger] graph.packages[i]).id) by {
        let k = choose|k: int| is_first_named(graph.packages, name, k);
        if k < i {
            assert(graph.packages[k].name != name);
        } else if i < k {
            assert(graph.packages[i].name != name);
        }
    }
    if exists|i: int| 0 <= i < graph.packages.len() && (#[trigger] graph.packages[i]).name == name {
        let i = choose|i: int|
            0 <= i < graph.packages.len() && (#[trigger] graph.packages[i]).name == name;
        lemma_first_exists(graph.packages, name, i);
    }
    if root_key(graph, Some(name)) is Some {
        let k = choose|k: int| is_first_named(graph.packages, name, k);
        assert(graph.packages[k].name == name);
    }
}

/// Below a package of a given name there is a first one of that name.
proof fn lemma_first_exists(packages: Seq<PackageView>, name: Seq<char>, i: int)
    requires
        0 <= i < packages.len(),
        packages[i].name == name,
    ensures
        exists|k: int| is_first_named(packages, name, k),
    decreases i,
{
    if forall|j: int| 0 <= j < i ==> (#[trigger] packages[j]).name != name {
        assert(is_first_named(packages, name, i));
    } else {
        let j = choose|j: int| 0 <= j < i && (#[trigger] packages[j]).name == name;
        lemma_first_exists(packages, name, j);
    }
}

/// Whether the package was fetched from the crates.io registry.
pub open spec fn is_registry(p: PackageView) -> bool {
    p.source == Some(CRATES_IO_INDEX@)
}

/// The line that lists a crate of the given name and version among the
/// crates to fetch.
pub open spec fn dependency_entry(name: Seq<char>, version: Seq<char>) -> Seq<char> {
    "\t"@ + name + "-"@ + version + "\n"@
}

/// The lines of the crates to fetch: one for each package from the registry,
/// in the order of the packages.
pub open spec fn registry_entries(packages: Seq<PackageView>) -> Seq<Seq<char>> {
    packages.filter(|p: PackageView| is_registry(p)).map_values(
        |p: PackageView| dependency_entry(p.name, p.version),
    )
}

/// The name under which a license token goes into the license set: Gentoo's
/// name where the table has one, else the token as it was written.
pub open spec fn canonical(token: Seq<char>) -> Seq<char> {
    match gentoo_license(token) {
        Some(name) => name,
        None => token,
    }
}

/// The licenses that an expression adds to the license set.
pub open spec fn expression_licenses(expr: Seq<char>) -> Set<Seq<char>> {
    license_tokens(expr).map_values(|t: Seq<char>| canonical(t)).to_set()
}

/// The warnings that an expression gives rise to: one for each of its tokens
/// that the table lacks, in the order of the tokens.
pub open spec fn expression_warnings(expr: Seq<char>) -> Seq<WarningView> {
    license_tokens(expr).filter(|t: Seq<char>| gentoo_license(t) is None).map_values(
        |t: Seq<char>| WarningView::UnknownLicense(t),
    )
}

/// The licenses that a package adds to the license set.
pub open spec fn package_licenses(p: PackageView) -> Set<Seq<char>> {
    match p.license {
        Some(expr) => expression_licenses(expr),
        None => Set::empty(),
    }
}

/// The warnings that a package gives rise to.
pub open spec fn package_warnings(p: PackageView) -> Seq<WarningView> {
    match p.license {
        Some(expr) => expression_warnings(expr),
        None => if p.license_file {
            seq![WarningView::LicenseFile(p.name)]
        } else {
            Seq::empty()
        },
    }
}

/// The licenses of all the packages together.
pub open spec fn graph_licenses(packages: Seq<PackageView>) -> Set<Seq<char>>
    decreases packages.len(),
{
    if packages.len() == 0 {
        Set::empty()
    } else {
        graph_licenses(packages.drop_last()).union(package_licenses(packages.last()))
    }
}

/// The warnings of all the packages, package after package.
pub open spec fn graph_warnings(packages: Seq<PackageView>) -> Seq<WarningView>
    decreases packages.len(),
{
    if packages.len() == 0 {
        Seq::empty()
    } else {
        graph_warnings(packages.drop_last()) + package_warnings(packages.last())
    }
}

/// The package that the graph holds under the key `id`: the last one, should
/// there be several.
pub open spec fn package_of(packages: Seq<PackageView>, id: Seq<char>) -> Option<PackageView>
    decreases packages.len(),
{
    if packages.len() == 0 {
        None
    } else if packages.last().id == id {
        Some(packages.last())
    } else {
        package_of(packages.drop_last(), id)
    }
}

/// A license is among those of the graph exactly if one of the packages
/// adds it.
pub proof fn lemma_graph_licenses(packages: Seq<PackageView>, license: Seq<char>)
    ensures
        graph_licenses(packages).contains(license) <==> exists|i: int|
            0 <= i < packages.len() && package_licenses(#[trigger] packages[i]).contains(license),
    decreases packages.len(),
{
    if packages.len() > 0 {
        let shorter = packages.drop_last();
        lemma_graph_licenses(shorter, license);
        if graph_licenses(shorter).contains(license) {
            let i = choose|i: int|
                0 <= i < shorter.len() && package_licenses(#[trigger] shorter[i]).contains(
                    license,
                );
            assert(packages[i] == shorter[i]);
        }
        if package_licenses(packages.last()).contains(license) {
            assert(packages[packages.len() - 1] == packages.last());
        }
        if exists|i: int|
            0 <= i < packages.len() && package_licenses(#[trigger] packages[i]).contains(license) {
            let i = choose|i: int|
                0 <= i < packages.len() && package_licenses(#[trigger] packages[i]).contains(
                    license,
                );
            if i < packages.len() - 1 {
                assert(shorter[i] == packages[i]);
            }
        }
    }
}

/// The package found under a key has that key and is one of the packages.
pub proof fn lemma_package_of(packages: Seq<PackageView>, id: Seq<char>)
    ensures
        package_of(packages, id) is Some <==> exists|i: int|
            0 <= i < packages.len() && (#[trigger] packages[i]).id == id,
        package_of(packages, id) matches Some(p) ==> p.id == id && packages.contains(p),
    decreases packages.len(),
{
    if packages.len() > 0 {
        let shorter = packages.drop_last();
        lemma_package_of(shorter, id);
        if packages.last().id == id {
            assert(packages[packages.len() - 1].id == id);
        } else {
            if package_of(shorter, id) is Some {
                let p = package_of(shorter, id)->0;
                let i = choose|i: int| 0 <= i < shorter.len() && shorter[i] == p;
                assert(packages[i] == p);
                assert(packages[i].id == id);
            }
            if exists|i: int| 0 <= i < packages.len() && (#[trigger] packages[i]).id == id {
                let i = choose|i: int| 0 <= i < packages.len() && (#[trigger] packages[i]).id == id;
                assert(shorter[i].id == id);
            }
        }
    }
}

/// Asks `cargo_metadata::Source::is_crates_io` whether a source stands for
/// the crates.io registry. Trusted: the answer is taken to be yes exactly
/// for the source `CRATES_IO_INDEX`, which is the one text that the method
/// compares with.
#[verifier::external_body]
fn source_is_crates_io(source: &str) -> (r: bool)
    ensures
        r == (source@ == CRATES_IO_INDEX@),
{
    cargo_metadata::Source { repr: source.to_string() }.is_crates_io()
}

/// Whether the package was fetched from the crates.io registry.
pub fn from_registry(package: &Package) -> (r: bool)
    ensures
        r == is_registry(package@),
{
    match &package.source {
        Some(source) => source_is_crates_io(source.as_str()),
        None => false,
    }
}

/// Writes the line that lists a crate among the crates to fetch.
pub fn format_dependency(name: &str, version: &str) -> (r: String)
    ensures
        r@ == dependency_entry(name@, version@),
{
    let mut r = String::from_str("\t");
    r.append(name);
    r.append("-");
    r.append(version);
    r.append("\n");
    r
}

/// Puts the licenses of an expression into the license set, each under its
/// canonical name, and adds a warning for each token that had none.
pub fn add_licenses(expr: &str, licenses: &mut LicenseSet, warnings: &mut Vec<Warning>)
    ensures
        strictly_sorted(final(licenses)@),
        final(licenses)@.to_set() == old(licenses)@.to_set().union(expression_licenses(expr@)),
        warning_views(final(warnings)@) == warning_views(old(warnings)@) + expression_warnings(
            expr@,
        ),
{
    let tokens = split_spdx_license(expr);
    let ghost all = license_tokens(expr@);
    let ghost name = |t: Seq<char>| canonical(t);
    let ghost unknown = |t: Seq<char>| gentoo_license(t) is None;
    let ghost warn = |t: Seq<char>| WarningView::UnknownLicense(t);
    let mut i: usize = 0;
    proof {
        assert(all.take(0) =~= Seq::<Seq<char>>::empty());
        reveal_with_fuel(Seq::filter, 1);
        assert(all.take(0).map_values(name).to_set() =~= Set::<Seq<char>>::empty());
        assert(old(licenses)@.to_set().union(Set::<Seq<char>>::empty()) =~= old(
            licenses,
        )@.to_set());
        assert(all.take(0).filter(unknown).map_values(warn) =~= Seq::<WarningView>::empty());
        assert(warning_views(warnings@) + Seq::<WarningView>::empty() =~= warning_views(
            warnings@,
        ));
    }
    licenses.ascending_order();
    while i < tokens.len()
        invariant
            i <= tokens.len(),
            tokens.deep_view() == all,
            all == license_tokens(expr@),
            name == |t: Seq<char>| canonical(t),
            unknown == |t: Seq<char>| gentoo_license(t) is None,
            warn == |t: Seq<char>| WarningView::UnknownLicense(t),
            strictly_sorted(licenses@),
            licenses@.to_set() == old(licenses)@.to_set().union(
                all.take(i as int).map_values(name).to_set(),
            ),
            warning_views(warnings@) == warning_views(old(warnings)@) + all.take(i as int).filter(
                unknown,
            ).map_values(warn),
        decreases tokens.len() - i,
    {
        let token = &tokens[i];
        proof {
            let seen = all.take(i as int);
            assert(token@ == all[i as int]);
            assert(all.take(i + 1) =~= seen.push(token@));
            seen.lemma_push_map_commute(name, token@);
            seen.map_values(name).lemma_push_to_set_commute(canonical(token@));
            seen.lemma_filter_push(token@, unknown);
            seen.filter(unknown).lemma_push_map_commute(warn, token@);
            assert(old(licenses)@.to_set().union(seen.map_values(name).to_set()).insert(
                canonical(token@),
            ) =~= old(licenses)@.to_set().union(
                seen.map_values(name).to_set().insert(canonical(token@)),
            ));
        }
        match normalize_license(token.as_str()) {
            Some(known) => {
                licenses.insert(String::from_str(known));
            },
            None => {
                let ghost before = warning_views(warnings@);
                warnings.push(Warning::UnknownLicense(token.clone()));
                licenses.insert(token.clone());
                proof {
                    let seen = all.take(i as int);
                    assert(warning_views(warnings@) =~= before.push(
                        WarningView::UnknownLicense(token@),
                    ));
                    assert(before.push(WarningView::UnknownLicense(token@)) =~= warning_views(
                        old(warnings)@,
                    ) + seen.filter(unknown).map_values(warn).push(warn(token@)));
                }
            },
        }
        i += 1;
    }
    proof {
        assert(all.take(tokens.len() as int) =~= all);
    }
}

/// What a walk over the graph gathers.
pub struct Collected {
    /// The package found under the key of the root, if there is one.
    pub root: Option<Package>,
    /// The lines of the crates to fetch, in the order of the packages.
    pub crates: Vec<String>,
    /// The licenses of all the packages, under their canonical names.
    pub licenses: LicenseSet,
    /// What the operator is to be told, in the order of the packages.
    pub warnings: Vec<Warning>,
}

/// The view of an optional package.
pub open spec fn optional_package(p: Option<Package>) -> Option<PackageView> {
    match p {
        Some(q) => Some(q@),
        None => None,
    }
}

/// Walks over every package of the graph, not only those that the root
/// depends on, and gathers the package kept under the key `root`, the crates
/// to fetch from the registry, the licenses, and the warnings.
///
/// A license problem never fails the walk: a token without a canonical name
/// is kept as written and warned of, and a package with a license file and no
/// expression is warned of and adds no license.
pub fn collect(graph: &DependencyGraph, root: &str) -> (c: Collected)
    ensures
        optional_package(c.root) == package_of(graph@.packages, root@),
        c.crates.deep_view() == registry_entries(graph@.packages),
        strictly_sorted(c.licenses@),
        c.licenses@.to_set() == graph_licenses(graph@.packages),
        warning_views(c.warnings@) == graph_warnings(graph@.packages),
{
    let mut found: Option<Package> = None;
    let mut crates: Vec<String> = Vec::new();
    let mut licenses = LicenseSet::new();
    let mut warnings: Vec<Warning> = Vec::new();
    let ghost all = graph@.packages;
    let ghost registry = |p: PackageView| is_registry(p);
    let ghost entry = |p: PackageView| dependency_entry(p.name, p.version);
    let mut i: usize = 0;
    proof {
        assert(all.take(0) =~= Seq::<PackageView>::empty());
        reveal_with_fuel(Seq::filter, 1);
        assert(crates.deep_view() =~= all.take(0).filter(registry).map_values(entry));
        assert(licenses@.to_set() =~= Set::<Seq<char>>::empty());
        assert(warning_views(warnings@) =~= Seq::<WarningView>::empty());
    }
    licenses.ascending_order();
    while i < graph.packages.len()
        invariant
            i <= graph.packages.len(),
            all == graph@.packages,
            all.len() == graph.packages.len(),
            registry == |p: PackageView| is_registry(p),
            entry == |p: PackageView| dependency_entry(p.name, p.version),
            optional_package(found) == package_of(all.take(i as int), root@),
            crates.deep_view() == all.take(i as int).filter(registry).map_values(entry),
            strictly_sorted(licenses@),
            licenses@.to_set() == graph_licenses(all.take(i as int)),
            warning_views(warnings@) == graph_warnings(all.take(i as int)),
        decreases graph.packages.len() - i,
    {
        let package = &graph.packages[i];
        proof {
            let seen = all.take(i as int);
            assert(all[i as int] == package@);
            assert(all.take(i + 1) =~= seen.push(package@));
            assert(all.take(i + 1).drop_last() =~= seen);
            seen.lemma_filter_push(package@, registry);
            seen.filter(registry).lemma_push_map_commute(entry, package@);
        }
        if same_text(package.id.as_str(), root) {
            found = Some(package.duplicate());
        }
        match &package.license {
            Some(expr) => {
                add_licenses(expr.as_str(), &mut licenses, &mut warnings);
            },
            None => {
                if package.license_file {
                    let ghost before = warning_views(warnings@);
                    warnings.push(Warning::LicenseFile(package.name.clone()));
                    assert(warning_views(warnings@) =~= before + seq![
                        WarningView::LicenseFile(package@.name),
                    ]);
                } else {
                    assert(warning_views(warnings@) + Seq::<WarningView>::empty()
                        =~= warning_views(warnings@));
                }
                assert(licenses@.to_set().union(Set::<Seq<char>>::empty())
                    =~= licenses@.to_set());
            },
        }
        if from_registry(package) {
            let ghost before = crates.deep_view();
            crates.push(format_dependency(package.name.as_str(), package.version.as_str()));
            assert(crates.deep_view() =~= before.push(entry(package@)));
        }
        i += 1;
    }
    proof {
        assert(all.take(graph.packages.len() as int) =~= all);
    }
    Collected { root: found, crates, licenses, warnings }
}

} // verus!
