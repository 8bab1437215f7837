//! The conditions that end the making of ebuild data.

use vstd::prelude::*;

verus! {

/// Why no ebuild data came out.
#[derive(Debug)]
pub enum EbuildError {
    /// The dependencies of the workspace were not resolved.
    GraphUnresolved,
    /// A package name was asked for that no package of the graph has.
    PackageNotFound,
    /// No package name was given and the graph has no resolution root.
    RootUnresolved,
    /// The graph holds no package under the identity of the chosen root.
    NoRootPackage,
    /// The audit found vulnerabilities; the text is the whole report.
    AuditFailed(String),
}

impl EbuildError {
    /// What `message` says of this error.
    pub open spec fn text(self) -> Seq<char> {
        match self {
            EbuildError::GraphUnresolved => "cargo metadata did not resolve the depend graph"@,
            EbuildError::PackageNotFound => "cargo metadata contains no specified package"@,
            EbuildError::RootUnresolved => "cargo metadata failed to resolve the root package"@,
            EbuildError::NoRootPackage => "unable to determine package to generate ebuild for"@,
            EbuildError::AuditFailed(report) => report@,
        }
    }

    /// The error in words, for the operator.
    pub fn message(&self) -> (r: String)
        ensures
            r@ == self.text(),
    {
        match self {
            EbuildError::GraphUnresolved => String::from_str(
                "cargo metadata did not resolve the depend graph",
            ),
            EbuildError::PackageNotFound => String::from_str(
                "cargo metadata contains no specified package",
            ),
            EbuildError::RootUnresolved => String::from_str(
                "cargo metadata failed to resolve the root package",
            ),
            EbuildError::NoRootPackage => String::from_str(
                "unable to determine package to generate ebuild for",
            ),
            EbuildError::AuditFailed(report) => report.clone(),
        }
    }
}

} // verus!
