//! From a resolved dependency graph to the data of a Gentoo ebuild.
//!
//! The library chooses the package to write the ebuild for, lists the crates
//! to fetch from the registry, gathers the licenses of all packages under
//! the names that Gentoo gives them, and writes the report of an audit
//! against the advisory database. Running cargo, reading files and filling
//! templates is left to the program around it.

pub mod audit;
pub mod config;
pub mod error;
pub mod expression;
pub mod graph;
pub mod license;
pub mod license_set;
pub mod lockfile;
pub mod text;
