use vstd::prelude::*;

verus! {

/// A structured package identifier. `ty` and `name` are always present;
/// `version` is absent when the identifier names a whole package family.
#[derive(Clone, Debug, PartialEq, Eq)]
pub struct PackageIdentifier {
    pub ty: String,
    pub namespace: Option<String>,
    pub name: String,
    pub version: Option<String>,
}

/// A package name of an upstream tree, with its versions.
#[derive(Clone, Debug, PartialEq, Eq)]
pub struct NameNode {
    pub name: String,
    pub versions: Vec<String>,
}

/// A namespace of an upstream tree, with its package names.
#[derive(Clone, Debug, PartialEq, Eq)]
pub struct NamespaceNode {
    pub namespace: String,
    pub names: Vec<NameNode>,
}

/// An upstream package tree: type, then namespaces, then names, then versions.
#[derive(Clone, Debug, PartialEq, Eq)]
pub struct PackageTree {
    pub type_: String,
    pub namespaces: Vec<NamespaceNode>,
}

/// An upstream vulnerability certification, by the shape of its source.
#[derive(Clone, Debug, PartialEq, Eq)]
pub enum VulnRecord {
    Osv(String),
    Cve(String),
    Unrecognized,
}

/// A flat reference to one package version.
#[derive(Clone, Debug, PartialEq, Eq)]
pub struct PackageRef {
    pub purl: String,
    pub href: String,
    pub trusted: Option<bool>,
}

/// A reference to one known vulnerability and its advisory page.
#[derive(Clone, Debug, PartialEq, Eq)]
pub struct VulnerabilityRef {
    pub cve: String,
    pub href: String,
}

/// The dependencies, or the dependants, of one package.
#[derive(Clone, Debug, PartialEq, Eq)]
pub struct PackageDependencies(pub Vec<PackageRef>);

/// A package version with its known vulnerabilities.
#[derive(Clone, Debug, PartialEq, Eq)]
pub struct Package {
    pub purl: Option<String>,
    pub href: Option<String>,
    pub trusted: Option<bool>,
    pub trusted_versions: Vec<PackageRef>,
    pub snyk: Option<SnykData>,
    pub vulnerabilities: Vec<VulnerabilityRef>,
}

/// Reserved slot for a secondary advisory source.
#[derive(Clone, Debug, PartialEq, Eq)]
pub struct SnykData;

/// The failures that the library reports.
#[derive(Clone, Debug, PartialEq, Eq)]
pub enum GuacError {
    /// The graph client failed; the message carries its context.
    UpstreamQueryFailed(String),
    /// The identifier lacks a field that the query needs.
    MalformedIdentifier,
    /// A vulnerability lookup failed during aggregation.
    AggregationAborted,
}

} // verus!
