//! Flattening and normalisation of package-graph query results: package
//! variants, dependency edges and vulnerability certifications are turned
//! into flat, link-annotated lists.
pub mod model;
pub mod link;
pub mod flatten;
pub mod vuln;
pub mod aggregate;
pub mod server;
