//! The settings of the HTTP front end.
use vstd::prelude::*;

verus! {

/// Where the front end listens and which graph service it queries.
pub struct Server {
    pub bind: String,
    pub port: u16,
    pub guac_url: String,
}

/// The OpenAPI description of the front end's routes.
pub struct ApiDoc;

impl Server {
    pub fn new(bind: String, port: u16, guac_url: String) -> (r: Self)
        ensures
            r.bind == bind,
            r.port == port,
            r.guac_url == guac_url,
    {
        Self { bind, port, guac_url }
    }
}

} // verus!
