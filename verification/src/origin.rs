//! Canonical origins.

use vstd::prelude::*;

verus! {

/// Scheme of a canonical origin.
#[derive(Clone, Copy, Debug, PartialEq, Eq, Structural)]
pub enum OriginScheme {
    Http,
    Https,
}

/// Canonical origin whose requests share one cell per partition.
#[derive(Clone, Debug)]
pub struct OriginKey {
    /// Request scheme.
    pub scheme: OriginScheme,
    /// Lower-case host name or address.
    pub host: String,
    /// Explicit port, when the origin names one.
    pub port: Option<u16>,
}

impl OriginKey {
    /// Creates an origin from its parts.
    pub fn from_parts(scheme: OriginScheme, host: String, port: Option<u16>) -> (origin: Self)
        ensures
            origin.scheme == scheme,
            origin.host@ == host@,
            origin.port == port,
    {
        OriginKey { scheme, host, port }
    }

    /// Returns the origin's scheme.
    pub fn scheme(&self) -> (scheme: OriginScheme)
        ensures
            scheme == self.scheme,
    {
        self.scheme
    }

    /// Returns the origin's host.
    pub fn host(&self) -> (host: &str)
        ensures
            host@ == self.host@,
    {
        self.host.as_str()
    }

    /// Returns the origin's explicit port.
    pub fn port(&self) -> (port: Option<u16>)
        ensures
            port == self.port,
    {
        self.port
    }
}

} // verus!
