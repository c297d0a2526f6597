//! The server's configuration and its builder.

use vstd::prelude::*;
use crate::permissions::{Permissions, clone_permission_list};

verus! {

/// How the server runs: whether it logs, the port it listens on, and the tables'
/// permission rules.
pub struct Config {
    pub with_logger: bool,
    pub port: u16,
    pub permissions: Vec<Permissions>,
}

/// The port a configuration listens on unless told otherwise.
pub open spec fn default_port() -> u16 {
    28686
}

impl Config {
    /// A builder that starts from the default configuration.
    pub fn build() -> (b: ConfigBuilder)
        ensures
            b.pending().with_logger == false,
            b.pending().port == default_port(),
            b.pending().permissions@.len() == 0,
    {
        ConfigBuilder::new()
    }

    /// A copy of the permission rules, in order.
    pub fn clone_permissions(&self) -> (r: Vec<Permissions>)
        ensures
            r@ == self.permissions@,
    {
        clone_permission_list(&self.permissions)
    }
}

/// Builds a configuration one setting at a time.
pub struct ConfigBuilder {
    config: Config,
}

impl ConfigBuilder {
    /// The configuration built so far.
    pub closed spec fn pending(self) -> Config {
        self.config
    }

    /// The default configuration: no logger, port 28686, no permission rule.
    pub fn new() -> (b: ConfigBuilder)
        ensures
            b.pending().with_logger == false,
            b.pending().port == default_port(),
            b.pending().permissions@.len() == 0,
    {
        let config = Config { with_logger: false, port: 28686, permissions: Vec::new() };
        ConfigBuilder { config }
    }

    /// Sets the permission rules.
    pub fn permissions(self, permissions: Vec<Permissions>) -> (b: ConfigBuilder)
        ensures
            b.pending().permissions == permissions,
            b.pending().with_logger == self.pending().with_logger,
            b.pending().port == self.pending().port,
    {
        let mut b = self;
        b.config.permissions = permissions;
        b
    }

    /// Sets whether the server logs.
    pub fn with_logger(self, with_logger: bool) -> (b: ConfigBuilder)
        ensures
            b.pending().with_logger == with_logger,
            b.pending().port == self.pending().port,
            b.pending().permissions == self.pending().permissions,
    {
        let mut b = self;
        b.config.with_logger = with_logger;
        b
    }

    /// Sets the port.
    pub fn port(self, port: u16) -> (b: ConfigBuilder)
        ensures
            b.pending().port == port,
            b.pending().with_logger == self.pending().with_logger,
            b.pending().permissions == self.pending().permissions,
    {
        let mut b = self;
        b.config.port = port;
        b
    }

    /// The configuration built.
    pub fn finalize(self) -> (c: Config)
        ensures
            c == self.pending(),
    {
        self.config
    }
}

} // verus!
