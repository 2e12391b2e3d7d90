//! What a caller settles before a connection is made.

use vstd::prelude::*;
use vstd::string::*;

verus! {

/// Options of a TLS connection.
#[derive(Debug)]
pub struct TlsConfig {
    /// Whether the certificate chain goes unchecked. This gives up the
    /// security of the connection and is meant for tests only.
    pub skip_verification: bool,
    /// The application protocols to offer, the preferred one first.
    pub alpn_protocols: Vec<String>,
}

impl TlsConfig {
    /// Whether these are the default options: the chain is checked, and
    /// `http/1.1` is the one protocol offered.
    pub open spec fn is_default(&self) -> bool {
        &&& !self.skip_verification
        &&& self.alpn_protocols@.len() == 1
        &&& self.alpn_protocols@[0]@ == "http/1.1"@
    }
}

impl Default for TlsConfig {
    fn default() -> (config: Self)
        ensures
            config.is_default(),
    {
        let mut alpn_protocols: Vec<String> = Vec::new();
        alpn_protocols.push(String::from_str("http/1.1"));
        TlsConfig { skip_verification: false, alpn_protocols }
    }
}

impl Clone for TlsConfig {
    fn clone(&self) -> (copy: Self)
        ensures
            copy.skip_verification == self.skip_verification,
            copy.alpn_protocols@ == self.alpn_protocols@,
    {
        let mut alpn_protocols: Vec<String> = Vec::new();
        let mut i: usize = 0;
        while i < self.alpn_protocols.len()
            invariant
                i <= self.alpn_protocols@.len(),
                alpn_protocols@ == self.alpn_protocols@.subrange(0, i as int),
            decreases self.alpn_protocols@.len() - i,
        {
            alpn_protocols.push(self.alpn_protocols[i].clone());
            i += 1;
        }
        TlsConfig { skip_verification: self.skip_verification, alpn_protocols }
    }
}

/// Makes TLS connections under one set of options.
#[derive(Debug)]
pub struct TlsConnector {
    pub config: TlsConfig,
}

impl TlsConnector {
    /// A connector with the default options.
    pub fn new() -> (connector: Self)
        ensures
            connector.config.is_default(),
    {
        TlsConnector { config: TlsConfig::default() }
    }

    /// A connector with the options `config`.
    pub fn with_config(config: TlsConfig) -> (connector: Self)
        ensures
            connector.config == config,
    {
        TlsConnector { config }
    }
}

impl Default for TlsConnector {
    fn default() -> (connector: Self)
        ensures
            connector.config.is_default(),
    {
        Self::new()
    }
}

} // verus!
