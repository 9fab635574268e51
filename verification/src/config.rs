use vstd::prelude::*;

verus! {

/// The whole configuration of a scan, module by module.
pub struct Config {
    /// Domain to scan for
    pub domain: String,
    pub enumerate_files: EnumerateFilesConfig,
    pub enumerate_subdomains: EnumerateSubdomainsConfig,
    pub passive_dns: PassiveDNSConfig,
}

/// Settings of the passive DNS module.
#[derive(Debug, Clone, Copy, PartialEq, Eq, Structural)]
pub struct PassiveDNSConfig {
    /// Ignore expired certificates.
    pub passive_dns_ignore_expired: bool,
    /// Only care about the recently (24 hours) created certificates
    pub passive_dns_recent_only: bool,
}

/// Settings of the subdomain enumeration module.
pub struct EnumerateSubdomainsConfig {
    /// The path to the wordlist to use
    pub enumerate_subdomains_wordlist: String,
}

/// Settings of the file enumeration module.
pub struct EnumerateFilesConfig {
    /// The path to the wordlist to use
    pub enumerate_files_wordlist: String,
    /// The extension to append to the file names
    pub enumerate_files_extension: String,
}

} // verus!
