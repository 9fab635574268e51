use vstd::prelude::*;

verus! {

/// What a session scans for: the domain, and the settings of the passive DNS module.
pub struct Options {
    /// Domain to scan for
    pub domain: String,
    pub passive_dns: PassiveDNSOptions,
}

/// Settings of the passive DNS module.
#[derive(Debug, Clone, Copy, PartialEq, Eq, Structural)]
pub struct PassiveDNSOptions {
    /// Ignore expired certificates.
    pub passive_dns_ignore_expired: bool,
    /// Only care about the recently (24 hours) created certificates
    pub passive_dns_recent_only: bool,
}

impl Default for PassiveDNSOptions {
    fn default() -> (o: PassiveDNSOptions)
        ensures
            !o.passive_dns_ignore_expired,
            !o.passive_dns_recent_only,
    {
        PassiveDNSOptions { passive_dns_ignore_expired: false, passive_dns_recent_only: false }
    }
}

impl Default for Options {
    fn default() -> (o: Options)
        ensures
            o.domain@ == Seq::<char>::empty(),
            !o.passive_dns.passive_dns_ignore_expired,
            !o.passive_dns.passive_dns_recent_only,
    {
        Options { domain: String::new(), passive_dns: PassiveDNSOptions::default() }
    }
}

} // verus!
