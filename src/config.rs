//! Per-listener settings of header parsing.

use vstd::prelude::*;

verus! {

/// Settings of PROXY header parsing on one listener.
#[derive(Clone, Debug)]
pub struct ProxyProtocolConfig {
    /// Whether headers are parsed on this listener.
    pub enabled: bool,
    /// Whether TLS metadata from v2 TLVs is trusted.
    pub tls_termination: bool,
    /// Seconds allowed for a header to arrive.
    pub timeout: u64,
}

impl Default for ProxyProtocolConfig {
    fn default() -> (r: ProxyProtocolConfig)
        ensures
            !r.enabled,
            !r.tls_termination,
            r.timeout == 5,
    {
        ProxyProtocolConfig { enabled: false, tls_termination: false, timeout: 5 }
    }
}

impl ProxyProtocolConfig {
    /// The timeout as a `Duration`.
    pub fn timeout_duration(&self) -> (r: std::time::Duration)
        ensures
            r == duration_of_secs(self.timeout),
    {
        duration_from_secs(self.timeout)
    }
}

/// The `Duration` that `Duration::from_secs` makes of a number of seconds.
pub uninterp spec fn duration_of_secs(secs: u64) -> std::time::Duration;

/// Relies on `Duration::from_secs`: a duration of whole seconds, which
/// depends on the number alone.
#[verifier::external_body]
fn duration_from_secs(secs: u64) -> (r: std::time::Duration)
    ensures
        r == duration_of_secs(secs),
{
    std::time::Duration::from_secs(secs)
}

} // verus!
