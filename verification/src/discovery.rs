//! The names under which a server announces itself over mDNS.

use vstd::prelude::*;

verus! {

/// The mDNS service type of clipchamp servers.
pub const SERVICE_TYPE: &'static str = "_clipchamp._tcp.local.";

/// How long a client looks for a server, in seconds.
pub const DISCOVERY_TIMEOUT_SECS: u64 = 10;

/// The hostname used when the machine's own cannot be read.
pub const FALLBACK_HOSTNAME: &'static str = "clipchamp";

/// The service instance name and the host name that a server on the
/// machine `hostname` announces: `clipchamp-HOSTNAME` and `HOSTNAME.local.`.
pub fn service_names(hostname: &str) -> (names: (String, String))
    ensures
        names.0@ == "clipchamp-"@ + hostname@,
        names.1@ == hostname@ + ".local."@,
{
    let mut instance = String::from_str("clipchamp-");
    instance.append(hostname);
    let mut host = String::from_str(hostname);
    host.append(".local.");
    (instance, host)
}

} // verus!
