//! The request the driver sends: the same bytes for every iteration of one
//! run, and the rule for the request count.

use vstd::prelude::*;
use vstd::string::StringExecFns;

verus! {

/// The characters of the request sent for a target:
/// `GET <path> HTTP/1.1\r\nHost: <host_port>\r\n\r\n`.
pub open spec fn spec_request(host_port: Seq<char>, path: Seq<char>) -> Seq<char> {
    "GET "@ + path + " HTTP/1.1\r\nHost: "@ + host_port + "\r\n\r\n"@
}

/// Builds the request line and `Host` header for a target, exactly as
/// [`spec_request`] says. No other header is sent.
pub fn build_request(host_port: &str, path: &str) -> (r: String)
    ensures
        r@ == spec_request(host_port@, path@),
{
    let mut r = String::from_str("GET ");
    r.append(path);
    r.append(" HTTP/1.1\r\nHost: ");
    r.append(host_port);
    r.append("\r\n\r\n");
    r
}

/// Whether a request count is usable. Profiling is chosen by the presence
/// of a count, not its value, and a count of zero is a fatal user error.
pub fn profile_count_ok(n: usize) -> (r: bool)
    ensures
        r == (n != 0),
{
    n != 0
}

} // verus!
