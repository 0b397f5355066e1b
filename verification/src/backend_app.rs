//! The reply a sample upstream application computes for its liveness
//! endpoint: it names the port it answered from and echoes the proxy that
//! forwarded the request, read from the injected `x-proxy-from` header.

use vstd::prelude::*;
use vstd::string::StringExecFns;

verus! {

/// Builds the liveness reply body. `proxy` is the value of the
/// `x-proxy-from` header of the incoming request, if it carried one;
/// without it the reply names the forwarder as `unknown`.
pub fn health_response(port: &str, proxy: Option<&str>) -> (r: String)
    ensures
        r@ == "Up, answered from 0.0.0.0:"@ + port@ + " with "@ + match proxy {
            Some(p) => p@,
            None => "unknown"@,
        },
{
    let mut out = String::from_str("Up, answered from 0.0.0.0:");
    out.append(port);
    out.append(" with ");
    match proxy {
        Some(p) => out.append(p),
        None => out.append("unknown"),
    }
    out
}

} // verus!
