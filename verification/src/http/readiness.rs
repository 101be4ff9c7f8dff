//! Readiness.

use vstd::prelude::*;

verus! {

/// The status of a server that takes no requests.
pub const SERVICE_UNAVAILABLE: u16 = 503;

/// Readiness: not draining, and the probe found the database reachable with
/// its migrations applied. `probe` is `None` when the probe itself failed.
/// While draining the probe does not matter.
pub fn readyz(draining: bool, probe: Option<bool>) -> (r: Result<&'static str, u16>)
    ensures
        match r {
            Ok(body) => !draining && probe == Some(true) && body@ == "ok"@,
            Err(status) => (draining || probe != Some(true)) && status == SERVICE_UNAVAILABLE,
        },
        r matches Err(status) ==> status == 503,
{
    if draining {
        return Err(SERVICE_UNAVAILABLE);
    }
    match probe {
        Some(true) => Ok("ok"),
        _ => Err(SERVICE_UNAVAILABLE),
    }
}

} // verus!
