//! Listener/acceptor routing.
//!
//! For each incoming HTTP request on the gateway port the acceptor makes one
//! decision: an upgrade request becomes a connection session, a plain GET on
//! the liveness path is answered `200 OK`, and anything else is `404`. The
//! decision is pure; the listener performs it.

use vstd::prelude::*;

use crate::json::bytes_eq;

verus! {

/// What to do with one incoming HTTP request.
#[derive(Debug, PartialEq, Eq, Structural, Clone, Copy)]
pub enum Route {
    /// Complete the upgrade handshake and spawn a connection session.
    Upgrade,
    /// Answer the liveness check: `200 OK`, body `OK`; no session.
    Health,
    /// Answer `404`; no session.
    NotFound,
}

/// The byte text `/health`.
pub open spec fn l_health_path() -> Seq<u8> {
    seq![47u8, 104u8, 101u8, 97u8, 108u8, 116u8, 104u8]
}

/// The routing rule: upgrades win, then the liveness path, then nothing.
pub open spec fn spec_route(is_upgrade: bool, path: Seq<u8>) -> Route {
    if is_upgrade {
        Route::Upgrade
    } else if path == l_health_path() {
        Route::Health
    } else {
        Route::NotFound
    }
}

/// Decide what to do with a request, given whether it asks for a protocol
/// upgrade and its URI path.
pub fn route_request(is_upgrade: bool, path: &Vec<u8>) -> (r: Route)
    ensures
        r == spec_route(is_upgrade, path@),
{
    if is_upgrade {
        return Route::Upgrade;
    }
    let health: Vec<u8> = vec![47u8, 104u8, 101u8, 97u8, 108u8, 116u8, 104u8];
    proof {
        assert(health@ =~= l_health_path());
    }
    if bytes_eq(path, &health) {
        Route::Health
    } else {
        Route::NotFound
    }
}

} // verus!
