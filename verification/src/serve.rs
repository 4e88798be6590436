//! How the preview server answers the requests that no file serves.
use vstd::prelude::*;
use crate::text::str_eq;

verus! {

/// The directory of the preview build, inside the temporary directory.
pub const TEMP_ZINE_BUILD_DIR: &'static str = "__zine_build";

/// The answer to a request that no file serves.
#[derive(Debug, Clone, Copy, PartialEq, Eq, Structural)]
pub enum FallbackRoute {
    /// Upgrade to the live reload websocket.
    LiveReload,
    /// A live reload request that is not a websocket upgrade.
    NotWebsocket,
    /// Answer `404 Not Found`.
    NotFound,
}

/// The answer to a request with the given method, path and upgrade header:
/// `GET /live_reload` is the live reload channel, anything else is not found.
pub fn fallback_route(is_get: bool, path: &str, is_upgrade: bool) -> (r: FallbackRoute)
    ensures
        r == if is_get && path@ == "/live_reload"@ {
            if is_upgrade {
                FallbackRoute::LiveReload
            } else {
                FallbackRoute::NotWebsocket
            }
        } else {
            FallbackRoute::NotFound
        },
{
    if is_get && str_eq(path, "/live_reload") {
        if is_upgrade {
            FallbackRoute::LiveReload
        } else {
            FallbackRoute::NotWebsocket
        }
    } else {
        FallbackRoute::NotFound
    }
}

} // verus!
