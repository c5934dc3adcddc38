//! What the embedded web server exposes to the rest of the host: the port it
//! actually bound (the remote-control UI and the QR code need it) and the
//! shape of a search result. Binding, serving and searching themselves are
//! the embedding application's work.

use vstd::prelude::*;

verus! {

/// The process-wide record of the embedded web server, owned by whoever
/// started it: the port the listener actually bound, which may differ from
/// the one asked for when the system assigned one.
pub struct WebServerState {
    pub bound_port: u16,
}

/// The port the embedded web server is reachable at.
pub fn get_server_port(server: &WebServerState) -> (p: u16)
    ensures
        p == server.bound_port,
{
    server.bound_port
}

/// One entry of a video search reply, ready for display.
pub struct SearchResult {
    pub id: String,
    pub title: String,
    pub channel: String,
    pub duration: String,
    pub thumbnail: String,
    pub url: String,
}

} // verus!
