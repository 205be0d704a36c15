//! Control plane of a reverse-tunnel relay: the agent handshake message with
//! its wire codec, the connection and active-stream registries, and the
//! distributed host-resolution policy that routes a public hostname to the
//! server instance holding the owning agent's control connection.
use vstd::prelude::*;

pub mod addr;
pub mod codec;
pub mod handshake;
pub mod ident;
pub mod network;
pub mod registry;
pub mod text;

verus! {

/// Immutable process configuration, read once at startup by the caller and
/// handed by reference to every component that needs it.
pub struct Config {
    /// Port the agent control listener binds.
    pub control_port: u16,
    /// Port of the instance-to-instance host-query endpoint.
    pub internal_network_port: u16,
    /// Port the public listener binds.
    pub remote_port: u16,
    /// DNS name whose records enumerate the sibling instances; `None`
    /// disables discovery entirely.
    pub gossip_dns_host: Option<String>,
    /// Hostname this relay announces to agents.
    pub portal_host: String,
}

/// The stub authentication backend: it accepts every declaration. Real
/// credential validation is pluggable and replaces this type wholesale.
pub struct NoAuth;

impl NoAuth {
    /// Whether the backend accepts the declared authentication. This stub
    /// always does.
    pub fn accepts(&self, _auth: &crate::handshake::Auth) -> (r: bool)
        ensures
            r,
    {
        true
    }
}

/// The connection registry of this process, constructed once at startup and
/// handed by reference to every component that needs it. It starts empty.
pub fn get_connections() -> (r: crate::registry::Connections)
    ensures
        r@ == Map::<Seq<char>, u64>::empty(),
{
    crate::registry::Connections::new()
}

/// The active-stream registry of this process, constructed once at startup.
/// It starts empty.
pub fn get_active_streams() -> (r: crate::registry::ActiveStreams)
    ensures
        r@ == Map::<Seq<char>, u64>::empty(),
{
    crate::registry::ActiveStreams::new()
}

/// The authentication backend of this process: the always-accepting stub.
pub fn get_auth_db_service() -> (r: NoAuth) {
    NoAuth
}

} // verus!
