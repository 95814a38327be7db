//! What the dispatcher tells clients: its capabilities and instructions,
//! and when a background load notifies them that the tool list changed.

use vstd::prelude::*;
use vstd::string::*;

verus! {

/// The instructions given to clients when none are configured.
pub const DEFAULT_INSTRUCTIONS: &'static str = "This server runs tools in sandboxed WebAssembly environments with no default access to host resources.

Key points:
- Tools must be loaded before use: \"Load component from oci://registry/tool:version\" or \"file:///path/to/tool.wasm\"
- When the server starts, it will load all tools present in the component directory.
- You can list loaded tools with 'list-components' tool.
- Each tool only accesses resources explicitly granted by a policy file (filesystem paths, network domains, etc.)
- You MUST never modify the policy file directly, use tools to grant permissions instead.
- Tools need explicit permission for each resource they access
- If access is denied, suggest alternatives within allowed permissions or propose to grant permission";

/// What `initialize` answers.
#[derive(Debug, Clone, PartialEq, Eq)]
pub struct ServerInfo {
    /// The server announces `tools.list_changed` notifications.
    pub tools_list_changed: bool,
    /// Instructions for the client.
    pub instructions: String,
}

/// The server's answer to `initialize`: tool-list notifications announced,
/// with the configured instructions or the default ones.
pub fn server_info(instructions: Option<&str>) -> (r: ServerInfo)
    ensures
        r.tools_list_changed,
        r.instructions@ == match instructions {
            Some(i) => i@,
            None => DEFAULT_INSTRUCTIONS@,
        },
{
    let text = match instructions {
        Some(i) => String::from_str(i),
        None => String::from_str(DEFAULT_INSTRUCTIONS),
    };
    ServerInfo { tools_list_changed: true, instructions: text }
}

/// The client connection used for notifications, kept from the first request.
#[derive(Debug, Clone)]
pub struct PeerSlot<P> {
    peer: Option<P>,
}

impl<P> PeerSlot<P> {
    /// The stored connection.
    pub closed spec fn peer_spec(&self) -> Option<P> {
        self.peer
    }

    /// No connection yet.
    pub fn new() -> (r: Self)
        ensures
            r.peer_spec() is None,
    {
        PeerSlot { peer: None }
    }

    /// Keeps `peer` unless one is already kept.
    pub fn store_if_empty(&mut self, peer: P)
        ensures
            final(self).peer_spec() == if old(self).peer_spec() is Some {
                old(self).peer_spec()
            } else {
                Some(peer)
            },
    {
        if self.peer.is_none() {
            self.peer = Some(peer);
        }
    }

    /// The kept connection, if any.
    pub fn get(&self) -> (r: Option<&P>)
        ensures
            match self.peer_spec() {
                Some(p) => r == Some(&p),
                None => r is None,
            },
    {
        self.peer.as_ref()
    }

    /// Whether a registration that just became visible is announced: only
    /// when a client connection is known; otherwise the client sees the tool
    /// at its next `tools/list`.
    pub fn should_notify(&self) -> (r: bool)
        ensures
            r == self.peer_spec() is Some,
    {
        self.peer.is_some()
    }
}

} // verus!
