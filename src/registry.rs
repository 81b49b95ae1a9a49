//! The live resources of one node.

use vstd::prelude::*;
use crate::text::views;
use crate::transport::{TransportMode, TransportType};

verus! {

/// A transport of a node.
pub struct TransportEntry {
    pub tid: String,
    pub tt: TransportType,
    pub tm: TransportMode,
    pub addr: String,
}

/// An inlet of a node, under its alias.
pub struct InletInfo {
    pub alias: String,
    pub bind_addr: String,
    pub worker_addr: String,
    pub outlet_route: String,
}

/// An outlet of a node, under its alias.
pub struct OutletInfo {
    pub alias: String,
    pub tcp_addr: String,
    pub worker_addr: String,
}

/// A secure channel of a node.
pub struct SecureChannelInfo {
    pub route: String,
    pub addr: String,
}

/// The resources a node runs, one collection per kind, each keyed by its
/// first field, with keys unique within a collection (see `wf`). Their
/// order is the order in which they are listed.
pub struct ResourceRegistry {
    pub transports: Vec<TransportEntry>,
    pub secure_channel_listeners: Vec<String>,
    pub secure_channels: Vec<SecureChannelInfo>,
    pub inlets: Vec<InletInfo>,
    pub outlets: Vec<OutletInfo>,
    pub vault_services: Vec<String>,
    pub identity_services: Vec<String>,
    pub authenticated_services: Vec<String>,
    pub uppercase_services: Vec<String>,
    pub echoer_services: Vec<String>,
    pub verifier_services: Vec<String>,
    pub credentials_services: Vec<String>,
}

/// No key appears twice.
pub open spec fn keys_unique(keys: Seq<Seq<char>>) -> bool {
    forall|i: int, j: int| 0 <= i < j < keys.len() ==> keys[i] != keys[j]
}

impl ResourceRegistry {
    /// Keys are unique within each keyed collection: transport ids, listener
    /// addresses, inlet and outlet aliases, and the service addresses of each
    /// kind.
    pub open spec fn wf(&self) -> bool {
        &&& keys_unique(self.transports@.map_values(|e: TransportEntry| e.tid@))
        &&& keys_unique(views(self.secure_channel_listeners@))
        &&& keys_unique(self.inlets@.map_values(|e: InletInfo| e.alias@))
        &&& keys_unique(self.outlets@.map_values(|e: OutletInfo| e.alias@))
        &&& keys_unique(views(self.vault_services@))
        &&& keys_unique(views(self.identity_services@))
        &&& keys_unique(views(self.authenticated_services@))
        &&& keys_unique(views(self.uppercase_services@))
        &&& keys_unique(views(self.echoer_services@))
        &&& keys_unique(views(self.verifier_services@))
        &&& keys_unique(views(self.credentials_services@))
    }

    /// A registry with no resources.
    pub fn new() -> (r: ResourceRegistry)
        ensures
            r.wf(),
            r.transports@.len() == 0,
            r.secure_channel_listeners@.len() == 0,
            r.secure_channels@.len() == 0,
            r.inlets@.len() == 0,
            r.outlets@.len() == 0,
            r.vault_services@.len() == 0,
            r.identity_services@.len() == 0,
            r.authenticated_services@.len() == 0,
            r.uppercase_services@.len() == 0,
            r.echoer_services@.len() == 0,
            r.verifier_services@.len() == 0,
            r.credentials_services@.len() == 0,
    {
        ResourceRegistry {
            transports: Vec::new(),
            secure_channel_listeners: Vec::new(),
            secure_channels: Vec::new(),
            inlets: Vec::new(),
            outlets: Vec::new(),
            vault_services: Vec::new(),
            identity_services: Vec::new(),
            authenticated_services: Vec::new(),
            uppercase_services: Vec::new(),
            echoer_services: Vec::new(),
            verifier_services: Vec::new(),
            credentials_services: Vec::new(),
        }
    }
}

} // verus!
