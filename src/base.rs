//! Request and response bodies about nodes.

use vstd::prelude::*;
use crate::identity::ShortIdentityResponse;
use crate::resources::{InletList, OutletList, ServiceList};
use crate::transport::TransportList;

verus! {

/// Request body when retrieving node status.
pub struct GetNodeStatusRequest {
    pub detailed: Option<bool>,
}

impl GetNodeStatusRequest {
    pub fn new(detailed: Option<bool>) -> (r: Self)
        ensures
            r.detailed == detailed,
    {
        GetNodeStatusRequest { detailed }
    }
}

/// Request body when creating a node.
pub struct CreateNodeRequest {
    pub node_name: String,
    pub tcp_listener_address: String,
    pub skip_defaults: bool,
    pub enable_credential_checks: bool,
    pub no_shared_identity: bool,
    pub launch_config: Option<String>,
    pub no_watchdog: bool,
    pub project: Option<String>,
    pub config: Option<String>,
    pub verbose: u8,
}

/// Extra details of a node.
pub struct NodeDetails {
    pub status: String,
    /// The identifier of the node's identity, where it has one
    pub short_identity: Option<ShortIdentityResponse>,
    pub services: ServiceList,
    pub transport_list: TransportList,
    pub secure_channel_listeners: Vec<String>,
    pub inlets: InletList,
    pub outlets: OutletList,
}

impl NodeDetails {
    pub fn new(
        status: String,
        short_identity: Option<ShortIdentityResponse>,
        services: ServiceList,
        transport_list: TransportList,
        secure_channel_listeners: Vec<String>,
        inlets: InletList,
        outlets: OutletList,
    ) -> (r: Self)
        ensures
            r.status@ == status@,
            r.short_identity == short_identity,
            r.services == services,
            r.transport_list == transport_list,
            r.secure_channel_listeners == secure_channel_listeners,
            r.inlets == inlets,
            r.outlets == outlets,
    {
        NodeDetails {
            status,
            short_identity,
            services,
            transport_list,
            secure_channel_listeners,
            inlets,
            outlets,
        }
    }
}

/// Response body for the status of a node.
pub struct NodeStatus {
    pub node_name: String,
    pub status: String,
    pub workers: u32,
    pub pid: i32,
    pub transports: u32,
    pub details: Option<NodeDetails>,
    /// The port the node listens on, where the coordinator lists it
    pub port: Option<u16>,
}

impl NodeStatus {
    pub fn new(
        node_name: String,
        status: String,
        workers: u32,
        pid: i32,
        transports: u32,
        details: Option<NodeDetails>,
    ) -> (r: Self)
        ensures
            r.node_name@ == node_name@,
            r.status@ == status@,
            r.workers == workers,
            r.pid == pid,
            r.transports == transports,
            r.details == details,
            r.port is None,
    {
        NodeStatus { node_name, status, workers, pid, transports, details, port: None }
    }
}

/// Response body that lists nodes.
pub struct NodeList {
    pub list: Vec<NodeStatus>,
}

impl NodeList {
    pub fn new(list: Vec<NodeStatus>) -> (r: Self)
        ensures
            r.list@ == list@,
    {
        NodeList { list }
    }
}

} // verus!
