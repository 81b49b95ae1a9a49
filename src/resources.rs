//! Bodies that describe the services, portals and secure channels of a node.

use vstd::prelude::*;

verus! {

/// One service of a node.
pub struct ServiceStatus {
    pub addr: String,
    pub service_type: String,
}

impl ServiceStatus {
    pub fn new(addr: String, service_type: String) -> (r: Self)
        ensures
            r.addr@ == addr@,
            r.service_type@ == service_type@,
    {
        ServiceStatus { addr, service_type }
    }
}

/// The services of a node.
pub struct ServiceList {
    pub list: Vec<ServiceStatus>,
}

impl ServiceList {
    pub fn new(list: Vec<ServiceStatus>) -> (r: Self)
        ensures
            r.list@ == list@,
    {
        ServiceList { list }
    }
}

/// One inlet of a node: the ingress end of a tunnel.
pub struct InletStatus {
    pub bind_addr: String,
    pub worker_addr: String,
    pub alias: String,
    pub payload: Option<String>,
    pub outlet_route: String,
}

impl InletStatus {
    pub fn new(
        bind_addr: String,
        worker_addr: String,
        alias: String,
        payload: Option<String>,
        outlet_route: String,
    ) -> (r: Self)
        ensures
            r.bind_addr@ == bind_addr@,
            r.worker_addr@ == worker_addr@,
            r.alias@ == alias@,
            r.payload == payload,
            r.outlet_route@ == outlet_route@,
    {
        InletStatus { bind_addr, worker_addr, alias, payload, outlet_route }
    }
}

/// The inlets of a node.
pub struct InletList {
    pub list: Vec<InletStatus>,
}

impl InletList {
    pub fn new(list: Vec<InletStatus>) -> (r: Self)
        ensures
            r.list@ == list@,
    {
        InletList { list }
    }
}

/// One outlet of a node: the egress end of a tunnel.
pub struct OutletStatus {
    pub tcp_addr: String,
    pub worker_addr: String,
    pub alias: String,
    pub payload: Option<String>,
}

impl OutletStatus {
    pub fn new(tcp_addr: String, worker_addr: String, alias: String, payload: Option<String>) -> (r: Self)
        ensures
            r.tcp_addr@ == tcp_addr@,
            r.worker_addr@ == worker_addr@,
            r.alias@ == alias@,
            r.payload == payload,
    {
        OutletStatus { tcp_addr, worker_addr, alias, payload }
    }
}

/// The outlets of a node.
pub struct OutletList {
    pub list: Vec<OutletStatus>,
}

impl OutletList {
    pub fn new(list: Vec<OutletStatus>) -> (r: Self)
        ensures
            r.list@ == list@,
    {
        OutletList { list }
    }
}

/// One secure channel of a node, seen from that node.
pub struct ShowSecureChannelResponse {
    /// The address of the channel's worker
    pub channel: Option<String>,
    /// The route the channel runs over
    pub route: Option<String>,
    /// The node the channel starts at, as `/node/<name>`
    pub from: String,
}

/// The secure channels of a node.
pub struct SecureChannelList {
    pub list: Vec<ShowSecureChannelResponse>,
}

impl SecureChannelList {
    pub fn new(list: Vec<ShowSecureChannelResponse>) -> (r: Self)
        ensures
            r.list@ == list@,
    {
        SecureChannelList { list }
    }
}

} // verus!
