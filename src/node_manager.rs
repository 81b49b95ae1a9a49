//! The per-node manager: status of a node assembled from its registry, and
//! the node-scoped routes it serves.

use vstd::prelude::*;
use crate::api::{Method, Request, RequestBody, Response, ResponseBody, Status};
use crate::base::{NodeDetails, NodeStatus};
use crate::identity::{IdentityResponse, LongIdentityResponse, ShortIdentityResponse};
use crate::registry::{InletInfo, OutletInfo, ResourceRegistry, SecureChannelInfo, TransportEntry};
use crate::resources::{
    InletList, InletStatus, OutletList, OutletStatus, SecureChannelList, ServiceList, ServiceStatus,
    ShowSecureChannelResponse,
};
use crate::text::{concat, owned, path_segments, path_segments_of, str_equals, views};
use crate::transport::{TransportList, TransportMode, TransportStatus, TransportType};

verus! {

/// Whether a transport is of one of these types and one of these modes.
pub open spec fn transport_selected(e: TransportEntry, tts: Seq<TransportType>, tms: Seq<TransportMode>) -> bool {
    tts.contains(e.tt) && tms.contains(e.tm)
}

/// The transports of one of these types and one of these modes, in order.
pub open spec fn selected_transports(
    entries: Seq<TransportEntry>,
    tts: Seq<TransportType>,
    tms: Seq<TransportMode>,
) -> Seq<TransportEntry> {
    entries.filter(|e: TransportEntry| transport_selected(e, tts, tms))
}

/// Whether a transport status describes this transport.
pub open spec fn describes_transport(s: TransportStatus, e: TransportEntry) -> bool {
    s.tt == e.tt && s.tm == e.tm && s.payload@ == e.addr@ && s.tid@ == e.tid@
}

/// The address and kind of each service in a list.
pub open spec fn service_views(list: Seq<ServiceStatus>) -> Seq<(Seq<char>, Seq<char>)> {
    list.map_values(|s: ServiceStatus| (s.addr@, s.service_type@))
}

/// Addresses of services of one kind, each with that kind.
pub open spec fn tagged(addrs: Seq<String>, kind: Seq<char>) -> Seq<(Seq<char>, Seq<char>)> {
    addrs.map_values(|a: String| (a@, kind))
}

/// Every service of a registry with its kind, kind after kind.
pub open spec fn registry_services(r: ResourceRegistry) -> Seq<(Seq<char>, Seq<char>)> {
    tagged(r.vault_services@, "vault"@) + tagged(r.identity_services@, "identity"@) + tagged(
        r.authenticated_services@,
        "authenticated"@,
    ) + tagged(r.uppercase_services@, "uppercase"@) + tagged(r.echoer_services@, "echoer"@) + tagged(
        r.verifier_services@,
        "verifier"@,
    ) + tagged(r.credentials_services@, "credentials"@)
}

/// Whether an inlet status describes this inlet.
pub open spec fn describes_inlet(s: InletStatus, i: InletInfo) -> bool {
    s.bind_addr@ == i.bind_addr@ && s.worker_addr@ == i.worker_addr@ && s.alias@ == i.alias@
        && s.payload is None && s.outlet_route@ == i.outlet_route@
}

/// Whether an outlet status describes this outlet.
pub open spec fn describes_outlet(s: OutletStatus, o: OutletInfo) -> bool {
    s.tcp_addr@ == o.tcp_addr@ && s.worker_addr@ == o.worker_addr@ && s.alias@ == o.alias@
        && s.payload is None
}

/// Whether a secure channel response describes this channel of the node.
pub open spec fn describes_channel(s: ShowSecureChannelResponse, c: SecureChannelInfo, node_name: Seq<char>) -> bool {
    &&& s.channel matches Some(a) && a@ == c.addr@
    &&& s.route matches Some(r) && r@ == c.route@
    &&& s.from@ == "/node/"@ + node_name
}

/// A count as reported in a status: the number, or the largest `u32` where it
/// is larger.
pub open spec fn reported_count(n: nat) -> u32 {
    if n > u32::MAX as nat { u32::MAX } else { n as u32 }
}

/// Whether a list holds a status for each selected transport, in order.
pub open spec fn lists_transports(
    l: TransportList,
    entries: Seq<TransportEntry>,
    tts: Seq<TransportType>,
    tms: Seq<TransportMode>,
) -> bool {
    &&& l.list@.len() == selected_transports(entries, tts, tms).len()
    &&& forall|i: int|
        0 <= i < l.list@.len() ==> describes_transport(
            #[trigger] l.list@[i],
            selected_transports(entries, tts, tms)[i],
        )
}

/// Whether a list describes each inlet of a registry, in order.
pub open spec fn lists_inlets(l: InletList, reg: ResourceRegistry) -> bool {
    &&& l.list@.len() == reg.inlets@.len()
    &&& forall|i: int| 0 <= i < l.list@.len() ==> describes_inlet(#[trigger] l.list@[i], reg.inlets@[i])
}

/// Whether a list describes each outlet of a registry, in order.
pub open spec fn lists_outlets(l: OutletList, reg: ResourceRegistry) -> bool {
    &&& l.list@.len() == reg.outlets@.len()
    &&& forall|i: int| 0 <= i < l.list@.len() ==> describes_outlet(#[trigger] l.list@[i], reg.outlets@[i])
}

/// Whether a list describes each secure channel of a node, in order.
pub open spec fn lists_channels(l: SecureChannelList, node: NodeManagerWorker) -> bool {
    &&& l.list@.len() == node.registry.secure_channels@.len()
    &&& forall|i: int|
        0 <= i < l.list@.len() ==> describes_channel(
            #[trigger] l.list@[i],
            node.registry.secure_channels@[i],
            node.node_name@,
        )
}

/// Whether node details describe this node: its identity where it has one,
/// and its resources, of which the transports are those that listen over
/// TCP.
pub open spec fn details_describe(d: NodeDetails, node: NodeManagerWorker) -> bool {
    &&& d.status@ == "Running"@
    &&& match node.identity {
        Some(id) => d.short_identity matches Some(si) && si.identity_id@ == id.identifier@,
        None => d.short_identity is None,
    }
    &&& service_views(d.services.list@) == registry_services(node.registry)
    &&& lists_transports(d.transport_list, node.registry.transports@, seq![TransportType::Tcp], seq![TransportMode::Listen])
    &&& views(d.secure_channel_listeners@) == views(node.registry.secure_channel_listeners@)
    &&& lists_inlets(d.inlets, node.registry)
    &&& lists_outlets(d.outlets, node.registry)
}

/// Whether a status reports this node: its name, marked running, the
/// worker count and process id of its runtime, its transport count, and
/// details exactly where they were asked for.
pub open spec fn reports_node(s: NodeStatus, node: NodeManagerWorker, workers: u32, pid: i32, details: bool) -> bool {
    &&& s.node_name@ == node.node_name@
    &&& s.status@ == "Running"@
    &&& s.workers == workers
    &&& s.pid == pid
    &&& s.transports == reported_count(node.registry.transports@.len())
    &&& s.port is None
    &&& match s.details {
        Some(d) => details && details_describe(d, node),
        None => !details,
    }
}

/// Whether an identity response gives the node's identifier where it has an
/// identity, and the exported form where that export succeeded.
pub open spec fn reports_identity(i: IdentityResponse, node: NodeManagerWorker, exported: Option<Vec<u8>>) -> bool {
    &&& match node.identity {
        Some(id) => i.short_identity matches Some(s) && s.identity_id@ == id.identifier@,
        None => i.short_identity is None,
    }
    &&& match (node.identity, exported) {
        (Some(_), Some(bytes)) => i.long_identity matches Some(l) && l.identity@ == bytes@,
        _ => i.long_identity is None,
    }
}

/// A node-scoped route.
#[derive(Copy, Clone, Debug, PartialEq, Eq, Structural)]
pub enum NodeRoute {
    /// `GET /node`
    Status,
    /// `GET /node/identity`
    Identity,
    /// `GET /node/transports`
    Transports,
    /// `GET /node/secure_channels`
    SecureChannels,
    /// `GET /node/secure_channel_listeners`
    SecureChannelListeners,
    /// `GET /node/services`
    Services,
    /// `GET /node/inlets`
    Inlets,
    /// `GET /node/outlets`
    Outlets,
}

/// The node-scoped route of a method and the segments of a path.
pub open spec fn node_route_of(m: Method, segments: Seq<Seq<char>>) -> Option<NodeRoute> {
    if m != Method::Get || segments.len() == 0 || segments[0] != "node"@ || segments.len() > 2 {
        None
    } else if segments.len() == 1 {
        Some(NodeRoute::Status)
    } else if segments[1] == "identity"@ {
        Some(NodeRoute::Identity)
    } else if segments[1] == "transports"@ {
        Some(NodeRoute::Transports)
    } else if segments[1] == "secure_channels"@ {
        Some(NodeRoute::SecureChannels)
    } else if segments[1] == "secure_channel_listeners"@ {
        Some(NodeRoute::SecureChannelListeners)
    } else if segments[1] == "services"@ {
        Some(NodeRoute::Services)
    } else if segments[1] == "inlets"@ {
        Some(NodeRoute::Inlets)
    } else if segments[1] == "outlets"@ {
        Some(NodeRoute::Outlets)
    } else {
        None
    }
}

fn type_listed(v: &Vec<TransportType>, t: TransportType) -> (r: bool)
    ensures
        r == v@.contains(t),
{
    let mut i: usize = 0;
    while i < v.len()
        invariant
            i <= v@.len(),
            forall|k: int| 0 <= k < i ==> v@[k] != t,
        decreases v@.len() - i,
    {
        if v[i] == t {
            assert(v@[i as int] == t);
            return true;
        }
        i = i + 1;
    }
    false
}

fn mode_listed(v: &Vec<TransportMode>, m: TransportMode) -> (r: bool)
    ensures
        r == v@.contains(m),
{
    let mut i: usize = 0;
    while i < v.len()
        invariant
            i <= v@.len(),
            forall|k: int| 0 <= k < i ==> v@[k] != m,
        decreases v@.len() - i,
    {
        if v[i] == m {
            assert(v@[i as int] == m);
            return true;
        }
        i = i + 1;
    }
    false
}

fn push_services(list: &mut Vec<ServiceStatus>, addrs: &Vec<String>, kind: &str)
    ensures
        service_views(final(list)@) == service_views(old(list)@) + tagged(addrs@, kind@),
{
    let mut i: usize = 0;
    while i < addrs.len()
        invariant
            i <= addrs@.len(),
            service_views(list@) == service_views(old(list)@) + tagged(addrs@.subrange(0, i as int), kind@),
        decreases addrs@.len() - i,
    {
        let ghost before = list@;
        list.push(ServiceStatus::new(addrs[i].clone(), owned(kind)));
        proof {
            assert(service_views(list@) =~= service_views(before).push((addrs@[i as int]@, kind@)));
            assert(tagged(addrs@.subrange(0, i + 1), kind@) =~= tagged(addrs@.subrange(0, i as int), kind@).push(
                (addrs@[i as int]@, kind@),
            ));
        }
        i = i + 1;
    }
    assert(addrs@.subrange(0, addrs@.len() as int) =~= addrs@);
}

/// The identity handle of a node: its identifier.
pub struct IdentityHandle {
    pub identifier: String,
}

/// The manager of one node: its name, its resources and its identity.
pub struct NodeManagerWorker {
    pub node_name: String,
    pub registry: ResourceRegistry,
    pub identity: Option<IdentityHandle>,
}

impl NodeManagerWorker {
    /// The transports of one of the given types and modes, in order.
    pub fn build_transport_list(&self, tts: &Vec<TransportType>, tms: &Vec<TransportMode>) -> (r: TransportList)
        ensures
            lists_transports(r, self.registry.transports@, tts@, tms@),
    {
        let entries = &self.registry.transports;
        let ghost pred = |e: TransportEntry| transport_selected(e, tts@, tms@);
        let mut list: Vec<TransportStatus> = Vec::new();
        let mut i: usize = 0;
        while i < entries.len()
            invariant
                i <= entries@.len(),
                pred == (|e: TransportEntry| transport_selected(e, tts@, tms@)),
                list@.len() == entries@.subrange(0, i as int).filter(pred).len(),
                forall|k: int|
                    0 <= k < list@.len() ==> describes_transport(
                        #[trigger] list@[k],
                        entries@.subrange(0, i as int).filter(pred)[k],
                    ),
            decreases entries@.len() - i,
        {
            let e = &entries[i];
            proof {
                reveal(Seq::filter);
                assert(entries@.subrange(0, i + 1).drop_last() =~= entries@.subrange(0, i as int));
                assert(entries@.subrange(0, i + 1).last() == entries@[i as int]);
            }
            if type_listed(tts, e.tt) && mode_listed(tms, e.tm) {
                list.push(TransportStatus::new(e.tt, e.tm, e.addr.clone(), e.tid.clone()));
            }
            i = i + 1;
        }
        assert(entries@.subrange(0, entries@.len() as int) =~= entries@);
        TransportList::new(list)
    }

    /// Every service of the node with its kind, kind after kind.
    pub fn build_service_list(&self) -> (r: ServiceList)
        ensures
            service_views(r.list@) == registry_services(self.registry),
    {
        let reg = &self.registry;
        let mut list: Vec<ServiceStatus> = Vec::new();
        assert(service_views(list@) =~= Seq::empty());
        push_services(&mut list, &reg.vault_services, "vault");
        push_services(&mut list, &reg.identity_services, "identity");
        push_services(&mut list, &reg.authenticated_services, "authenticated");
        push_services(&mut list, &reg.uppercase_services, "uppercase");
        push_services(&mut list, &reg.echoer_services, "echoer");
        push_services(&mut list, &reg.verifier_services, "verifier");
        push_services(&mut list, &reg.credentials_services, "credentials");
        assert(service_views(list@) =~= registry_services(self.registry));
        ServiceList::new(list)
    }

    /// The addresses of the node's secure channel listeners.
    pub fn build_secure_channel_listeners(&self) -> (r: Vec<String>)
        ensures
            views(r@) == views(self.registry.secure_channel_listeners@),
    {
        let src = &self.registry.secure_channel_listeners;
        let mut out: Vec<String> = Vec::new();
        let mut i: usize = 0;
        while i < src.len()
            invariant
                i <= src@.len(),
                views(out@) == views(src@.subrange(0, i as int)),
            decreases src@.len() - i,
        {
            let ghost before = out@;
            out.push(src[i].clone());
            proof {
                assert(views(out@) =~= views(before).push(src@[i as int]@));
                assert(views(src@.subrange(0, i + 1)) =~= views(src@.subrange(0, i as int)).push(src@[i as int]@));
            }
            i = i + 1;
        }
        assert(src@.subrange(0, src@.len() as int) =~= src@);
        out
    }

    /// The node's secure channels, each seen from this node.
    pub fn build_secure_channels_list(&self) -> (r: SecureChannelList)
        ensures
            lists_channels(r, *self),
    {
        let src = &self.registry.secure_channels;
        let mut out: Vec<ShowSecureChannelResponse> = Vec::new();
        let mut i: usize = 0;
        while i < src.len()
            invariant
                i <= src@.len(),
                out@.len() == i,
                forall|k: int| 0 <= k < i ==> describes_channel(#[trigger] out@[k], src@[k], self.node_name@),
            decreases src@.len() - i,
        {
            let c = &src[i];
            out.push(ShowSecureChannelResponse {
                channel: Some(c.addr.clone()),
                route: Some(c.route.clone()),
                from: concat("/node/", self.node_name.as_str()),
            });
            i = i + 1;
        }
        SecureChannelList::new(out)
    }

    /// The node's inlets.
    pub fn build_inlets_list(&self) -> (r: InletList)
        ensures
            lists_inlets(r, self.registry),
    {
        let src = &self.registry.inlets;
        let mut out: Vec<InletStatus> = Vec::new();
        let mut i: usize = 0;
        while i < src.len()
            invariant
                i <= src@.len(),
                out@.len() == i,
                forall|k: int| 0 <= k < i ==> describes_inlet(#[trigger] out@[k], src@[k]),
            decreases src@.len() - i,
        {
            let e = &src[i];
            out.push(
                InletStatus::new(
                    e.bind_addr.clone(),
                    e.worker_addr.clone(),
                    e.alias.clone(),
                    None,
                    e.outlet_route.clone(),
                ),
            );
            i = i + 1;
        }
        InletList::new(out)
    }

    /// The node's outlets.
    pub fn build_outlets_list(&self) -> (r: OutletList)
        ensures
            lists_outlets(r, self.registry),
    {
        let src = &self.registry.outlets;
        let mut out: Vec<OutletStatus> = Vec::new();
        let mut i: usize = 0;
        while i < src.len()
            invariant
                i <= src@.len(),
                out@.len() == i,
                forall|k: int| 0 <= k < i ==> describes_outlet(#[trigger] out@[k], src@[k]),
            decreases src@.len() - i,
        {
            let e = &src[i];
            out.push(OutletStatus::new(e.tcp_addr.clone(), e.worker_addr.clone(), e.alias.clone(), None));
            i = i + 1;
        }
        OutletList::new(out)
    }

    /// The identifier of the node's identity, where it has one.
    pub fn retrieve_short_identity_response(&self) -> (r: Option<ShortIdentityResponse>)
        ensures
            match self.identity {
                Some(id) => r matches Some(s) && s.identity_id@ == id.identifier@,
                None => r is None,
            },
    {
        match &self.identity {
            Some(id) => Some(ShortIdentityResponse::new(id.identifier.clone())),
            None => None,
        }
    }

    /// The exported form of the node's identity, where it has one and its
    /// export (`exported`) succeeded.
    pub fn retrieve_long_identity_response(&self, exported: Option<Vec<u8>>) -> (r: Option<LongIdentityResponse>)
        ensures
            match (self.identity, exported) {
                (Some(_), Some(bytes)) => r matches Some(l) && l.identity@ == bytes@,
                _ => r is None,
            },
    {
        match (&self.identity, exported) {
            (Some(_), Some(bytes)) => Some(LongIdentityResponse::new(bytes)),
            _ => None,
        }
    }

    /// The node's identity in both forms; a form that cannot be had is left
    /// out rather than reported as an error.
    pub fn retrieve_identity_response(&self, exported: Option<Vec<u8>>) -> (r: IdentityResponse)
        ensures
            reports_identity(r, *self, exported),
    {
        let short = self.retrieve_short_identity_response();
        let long = self.retrieve_long_identity_response(exported);
        IdentityResponse::new(short, long)
    }

    /// The status of the node, marked running, with the worker count and
    /// process id of its runtime; with `details`, its identity (where it has
    /// one) and resources too, of which the transports are those that listen
    /// over TCP.
    pub fn build_node_status(&self, workers: u32, pid: i32, details: bool) -> (r: NodeStatus)
        ensures
            reports_node(r, *self, workers, pid, details),
    {
        let node_details = if details {
            let tts = vec![TransportType::Tcp];
            let tms = vec![TransportMode::Listen];
            assert(tts@ =~= seq![TransportType::Tcp]);
            assert(tms@ =~= seq![TransportMode::Listen]);
            Some(
                NodeDetails::new(
                    owned("Running"),
                    self.retrieve_short_identity_response(),
                    self.build_service_list(),
                    self.build_transport_list(&tts, &tms),
                    self.build_secure_channel_listeners(),
                    self.build_inlets_list(),
                    self.build_outlets_list(),
                ),
            )
        } else {
            None
        };
        let n = self.registry.transports.len();
        let transports: u32 = if n > 4294967295 { 4294967295 } else { n as u32 };
        NodeStatus::new(self.node_name.clone(), owned("Running"), workers, pid, transports, node_details)
    }

    /// `GET /node`: the status of the node, with details where the body asks
    /// for them; `BadRequest` where the body is no status query.
    pub fn get_node(&self, req: &Request, workers: u32, pid: i32) -> (r: Response)
        ensures
            answers_status(*self, *req, workers, pid, r),
    {
        let details = match &req.body {
            RequestBody::NodeStatusQuery(q) => match q.detailed {
                Some(v) => v,
                None => false,
            },
            _ => return Response::builder(req.id, Status::BadRequest),
        };
        Response::ok(req.id, ResponseBody::Node(self.build_node_status(workers, pid, details)))
    }

    /// `GET /node/identity`: the node's identity in both forms, each where it
    /// can be had.
    pub fn get_identity(&self, req: &Request, exported: Option<Vec<u8>>) -> (r: Response)
        ensures
            answers_identity(*self, *req, exported, r),
    {
        Response::ok(req.id, ResponseBody::Identity(self.retrieve_identity_response(exported)))
    }

    /// `GET /node/transports`: the transports of the types and modes that the
    /// body names, all where it names none; `BadRequest` where the body is no
    /// transport query.
    pub fn get_transports(&self, req: &Request) -> (r: Response)
        ensures
            answers_transports(*self, *req, r),
    {
        match &req.body {
            RequestBody::TransportQuery(q) => {
                let (tts, tms) = q.filters();
                Response::ok(req.id, ResponseBody::Transports(self.build_transport_list(&tts, &tms)))
            },
            _ => Response::builder(req.id, Status::BadRequest),
        }
    }

    /// `GET /node/services`.
    pub fn get_services(&self, req: &Request) -> (r: Response)
        ensures
            answers_services(*self, *req, r),
    {
        Response::ok(req.id, ResponseBody::Services(self.build_service_list()))
    }

    /// `GET /node/secure_channel_listeners`.
    pub fn get_secure_channel_listeners(&self, req: &Request) -> (r: Response)
        ensures
            answers_listeners(*self, *req, r),
    {
        Response::ok(req.id, ResponseBody::Listeners(self.build_secure_channel_listeners()))
    }

    /// `GET /node/secure_channels`.
    pub fn get_secure_channels(&self, req: &Request) -> (r: Response)
        ensures
            answers_channels(*self, *req, r),
    {
        Response::ok(req.id, ResponseBody::SecureChannels(self.build_secure_channels_list()))
    }

    /// `GET /node/inlets`.
    pub fn get_inlets(&self, req: &Request) -> (r: Response)
        ensures
            answers_inlets(*self, *req, r),
    {
        Response::ok(req.id, ResponseBody::Inlets(self.build_inlets_list()))
    }

    /// `GET /node/outlets`.
    pub fn get_outlets(&self, req: &Request) -> (r: Response)
        ensures
            answers_outlets(*self, *req, r),
    {
        Response::ok(req.id, ResponseBody::Outlets(self.build_outlets_list()))
    }

    /// Serves a request that was forwarded to this node, by method and path:
    /// each node route answers as its handler does; a method that is unknown
    /// is a `BadRequest`, a path that no node route serves is `NotFound`.
    pub fn handle_request(&self, req: &Request, workers: u32, pid: i32, exported: Option<Vec<u8>>) -> (r: Response)
        ensures
            node_answers(*self, *req, workers, pid, exported, r),
    {
        let m = match req.method {
            Some(m) => m,
            None => return Response::builder(req.id, Status::BadRequest),
        };
        match match_node_route(m, req.path.as_str()) {
            None => Response::builder(req.id, Status::NotFound),
            Some(NodeRoute::Status) => self.get_node(req, workers, pid),
            Some(NodeRoute::Identity) => self.get_identity(req, exported),
            Some(NodeRoute::Transports) => self.get_transports(req),
            Some(NodeRoute::SecureChannels) => self.get_secure_channels(req),
            Some(NodeRoute::SecureChannelListeners) => self.get_secure_channel_listeners(req),
            Some(NodeRoute::Services) => self.get_services(req),
            Some(NodeRoute::Inlets) => self.get_inlets(req),
            Some(NodeRoute::Outlets) => self.get_outlets(req),
        }
    }
}

/// `GET /node`'s answer: under the request's id, the node's status with
/// details where the body asks for them, or `BadRequest` where the body is
/// no status query.
pub open spec fn answers_status(node: NodeManagerWorker, req: Request, workers: u32, pid: i32, r: Response) -> bool {
    &&& r.id == req.id
    &&& match req.body {
        RequestBody::NodeStatusQuery(q) => r.status == Status::Success && match r.body {
            ResponseBody::Node(s) => reports_node(s, node, workers, pid, q.detailed == Some(true)),
            _ => false,
        },
        _ => r.status == Status::BadRequest && r.body is Empty,
    }
}

/// `GET /node/identity`'s answer.
pub open spec fn answers_identity(node: NodeManagerWorker, req: Request, exported: Option<Vec<u8>>, r: Response) -> bool {
    &&& r.id == req.id
    &&& r.status == Status::Success
    &&& match r.body {
        ResponseBody::Identity(i) => reports_identity(i, node, exported),
        _ => false,
    }
}

/// `GET /node/transports`'s answer: the transports that the query selects,
/// all where it names no types or modes; `BadRequest` where the body is no
/// transport query.
pub open spec fn answers_transports(node: NodeManagerWorker, req: Request, r: Response) -> bool {
    &&& r.id == req.id
    &&& match req.body {
        RequestBody::TransportQuery(q) => r.status == Status::Success && match r.body {
            ResponseBody::Transports(l) => lists_transports(
                l,
                node.registry.transports@,
                match q.tts {
                    Some(v) => v@,
                    None => crate::transport::all_transport_types(),
                },
                match q.tms {
                    Some(v) => v@,
                    None => crate::transport::all_transport_modes(),
                },
            ),
            _ => false,
        },
        _ => r.status == Status::BadRequest && r.body is Empty,
    }
}

/// `GET /node/services`'s answer.
pub open spec fn answers_services(node: NodeManagerWorker, req: Request, r: Response) -> bool {
    &&& r.id == req.id
    &&& r.status == Status::Success
    &&& match r.body {
        ResponseBody::Services(l) => service_views(l.list@) == registry_services(node.registry),
        _ => false,
    }
}

/// `GET /node/secure_channel_listeners`'s answer.
pub open spec fn answers_listeners(node: NodeManagerWorker, req: Request, r: Response) -> bool {
    &&& r.id == req.id
    &&& r.status == Status::Success
    &&& match r.body {
        ResponseBody::Listeners(l) => views(l@) == views(node.registry.secure_channel_listeners@),
        _ => false,
    }
}

/// `GET /node/secure_channels`'s answer.
pub open spec fn answers_channels(node: NodeManagerWorker, req: Request, r: Response) -> bool {
    &&& r.id == req.id
    &&& r.status == Status::Success
    &&& match r.body {
        ResponseBody::SecureChannels(l) => lists_channels(l, node),
        _ => false,
    }
}

/// `GET /node/inlets`'s answer.
pub open spec fn answers_inlets(node: NodeManagerWorker, req: Request, r: Response) -> bool {
    &&& r.id == req.id
    &&& r.status == Status::Success
    &&& match r.body {
        ResponseBody::Inlets(l) => lists_inlets(l, node.registry),
        _ => false,
    }
}

/// `GET /node/outlets`'s answer.
pub open spec fn answers_outlets(node: NodeManagerWorker, req: Request, r: Response) -> bool {
    &&& r.id == req.id
    &&& r.status == Status::Success
    &&& match r.body {
        ResponseBody::Outlets(l) => lists_outlets(l, node.registry),
        _ => false,
    }
}

/// The node manager's answer to a forwarded request: under the request's
/// id, `BadRequest` for an unknown method, `NotFound` for a path that no
/// node route serves, and otherwise the answer of the route's handler.
pub open spec fn node_answers(
    node: NodeManagerWorker,
    req: Request,
    workers: u32,
    pid: i32,
    exported: Option<Vec<u8>>,
    r: Response,
) -> bool {
    &&& r.id == req.id
    &&& match req.method {
        None => r.status == Status::BadRequest && r.body is Empty,
        Some(m) => match node_route_of(m, path_segments_of(req.path@)) {
            None => r.status == Status::NotFound && r.body is Empty,
            Some(NodeRoute::Status) => answers_status(node, req, workers, pid, r),
            Some(NodeRoute::Identity) => answers_identity(node, req, exported, r),
            Some(NodeRoute::Transports) => answers_transports(node, req, r),
            Some(NodeRoute::SecureChannels) => answers_channels(node, req, r),
            Some(NodeRoute::SecureChannelListeners) => answers_listeners(node, req, r),
            Some(NodeRoute::Services) => answers_services(node, req, r),
            Some(NodeRoute::Inlets) => answers_inlets(node, req, r),
            Some(NodeRoute::Outlets) => answers_outlets(node, req, r),
        },
    }
}

/// Selects the node-scoped route of a method and a path.
pub fn match_node_route(m: Method, path: &str) -> (r: Option<NodeRoute>)
    ensures
        r == node_route_of(m, path_segments_of(path@)),
{
    let segments = path_segments(path);
    let ghost segs = views(segments@);
    assert(segs.len() == segments@.len());
    if m != Method::Get || segments.len() == 0 || segments.len() > 2 {
        return None;
    }
    assert(segs[0] == segments@[0]@);
    if !str_equals(segments[0].as_str(), "node") {
        return None;
    }
    if segments.len() == 1 {
        return Some(NodeRoute::Status);
    }
    assert(segs[1] == segments@[1]@);
    let second = segments[1].as_str();
    if str_equals(second, "identity") {
        Some(NodeRoute::Identity)
    } else if str_equals(second, "transports") {
        Some(NodeRoute::Transports)
    } else if str_equals(second, "secure_channels") {
        Some(NodeRoute::SecureChannels)
    } else if str_equals(second, "secure_channel_listeners") {
        Some(NodeRoute::SecureChannelListeners)
    } else if str_equals(second, "services") {
        Some(NodeRoute::Services)
    } else if str_equals(second, "inlets") {
        Some(NodeRoute::Inlets)
    } else if str_equals(second, "outlets") {
        Some(NodeRoute::Outlets)
    } else {
        None
    }
}

} // verus!
