//! The coordinator: the configuration it owns and the decisions of its router.

use vstd::prelude::*;
use crate::api::{Method, Reply, Request, Response, ResponseBody, Status};
use crate::base::{NodeList, NodeStatus};
use crate::config::GlobalConfig;
use crate::text::{concat, copy_bytes, copy_opt_string, owned, path_segments, path_segments_of, str_equals, views};

verus! {

/// A route that the coordinator serves itself.
#[derive(Copy, Clone, Debug, PartialEq, Eq, Structural)]
pub enum Route {
    /// `GET /nodes`
    ListNodes,
    /// `POST /node`
    CreateNode,
}

/// The route that a method and the segments of a path select.
pub open spec fn route_of(m: Method, segments: Seq<Seq<char>>) -> Option<Route> {
    if m == Method::Get && segments == seq!["nodes"@] {
        Some(Route::ListNodes)
    } else if m == Method::Post && segments == seq!["node"@] {
        Some(Route::CreateNode)
    } else {
        None
    }
}

/// The name under which a method is shown in messages.
pub open spec fn method_label(m: Method) -> Seq<char> {
    match m {
        Method::Get => "Get"@,
        Method::Post => "Post"@,
        Method::Put => "Put"@,
        Method::Delete => "Delete"@,
        Method::Patch => "Patch"@,
    }
}

/// The message of the response to a method and path that no route serves.
pub open spec fn path_not_found_message(m: Method, path: Seq<char>) -> Seq<char> {
    "Path not found: "@ + method_label(m) + " "@ + path
}

/// The message of the response to a request whose handler failed.
pub open spec fn handler_failure_message(cause: Seq<char>) -> Seq<char> {
    "failed to handle request: "@ + cause
}

/// What the coordinator does with a request.
pub enum Dispatch {
    /// Send the request, unchanged, to the node manager of a managed node.
    Forward { node_name: String, address: String },
    /// Serve the request with one of the coordinator's own handlers.
    Local(Route),
    /// Answer at once.
    Respond(Response),
}

/// A response envelope with this id, status and no body.
pub open spec fn is_bare_response(d: Dispatch, id: u32, status: Status) -> bool {
    match d {
        Dispatch::Respond(resp) => resp.id == id && resp.status == status && resp.body is Empty,
        _ => false,
    }
}

/// A response envelope with this id, status and message.
pub open spec fn is_message_response(d: Dispatch, id: u32, status: Status, msg: Seq<char>) -> bool {
    match d {
        Dispatch::Respond(resp) => resp.id == id && resp.status == status && match resp.body {
            ResponseBody::Message(m) => m@ == msg,
            _ => false,
        },
        _ => false,
    }
}

/// Forwarding to the node of this name, at the address its record holds.
pub open spec fn forwards_to(cfg: GlobalConfig, d: Dispatch, name: Seq<char>) -> bool {
    match d {
        Dispatch::Forward { node_name, address } => node_name@ == name && exists|i: int|
            0 <= i < cfg.nodes@.len() && cfg.nodes@[i].name@ == name && #[trigger] cfg.nodes@[i].addr@
                == address@,
        _ => false,
    }
}

/// What the coordinator does with `req`: a request that names a target node
/// goes to that node, or is answered `NotFound` where no such node is
/// managed; any other is served by method and path.
pub open spec fn dispatched(cfg: GlobalConfig, req: Request, d: Dispatch) -> bool {
    match req.target_node {
        Some(n) => if cfg.has_node(n@) {
            forwards_to(cfg, d, n@)
        } else {
            is_bare_response(d, req.id, Status::NotFound)
        },
        None => match req.method {
            None => is_message_response(d, req.id, Status::BadRequest, "Invalid request method."@),
            Some(m) => match route_of(m, path_segments_of(req.path@)) {
                Some(route) => d == Dispatch::Local(route),
                None => is_message_response(d, req.id, Status::NotFound, path_not_found_message(m, req.path@)),
            },
        },
    }
}

/// A request that the coordinator answers at once gets a response under its
/// own id, and a request it neither answers nor serves itself goes to the
/// node that it names.
pub proof fn lemma_router_correlation(cfg: GlobalConfig, req: Request, d: Dispatch)
    requires
        dispatched(cfg, req, d),
    ensures
        d matches Dispatch::Respond(resp) ==> resp.id == req.id,
        d is Forward ==> (req.target_node matches Some(n) && forwards_to(cfg, d, n@)),
        req.target_node is None ==> !(d is Forward),
{
}

/// The shown name of a method.
pub fn method_name(m: Method) -> (r: String)
    ensures
        r@ == method_label(m),
{
    match m {
        Method::Get => owned("Get"),
        Method::Post => owned("Post"),
        Method::Put => owned("Put"),
        Method::Delete => owned("Delete"),
        Method::Patch => owned("Patch"),
    }
}

/// Selects the coordinator's route for a method and a path.
pub fn match_route(m: Method, path: &str) -> (r: Option<Route>)
    ensures
        r == route_of(m, path_segments_of(path@)),
{
    let segments = path_segments(path);
    proof {
        assert(views(segments@).len() == segments@.len());
    }
    if segments.len() != 1 {
        proof {
            if path_segments_of(path@) == seq!["nodes"@] || path_segments_of(path@) == seq!["node"@] {
                assert(path_segments_of(path@).len() == 1);
            }
        }
        return None;
    }
    let first = segments[0].as_str();
    proof {
        assert(views(segments@)[0] == first@);
        assert(views(segments@) =~= seq![first@]);
    }
    let is_nodes = str_equals(first, "nodes");
    let is_node = str_equals(first, "node");
    proof {
        if seq![first@] == seq!["nodes"@] {
            assert(seq![first@][0] == first@);
        }
        if seq![first@] == seq!["node"@] {
            assert(seq![first@][0] == first@);
        }
        if is_nodes {
            assert(seq![first@] =~= seq!["nodes"@]);
        }
        if is_node {
            assert(seq![first@] =~= seq!["node"@]);
        }
    }
    match m {
        Method::Get => if is_nodes { Some(Route::ListNodes) } else { None },
        Method::Post => if is_node { Some(Route::CreateNode) } else { None },
        _ => None,
    }
}

/// The response to a request whose handler failed, naming the cause.
pub fn handler_failure(req: &Request, cause: &str) -> (r: Response)
    ensures
        r.id == req.id,
        r.status == Status::InternalServerError,
        r.body matches ResponseBody::Message(msg) && msg@ == handler_failure_message(cause@),
{
    Response::with_message(req.id, Status::InternalServerError, concat("failed to handle request: ", cause))
}

/// What goes back to the client of a forwarded request: the node's reply as
/// it came, or, where the transport failed, an internal error.
pub fn relay_reply(req: &Request, forwarded: Option<Vec<u8>>) -> (r: Reply)
    ensures
        forwarded matches Some(bytes) ==> r == Reply::Relay(bytes),
        forwarded is None ==> (r matches Reply::Envelope(resp) && resp.id == req.id
            && resp.status == Status::InternalServerError && resp.body is Empty),
{
    match forwarded {
        Some(bytes) => Reply::Relay(bytes),
        None => Reply::Envelope(Response::builder(req.id, Status::InternalServerError)),
    }
}

/// The process id under which a node is listed: its own, or 0 before it was
/// started.
pub open spec fn listed_pid(pid: Option<i32>) -> i32 {
    match pid {
        Some(p) => p,
        None => 0,
    }
}

/// The coordinator's state: where its configuration is kept, and the
/// configuration itself.
pub struct Overseer {
    pub config_path: String,
    pub config: GlobalConfig,
}

impl Overseer {
    /// A coordinator over a loaded configuration.
    pub fn new(config_path: String, config: GlobalConfig) -> (r: Overseer)
        ensures
            r.config_path@ == config_path@,
            r.config == config,
    {
        Overseer { config_path, config }
    }

    /// The configuration.
    pub fn config(&self) -> (r: &GlobalConfig)
        ensures
            *r == self.config,
    {
        &self.config
    }

    /// A copy of the default vault path.
    pub fn get_default_vault_path(&self) -> (r: Option<String>)
        ensures
            r matches Some(p) ==> self.config.default_vault_path matches Some(q) && p@ == q@,
            r is None <==> self.config.default_vault_path is None,
    {
        copy_opt_string(&self.config.default_vault_path)
    }

    /// A copy of the default identity.
    pub fn get_default_identity(&self) -> (r: Option<Vec<u8>>)
        ensures
            r matches Some(p) ==> self.config.default_identity matches Some(q) && p@ == q@,
            r is None <==> self.config.default_identity is None,
    {
        match &self.config.default_identity {
            Some(v) => Some(copy_bytes(v)),
            None => None,
        }
    }

    /// Sets the default vault path.
    pub fn set_default_vault_path(&mut self, default_vault_path: Option<String>)
        ensures
            final(self).config.default_vault_path == default_vault_path,
            final(self).config.nodes == old(self).config.nodes,
            final(self).config.lookup == old(self).config.lookup,
            final(self).config.default == old(self).config.default,
            final(self).config.directories == old(self).config.directories,
            final(self).config.default_identity == old(self).config.default_identity,
            final(self).config_path == old(self).config_path,
    {
        self.config.default_vault_path = default_vault_path;
    }

    /// Sets the default identity.
    pub fn set_default_identity(&mut self, default_identity: Option<Vec<u8>>)
        ensures
            final(self).config.default_identity == default_identity,
            final(self).config.nodes == old(self).config.nodes,
            final(self).config.lookup == old(self).config.lookup,
            final(self).config.default == old(self).config.default,
            final(self).config.directories == old(self).config.directories,
            final(self).config.default_vault_path == old(self).config.default_vault_path,
            final(self).config_path == old(self).config_path,
    {
        self.config.default_identity = default_identity;
    }

    /// Decides what to do with a request: forward it to the managed node that
    /// its target-node parameter names, answer `NotFound` where that node is
    /// not managed, or else serve it by method and path.
    pub fn handle_message(&self, req: &Request) -> (r: Dispatch)
        ensures
            dispatched(self.config, *req, r),
    {
        match &req.target_node {
            Some(name) => match self.config.find_node(name.as_str()) {
                Some(i) => {
                    let node = &self.config.nodes[i];
                    let d = Dispatch::Forward { node_name: name.clone(), address: node.addr.clone() };
                    assert(self.config.nodes@[i as int].addr@ == d->address@);
                    d
                },
                None => Dispatch::Respond(Response::builder(req.id, Status::NotFound)),
            },
            None => match req.method {
                None => Dispatch::Respond(
                    Response::with_message(req.id, Status::BadRequest, owned("Invalid request method.")),
                ),
                Some(m) => match match_route(m, req.path.as_str()) {
                    Some(route) => Dispatch::Local(route),
                    None => {
                        let a = concat("Path not found: ", method_name(m).as_str());
                        let b = concat(a.as_str(), " ");
                        let msg = concat(b.as_str(), req.path.as_str());
                        assert(msg@ =~= path_not_found_message(m, req.path@));
                        Dispatch::Respond(Response::with_message(req.id, Status::NotFound, msg))
                    },
                },
            },
        }
    }

    /// `GET /nodes`: every managed node with its process id and port, marked
    /// up.
    pub fn get_nodes(&self, req: &Request) -> (r: Response)
        ensures
            r.id == req.id,
            r.status == Status::Success,
            r.body matches ResponseBody::Nodes(list) && list.list@.len() == self.config.nodes@.len()
                && forall|i: int|
                0 <= i < list.list@.len() ==> {
                    let s = #[trigger] list.list@[i];
                    let n = self.config.nodes@[i];
                    &&& s.node_name@ == n.name@
                    &&& s.status@ == "Up"@
                    &&& s.workers == 0
                    &&& s.pid == listed_pid(n.pid)
                    &&& s.transports == 0
                    &&& s.details is None
                    &&& s.port == Some(n.port)
                },
    {
        let mut list: Vec<NodeStatus> = Vec::new();
        let mut i: usize = 0;
        while i < self.config.nodes.len()
            invariant
                i <= self.config.nodes@.len(),
                list@.len() == i,
                forall|k: int|
                    0 <= k < i ==> {
                        let s = #[trigger] list@[k];
                        let n = self.config.nodes@[k];
                        &&& s.node_name@ == n.name@
                        &&& s.status@ == "Up"@
                        &&& s.workers == 0
                        &&& s.pid == listed_pid(n.pid)
                        &&& s.transports == 0
                        &&& s.details is None
                        &&& s.port == Some(n.port)
                    },
            decreases self.config.nodes@.len() - i,
        {
            let n = &self.config.nodes[i];
            let pid: i32 = match n.pid {
                Some(p) => p,
                None => 0,
            };
            let mut status = NodeStatus::new(n.name.clone(), owned("Up"), 0, pid, 0, None);
            status.port = Some(n.port);
            list.push(status);
            i = i + 1;
        }
        Response::ok(req.id, ResponseBody::Nodes(NodeList::new(list)))
    }
}

} // verus!
