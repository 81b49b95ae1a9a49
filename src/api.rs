//! Request and response envelopes of the control-plane protocol.

use vstd::prelude::*;
use crate::base::{CreateNodeRequest, GetNodeStatusRequest, NodeList, NodeStatus};
use crate::identity::IdentityResponse;
use crate::resources::{InletList, OutletList, SecureChannelList, ServiceList};
use crate::transport::{GetTransportList, TransportList};

verus! {

/// The method of a request.
#[derive(Copy, Clone, Debug, PartialEq, Eq, Structural)]
pub enum Method {
    Get,
    Post,
    Put,
    Delete,
    Patch,
}

/// The status of a response.
#[derive(Copy, Clone, Debug, PartialEq, Eq, Structural)]
pub enum Status {
    /// The request was served
    Success,
    BadRequest,
    NotFound,
    Conflict,
    InternalServerError,
}

/// The payload of a request, already decoded.
pub enum RequestBody {
    Empty,
    NodeStatusQuery(GetNodeStatusRequest),
    CreateNode(CreateNodeRequest),
    TransportQuery(GetTransportList),
}

/// A request envelope.
pub struct Request {
    /// Correlation id, echoed by the response
    pub id: u32,
    /// The method, or `None` where the envelope named none that is known
    pub method: Option<Method>,
    /// Slash-separated path
    pub path: String,
    /// The managed node the request is meant for, if any
    pub target_node: Option<String>,
    pub body: RequestBody,
}

/// The payload of a response.
pub enum ResponseBody {
    Empty,
    Message(String),
    Node(NodeStatus),
    Nodes(NodeList),
    Transports(TransportList),
    Identity(IdentityResponse),
    Services(ServiceList),
    Listeners(Vec<String>),
    SecureChannels(SecureChannelList),
    Inlets(InletList),
    Outlets(OutletList),
}

/// A response envelope.
pub struct Response {
    /// The id of the request this answers
    pub id: u32,
    pub status: Status,
    pub body: ResponseBody,
}

/// What goes back to the client: an envelope built here, or the bytes a node
/// replied with, unchanged.
pub enum Reply {
    Envelope(Response),
    Relay(Vec<u8>),
}

impl Response {
    /// A response with the given status and no body.
    pub fn builder(id: u32, status: Status) -> (r: Response)
        ensures
            r.id == id,
            r.status == status,
            r.body is Empty,
    {
        Response { id, status, body: ResponseBody::Empty }
    }

    /// A successful response that carries `body`.
    pub fn ok(id: u32, body: ResponseBody) -> (r: Response)
        ensures
            r.id == id,
            r.status == Status::Success,
            r.body == body,
    {
        Response { id, status: Status::Success, body }
    }

    /// A response with the given status and a message for the caller.
    pub fn with_message(id: u32, status: Status, message: String) -> (r: Response)
        ensures
            r.id == id,
            r.status == status,
            r.body matches ResponseBody::Message(m) && m@ == message@,
    {
        Response { id, status, body: ResponseBody::Message(message) }
    }
}

} // verus!
