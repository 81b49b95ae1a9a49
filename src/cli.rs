//! The client side: commands that prepare requests to the coordinator.

pub mod create;
pub mod get;

use vstd::prelude::*;
use crate::api::{Method, Request, RequestBody, Status};
use crate::lifecycle::{any_loopback_port, get_open_tcp_address, resolves, BindAddress};
use crate::text::{concat, owned, views};

verus! {

/// The two lowercase hexadecimal digits of each byte, in order.
pub open spec fn hex_of(b: Seq<u8>) -> Seq<char>
    decreases b.len(),
{
    if b.len() == 0 {
        Seq::empty()
    } else {
        hex_of(b.drop_last()) + seq![
            "0123456789abcdef"@[(b.last() / 16) as int],
            "0123456789abcdef"@[(b.last() % 16) as int],
        ]
    }
}

/// Relies on `hex::encode`: two lowercase hexadecimal digits for each byte.
#[verifier::external_body]
pub(crate) fn hex_encode(b: &[u8]) -> (r: String)
    ensures
        r@ == hex_of(b@),
{
    hex::encode(b)
}

/// Relies on `rand::random`: four random bytes. Nothing is known of them.
#[verifier::external_body]
pub(crate) fn random_bytes() -> (r: [u8; 4]) {
    rand::random::<[u8; 4]>()
}

/// A path made of segments joined by `/`.
pub open spec fn joined_segments(segs: Seq<Seq<char>>) -> Seq<char>
    decreases segs.len(),
{
    if segs.len() == 0 {
        Seq::empty()
    } else if segs.len() == 1 {
        segs[0]
    } else {
        joined_segments(segs.drop_last()) + "/"@ + segs.last()
    }
}

/// The protocol a request travels over.
#[derive(Copy, Clone, Debug, PartialEq, Eq, Structural)]
pub enum RequestProtcol {
    OckamRouting,
}

/// Builds a request to the coordinator, segment by segment.
pub struct ApiBuilder {
    pub method: Method,
    pub path: Vec<String>,
    pub node_name: Option<String>,
    pub request_protocol: RequestProtcol,
}

impl ApiBuilder {
    pub fn new(method: Method) -> (r: Self)
        ensures
            r.method == method,
            r.path@.len() == 0,
            r.node_name is None,
            r.request_protocol == RequestProtcol::OckamRouting,
    {
        ApiBuilder { method, path: Vec::new(), node_name: None, request_protocol: RequestProtcol::OckamRouting }
    }

    /// Adds a segment to the path.
    pub fn to_path(&mut self, path: String)
        ensures
            final(self).path@ == old(self).path@.push(path),
            final(self).method == old(self).method,
            final(self).node_name == old(self).node_name,
            final(self).request_protocol == old(self).request_protocol,
    {
        self.path.push(path);
    }

    /// Names the node the request is meant for.
    pub fn for_node(&mut self, node_name: String)
        ensures
            final(self).node_name == Some(node_name),
            final(self).path == old(self).path,
            final(self).method == old(self).method,
            final(self).request_protocol == old(self).request_protocol,
    {
        self.node_name = Some(node_name);
    }

    /// The request: the method, the segments joined by `/`, the target node,
    /// and the body, under the given correlation id.
    pub fn build(&self, id: u32, body: RequestBody) -> (r: Request)
        ensures
            r.id == id,
            r.method == Some(self.method),
            r.path@ == joined_segments(views(self.path@)),
            match self.node_name {
                Some(n) => r.target_node matches Some(t) && t@ == n@,
                None => r.target_node is None,
            },
            r.body == body,
    {
        let mut path = String::new();
        let mut i: usize = 0;
        while i < self.path.len()
            invariant
                i <= self.path@.len(),
                path@ == joined_segments(views(self.path@.subrange(0, i as int))),
            decreases self.path@.len() - i,
        {
            let ghost before = path@;
            proof {
                let segs = views(self.path@.subrange(0, i + 1));
                assert(segs.drop_last() =~= views(self.path@.subrange(0, i as int)));
                assert(segs.last() == self.path@[i as int]@);
            }
            if i == 0 {
                path = self.path[i].clone();
            } else {
                let with_slash = concat(path.as_str(), "/");
                path = concat(with_slash.as_str(), self.path[i].as_str());
            }
            i = i + 1;
        }
        assert(self.path@.subrange(0, self.path@.len() as int) =~= self.path@);
        let target_node = match &self.node_name {
            Some(n) => Some(n.clone()),
            None => None,
        };
        Request { id, method: Some(self.method), path, target_node, body }
    }
}

/// Command to set up the coordinator.
pub struct InitCommand {
    pub tcp_listener_address: String,
    /// Set on the process that runs the coordinator in the foreground
    pub init_in_current_process: bool,
}

impl Default for InitCommand {
    /// Any free loopback port, in a background process.
    fn default() -> (r: Self)
        ensures
            r.tcp_listener_address@ == any_loopback_port(),
            !r.init_in_current_process,
    {
        InitCommand { tcp_listener_address: owned("127.0.0.1:0"), init_in_current_process: false }
    }
}

impl InitCommand {
    /// The command with its listen address resolved, as node creation
    /// resolves it.
    pub fn overwrite_addr(&self, parsed: Option<BindAddress>, probed_port: Option<u16>) -> (r: Result<InitCommand, Status>)
        ensures
            exists|res: Result<BindAddress, Status>| #[trigger] resolves(parsed, probed_port, res) && match res {
                Ok(b) => r matches Ok(c) && c.tcp_listener_address@ == b.addr@
                    && c.init_in_current_process == self.init_in_current_process,
                Err(e) => r == Err::<InitCommand, Status>(e),
            },
    {
        let res = get_open_tcp_address(parsed, probed_port);
        match res {
            Ok(b) => Ok(InitCommand { tcp_listener_address: b.addr, init_in_current_process: self.init_in_current_process }),
            Err(e) => Err(e),
        }
    }
}

} // verus!
