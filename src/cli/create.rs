//! Commands that create resources.

use vstd::prelude::*;
use crate::api::{Method, RequestBody};
use crate::base::CreateNodeRequest;
use crate::cli::{hex_encode, hex_of, random_bytes, ApiBuilder};
use crate::lifecycle::any_loopback_port;
use crate::text::{owned, views};

verus! {

/// Command to create a node.
pub struct NodeCommand {
    pub node_name: String,
    pub tcp_listener_address: String,
    pub skip_defaults: bool,
    pub enable_credential_checks: bool,
    pub no_shared_identity: bool,
    pub launch_config: Option<String>,
    pub no_watchdog: bool,
    pub project: Option<String>,
    pub config: Option<String>,
}

impl Default for NodeCommand {
    /// A command for a node with a random name of eight hexadecimal digits,
    /// listening on any free loopback port.
    fn default() -> (r: Self)
        ensures
            exists|b: Seq<u8>| b.len() == 4 && r.node_name@ == hex_of(b),
            r.tcp_listener_address@ == any_loopback_port(),
            !r.skip_defaults,
            !r.enable_credential_checks,
            !r.no_shared_identity,
            r.launch_config is None,
            !r.no_watchdog,
            r.project is None,
            r.config is None,
    {
        let bytes = random_bytes();
        let node_name = hex_encode(&bytes);
        assert(bytes@.len() == 4);
        NodeCommand {
            node_name,
            tcp_listener_address: owned("127.0.0.1:0"),
            skip_defaults: false,
            enable_credential_checks: false,
            no_shared_identity: false,
            launch_config: None,
            no_watchdog: false,
            project: None,
            config: None,
        }
    }
}

/// Whether a create-node request carries the fields of a command.
pub open spec fn requests_node(b: CreateNodeRequest, c: NodeCommand, verbose: u8) -> bool {
    &&& b.node_name@ == c.node_name@
    &&& b.tcp_listener_address@ == c.tcp_listener_address@
    &&& b.skip_defaults == c.skip_defaults
    &&& b.enable_credential_checks == c.enable_credential_checks
    &&& b.no_shared_identity == c.no_shared_identity
    &&& b.launch_config == c.launch_config
    &&& b.no_watchdog == c.no_watchdog
    &&& b.project == c.project
    &&& b.config == c.config
    &&& b.verbose == verbose
}

impl NodeCommand {
    /// Prepares `POST /node` with the command's fields as its body.
    pub fn run(self, api_builder: &mut ApiBuilder, verbose: u8) -> (r: RequestBody)
        ensures
            views(final(api_builder).path@) == views(old(api_builder).path@).push("node"@),
            final(api_builder).method == old(api_builder).method,
            final(api_builder).node_name == old(api_builder).node_name,
            r matches RequestBody::CreateNode(b) && requests_node(b, self, verbose),
    {
        let ghost cmd = self;
        let payload = CreateNodeRequest {
            node_name: self.node_name,
            tcp_listener_address: self.tcp_listener_address,
            skip_defaults: self.skip_defaults,
            enable_credential_checks: self.enable_credential_checks,
            no_shared_identity: self.no_shared_identity,
            launch_config: self.launch_config,
            no_watchdog: self.no_watchdog,
            project: self.project,
            config: self.config,
            verbose,
        };
        let ghost before = api_builder.path@;
        api_builder.to_path(owned("node"));
        proof {
            reveal_strlit("node");
            assert(views(api_builder.path@) =~= views(before).push("node"@));
        }
        RequestBody::CreateNode(payload)
    }
}

/// What can be created.
pub enum CreateSubcommand {
    Node(NodeCommand),
}

/// Command to create a resource.
pub struct CreateCommand {
    pub subcommand: CreateSubcommand,
}

impl CreateCommand {
    /// Prepares the request that creates the resource: a `POST`.
    pub fn run(self, verbose: u8) -> (r: (ApiBuilder, RequestBody))
        ensures
            r.0.method == Method::Post,
            r.0.node_name is None,
            match self.subcommand {
                CreateSubcommand::Node(c) => views(r.0.path@) == seq!["node"@] && (r.1 matches RequestBody::CreateNode(b)
                    && requests_node(b, c, verbose)),
            },
    {
        let mut api_builder = ApiBuilder::new(Method::Post);
        assert(views(api_builder.path@) =~= Seq::empty());
        let body = match self.subcommand {
            CreateSubcommand::Node(c) => c.run(&mut api_builder, verbose),
        };
        proof {
            assert(views(api_builder.path@) =~= seq!["node"@]);
        }
        (api_builder, body)
    }
}

} // verus!
