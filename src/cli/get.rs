//! Commands that read resources.

use vstd::prelude::*;
use crate::api::{Method, RequestBody};
use crate::base::GetNodeStatusRequest;
use crate::cli::ApiBuilder;
use crate::text::{owned, views};
use crate::transport::{GetTransportList, TransportMode, TransportType};

verus! {

/// Command to list the transports of a node.
pub struct TransportsCommand {
    pub tts: Option<Vec<TransportType>>,
    pub tms: Option<Vec<TransportMode>>,
}

impl TransportsCommand {
    /// Prepares `.../transports` with the types and modes to list.
    pub fn run(self, api_builder: &mut ApiBuilder) -> (r: RequestBody)
        ensures
            views(final(api_builder).path@) == views(old(api_builder).path@).push("transports"@),
            final(api_builder).method == old(api_builder).method,
            final(api_builder).node_name == old(api_builder).node_name,
            r matches RequestBody::TransportQuery(q) && q.tts == self.tts && q.tms == self.tms,
    {
        let ghost before = api_builder.path@;
        api_builder.to_path(owned("transports"));
        proof {
            assert(views(api_builder.path@) =~= views(before).push("transports"@));
        }
        RequestBody::TransportQuery(GetTransportList::new(self.tts, self.tms))
    }
}

/// Command to list the secure channels of a node.
pub struct SecureChannelsCommand {}

impl SecureChannelsCommand {
    /// Prepares `.../secure_channels`, without a body.
    pub fn run(self, api_builder: &mut ApiBuilder) -> (r: RequestBody)
        ensures
            views(final(api_builder).path@) == views(old(api_builder).path@).push("secure_channels"@),
            final(api_builder).method == old(api_builder).method,
            final(api_builder).node_name == old(api_builder).node_name,
            r is Empty,
    {
        let ghost before = api_builder.path@;
        api_builder.to_path(owned("secure_channels"));
        proof {
            assert(views(api_builder.path@) =~= views(before).push("secure_channels"@));
        }
        RequestBody::Empty
    }
}

/// Command to list every node.
pub struct NodesCommand {}

impl NodesCommand {
    /// Prepares `.../nodes`, without a body.
    pub fn run(self, api_builder: &mut ApiBuilder) -> (r: RequestBody)
        ensures
            views(final(api_builder).path@) == views(old(api_builder).path@).push("nodes"@),
            final(api_builder).method == old(api_builder).method,
            final(api_builder).node_name == old(api_builder).node_name,
            r is Empty,
    {
        let ghost before = api_builder.path@;
        api_builder.to_path(owned("nodes"));
        proof {
            assert(views(api_builder.path@) =~= views(before).push("nodes"@));
        }
        RequestBody::Empty
    }
}

/// The resources of a node that can be listed.
pub enum NodeSubcommand {
    Transports(TransportsCommand),
    SecureChannels(SecureChannelsCommand),
}

/// Command to get a node's status or list one kind of its resources.
pub struct NodeCommand {
    /// The node the request is meant for
    pub api_node: String,
    pub detailed: Option<bool>,
    pub subcommand: Option<NodeSubcommand>,
}

impl NodeCommand {
    /// Prepares `.../node`, or one of its resource paths, for the named node.
    pub fn run(self, api_builder: &mut ApiBuilder) -> (r: RequestBody)
        ensures
            final(api_builder).method == old(api_builder).method,
            final(api_builder).node_name matches Some(n) && n@ == self.api_node@,
            match self.subcommand {
                None => views(final(api_builder).path@) == views(old(api_builder).path@).push("node"@)
                    && (r matches RequestBody::NodeStatusQuery(q) && q.detailed == self.detailed),
                Some(NodeSubcommand::Transports(c)) => views(final(api_builder).path@) == views(
                    old(api_builder).path@,
                ).push("node"@).push("transports"@) && (r matches RequestBody::TransportQuery(q) && q.tts
                    == c.tts && q.tms == c.tms),
                Some(NodeSubcommand::SecureChannels(_)) => views(final(api_builder).path@) == views(
                    old(api_builder).path@,
                ).push("node"@).push("secure_channels"@) && r is Empty,
            },
    {
        let ghost before = api_builder.path@;
        api_builder.to_path(owned("node"));
        api_builder.for_node(self.api_node);
        proof {
            assert(views(api_builder.path@) =~= views(before).push("node"@));
        }
        match self.subcommand {
            Some(NodeSubcommand::Transports(c)) => c.run(api_builder),
            Some(NodeSubcommand::SecureChannels(c)) => c.run(api_builder),
            None => RequestBody::NodeStatusQuery(GetNodeStatusRequest::new(self.detailed)),
        }
    }
}

/// What can be read.
pub enum GetSubcommand {
    Nodes(NodesCommand),
    Node(NodeCommand),
}

/// Command to read resources.
pub struct GetCommand {
    pub subcommand: GetSubcommand,
}

impl GetCommand {
    /// Prepares the request that reads the resource: a `GET`.
    pub fn run(self) -> (r: (ApiBuilder, RequestBody))
        ensures
            r.0.method == Method::Get,
            match self.subcommand {
                GetSubcommand::Nodes(_) => views(r.0.path@) == seq!["nodes"@] && r.0.node_name is None
                    && r.1 is Empty,
                GetSubcommand::Node(c) => r.0.node_name matches Some(n) && n@ == c.api_node@,
            },
    {
        let mut api_builder = ApiBuilder::new(Method::Get);
        assert(views(api_builder.path@) =~= Seq::empty());
        let body = match self.subcommand {
            GetSubcommand::Nodes(c) => {
                let b = c.run(&mut api_builder);
                assert(views(api_builder.path@) =~= seq!["nodes"@]);
                b
            },
            GetSubcommand::Node(c) => c.run(&mut api_builder),
        };
        (api_builder, body)
    }
}

} // verus!
