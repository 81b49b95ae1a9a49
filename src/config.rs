//! The coordinator's durable record of the nodes it manages.

use vstd::prelude::*;
use crate::text::str_equals;

verus! {

/// The record of one managed node.
pub struct NodeRecord {
    pub name: String,
    /// The address the node listens on, as `host:port`
    pub addr: String,
    pub port: u16,
    /// The id of the node's process, once it was started
    pub pid: Option<i32>,
    pub verbose: u8,
    /// Where the node keeps its state
    pub state_dir: Option<String>,
}

/// One entry of the lookup table: a node's name and address.
pub struct LookupEntry {
    pub name: String,
    pub addr: String,
}

/// The platform directories the coordinator keeps its files in.
pub struct Directories {
    pub config_dir: String,
    pub data_local_dir: String,
}

/// Every node the coordinator manages, with its lookup table and defaults.
pub struct GlobalConfig {
    pub nodes: Vec<NodeRecord>,
    /// The first node that was created
    pub default: Option<String>,
    pub lookup: Vec<LookupEntry>,
    pub directories: Option<Directories>,
    pub default_vault_path: Option<String>,
    pub default_identity: Option<Vec<u8>>,
}

impl GlobalConfig {
    /// The names of the nodes, in the order they were added.
    pub open spec fn names(&self) -> Seq<Seq<char>> {
        self.nodes@.map_values(|n: NodeRecord| n.name@)
    }

    /// Whether a node of this name is managed.
    pub open spec fn has_node(&self, name: Seq<char>) -> bool {
        exists|i: int| 0 <= i < self.nodes@.len() && #[trigger] self.nodes@[i].name@ == name
    }

    /// Whether some managed node claims this port.
    pub open spec fn port_claimed(&self, port: u16) -> bool {
        exists|i: int| 0 <= i < self.nodes@.len() && #[trigger] self.nodes@[i].port == port
    }

    /// How many records carry this name.
    pub open spec fn count_named(&self, name: Seq<char>) -> nat {
        self.names().filter(|n: Seq<char>| n == name).len()
    }

    /// Names are unique; the lookup table runs beside the records; a default
    /// is set once there is a node.
    pub open spec fn wf(&self) -> bool {
        &&& forall|i: int, j: int|
            0 <= i < j < self.nodes@.len() ==> #[trigger] self.nodes@[i].name@
                != #[trigger] self.nodes@[j].name@
        &&& self.lookup@.len() == self.nodes@.len()
        &&& forall|i: int|
            0 <= i < self.nodes@.len() ==> (#[trigger] self.lookup@[i]).name@ == self.nodes@[i].name@
                && self.lookup@[i].addr@ == self.nodes@[i].addr@
        &&& self.nodes@.len() > 0 ==> self.default is Some
    }

    /// A configuration with no nodes.
    pub fn new(directories: Option<Directories>) -> (r: GlobalConfig)
        ensures
            r.wf(),
            r.nodes@.len() == 0,
            r.default is None,
            r.directories == directories,
            r.default_vault_path is None,
            r.default_identity is None,
    {
        GlobalConfig {
            nodes: Vec::new(),
            default: None,
            lookup: Vec::new(),
            directories,
            default_vault_path: None,
            default_identity: None,
        }
    }

    /// The position of the node of this name.
    pub fn find_node(&self, name: &str) -> (r: Option<usize>)
        ensures
            r matches Some(i) ==> i < self.nodes@.len() && self.nodes@[i as int].name@ == name@,
            r is None <==> !self.has_node(name@),
    {
        let mut i: usize = 0;
        while i < self.nodes.len()
            invariant
                i <= self.nodes@.len(),
                forall|k: int| 0 <= k < i ==> self.nodes@[k].name@ != name@,
            decreases self.nodes@.len() - i,
        {
            if str_equals(self.nodes[i].name.as_str(), name) {
                return Some(i);
            }
            i = i + 1;
        }
        None
    }

    /// Whether a node of this name is managed.
    pub fn contains_node(&self, name: &str) -> (r: bool)
        ensures
            r == self.has_node(name@),
    {
        self.find_node(name).is_some()
    }

    /// Whether some managed node claims this port.
    pub fn port_in_use(&self, port: u16) -> (r: bool)
        ensures
            r == self.port_claimed(port),
    {
        let mut i: usize = 0;
        while i < self.nodes.len()
            invariant
                i <= self.nodes@.len(),
                forall|k: int| 0 <= k < i ==> self.nodes@[k].port != port,
            decreases self.nodes@.len() - i,
        {
            if self.nodes[i].port == port {
                return true;
            }
            i = i + 1;
        }
        false
    }

    /// Adds the record of a node whose name is not yet taken, with its lookup
    /// entry; the first node becomes the default.
    pub fn insert_node(&mut self, record: NodeRecord)
        requires
            old(self).wf(),
            !old(self).has_node(record.name@),
        ensures
            final(self).wf(),
            final(self).nodes@ == old(self).nodes@.push(record),
            old(self).default matches Some(d) ==> final(self).default == Some(d),
            old(self).default is None ==> (final(self).default matches Some(d) && d@ == record.name@),
            final(self).directories == old(self).directories,
            final(self).default_vault_path == old(self).default_vault_path,
            final(self).default_identity == old(self).default_identity,
    {
        let entry = LookupEntry { name: record.name.clone(), addr: record.addr.clone() };
        if self.default.is_none() {
            self.default = Some(record.name.clone());
        }
        self.lookup.push(entry);
        self.nodes.push(record);
        assert(self.nodes@.len() > 0);
        assert forall|i: int, j: int| 0 <= i < j < self.nodes@.len() implies #[trigger] self.nodes@[i].name@
            != #[trigger] self.nodes@[j].name@ by {
            if j == self.nodes@.len() - 1 {
                assert(old(self).nodes@[i].name@ != record.name@);
            }
        }
    }
}

} // verus!
