//! Nodes of the virtual network.
use vstd::prelude::*;

verus! {

/// A node of the virtual network.
#[derive(Debug, PartialEq, Eq)]
pub struct EasyTierNode {
    /// The node's address in the virtual network.
    pub virtual_ip: String,
    /// The name that the node gives itself.
    pub hostname: String,
    /// The node's identifier.
    pub node_id: String,
}

/// What a node holds.
#[verifier::ext_equal]
pub struct NodeView {
    pub virtual_ip: Seq<char>,
    pub hostname: Seq<char>,
    pub node_id: Seq<char>,
}

impl View for EasyTierNode {
    type V = NodeView;

    open spec fn view(&self) -> NodeView {
        NodeView {
            virtual_ip: self.virtual_ip@,
            hostname: self.hostname@,
            node_id: self.node_id@,
        }
    }
}

impl Clone for EasyTierNode {
    fn clone(&self) -> (copy: Self)
        ensures
            copy@ == self@,
    {
        EasyTierNode {
            virtual_ip: self.virtual_ip.clone(),
            hostname: self.hostname.clone(),
            node_id: self.node_id.clone(),
        }
    }
}

impl Default for EasyTierNode {
    /// A node of which nothing is known.
    fn default() -> (node: Self)
        ensures
            node@ == (NodeView {
                virtual_ip: Seq::empty(),
                hostname: Seq::empty(),
                node_id: Seq::empty(),
            }),
    {
        EasyTierNode { virtual_ip: String::new(), hostname: String::new(), node_id: String::new() }
    }
}

} // verus!
