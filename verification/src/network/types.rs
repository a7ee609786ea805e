//! Configuration and identity of this node on the cluster network.

use vstd::prelude::*;

verus! {

/// Configuration for the network layer.
#[derive(Debug, Clone)]
pub struct NetworkConfig {
    /// TCP port for runtime communication
    pub runtime_port: u16,
    /// UDP port for node discovery
    pub discovery_port: u16,
    /// Node name (friendly name)
    pub node_name: String,
    /// Whether to advertise compute resources
    pub advertise_compute: bool,
    /// Heartbeat interval in seconds
    pub heartbeat_interval: u64,
    /// Discovery interval in seconds
    pub discovery_interval: u64,
}

pub open spec fn is_default_network_config(c: NetworkConfig) -> bool {
    &&& c.runtime_port == 54321
    &&& c.discovery_port == 54322
    &&& c.node_name@ == "cluster-node"@
    &&& c.advertise_compute
    &&& c.heartbeat_interval == 5
    &&& c.discovery_interval == 10
}

impl Default for NetworkConfig {
    fn default() -> (c: NetworkConfig)
        ensures
            is_default_network_config(c),
    {
        NetworkConfig {
            runtime_port: 54321,
            discovery_port: 54322,
            node_name: String::from_str("cluster-node"),
            advertise_compute: true,
            heartbeat_interval: 5,
            discovery_interval: 10,
        }
    }
}

/// Node identity.
#[derive(Debug, Clone)]
pub struct NodeIdentity {
    pub node_id: String,
    pub public_key: String,
    pub node_name: String,
    pub host: String,
    pub port: u16,
}

/// Connection state of a node.
#[derive(Debug, Clone, Copy, PartialEq, Eq, Structural)]
pub enum NodeStatus {
    Online,
    Offline,
    Connecting,
    Authenticating,
    Disconnected,
}

impl Default for NodeStatus {
    fn default() -> (s: NodeStatus)
        ensures
            s == NodeStatus::Offline,
    {
        NodeStatus::Offline
    }
}

} // verus!
