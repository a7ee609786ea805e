//! Cluster protocol messages for peer-to-peer communication.

use vstd::prelude::*;

use crate::clock::unix_now;

verus! {

/// Protocol version.
pub const PROTOCOL_VERSION: u32 = 1;

/// Protocol version wrapper.
#[derive(Debug, Clone, Copy, PartialEq, Eq, Structural)]
pub struct ProtocolVersion(pub u32);

impl Default for ProtocolVersion {
    fn default() -> (v: ProtocolVersion)
        ensures
            v.0 == PROTOCOL_VERSION,
    {
        ProtocolVersion(PROTOCOL_VERSION)
    }
}

/// Hello handshake.
#[derive(Debug, Clone)]
pub struct HelloMessage {
    pub node_id: String,
    pub node_name: String,
    pub protocol_version: u32,
    pub public_key: String,
}

/// Authentication message.
#[derive(Debug, Clone)]
pub struct AuthMessage {
    pub node_id: String,
    /// Signed challenge
    pub signature: String,
    pub timestamp: i64,
}

/// Authentication response.
#[derive(Debug, Clone)]
pub struct AuthResponse {
    pub success: bool,
    pub error: Option<String>,
    pub session_id: Option<String>,
}

/// Node information.
#[derive(Debug, Clone)]
pub struct NodeInfoMessage {
    pub node_id: String,
    pub node_name: String,
    pub host: String,
    pub port: u16,
    pub version: String,
    pub cpu_cores: usize,
    pub ram_total: u64,
    pub gpu_count: usize,
    pub max_workers: usize,
}

/// Node joined notification.
#[derive(Debug, Clone)]
pub struct NodeJoinedMessage {
    pub node_id: String,
    pub node_name: String,
    pub host: String,
    pub port: u16,
    pub version: String,
}

/// Node left notification.
#[derive(Debug, Clone)]
pub struct NodeLeftMessage {
    pub node_id: String,
    pub reason: String,
}

/// Ping message.
#[derive(Debug, Clone)]
pub struct PingMessage {
    pub node_id: String,
    pub timestamp: i64,
}

/// Pong response.
#[derive(Debug, Clone)]
pub struct PongMessage {
    pub node_id: String,
    pub timestamp: i64,
    pub original_timestamp: i64,
}

/// Worker update.
#[derive(Debug, Clone)]
pub struct WorkerUpdateMessage {
    pub node_id: String,
    pub worker_count: usize,
    pub available_workers: usize,
}

/// Shutdown message.
#[derive(Debug, Clone)]
pub struct ShutdownMessage {
    pub node_id: String,
    pub reason: String,
}

/// Heartbeat message. The CPU usage is the bit pattern of its `f32` value:
/// it is carried, never computed with.
#[derive(Debug, Clone)]
pub struct HeartbeatMessage {
    pub node_id: String,
    pub timestamp: i64,
    pub cpu_usage_bits: u32,
    pub ram_usage: u64,
    pub ram_total: u64,
    pub worker_count: usize,
    pub active_jobs: usize,
    pub status: String,
}

/// Resource update. The CPU usage is the bit pattern of its `f32` value.
#[derive(Debug, Clone)]
pub struct ResourceUpdateMessage {
    pub node_id: String,
    pub cpu_usage_bits: u32,
    pub ram_used: u64,
    pub ram_available: u64,
    pub worker_count: usize,
    pub active_jobs: usize,
}

/// Node state in cluster. The CPU usage is the bit pattern of its `f32` value.
#[derive(Debug, Clone)]
pub struct NodeState {
    pub node_id: String,
    pub node_name: String,
    pub host: String,
    pub port: u16,
    pub status: String,
    pub cpu_cores: usize,
    pub cpu_usage_bits: u32,
    pub ram_total: u64,
    pub ram_used: u64,
    pub worker_count: usize,
    pub active_jobs: usize,
    pub version: String,
    pub last_seen: i64,
}

/// Full cluster state.
#[derive(Debug, Clone)]
pub struct ClusterStateMessage {
    pub node_id: String,
    pub nodes: Vec<NodeState>,
    pub timestamp: i64,
}

/// Message types.
#[derive(Debug, Clone)]
pub enum Message {
    /// Handshake message
    Hello(HelloMessage),
    /// Authentication request
    Authenticate(AuthMessage),
    /// Authentication response
    AuthResponse(AuthResponse),
    /// Heartbeat message
    Heartbeat(HeartbeatMessage),
    /// Node information
    NodeInfo(NodeInfoMessage),
    /// Resource update
    ResourceUpdate(ResourceUpdateMessage),
    /// Node joined notification
    NodeJoined(NodeJoinedMessage),
    /// Node left notification
    NodeLeft(NodeLeftMessage),
    /// Ping message
    Ping(PingMessage),
    /// Pong response
    Pong(PongMessage),
    /// Full cluster state
    ClusterState(ClusterStateMessage),
    /// Worker update
    WorkerUpdate(WorkerUpdateMessage),
    /// Shutdown signal
    Shutdown(ShutdownMessage),
}

impl Message {
    /// The name of a message's variant, as the wire format tags it.
    pub open spec fn kind_name(self) -> Seq<char> {
        match self {
            Message::Hello(_) => "Hello"@,
            Message::Authenticate(_) => "Authenticate"@,
            Message::AuthResponse(_) => "AuthResponse"@,
            Message::Heartbeat(_) => "Heartbeat"@,
            Message::NodeInfo(_) => "NodeInfo"@,
            Message::ResourceUpdate(_) => "ResourceUpdate"@,
            Message::NodeJoined(_) => "NodeJoined"@,
            Message::NodeLeft(_) => "NodeLeft"@,
            Message::Ping(_) => "Ping"@,
            Message::Pong(_) => "Pong"@,
            Message::ClusterState(_) => "ClusterState"@,
            Message::WorkerUpdate(_) => "WorkerUpdate"@,
            Message::Shutdown(_) => "Shutdown"@,
        }
    }

    /// A handshake at the current protocol version.
    pub fn hello(node_id: String, node_name: String, public_key: String) -> (m: Message)
        ensures
            m == Message::Hello(
                HelloMessage { node_id, node_name, protocol_version: PROTOCOL_VERSION, public_key },
            ),
    {
        Message::Hello(
            HelloMessage { node_id, node_name, protocol_version: PROTOCOL_VERSION, public_key },
        )
    }

    /// A heartbeat carrying the given figures, stamped with the current time.
    pub fn heartbeat(
        node_id: String,
        cpu_usage_bits: u32,
        ram_usage: u64,
        ram_total: u64,
        worker_count: usize,
        active_jobs: usize,
        status: String,
    ) -> (m: Message)
        ensures
            m matches Message::Heartbeat(h) && h.node_id == node_id && h.cpu_usage_bits
                == cpu_usage_bits && h.ram_usage == ram_usage && h.ram_total == ram_total
                && h.worker_count == worker_count && h.active_jobs == active_jobs && h.status
                == status,
    {
        let timestamp = unix_now();
        Message::Heartbeat(
            HeartbeatMessage {
                node_id,
                timestamp,
                cpu_usage_bits,
                ram_usage,
                ram_total,
                worker_count,
                active_jobs,
                status,
            },
        )
    }

    /// A ping from `node_id`, stamped with the current time.
    pub fn ping(node_id: String) -> (m: Message)
        ensures
            m matches Message::Ping(p) && p.node_id == node_id,
    {
        let timestamp = unix_now();
        Message::Ping(PingMessage { node_id, timestamp })
    }

    /// The answer to a ping sent at `original_timestamp`, stamped with the
    /// current time.
    pub fn pong(node_id: String, original_timestamp: i64) -> (m: Message)
        ensures
            m matches Message::Pong(p) && p.node_id == node_id && p.original_timestamp
                == original_timestamp,
    {
        let timestamp = unix_now();
        Message::Pong(PongMessage { node_id, timestamp, original_timestamp })
    }

    /// The name of the message's variant.
    pub fn message_type(&self) -> (name: &'static str)
        ensures
            name@ == self.kind_name(),
    {
        match self {
            Message::Hello(_) => "Hello",
            Message::Authenticate(_) => "Authenticate",
            Message::AuthResponse(_) => "AuthResponse",
            Message::Heartbeat(_) => "Heartbeat",
            Message::NodeInfo(_) => "NodeInfo",
            Message::ResourceUpdate(_) => "ResourceUpdate",
            Message::NodeJoined(_) => "NodeJoined",
            Message::NodeLeft(_) => "NodeLeft",
            Message::Ping(_) => "Ping",
            Message::Pong(_) => "Pong",
            Message::ClusterState(_) => "ClusterState",
            Message::WorkerUpdate(_) => "WorkerUpdate",
            Message::Shutdown(_) => "Shutdown",
        }
    }
}

} // verus!
