pub mod authentication;
pub mod cluster;
pub mod discovery;
pub mod heartbeat;
pub mod identity;
pub mod messages;
pub mod peers;
pub mod transport;
pub mod types;
