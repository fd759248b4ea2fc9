//! Networking core for 2D games: messages and their wire format, rate limiting,
//! rooms with host migration, anti-cheat, lag compensation and metrics.
//!
//! Sockets and channels stay outside this crate. What arrives is handed in as
//! plain values, what has to be sent is handed back as bytes or as a list of
//! recipients, and every decision in between is verified.

pub mod ids;
pub mod time;
pub mod text;
mod filters;
pub mod error;
pub mod config;
pub mod addr;
pub mod payload;
pub mod message;
pub mod wire;
pub mod gzip;
pub mod codec;
pub mod validator;
pub mod rate_limit;
pub mod anti_cheat;
pub mod lag;
pub mod connection;
pub mod event;
pub mod room;
pub mod room_table;
pub mod host;
pub mod host_laws;
pub mod traveler;
pub mod manager;
pub mod nat_traversal;
pub mod metrics;

pub use addr::SocketAddr;
pub use anti_cheat::AntiCheat;
pub use config::{NetworkConfig, NetworkStats, TransportType};
pub use connection::ConnectionInfo;
pub use error::NetworkError;
pub use event::NetworkEvent;
pub use host::{Gate, Host};
pub use ids::{new_connection_id, ConnectionId, RoomId};
pub use lag::LagCompensation;
pub use manager::NetworkManager;
pub use message::{Message, MessagePriority, MessageType};
pub use metrics::NetworkMetrics;
pub use nat_traversal::{NATTraversal, PunchRound};
pub use rate_limit::RateLimiter;
pub use room::Room;
pub use time::{Clock, Duration, Instant};
pub use traveler::{DisconnectStep, Traveler};
pub use validator::MessageValidator;
