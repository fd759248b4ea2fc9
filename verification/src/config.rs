//! Settings, counters and transports.

use vstd::prelude::*;

verus! {

/// How a message was carried.
#[derive(Debug, Clone, Copy, PartialEq, Eq, Structural)]
pub enum TransportType {
    Tcp,
    Udp,
    WebSocket,
}

/// The settings of a host.
#[derive(Debug, Clone, Copy, PartialEq, Eq, Structural)]
pub struct NetworkConfig {
    pub max_connections: usize,
    pub buffer_size: usize,
    pub compression: bool,
    pub encryption: bool,
    pub heartbeat_interval: u64,
    pub rate_limit_per_second: u32,
    pub max_message_size: usize,
    pub enable_metrics: bool,
    pub connection_timeout: u64,
    pub max_rooms: usize,
    pub max_travelers_per_room: usize,
}

impl Default for NetworkConfig {
    fn default() -> (c: NetworkConfig)
        ensures
            c == (NetworkConfig {
                max_connections: 1000,
                buffer_size: 8192,
                compression: false,
                encryption: false,
                heartbeat_interval: 30000,
                rate_limit_per_second: 60,
                max_message_size: 1048576,
                enable_metrics: false,
                connection_timeout: 60000,
                max_rooms: 100,
                max_travelers_per_room: 50,
            }),
    {
        NetworkConfig {
            max_connections: 1000,
            buffer_size: 8192,
            compression: false,
            encryption: false,
            heartbeat_interval: 30000,
            rate_limit_per_second: 60,
            max_message_size: 1024 * 1024,
            enable_metrics: false,
            connection_timeout: 60000,
            max_rooms: 100,
            max_travelers_per_room: 50,
        }
    }
}

/// The counters of a host.
#[derive(Debug, Clone, Copy, PartialEq, Eq, Structural)]
pub struct NetworkStats {
    pub active_connections: usize,
    pub total_connections: u64,
    pub messages_sent: u64,
    pub messages_received: u64,
    pub bytes_sent: u64,
    pub bytes_received: u64,
    pub errors: u64,
    pub active_rooms: usize,
    pub rate_limit_violations: u64,
    pub validation_failures: u64,
    pub host_migrations: u64,
    pub uptime_seconds: u64,
}

impl NetworkStats {
    /// Counters of which none has counted anything yet.
    pub open spec fn zero() -> NetworkStats {
        NetworkStats {
            active_connections: 0,
            total_connections: 0,
            messages_sent: 0,
            messages_received: 0,
            bytes_sent: 0,
            bytes_received: 0,
            errors: 0,
            active_rooms: 0,
            rate_limit_violations: 0,
            validation_failures: 0,
            host_migrations: 0,
            uptime_seconds: 0,
        }
    }
}

impl Default for NetworkStats {
    fn default() -> (s: NetworkStats)
        ensures
            s == NetworkStats::zero(),
    {
        NetworkStats {
            active_connections: 0,
            total_connections: 0,
            messages_sent: 0,
            messages_received: 0,
            bytes_sent: 0,
            bytes_received: 0,
            errors: 0,
            active_rooms: 0,
            rate_limit_violations: 0,
            validation_failures: 0,
            host_migrations: 0,
            uptime_seconds: 0,
        }
    }
}

/// Counters start at zero, each of them.
pub proof fn law_counters_start_at_zero()
    ensures
        NetworkStats::zero().active_connections == 0,
        NetworkStats::zero().total_connections == 0,
        NetworkStats::zero().messages_sent == 0,
        NetworkStats::zero().messages_received == 0,
        NetworkStats::zero().bytes_sent == 0,
        NetworkStats::zero().bytes_received == 0,
        NetworkStats::zero().errors == 0,
        NetworkStats::zero().active_rooms == 0,
        NetworkStats::zero().rate_limit_violations == 0,
        NetworkStats::zero().validation_failures == 0,
        NetworkStats::zero().host_migrations == 0,
        NetworkStats::zero().uptime_seconds == 0,
{
}

} // verus!
