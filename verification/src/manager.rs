//! One configuration from which hosts and travelers are made.

use std::collections::HashMap;

use vstd::prelude::*;

use crate::config::{NetworkConfig, NetworkStats};
use crate::connection::ConnectionInfo;
use crate::host::{list_connections, lists_connections, Host, HostView};
use crate::ids::ConnectionId;
use crate::room::{Room, RoomView};
use crate::room_table::{lists_rooms, RoomTable};
use crate::time::{Clock, Instant, NANOS_PER_SECOND};
use crate::traveler::{Traveler, TravelerView};

verus! {

/// The state of a manager as mathematical values.
#[verifier::ext_equal]
pub struct ManagerView {
    pub config: NetworkConfig,
    pub connections: Map<ConnectionId, ConnectionInfo>,
    pub rooms: Map<Seq<char>, RoomView>,
    pub stats: NetworkStats,
    /// Whether compression is available to what is made.
    pub compression: bool,
}

impl ManagerView {
    /// Connections and rooms are filed under their own names.
    pub open spec fn wf(self) -> bool {
        &&& forall|id: ConnectionId| #[trigger]
            self.connections.contains_key(id) ==> self.connections[id].id == id
        &&& forall|name: Seq<char>| #[trigger]
            self.rooms.contains_key(name) ==> self.rooms[name].id == name
    }

    /// A manager that knows of no connections and rooms.
    pub open spec fn fresh(config: NetworkConfig, compression: bool) -> ManagerView {
        ManagerView {
            config,
            connections: Map::empty(),
            rooms: Map::empty(),
            stats: NetworkStats::zero(),
            compression,
        }
    }
}

/// Makes hosts and travelers of one configuration, and keeps counters and lists
/// of its own.
#[derive(Debug)]
pub struct NetworkManager {
    config: NetworkConfig,
    connections: HashMap<ConnectionId, ConnectionInfo>,
    rooms: RoomTable,
    stats: NetworkStats,
    compression: bool,
    clock: Clock,
}

impl View for NetworkManager {
    type V = ManagerView;

    closed spec fn view(&self) -> ManagerView {
        ManagerView {
            config: self.config,
            connections: self.connections@,
            rooms: self.rooms@,
            stats: self.stats,
            compression: self.compression,
        }
    }
}

impl NetworkManager {
    /// Connections and rooms are filed under their own names.
    pub closed spec fn wf(&self) -> bool {
        &&& self.rooms.wf()
        &&& self@.wf()
    }

    /// The clock by which the uptime is measured.
    pub closed spec fn own_clock(&self) -> Clock {
        self.clock
    }

    /// A consistent manager has a consistent view.
    pub proof fn lemma_wf(&self)
        requires
            self.wf(),
        ensures
            self@.wf(),
    {
    }

    /// A manager that knows of no connections and rooms, in a build without compression.
    pub fn new(config: NetworkConfig) -> (m: NetworkManager)
        ensures
            m.wf(),
            m@ == ManagerView::fresh(config, false),
            m.own_clock().starts_now(),
    {
        NetworkManager::new_with(config, false)
    }

    /// A manager that knows of no connections and rooms, in a build with or
    /// without compression.
    pub fn new_with(config: NetworkConfig, compression: bool) -> (m: NetworkManager)
        ensures
            m.wf(),
            m@ == ManagerView::fresh(config, compression),
            m.own_clock().starts_now(),
    {
        NetworkManager {
            config,
            connections: HashMap::new(),
            rooms: RoomTable::new(),
            stats: NetworkStats::default(),
            compression,
            clock: Clock::start(),
        }
    }

    /// A host with the manager's configuration.
    pub fn create_host(&self) -> (h: Host)
        ensures
            h.wf(),
            h@ == HostView::fresh(self@.config, self@.compression),
            h.limiter().limit() == self@.config.rate_limit_per_second,
            h.limiter().windows() == Map::<ConnectionId, (u32, Instant)>::empty(),
            h.max_message_size() == self@.config.max_message_size,
            h.own_clock().starts_now(),
            h.limiter().own_clock().starts_now(),
    {
        Host::new_with(self.config, self.compression)
    }

    /// A traveler that is not connected.
    pub fn create_traveler(&self) -> (t: Traveler)
        ensures
            t@ == TravelerView::offline(self@.compression, Seq::empty()),
    {
        Traveler::new_with(self.compression)
    }

    /// The configuration that hosts are made with.
    pub fn config(&self) -> (config: &NetworkConfig)
        ensures
            *config == self@.config,
    {
        &self.config
    }

    /// The counters at present.
    pub fn stats(&self) -> (s: NetworkStats)
        ensures
            s == (NetworkStats { uptime_seconds: s.uptime_seconds, ..self@.stats }),
            exists|t: Instant| #[trigger]
                self.own_clock().reads(t) && s.uptime_seconds == t.nanos / NANOS_PER_SECOND,
    {
        assert(self.own_clock() == self.clock);
        self.stats_at(self.clock.uptime_seconds())
    }

    /// The counters after the manager has been up for `uptime_seconds`.
    pub fn stats_at(&self, uptime_seconds: u64) -> (s: NetworkStats)
        ensures
            s == (NetworkStats { uptime_seconds, ..self@.stats }),
    {
        NetworkStats { uptime_seconds, ..self.stats }
    }

    /// All connections that the manager knows of, each once, in no particular order.
    pub fn global_connections(&self) -> (v: Vec<ConnectionInfo>)
        requires
            self.wf(),
        ensures
            lists_connections(v@, self@.connections),
    {
        list_connections(&self.connections)
    }

    /// All rooms that the manager knows of, each once, in no particular order.
    pub fn global_rooms(&self) -> (v: Vec<Room>)
        requires
            self.wf(),
        ensures
            lists_rooms(v@, self@.rooms),
    {
        self.rooms.to_vec()
    }
}

/// A new manager knows of nothing: it has its configuration, and its counters are zero.
pub proof fn law_new_manager_knows_nothing(config: NetworkConfig, compression: bool)
    ensures
        ManagerView::fresh(config, compression).config == config,
        ManagerView::fresh(config, compression).compression == compression,
        ManagerView::fresh(config, compression).connections.dom() == Set::<ConnectionId>::empty(),
        ManagerView::fresh(config, compression).rooms.dom() == Set::<Seq<char>>::empty(),
        ManagerView::fresh(config, compression).stats == NetworkStats::zero(),
{
}

} // verus!
