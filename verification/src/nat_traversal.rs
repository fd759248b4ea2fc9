//! Reaching peers behind address translation.

use dashmap::DashMap;
use vstd::prelude::*;

use crate::addr::{SocketAddr, LOOPBACK_V4};
use crate::error::NetworkError;

verus! {

/// How often a hole is punched.
pub const PUNCH_ROUNDS: u32 = 5;

/// Milliseconds to wait after each punch.
pub const PUNCH_PAUSE_MILLIS: u64 = 100;

/// What the map of port mappings holds: for each external port, the address behind it.
pub uninterp spec fn mapping_map(m: DashMap<u16, SocketAddr>) -> Map<u16, SocketAddr>;

/// `DashMap::new`: an empty map.
#[verifier::external_body]
fn mappings_new() -> (m: DashMap<u16, SocketAddr>)
    ensures
        (mapping_map(m) == Map::<u16, SocketAddr>::empty()),
{
    DashMap::new()
}

/// `DashMap::insert`: sets the value of a key.
#[verifier::external_body]
fn mappings_insert(m: &mut DashMap<u16, SocketAddr>, port: u16, addr: SocketAddr)
    ensures
        mapping_map(*final(m)) == mapping_map(*old(m)).insert(port, addr),
{
    m.insert(port, addr);
}

/// One round of punching a hole.
#[derive(Debug, Clone)]
pub struct PunchRound {
    /// What to send to the peer.
    pub payload: Vec<u8>,
    /// How long to wait afterwards.
    pub pause_millis: u64,
}

/// The servers to ask for the external address, and the port mappings made so far.
#[derive(Debug)]
pub struct NATTraversal {
    stun_servers: Vec<String>,
    port_mappings: DashMap<u16, SocketAddr>,
}

impl NATTraversal {
    /// The servers to ask for the external address.
    pub closed spec fn stun_servers(&self) -> Seq<Seq<char>> {
        self.stun_servers@.map_values(|s: String| s@)
    }

    /// For each mapped external port, the address behind it.
    pub closed spec fn port_mappings(&self) -> Map<u16, SocketAddr> {
        mapping_map(self.port_mappings)
    }

    /// Without any port mappings.
    pub fn new() -> (t: NATTraversal)
        ensures
            t.stun_servers() == seq![
                "stun.l.google.com:19302"@,
                "stun1.l.google.com:19302"@,
                "stun2.l.google.com:19302"@,
            ],
            t.port_mappings() == Map::<u16, SocketAddr>::empty(),
    {
        let mut stun_servers: Vec<String> = Vec::new();
        stun_servers.push("stun.l.google.com:19302".to_owned());
        stun_servers.push("stun1.l.google.com:19302".to_owned());
        stun_servers.push("stun2.l.google.com:19302".to_owned());
        let t = NATTraversal { stun_servers, port_mappings: mappings_new() };
        assert(t.stun_servers() =~= seq![
            "stun.l.google.com:19302"@,
            "stun1.l.google.com:19302"@,
            "stun2.l.google.com:19302"@,
        ]);
        t
    }

    /// The external address. No server is asked: it is the unspecified address.
    pub fn discover_external_address(&self) -> (r: Result<SocketAddr, NetworkError>)
        ensures
            r == Ok::<SocketAddr, NetworkError>(SocketAddr::V4 { ip: 0, port: 0 }),
    {
        Ok(SocketAddr::V4 { ip: 0, port: 0 })
    }

    /// Maps an external port to a port of the loopback address.
    pub fn create_port_mapping(&mut self, internal_port: u16, external_port: u16) -> (r: Result<
        (),
        NetworkError,
    >)
        ensures
            r is Ok,
            final(self).port_mappings() == old(self).port_mappings().insert(
                external_port,
                SocketAddr::V4 { ip: LOOPBACK_V4, port: internal_port },
            ),
            final(self).stun_servers() == old(self).stun_servers(),
    {
        mappings_insert(
            &mut self.port_mappings,
            external_port,
            SocketAddr::V4 { ip: LOOPBACK_V4, port: internal_port },
        );
        Ok(())
    }

    /// What to do next in order to punch a hole, after so many rounds are done.
    /// `None` once that is enough.
    pub fn hole_punch(&self, rounds_done: u32) -> (r: Option<PunchRound>)
        ensures
            rounds_done < PUNCH_ROUNDS ==> (r matches Some(round) && round.payload@
                == seq![0x50u8, 0x55, 0x4e, 0x43, 0x48] && round.pause_millis
                == PUNCH_PAUSE_MILLIS),
            rounds_done >= PUNCH_ROUNDS ==> r is None,
    {
        if rounds_done < PUNCH_ROUNDS {
            // "PUNCH" in ASCII
            let payload: Vec<u8> = vec![0x50, 0x55, 0x4e, 0x43, 0x48];
            assert(payload@ =~= seq![0x50u8, 0x55, 0x4e, 0x43, 0x48]);
            Some(PunchRound { payload, pause_millis: PUNCH_PAUSE_MILLIS })
        } else {
            None
        }
    }
}

/// Holes are punched five times, a tenth of a second apart, and ports are mapped to
/// the address 127.0.0.1.
pub proof fn law_punching_and_mapping()
    ensures
        PUNCH_ROUNDS == 5,
        PUNCH_PAUSE_MILLIS * 10 == 1000,
        LOOPBACK_V4 == 127 * 0x100_0000 + 1,
{
}

} // verus!
