//! Identifiers of connections and rooms.

use uuid::Uuid;
use vstd::prelude::*;

verus! {

/// A connection is known by the 128-bit value of its UUID.
pub type ConnectionId = u128;

/// A room is known by its name.
pub type RoomId = String;

/// The 128-bit value of a version 4 UUID: the version field holds 4 and the
/// two variant bits hold binary 10.
pub open spec fn is_random_id(id: u128) -> bool {
    &&& (id as int / 0x1000_0000_0000_0000_0000) % 16 == 4
    &&& (id as int / 0x4000_0000_0000_0000) % 4 == 2
}

/// `id` is what `uuid::Uuid::new_v4` may draw.
pub closed spec fn is_drawn(id: u128) -> bool {
    call_ensures(random_id, (), id)
}

/// Draws a fresh identifier with `uuid::Uuid::new_v4` and takes its 128-bit
/// value with `Uuid::as_u128`.
///
/// Which identifier comes out is a matter of chance; claimed is only that its
/// version and variant fields are those of a random UUID.
#[verifier::external_body]
fn random_id() -> (id: u128)
    ensures
        is_random_id(id),
{
    Uuid::new_v4().as_u128()
}

/// A fresh connection identifier.
pub fn new_connection_id() -> (id: ConnectionId)
    ensures
        is_drawn(id),
        is_random_id(id),
{
    random_id()
}

/// What is drawn comes from the generator: it is an outcome of asking for a random identifier.
proof fn law_identifiers_come_from_the_generator(id: u128)
    ensures
        is_drawn(id) ==> call_ensures(random_id, (), id),
{
}

} // verus!
