//! Rooms: who hosts them and who travels in them.

use std::collections::HashMap;

use vstd::prelude::*;

use crate::filters::lemma_filter_all;
use crate::ids::{ConnectionId, RoomId};
use crate::time::Instant;

verus! {

/// A room: one connection hosts it, others travel in it.
#[derive(Debug)]
pub struct Room {
    pub id: RoomId,
    pub host: ConnectionId,
    pub travelers: Vec<ConnectionId>,
    pub created_at: Instant,
    pub max_travelers: usize,
    pub metadata: HashMap<String, String>,
}

/// A [`Room`] with its name, travelers and metadata as mathematical values.
#[verifier::ext_equal]
pub struct RoomView {
    pub id: Seq<char>,
    pub host: ConnectionId,
    pub travelers: Seq<ConnectionId>,
    pub created_at: Instant,
    pub max_travelers: usize,
    pub metadata: Map<String, String>,
}

impl View for Room {
    type V = RoomView;

    open spec fn view(&self) -> RoomView {
        RoomView {
            id: self.id@,
            host: self.host,
            travelers: self.travelers@,
            created_at: self.created_at,
            max_travelers: self.max_travelers,
            metadata: self.metadata@,
        }
    }
}

/// Is not `traveler`.
pub open spec fn is_other(traveler: ConnectionId) -> spec_fn(ConnectionId) -> bool {
    |t: ConnectionId| t != traveler
}

impl RoomView {
    /// Nobody travels twice, and no more than the room takes.
    pub open spec fn wf(self) -> bool {
        &&& self.travelers.no_duplicates()
        &&& self.travelers.len() <= self.max_travelers
    }

    /// A new room.
    pub open spec fn fresh(
        id: Seq<char>,
        host: ConnectionId,
        created_at: Instant,
        max_travelers: usize,
    ) -> RoomView {
        RoomView {
            id,
            host,
            travelers: Seq::empty(),
            created_at,
            max_travelers,
            metadata: Map::empty(),
        }
    }

    /// As many travelers as the room takes.
    pub open spec fn full(self) -> bool {
        self.travelers.len() >= self.max_travelers
    }

    /// The room with `traveler` in it. Who travels in it already is not added again.
    pub open spec fn joined(self, traveler: ConnectionId) -> RoomView {
        if self.travelers.contains(traveler) {
            self
        } else {
            RoomView { travelers: self.travelers.push(traveler), ..self }
        }
    }

    /// The travelers other than `traveler`, in the same order.
    pub open spec fn others(self, traveler: ConnectionId) -> Seq<ConnectionId> {
        self.travelers.filter(is_other(traveler))
    }

    /// Whether the room passes to another host when `traveler` leaves.
    pub open spec fn migrates(self, traveler: ConnectionId) -> bool {
        self.host == traveler && self.others(traveler).len() > 0
    }

    /// Whether nobody is left when `traveler` leaves.
    pub open spec fn deserted(self, traveler: ConnectionId) -> bool {
        self.host == traveler && self.others(traveler).len() == 0
    }

    /// The room without `traveler`. Where the host leaves, the traveler who has
    /// been in the room longest becomes the host.
    pub open spec fn left(self, traveler: ConnectionId) -> RoomView {
        RoomView {
            travelers: self.others(traveler),
            host: if self.migrates(traveler) {
                self.others(traveler)[0]
            } else {
                self.host
            },
            ..self
        }
    }
}

impl Clone for Room {
    fn clone(&self) -> (r: Room)
        ensures
            r@ == self@,
    {
        let travelers = self.travelers.clone();
        assert(travelers@ =~= self.travelers@);
        Room {
            id: self.id.clone(),
            host: self.host,
            travelers,
            created_at: self.created_at,
            max_travelers: self.max_travelers,
            metadata: self.metadata.clone(),
        }
    }
}

/// Whether `id` is among `ids`.
fn contains_id(ids: &Vec<ConnectionId>, id: ConnectionId) -> (found: bool)
    ensures
        found == ids@.contains(id),
{
    let mut i: usize = 0;
    while i < ids.len()
        invariant
            i <= ids.len(),
            forall|j: int| 0 <= j < i ==> ids@[j] != id,
        decreases ids.len() - i,
    {
        if ids[i] == id {
            assert(ids@[i as int] == id);
            return true;
        }
        i += 1;
    }
    false
}

/// `ids` without `id`.
fn without_id(ids: &Vec<ConnectionId>, id: ConnectionId) -> (kept: Vec<ConnectionId>)
    ensures
        kept@ == ids@.filter(is_other(id)),
{
    let mut kept: Vec<ConnectionId> = Vec::new();
    let mut i: usize = 0;
    assert(ids@.take(0).filter(is_other(id)) =~= Seq::empty()) by {
        reveal(Seq::filter);
    }
    while i < ids.len()
        invariant
            i <= ids.len(),
            kept@ == ids@.take(i as int).filter(is_other(id)),
        decreases ids.len() - i,
    {
        let other = ids[i];
        proof {
            assert(ids@.take(i + 1) =~= ids@.take(i as int).push(other));
            ids@.take(i as int).lemma_filter_push(other, is_other(id));
        }
        if other != id {
            kept.push(other);
        }
        i += 1;
    }
    assert(ids@.take(i as int) =~= ids@);
    kept
}

impl Room {
    /// A new room.
    pub fn new(id: RoomId, host: ConnectionId, created_at: Instant, max_travelers: usize) -> (r: Room)
        ensures
            r@ == RoomView::fresh(id@, host, created_at, max_travelers),
            r@.wf(),
    {
        Room { id, host, travelers: Vec::new(), created_at, max_travelers, metadata: HashMap::new() }
    }

    /// Whether the room has as many travelers as it takes.
    pub fn is_full(&self) -> (full: bool)
        ensures
            full == self@.full(),
    {
        self.travelers.len() >= self.max_travelers
    }

    /// Puts a traveler into the room, unless it is there already.
    pub fn add_traveler(&mut self, traveler: ConnectionId)
        requires
            old(self)@.wf(),
            !old(self)@.full(),
        ensures
            final(self)@ == old(self)@.joined(traveler),
            final(self)@.wf(),
    {
        if !contains_id(&self.travelers, traveler) {
            self.travelers.push(traveler);
        }
    }

    /// Takes a traveler out of the room and, where it was the host, passes the
    /// room on. Gives the new host, where there is one.
    pub fn remove_traveler(&mut self, traveler: ConnectionId) -> (new_host: Option<ConnectionId>)
        requires
            old(self)@.wf(),
        ensures
            final(self)@ == old(self)@.left(traveler),
            final(self)@.wf(),
            new_host == (if old(self)@.migrates(traveler) {
                Some(final(self)@.host)
            } else {
                None
            }),
    {
        proof {
            lemma_left_wf(self@, traveler);
        }
        self.travelers = without_id(&self.travelers, traveler);
        if self.host == traveler && !self.travelers.is_empty() {
            self.host = self.travelers[0];
            Some(self.host)
        } else {
            None
        }
    }
}

/// Leaving out one traveler leaves each of the others once, and nobody else.
proof fn lemma_others(travelers: Seq<ConnectionId>, traveler: ConnectionId)
    requires
        travelers.no_duplicates(),
    ensures
        travelers.filter(is_other(traveler)).no_duplicates(),
        travelers.filter(is_other(traveler)).len() <= travelers.len(),
        forall|t: ConnectionId| #[trigger]
            travelers.filter(is_other(traveler)).contains(t) <==> (t != traveler
                && travelers.contains(t)),
    decreases travelers.len(),
{
    reveal(Seq::filter);
    let kept = travelers.filter(is_other(traveler));
    if travelers.len() > 0 {
        let before = travelers.drop_last();
        let last = travelers.last();
        assert forall|i: int, j: int| 0 <= i < before.len() && 0 <= j < before.len() && i
            != j implies before[i] != before[j] by {
            assert(travelers[i] != travelers[j]);
        }
        lemma_others(before, traveler);
        let fewer = before.filter(is_other(traveler));
        assert(!before.contains(last)) by {
            if before.contains(last) {
                let k = choose|k: int| 0 <= k < before.len() && before[k] == last;
                assert(travelers[k] == travelers[travelers.len() - 1]);
            }
        }
        assert(!fewer.contains(last));
        assert forall|t: ConnectionId| #[trigger] kept.contains(t) <==> (t != traveler
            && travelers.contains(t)) by {
            assert(travelers.contains(t) <==> (before.contains(t) || t == last)) by {
                if travelers.contains(t) {
                    let k = choose|k: int| 0 <= k < travelers.len() && travelers[k] == t;
                    if k < before.len() {
                        assert(before[k] == t);
                    }
                }
                if before.contains(t) {
                    let k = choose|k: int| 0 <= k < before.len() && before[k] == t;
                    assert(travelers[k] == t);
                }
                assert(travelers[travelers.len() - 1] == last);
            }
            if last != traveler {
                assert(kept == fewer.push(last));
                assert(kept.contains(t) <==> (fewer.contains(t) || t == last)) by {
                    if kept.contains(t) {
                        let k = choose|k: int| 0 <= k < kept.len() && kept[k] == t;
                        if k < fewer.len() {
                            assert(fewer[k] == t);
                        }
                    }
                    if fewer.contains(t) {
                        let k = choose|k: int| 0 <= k < fewer.len() && fewer[k] == t;
                        assert(kept[k] == t);
                    }
                    assert(kept[fewer.len() as int] == last);
                }
            }
        }
        if last != traveler {
            assert forall|i: int, j: int| 0 <= i < kept.len() && 0 <= j < kept.len() && i
                != j implies kept[i] != kept[j] by {
                if i == fewer.len() {
                    assert(fewer[j] != last);
                } else if j == fewer.len() {
                    assert(fewer[i] != last);
                } else {
                    assert(fewer[i] != fewer[j]);
                }
            }
        }
    } else {
        assert forall|t: ConnectionId| !kept.contains(t) by {
            assert(kept.len() == 0);
        }
    }
}

/// A room stays well-formed when somebody leaves.
proof fn lemma_left_wf(room: RoomView, traveler: ConnectionId)
    requires
        room.wf(),
    ensures
        room.left(traveler).wf(),
{
    lemma_others(room.travelers, traveler);
}

/// Who leaves is gone: after leaving, `traveler` does not travel in the room, and
/// hosts it only where nobody is left.
pub proof fn law_leaver_is_gone(room: RoomView, traveler: ConnectionId)
    requires
        room.wf(),
    ensures
        !room.left(traveler).travelers.contains(traveler),
        room.left(traveler).host == traveler ==> room.deserted(traveler),
{
    lemma_others(room.travelers, traveler);
    let others = room.others(traveler);
    if others.len() > 0 {
        assert(others.contains(others[0]));
    }
}

/// Everyone else stays: leaving takes nobody else out of a room.
pub proof fn law_others_stay(room: RoomView, traveler: ConnectionId, other: ConnectionId)
    requires
        room.wf(),
        other != traveler,
    ensures
        room.left(traveler).travelers.contains(other) == room.travelers.contains(other),
{
    lemma_others(room.travelers, traveler);
}

/// Leaving undoes joining: where `traveler` neither travelled in the room nor
/// hosted it, joining and then leaving gives the room back.
pub proof fn law_leave_undoes_join(room: RoomView, traveler: ConnectionId)
    requires
        !room.travelers.contains(traveler),
        room.host != traveler,
    ensures
        room.joined(traveler).left(traveler) == room,
{
    let travelers = room.travelers;
    travelers.lemma_filter_push(traveler, is_other(traveler));
    lemma_filter_all(travelers, is_other(traveler));
    assert(room.joined(traveler).left(traveler) =~= room);
}

/// What is said of a room's view holds of its fields: both give the same name,
/// host, travelers, time, size and metadata.
pub proof fn law_view_is_the_room(room: Room)
    ensures
        room@.id == room.id@,
        room@.host == room.host,
        room@.travelers == room.travelers@,
        room@.created_at == room.created_at,
        room@.max_travelers == room.max_travelers,
        room@.metadata == room.metadata@,
{
}

/// A new room is empty: nobody travels in it, it has no metadata, and its name,
/// host, time and size are those that were given.
pub proof fn law_new_room_is_empty(
    id: Seq<char>,
    host: ConnectionId,
    created_at: Instant,
    max_travelers: usize,
)
    ensures
        RoomView::fresh(id, host, created_at, max_travelers).id == id,
        RoomView::fresh(id, host, created_at, max_travelers).host == host,
        RoomView::fresh(id, host, created_at, max_travelers).travelers.len() == 0,
        RoomView::fresh(id, host, created_at, max_travelers).created_at == created_at,
        RoomView::fresh(id, host, created_at, max_travelers).max_travelers == max_travelers,
        RoomView::fresh(id, host, created_at, max_travelers).metadata.dom() == Set::<
            String,
        >::empty(),
{
}

/// A room is full exactly where no place is left: its size is reached by the
/// number of its travelers. The host takes no place.
pub proof fn law_full_without_places(room: RoomView)
    ensures
        room.full() <==> room.max_travelers - room.travelers.len() <= 0,
{
}

/// Who joins stands last: a newcomer stands behind all who travelled in the room,
/// whose order stays. Who travels in it already changes nothing. The host and
/// everything else about the room stay.
pub proof fn law_joiner_stands_last(room: RoomView, traveler: ConnectionId)
    ensures
        !room.travelers.contains(traveler) ==> {
            &&& room.joined(traveler).travelers.len() == room.travelers.len() + 1
            &&& room.joined(traveler).travelers.last() == traveler
            &&& forall|i: int|
                0 <= i < room.travelers.len() ==> #[trigger] room.joined(traveler).travelers[i]
                    == room.travelers[i]
        },
        room.travelers.contains(traveler) ==> room.joined(traveler).travelers == room.travelers,
        room.joined(traveler).id == room.id,
        room.joined(traveler).host == room.host,
        room.joined(traveler).created_at == room.created_at,
        room.joined(traveler).max_travelers == room.max_travelers,
        room.joined(traveler).metadata == room.metadata,
{
}

/// The room after all of `newcomers` joined, the first one first.
pub open spec fn joined_all(room: RoomView, newcomers: Seq<ConnectionId>) -> RoomView
    decreases newcomers.len(),
{
    if newcomers.len() == 0 {
        room
    } else {
        joined_all(room, newcomers.drop_last()).joined(newcomers.last())
    }
}

/// Travelers stand in the order of joining: after any number of newcomers joined,
/// they stand behind those who were there, each in the place in which it came.
pub proof fn law_order_of_joining(room: RoomView, newcomers: Seq<ConnectionId>)
    requires
        newcomers.no_duplicates(),
        forall|i: int| 0 <= i < newcomers.len() ==> !room.travelers.contains(
            #[trigger] newcomers[i],
        ),
    ensures
        joined_all(room, newcomers).travelers == room.travelers + newcomers,
        joined_all(room, newcomers).host == room.host,
    decreases newcomers.len(),
{
    if newcomers.len() > 0 {
        let before = newcomers.drop_last();
        let last = newcomers.last();
        assert(forall|i: int| 0 <= i < before.len() ==> before[i] == newcomers[i]);
        law_order_of_joining(room, before);
        let travelers = joined_all(room, before).travelers;
        assert(!travelers.contains(last)) by {
            if travelers.contains(last) {
                let k = choose|k: int| 0 <= k < travelers.len() && travelers[k] == last;
                if k < room.travelers.len() {
                    assert(room.travelers[k] == newcomers[newcomers.len() - 1]);
                    assert(room.travelers.contains(newcomers[newcomers.len() - 1]));
                } else {
                    assert(newcomers[k - room.travelers.len()] == newcomers[newcomers.len() - 1]);
                }
            }
        }
        assert(joined_all(room, newcomers).travelers =~= room.travelers + newcomers);
    } else {
        assert(room.travelers + newcomers =~= room.travelers);
    }
}

/// Who leaves gives up its own place and no other: all who stood before and behind
/// it stay in order. Whoever did not travel in the room changes nothing by leaving.
pub proof fn law_leaver_gives_up_one_place(room: RoomView, traveler: ConnectionId, place: int)
    requires
        room.wf(),
    ensures
        0 <= place < room.travelers.len() && room.travelers[place] == traveler ==> {
            &&& room.left(traveler).travelers.len() == room.travelers.len() - 1
            &&& forall|i: int|
                0 <= i < place ==> #[trigger] room.left(traveler).travelers[i]
                    == room.travelers[i]
            &&& forall|i: int|
                place <= i < room.travelers.len() - 1 ==> #[trigger] room.left(
                    traveler,
                ).travelers[i] == room.travelers[i + 1]
        },
        !room.travelers.contains(traveler) ==> room.left(traveler).travelers == room.travelers,
        room.left(traveler).id == room.id,
        room.left(traveler).created_at == room.created_at,
        room.left(traveler).max_travelers == room.max_travelers,
        room.left(traveler).metadata == room.metadata,
{
    let travelers = room.travelers;
    if !travelers.contains(traveler) {
        assert(forall|i: int| 0 <= i < travelers.len() ==> is_other(traveler)(#[trigger] travelers[i]))
            by {
            assert(forall|i: int| 0 <= i < travelers.len() ==> travelers.contains(travelers[i]));
        }
        lemma_filter_all(travelers, is_other(traveler));
    }
    if 0 <= place < travelers.len() && travelers[place] == traveler {
        let front = travelers.take(place);
        let back = travelers.skip(place + 1);
        assert forall|i: int| 0 <= i < front.len() implies is_other(traveler)(
            #[trigger] front[i],
        ) by {
            assert(travelers[i] != travelers[place]);
        }
        assert forall|i: int| 0 <= i < back.len() implies is_other(traveler)(#[trigger] back[i]) by {
            assert(travelers[place + 1 + i] != travelers[place]);
        }
        lemma_filter_all(front, is_other(traveler));
        lemma_filter_all(back, is_other(traveler));
        front.lemma_filter_push(traveler, is_other(traveler));
        assert(travelers =~= front.push(traveler) + back);
        Seq::filter_distributes_over_add(front.push(traveler), back, is_other(traveler));
        assert(room.left(traveler).travelers =~= front + back);
    }
}

/// Only a host passes a room on: when anybody else leaves, wherever it stood among
/// the travelers, the host stays, and the room is neither passed on nor deserted.
pub proof fn law_only_a_host_passes_on(room: RoomView, traveler: ConnectionId)
    requires
        room.host != traveler,
    ensures
        room.left(traveler).host == room.host,
        !room.migrates(traveler),
        !room.deserted(traveler),
{
}

/// The first of the others becomes host: when the host leaves, the room passes to
/// the traveler before whom nobody else stands. Where no other travels in it, the
/// room is deserted and not passed on.
pub proof fn law_first_of_the_others_hosts(room: RoomView, place: int)
    requires
        room.wf(),
    ensures
        0 <= place < room.travelers.len() && room.travelers[place] != room.host && (forall|i: int|
            0 <= i < place ==> #[trigger] room.travelers[i] == room.host) ==> {
            &&& room.migrates(room.host)
            &&& !room.deserted(room.host)
            &&& room.left(room.host).host == room.travelers[place]
        },
        (forall|i: int| 0 <= i < room.travelers.len() ==> #[trigger] room.travelers[i]
            == room.host) ==> {
            &&& room.deserted(room.host)
            &&& !room.migrates(room.host)
            &&& room.left(room.host).host == room.host
        },
{
    let travelers = room.travelers;
    let host = room.host;
    lemma_others(travelers, host);
    let others = room.others(host);
    if forall|i: int| 0 <= i < travelers.len() ==> #[trigger] travelers[i] == host {
        if others.len() > 0 {
            assert(others.contains(others[0]));
        }
    }
    if 0 <= place < travelers.len() && travelers[place] != host && (forall|i: int|
        0 <= i < place ==> #[trigger] travelers[i] == host) {
        assert(others.contains(travelers[place]));
        if place == 0 {
            let k = choose|k: int| 0 <= k < others.len() && others[k] == travelers[0];
            if travelers.contains(host) {
                let at = choose|at: int| 0 <= at < travelers.len() && travelers[at] == host;
                law_leaver_gives_up_one_place(room, host, at);
                assert(room.left(host).travelers[0] == travelers[0]);
            } else {
                law_leaver_gives_up_one_place(room, host, 0);
            }
        } else {
            assert(travelers[0] == host);
            if place > 1 {
                assert(travelers[1] == host);
                assert(travelers[0] != travelers[1]);
            }
            law_leaver_gives_up_one_place(room, host, 0);
            assert(room.left(host).travelers[0] == travelers[1]);
        }
    }
}

} // verus!
