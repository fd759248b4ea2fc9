//! The recent past of each connection, for lag compensation.

use bytes::Bytes;
use dashmap::DashMap;
use vstd::prelude::*;

use crate::ids::ConnectionId;
use crate::payload::contents;
use crate::time::{Clock, Duration, Instant, NANOS_PER_SECOND};

verus! {

/// What the map of states holds: the recent states of each connection, each with
/// the time at which it was recorded, in the order of recording.
pub uninterp spec fn state_map(
    m: DashMap<ConnectionId, Vec<(Instant, Bytes)>>,
) -> Map<ConnectionId, Seq<(Instant, Seq<u8>)>>;

/// Recorded states with their bytes as sequences.
pub open spec fn snapshots(states: Seq<(Instant, Bytes)>) -> Seq<(Instant, Seq<u8>)> {
    Seq::new(states.len(), |i: int| (states[i].0, contents(states[i].1)))
}

/// `DashMap::new`: an empty map.
#[verifier::external_body]
fn states_new() -> (m: DashMap<ConnectionId, Vec<(Instant, Bytes)>>)
    ensures
        (state_map(m) == Map::<ConnectionId, Seq<(Instant, Seq<u8>)>>::empty()),
{
    DashMap::new()
}

/// `DashMap::get`: a copy of the value of a key, where there is one.
#[verifier::external_body]
fn states_get(m: &DashMap<ConnectionId, Vec<(Instant, Bytes)>>, id: ConnectionId) -> (value: Option<
    Vec<(Instant, Bytes)>,
>)
    ensures
        match value {
            Some(v) => state_map(*m).contains_key(id) && snapshots(v@) == state_map(*m)[id],
            None => !state_map(*m).contains_key(id),
        },
{
    m.get(&id).map(|entry| entry.value().clone())
}

/// `DashMap::remove`: takes a key and its value out.
#[verifier::external_body]
fn states_remove(m: &mut DashMap<ConnectionId, Vec<(Instant, Bytes)>>, id: ConnectionId) -> (value:
    Option<Vec<(Instant, Bytes)>>)
    ensures
        state_map(*final(m)) == state_map(*old(m)).remove(id),
        match value {
            Some(v) => state_map(*old(m)).contains_key(id) && snapshots(v@) == state_map(
                *old(m),
            )[id],
            None => !state_map(*old(m)).contains_key(id),
        },
{
    m.remove(&id).map(|entry| entry.1)
}

/// `DashMap::insert`: sets the value of a key.
#[verifier::external_body]
fn states_insert(
    m: &mut DashMap<ConnectionId, Vec<(Instant, Bytes)>>,
    id: ConnectionId,
    value: Vec<(Instant, Bytes)>,
)
    ensures
        state_map(*final(m)) == state_map(*old(m)).insert(id, snapshots(value@)),
{
    m.insert(id, value);
}

/// The recent states of one connection, each with the time at which it was recorded.
pub type History = Seq<(Instant, Seq<u8>)>;

/// Was recorded less than a second before `now`.
pub open spec fn is_fresh(now: Instant) -> spec_fn((Instant, Seq<u8>)) -> bool {
    |s: (Instant, Seq<u8>)| now.since(s.0) < NANOS_PER_SECOND
}

/// A history with one more state at its end, without its first one if that makes
/// it too long.
pub open spec fn extended(history: History, max_history: usize, now: Instant, state: Seq<u8>) -> History {
    let longer = history.push((now, state));
    if longer.len() > max_history {
        longer.remove(0)
    } else {
        longer
    }
}

/// The history after a state was recorded at `now`: of the extended history,
/// what is less than a second old.
pub open spec fn recorded(history: History, max_history: usize, now: Instant, state: Seq<u8>) -> History {
    extended(history, max_history, now, state).filter(is_fresh(now))
}

/// The history of a connection.
pub open spec fn history_of(states: Map<ConnectionId, History>, id: ConnectionId) -> History {
    if states.contains_key(id) {
        states[id]
    } else {
        Seq::empty()
    }
}

/// The state at position `i` is the first of those closest to `t`.
pub open spec fn is_closest(history: History, t: Instant, i: int) -> bool {
    &&& 0 <= i < history.len()
    &&& forall|j: int| 0 <= j < history.len() ==> t.distance(history[i].0) <= t.distance(
        #[trigger] history[j].0,
    )
    &&& forall|j: int| 0 <= j < i ==> t.distance(history[i].0) < t.distance(
        #[trigger] history[j].0,
    )
}

/// The state of a history that was recorded closest to `t`, the first of them
/// where several are equally close.
pub open spec fn closest(history: History, t: Instant) -> Option<Seq<u8>> {
    if exists|i: int| is_closest(history, t, i) {
        Some(history[choose|i: int| is_closest(history, t, i)].1)
    } else {
        None
    }
}

/// At most one position is closest.
proof fn lemma_closest(history: History, t: Instant, i: int)
    requires
        is_closest(history, t, i),
    ensures
        closest(history, t) == Some(history[i].1),
{
    let k = choose|k: int| is_closest(history, t, k);
    if k < i {
        assert(t.distance(history[i].0) < t.distance(history[k].0));
        assert(t.distance(history[k].0) <= t.distance(history[i].0));
    }
    if i < k {
        assert(t.distance(history[k].0) < t.distance(history[i].0));
        assert(t.distance(history[i].0) <= t.distance(history[k].0));
    }
}

/// Drops the states that were recorded a second or more before `now`.
fn keep_fresh(history: &Vec<(Instant, Bytes)>, now: Instant) -> (kept: Vec<(Instant, Bytes)>)
    ensures
        snapshots(kept@) == snapshots(history@).filter(is_fresh(now)),
{
    let mut kept: Vec<(Instant, Bytes)> = Vec::new();
    let mut i: usize = 0;
    let ghost all = snapshots(history@);
    assert(snapshots(kept@) =~= all.take(0).filter(is_fresh(now))) by {
        reveal(Seq::filter);
    }
    while i < history.len()
        invariant
            i <= history.len(),
            all == snapshots(history@),
            snapshots(kept@) == all.take(i as int).filter(is_fresh(now)),
        decreases history.len() - i,
    {
        let time = history[i].0;
        proof {
            assert(all.take(i + 1) =~= all.take(i as int).push(all[i as int]));
            all.take(i as int).lemma_filter_push(all[i as int], is_fresh(now));
        }
        if now.nanos_since(time) < NANOS_PER_SECOND {
            let ghost before = kept@;
            kept.push((time, history[i].1.clone()));
            assert(snapshots(kept@) =~= snapshots(before).push(all[i as int]));
        }
        i += 1;
    }
    assert(all.take(i as int) =~= all);
    kept
}

/// Remembers the recent states of connections.
#[derive(Debug)]
pub struct LagCompensation {
    client_states: DashMap<ConnectionId, Vec<(Instant, Bytes)>>,
    max_history: usize,
    clock: Clock,
}

impl LagCompensation {
    /// How many states of a connection are remembered at most.
    pub closed spec fn max_history(&self) -> usize {
        self.max_history
    }

    /// The histories of the connections.
    pub closed spec fn states(&self) -> Map<ConnectionId, History> {
        state_map(self.client_states)
    }

    /// The clock by which states are recorded.
    pub closed spec fn recording_clock(&self) -> Clock {
        self.clock
    }

    /// Nothing recorded yet.
    pub fn new(max_history: usize) -> (l: LagCompensation)
        ensures
            l.max_history() == max_history,
            l.states() == Map::<ConnectionId, History>::empty(),
            l.recording_clock().starts_now(),
    {
        LagCompensation { client_states: states_new(), max_history, clock: Clock::start() }
    }

    /// The clock by which states are recorded.
    pub fn clock(&self) -> (clock: Clock)
        ensures
            clock == self.recording_clock(),
    {
        self.clock
    }

    /// Records the present state of a connection.
    pub fn record_state(&mut self, connection_id: ConnectionId, state: Bytes)
        ensures
            final(self).max_history() == old(self).max_history(),
            final(self).recording_clock() == old(self).recording_clock(),
            exists|now: Instant|
                old(self).recording_clock().reads(now) && final(self).states() == old(self).states().insert(
                    connection_id,
                    #[trigger] recorded(
                        history_of(old(self).states(), connection_id),
                        old(self).max_history(),
                        now,
                        contents(state),
                    ),
                ),
    {
        let now = self.clock.now();
        self.record_state_at(connection_id, state, now);
    }

    /// Records the state of a connection at `now`.
    pub fn record_state_at(&mut self, connection_id: ConnectionId, state: Bytes, now: Instant)
        ensures
            final(self).max_history() == old(self).max_history(),
            final(self).recording_clock() == old(self).recording_clock(),
            final(self).states() == old(self).states().insert(
                connection_id,
                recorded(
                    history_of(old(self).states(), connection_id),
                    old(self).max_history(),
                    now,
                    contents(state),
                ),
            ),
    {
        let mut history = match states_remove(&mut self.client_states, connection_id) {
            Some(history) => history,
            None => Vec::new(),
        };
        let ghost before = history_of(old(self).states(), connection_id);
        assert(snapshots(history@) =~= before);
        history.push((now, state));
        assert(snapshots(history@) =~= before.push((now, contents(state))));
        if history.len() > self.max_history {
            let _ = history.remove(0);
        }
        assert(snapshots(history@) =~= extended(before, self.max_history, now, contents(state)));
        let kept = keep_fresh(&history, now);
        states_insert(&mut self.client_states, connection_id, kept);
        assert(self.states() =~= old(self).states().insert(
            connection_id,
            recorded(before, old(self).max_history(), now, contents(state)),
        ));
    }

    /// The state of a connection that was recorded closest to `timestamp`, the
    /// first of them where several are equally close.
    pub fn get_state_at(&self, connection_id: ConnectionId, timestamp: Instant) -> (r: Option<Bytes>)
        ensures
            match closest(history_of(self.states(), connection_id), timestamp) {
                Some(state) => r matches Some(bytes) && contents(bytes) == state,
                None => r is None,
            },
            r is None <==> history_of(self.states(), connection_id).len() == 0,
    {
        let history = states_get(&self.client_states, connection_id)?;
        let ghost all = snapshots(history@);
        if history.len() == 0 {
            return None;
        }
        let mut best: usize = 0;
        let mut least: u128 = timestamp.nanos_between(history[0].0);
        let mut i: usize = 1;
        while i < history.len()
            invariant
                1 <= i <= history.len(),
                best < i,
                all == snapshots(history@),
                least == timestamp.distance(all[best as int].0),
                forall|j: int| 0 <= j < i ==> least <= timestamp.distance(#[trigger] all[j].0),
                forall|j: int| 0 <= j < best ==> least < timestamp.distance(#[trigger] all[j].0),
            decreases history.len() - i,
        {
            let distance = timestamp.nanos_between(history[i].0);
            assert(all[i as int].0 == history@[i as int].0);
            if distance < least {
                best = i;
                least = distance;
            }
            i += 1;
        }
        proof {
            lemma_closest(all, timestamp, best as int);
        }
        Some(history[best].1.clone())
    }

    /// The state in which a connection is expected to be: the last one recorded,
    /// once there are two. How far ahead the prediction looks does not enter.
    pub fn predict_state(&self, connection_id: ConnectionId, future_time: Duration) -> (r: Option<
        Bytes,
    >)
        ensures
            r is Some <==> history_of(self.states(), connection_id).len() >= 2,
            r matches Some(bytes) ==> contents(bytes) == history_of(
                self.states(),
                connection_id,
            ).last().1,
    {
        let history = states_get(&self.client_states, connection_id)?;
        let ghost all = snapshots(history@);
        if history.len() < 2 {
            return None;
        }
        let last = history.len() - 1;
        assert(all.last() == (history@[last as int].0, contents(history@[last as int].1)));
        Some(history[last].1.clone())
    }
}

/// Memory is bounded: recording keeps a history within its limit.
pub proof fn law_bounded(history: History, max_history: usize, now: Instant, state: Seq<u8>)
    requires
        history.len() <= max_history,
    ensures
        recorded(history, max_history, now, state).len() <= max_history,
{
    extended(history, max_history, now, state).lemma_filter_len(is_fresh(now));
}

/// The past is short: after recording, everything remembered is less than a second old.
pub proof fn law_fresh(history: History, max_history: usize, now: Instant, state: Seq<u8>, i: int)
    requires
        0 <= i < recorded(history, max_history, now, state).len(),
    ensures
        now.since(recorded(history, max_history, now, state)[i].0) < NANOS_PER_SECOND,
{
    extended(history, max_history, now, state).lemma_filter_pred(is_fresh(now), i);
}

/// Times do not run backwards within a history.
pub open spec fn in_order(history: History) -> bool {
    forall|i: int, j: int| 0 <= i <= j < history.len() ==> (#[trigger] history[i]).0.nanos
        <= (#[trigger] history[j]).0.nanos
}

/// The states of a filtered history are found in the history, in the same order.
proof fn lemma_filter_in_order(history: History, now: Instant)
    requires
        in_order(history),
    ensures
        in_order(history.filter(is_fresh(now))),
        history.len() > 0 && history.filter(is_fresh(now)).len() > 0 ==> history.filter(
            is_fresh(now),
        ).last().0.nanos <= history.last().0.nanos,
    decreases history.len(),
{
    reveal(Seq::filter);
    if history.len() > 0 {
        let before = history.drop_last();
        assert(forall|i: int| 0 <= i < before.len() ==> before[i] == history[i]);
        lemma_filter_in_order(before, now);
        let kept = before.filter(is_fresh(now));
        if before.len() > 0 {
            assert(before.last() == history[before.len() - 1]);
            assert(history[before.len() - 1].0.nanos <= history[history.len() - 1].0.nanos);
        }
        assert forall|i: int, j: int| 0 <= i <= j < history.filter(is_fresh(now)).len() implies (
        #[trigger] history.filter(is_fresh(now))[i]).0.nanos <= (#[trigger] history.filter(
            is_fresh(now),
        )[j]).0.nanos by {
            if i < kept.len() && kept.len() > 0 {
                assert(kept[i].0.nanos <= kept[kept.len() - 1].0.nanos);
            }
        }
    }
}

/// A history stays in order as long as the clock does not run backwards.
pub proof fn law_in_order(history: History, max_history: usize, now: Instant, state: Seq<u8>)
    requires
        in_order(history),
        history.len() > 0 ==> history.last().0.nanos <= now.nanos,
    ensures
        in_order(recorded(history, max_history, now, state)),
{
    let longer = history.push((now, state));
    assert forall|i: int, j: int| 0 <= i <= j < longer.len() implies (#[trigger] longer[i]).0.nanos
        <= (#[trigger] longer[j]).0.nanos by {
        if i < history.len() {
            assert(history[i].0.nanos <= history[history.len() - 1].0.nanos);
        }
    }
    let kept = extended(history, max_history, now, state);
    assert(in_order(kept)) by {
        if longer.len() > max_history {
            assert forall|i: int, j: int| 0 <= i <= j < kept.len() implies (
            #[trigger] kept[i]).0.nanos <= (#[trigger] kept[j]).0.nanos by {
                assert(longer[i + 1].0.nanos <= longer[j + 1].0.nanos);
            }
        }
    }
    lemma_filter_in_order(kept, now);
}

/// The history after recording all of `states`, the first one first.
pub open spec fn recorded_all(states: History, max_history: usize) -> History
    decreases states.len(),
{
    if states.len() == 0 {
        Seq::empty()
    } else {
        recorded(
            recorded_all(states.drop_last(), max_history),
            max_history,
            states.last().0,
            states.last().1,
        )
    }
}

/// The states from position `k` on are within the limit and less than a second old.
pub open spec fn is_live(states: History, max_history: usize, k: int, now: Instant) -> bool {
    &&& 0 <= k <= states.len()
    &&& states.len() - k <= max_history
    &&& forall|i: int|
        k <= i < states.len() ==> now.since((#[trigger] states[i]).0) < NANOS_PER_SECOND
}

/// The history is as long as it may be: of all the states that were ever recorded,
/// it holds the longest run up to the last one that is within the limit and less
/// than a second old.
pub proof fn law_longest_run(states: History, max_history: usize) -> (k: int)
    requires
        states.len() > 0,
        in_order(states),
    ensures
        recorded_all(states, max_history) == states.skip(k),
        is_live(states, max_history, k, states.last().0),
        forall|j: int| 0 <= j < k ==> !#[trigger] is_live(states, max_history, j, states.last().0),
    decreases states.len(),
{
    let before = states.drop_last();
    let now = states.last().0;
    let state = states.last().1;
    let history = recorded_all(before, max_history);
    assert(forall|i: int| 0 <= i < before.len() ==> before[i] == states[i]);
    let start = if before.len() > 0 {
        assert(in_order(before)) by {
            assert forall|i: int, j: int| 0 <= i <= j < before.len() implies (
            #[trigger] before[i]).0.nanos <= (#[trigger] before[j]).0.nanos by {
                assert(states[i].0.nanos <= states[j].0.nanos);
            }
        }
        law_longest_run(before, max_history)
    } else {
        assert(history =~= before.skip(0));
        0
    };
    let cut = if states.len() - start > max_history {
        start + 1
    } else {
        start
    };
    assert(extended(history, max_history, now, state) =~= states.skip(cut));
    let kept = states.skip(cut);
    assert(in_order(kept)) by {
        assert forall|i: int, j: int| 0 <= i <= j < kept.len() implies (
        #[trigger] kept[i]).0.nanos <= (#[trigger] kept[j]).0.nanos by {
            assert(states[cut + i].0.nanos <= states[cut + j].0.nanos);
        }
    }
    let stale = lemma_fresh_suffix(kept, now);
    let k = cut + stale;
    assert(kept.skip(stale) =~= states.skip(k));
    assert(is_live(states, max_history, k, now)) by {
        assert forall|i: int| k <= i < states.len() implies now.since((#[trigger] states[i]).0)
            < NANOS_PER_SECOND by {
            assert(kept[i - cut] == states[i]);
        }
    }
    assert forall|j: int| 0 <= j < k implies !#[trigger] is_live(states, max_history, j, now) by {
        if j < start {
            let earlier = before.last().0;
            assert(!is_live(before, max_history, j, earlier));
            if before.len() - j <= max_history {
                let i = choose|i: int|
                    j <= i < before.len() && !(earlier.since((#[trigger] before[i]).0)
                        < NANOS_PER_SECOND);
                assert(before[i] == states[i]);
                assert(states[before.len() - 1].0.nanos <= states[states.len() - 1].0.nanos);
                assert(now.since(states[i].0) >= NANOS_PER_SECOND);
            }
        } else if j >= cut {
            assert(kept[j - cut] == states[j]);
        }
    }
    k
}

/// In a history that is in order, what is fresh is a run up to the end.
proof fn lemma_fresh_suffix(history: History, now: Instant) -> (k: int)
    requires
        in_order(history),
    ensures
        0 <= k <= history.len(),
        history.filter(is_fresh(now)) == history.skip(k),
        forall|i: int|
            0 <= i < history.len() ==> (now.since((#[trigger] history[i]).0) < NANOS_PER_SECOND
                <==> i >= k),
    decreases history.len(),
{
    if history.len() == 0 {
        reveal(Seq::filter);
        assert(history.filter(is_fresh(now)) =~= history.skip(0));
        0
    } else {
        let before = history.drop_last();
        let last = history.last();
        assert(forall|i: int| 0 <= i < before.len() ==> before[i] == history[i]);
        assert(in_order(before)) by {
            assert forall|i: int, j: int| 0 <= i <= j < before.len() implies (
            #[trigger] before[i]).0.nanos <= (#[trigger] before[j]).0.nanos by {
                assert(history[i].0.nanos <= history[j].0.nanos);
            }
        }
        let k = lemma_fresh_suffix(before, now);
        assert(history =~= before.push(last));
        before.lemma_filter_push(last, is_fresh(now));
        if now.since(last.0) < NANOS_PER_SECOND {
            assert(history.filter(is_fresh(now)) =~= history.skip(k));
            assert forall|i: int| 0 <= i < history.len() implies (now.since(
                (#[trigger] history[i]).0,
            ) < NANOS_PER_SECOND <==> i >= k) by {
                if i < before.len() {
                    assert(before[i] == history[i]);
                }
            }
            k
        } else {
            assert forall|i: int| 0 <= i < history.len() implies now.since(
                (#[trigger] history[i]).0,
            ) >= NANOS_PER_SECOND by {
                assert(history[i].0.nanos <= history[history.len() - 1].0.nanos);
            }
            if k < before.len() {
                assert(before[k] == history[k]);
            }
            assert(history.filter(is_fresh(now)) =~= history.skip(history.len() as int));
            history.len() as int
        }
    }
}

/// What is recorded comes last, behind states of the history before.
proof fn lemma_recorded_last(history: History, max_history: usize, now: Instant, state: Seq<u8>)
    requires
        max_history > 0,
    ensures
        recorded(history, max_history, now, state).len() > 0,
        recorded(history, max_history, now, state).last() == (now, state),
        forall|j: int|
            0 <= j < recorded(history, max_history, now, state).len() - 1 ==> history.contains(
                #[trigger] recorded(history, max_history, now, state)[j],
            ),
{
    let longer = history.push((now, state));
    let kept = extended(history, max_history, now, state);
    let before = kept.drop_last();
    let earlier = before.filter(is_fresh(now));
    assert(kept =~= before.push((now, state)));
    before.lemma_filter_push((now, state), is_fresh(now));
    let found = recorded(history, max_history, now, state);
    assert(found == earlier.push((now, state)));
    assert forall|j: int| 0 <= j < found.len() - 1 implies history.contains(
        #[trigger] found[j],
    ) by {
        before.lemma_filter_contains_rev(is_fresh(now), earlier[j]);
        let k = choose|k: int| 0 <= k < before.len() && before[k] == earlier[j];
        if longer.len() > max_history {
            assert(before[k] == longer[k + 1]);
            assert(history[k + 1] == found[j]);
        } else {
            assert(before[k] == longer[k]);
            assert(history[k] == found[j]);
        }
    }
}

/// What was just recorded is found again: asking for the time of recording gives
/// that state, where no other was recorded at the very same time and the limit
/// leaves room for one.
pub proof fn law_found_again(history: History, max_history: usize, now: Instant, state: Seq<u8>)
    requires
        max_history > 0,
        forall|i: int| 0 <= i < history.len() ==> (#[trigger] history[i]).0 != now,
    ensures
        closest(recorded(history, max_history, now, state), now) == Some(state),
{
    let found = recorded(history, max_history, now, state);
    let last = found.len() - 1;
    lemma_recorded_last(history, max_history, now, state);
    assert forall|j: int| 0 <= j < last implies now.distance(found[last].0) < now.distance(
        #[trigger] found[j].0,
    ) by {
        let k = choose|k: int| 0 <= k < history.len() && history[k] == found[j];
        assert(history.contains(found[j]));
        assert(history[k].0 != now);
    }
    assert(is_closest(found, now, last));
    lemma_closest(found, now, last);
}

/// Was recorded within so many nanoseconds before `now`.
pub open spec fn recorded_within(now: Instant, span: int) -> spec_fn((Instant, Seq<u8>)) -> bool {
    |s: (Instant, Seq<u8>)| now.nanos - s.0.nanos < span
}

/// A state is recorded last: behind what was remembered, of which the first goes where
/// the limit is exceeded and everything goes that is a second old or older.
pub proof fn law_state_is_recorded_last(
    history: History,
    max_history: usize,
    now: Instant,
    state: Seq<u8>,
)
    ensures
        history.len() + 1 <= max_history ==> recorded(history, max_history, now, state)
            == history.filter(recorded_within(now, 1_000_000_000)).push((now, state)),
        history.len() + 1 > max_history && history.len() > 0 ==> recorded(
            history,
            max_history,
            now,
            state,
        ) == history.skip(1).filter(recorded_within(now, 1_000_000_000)).push((now, state)),
        max_history == 0 && history.len() == 0 ==> recorded(history, max_history, now, state).len()
            == 0,
{
    let longer = history.push((now, state));
    assert(is_fresh(now) =~= recorded_within(now, 1_000_000_000));
    history.lemma_filter_push((now, state), is_fresh(now));
    if longer.len() > max_history {
        if history.len() > 0 {
            assert(longer.remove(0) =~= history.skip(1).push((now, state)));
            history.skip(1).lemma_filter_push((now, state), is_fresh(now));
        } else {
            assert(longer.remove(0).len() == 0);
            longer.remove(0).lemma_filter_len(is_fresh(now));
        }
    }
}

/// The closest state is found: the one whose time differs least from the one asked for,
/// and of several that differ as little, the one that was recorded first.
pub proof fn law_closest_is_found(history: History, t: Instant, i: int)
    requires
        0 <= i < history.len(),
        forall|j: int|
            0 <= j < history.len() ==> (if t.nanos >= history[i].0.nanos {
                t.nanos - history[i].0.nanos
            } else {
                history[i].0.nanos - t.nanos
            }) <= (if t.nanos >= (#[trigger] history[j]).0.nanos {
                t.nanos - history[j].0.nanos
            } else {
                history[j].0.nanos - t.nanos
            }),
        forall|j: int|
            0 <= j < i ==> (if t.nanos >= history[i].0.nanos {
                t.nanos - history[i].0.nanos
            } else {
                history[i].0.nanos - t.nanos
            }) < (if t.nanos >= (#[trigger] history[j]).0.nanos {
                t.nanos - history[j].0.nanos
            } else {
                history[j].0.nanos - t.nanos
            }),
    ensures
        closest(history, t) == Some(history[i].1),
{
    assert(is_closest(history, t, i)) by {
        assert forall|j: int| 0 <= j < history.len() implies t.distance(history[i].0)
            <= t.distance(#[trigger] history[j].0) by {
            let other = history[j];
        }
        assert forall|j: int| 0 <= j < i implies t.distance(history[i].0) < t.distance(
            #[trigger] history[j].0,
        ) by {
            let other = history[j];
        }
    }
    lemma_closest(history, t, i);
}

/// Something is found exactly where something was recorded.
pub proof fn law_found_where_recorded(history: History, t: Instant)
    ensures
        closest(history, t) is Some <==> history.len() > 0,
{
    if history.len() > 0 {
        let i = lemma_some_closest(history, t);
        lemma_closest(history, t, i);
    }
}

/// Some position of a history that is not empty is closest.
proof fn lemma_some_closest(history: History, t: Instant) -> (i: int)
    requires
        history.len() > 0,
    ensures
        is_closest(history, t, i),
    decreases history.len(),
{
    let last = history.len() - 1;
    if history.len() == 1 {
        0
    } else {
        let before = history.drop_last();
        assert(forall|j: int| 0 <= j < before.len() ==> before[j] == history[j]);
        let i = lemma_some_closest(before, t);
        let k = if t.distance(history[last].0) < t.distance(history[i].0) {
            last
        } else {
            i
        };
        assert forall|j: int| 0 <= j < history.len() implies t.distance(history[k].0)
            <= t.distance(#[trigger] history[j].0) by {
            if j < last {
                assert(t.distance(before[i].0) <= t.distance(before[j].0));
            }
        }
        assert forall|j: int| 0 <= j < k implies t.distance(history[k].0) < t.distance(
            #[trigger] history[j].0,
        ) by {
            if k == last {
                assert(t.distance(before[i].0) <= t.distance(before[j].0));
            } else {
                assert(t.distance(before[i].0) < t.distance(before[j].0));
            }
        }
        k
    }
}

/// A connection has the history that is filed under it, and an empty one where none is.
pub proof fn law_histories_are_filed(states: Map<ConnectionId, History>, id: ConnectionId)
    ensures
        states.contains_key(id) ==> history_of(states, id) == states[id],
        !states.contains_key(id) ==> history_of(states, id).len() == 0,
{
}

} // verus!
