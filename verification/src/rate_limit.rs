//! How many messages a connection may send in a second.

use dashmap::DashMap;
use vstd::prelude::*;

use crate::ids::ConnectionId;
use crate::time::{Clock, Instant, NANOS_PER_SECOND};

verus! {

/// `dashmap::DashMap`. Its methods change the map behind a shared reference; the
/// library reaches them only through an exclusive one.
#[verifier::external_type_specification]
#[verifier::external_body]
#[verifier::reject_recursive_types(K)]
#[verifier::reject_recursive_types(V)]
#[verifier::reject_recursive_types(S)]
pub struct ExDashMap<K, V, S>(DashMap<K, V, S>);

/// What the map of windows holds: for each connection, how many messages it has
/// sent in its present window and when that window began.
pub uninterp spec fn window_map(
    m: DashMap<ConnectionId, (u32, Instant)>,
) -> Map<ConnectionId, (u32, Instant)>;

/// `DashMap::new`: an empty map.
#[verifier::external_body]
fn windows_new() -> (m: DashMap<ConnectionId, (u32, Instant)>)
    ensures
        (window_map(m) == Map::<ConnectionId, (u32, Instant)>::empty()),
{
    DashMap::new()
}

/// `DashMap::entry` and `Entry::or_insert`: the value of a key, which is put in
/// with a default where it was absent.
#[verifier::external_body]
fn windows_entry(
    m: &mut DashMap<ConnectionId, (u32, Instant)>,
    id: ConnectionId,
    default: (u32, Instant),
) -> (value: (u32, Instant))
    ensures
        window_map(*old(m)).contains_key(id) ==> value == window_map(*old(m))[id] && window_map(
            *final(m),
        ) == window_map(*old(m)),
        !window_map(*old(m)).contains_key(id) ==> value == default && window_map(*final(m))
            == window_map(*old(m)).insert(id, default),
{
    *m.entry(id).or_insert(default)
}

/// `DashMap::insert`: sets the value of a key.
#[verifier::external_body]
fn windows_insert(
    m: &mut DashMap<ConnectionId, (u32, Instant)>,
    id: ConnectionId,
    value: (u32, Instant),
)
    ensures
        window_map(*final(m)) == window_map(*old(m)).insert(id, value),
{
    m.insert(id, value);
}

/// `<DashMap as Clone>::clone`: a map of its own with the same keys and values.
#[verifier::external_body]
fn windows_clone(m: &DashMap<ConnectionId, (u32, Instant)>) -> (c: DashMap<
    ConnectionId,
    (u32, Instant),
>)
    ensures
        window_map(c) == window_map(*m),
{
    m.clone()
}

/// Counts what each connection sends and refuses what goes beyond the limit.
///
/// A connection's window begins with its first message and is replaced by a new
/// one as soon as a message comes a second or more after it began.
#[derive(Debug)]
pub struct RateLimiter {
    requests: DashMap<ConnectionId, (u32, Instant)>,
    limit: u32,
    clock: Clock,
}

/// What becomes of a window when a message comes at `now`, and whether the
/// message is let through.
pub open spec fn count_message(limit: u32, window: (u32, Instant), now: Instant) -> (
    (u32, Instant),
    bool,
) {
    if now.since(window.1) >= NANOS_PER_SECOND {
        ((1, now), true)
    } else if window.0 < limit {
        (((window.0 + 1) as u32, window.1), true)
    } else {
        (window, false)
    }
}

/// The window of a connection at `now`: the one it has, or an empty one that begins now.
pub open spec fn window_of(
    windows: Map<ConnectionId, (u32, Instant)>,
    id: ConnectionId,
    now: Instant,
) -> (u32, Instant) {
    if windows.contains_key(id) {
        windows[id]
    } else {
        (0, now)
    }
}

/// The windows after a message of `id` at `now`, and whether it is let through.
pub open spec fn checked(
    limit: u32,
    windows: Map<ConnectionId, (u32, Instant)>,
    id: ConnectionId,
    now: Instant,
) -> (Map<ConnectionId, (u32, Instant)>, bool) {
    let (window, admitted) = count_message(limit, window_of(windows, id, now), now);
    (windows.insert(id, window), admitted)
}

impl RateLimiter {
    /// How many messages a window admits.
    pub closed spec fn limit(&self) -> u32 {
        self.limit
    }

    /// For each connection that has sent something, its count and the beginning of its window.
    pub closed spec fn windows(&self) -> Map<ConnectionId, (u32, Instant)> {
        window_map(self.requests)
    }

    /// The clock by which messages are counted.
    pub closed spec fn own_clock(&self) -> Clock {
        self.clock
    }

    /// Whether a message of `id` at `now` would be let through.
    pub open spec fn admits(&self, id: ConnectionId, now: Instant) -> bool {
        checked(self.limit(), self.windows(), id, now).1
    }

    /// The windows after a message of `id` at `now`.
    pub open spec fn windows_with(&self, id: ConnectionId, now: Instant) -> Map<
        ConnectionId,
        (u32, Instant),
    > {
        checked(self.limit(), self.windows(), id, now).0
    }

    /// A limiter that admits `limit` messages to a window and has seen none.
    pub fn new(limit: u32) -> (r: RateLimiter)
        ensures
            r.limit() == limit,
            r.windows() == Map::<ConnectionId, (u32, Instant)>::empty(),
            r.own_clock().starts_now(),
    {
        RateLimiter { requests: windows_new(), limit, clock: Clock::start() }
    }

    /// Counts a message that comes now and says whether it is let through.
    ///
    /// The first message of a connection is let through exactly where the limit
    /// is not zero, whatever the time.
    pub fn check(&mut self, connection_id: ConnectionId) -> (admitted: bool)
        ensures
            final(self).limit() == old(self).limit(),
            final(self).own_clock() == old(self).own_clock(),
            exists|now: Instant|
                old(self).own_clock().reads(now) && admitted == #[trigger] old(self).admits(connection_id, now)
                    && final(self).windows() == old(self).windows_with(connection_id, now),
            !old(self).windows().contains_key(connection_id) ==> admitted == (old(self).limit()
                > 0),
    {
        let now = self.clock.now();
        self.check_at(connection_id, now)
    }

    /// Counts a message that comes at `now` and says whether it is let through.
    pub fn check_at(&mut self, connection_id: ConnectionId, now: Instant) -> (admitted: bool)
        ensures
            final(self).limit() == old(self).limit(),
            final(self).own_clock() == old(self).own_clock(),
            admitted == old(self).admits(connection_id, now),
            final(self).windows() == old(self).windows_with(connection_id, now),
    {
        let window = windows_entry(&mut self.requests, connection_id, (0, now));
        let (counted, admitted) = if now.nanos_since(window.1) >= NANOS_PER_SECOND {
            ((1u32, now), true)
        } else if window.0 < self.limit {
            ((window.0 + 1, window.1), true)
        } else {
            (window, false)
        };
        windows_insert(&mut self.requests, connection_id, counted);
        assert(self.windows() =~= old(self).windows_with(connection_id, now));
        admitted
    }
}

impl Clone for RateLimiter {
    /// A limiter of its own that has counted the same.
    fn clone(&self) -> (r: RateLimiter)
        ensures
            r.limit() == self.limit(),
            r.windows() == self.windows(),
            r.own_clock() == self.own_clock(),
    {
        RateLimiter { requests: windows_clone(&self.requests), limit: self.limit, clock: self.clock }
    }
}

/// The windows after messages of `id` at the given times.
pub open spec fn windows_after(
    limit: u32,
    windows: Map<ConnectionId, (u32, Instant)>,
    id: ConnectionId,
    times: Seq<Instant>,
) -> Map<ConnectionId, (u32, Instant)>
    decreases times.len(),
{
    if times.len() == 0 {
        windows
    } else {
        checked(limit, windows_after(limit, windows, id, times.drop_last()), id, times.last()).0
    }
}

/// The limit is a budget: of the messages that a new connection sends within a
/// second of its first, exactly the first `limit` are let through.
pub proof fn law_budget(
    limit: u32,
    windows: Map<ConnectionId, (u32, Instant)>,
    id: ConnectionId,
    times: Seq<Instant>,
    now: Instant,
)
    requires
        !windows.contains_key(id),
        forall|i: int| 0 <= i < times.len() ==> (#[trigger] times[i]).since(times[0])
            < NANOS_PER_SECOND,
        times.len() > 0 ==> now.since(times[0]) < NANOS_PER_SECOND,
    ensures
        checked(limit, windows_after(limit, windows, id, times), id, now).1 == (times.len()
            < limit),
{
    lemma_budget(limit, windows, id, times);
}

/// A connection's window after messages within a second of its first.
proof fn lemma_budget(
    limit: u32,
    windows: Map<ConnectionId, (u32, Instant)>,
    id: ConnectionId,
    times: Seq<Instant>,
)
    requires
        !windows.contains_key(id),
        forall|i: int| 0 <= i < times.len() ==> (#[trigger] times[i]).since(times[0])
            < NANOS_PER_SECOND,
    ensures
        windows_after(limit, windows, id, times).contains_key(id) == (times.len() > 0),
        times.len() > 0 ==> windows_after(limit, windows, id, times)[id] == (
            (if times.len() < limit {
                times.len() as u32
            } else {
                limit
            }),
            times[0],
        ),
    decreases times.len(),
{
    if times.len() > 0 {
        let before = times.drop_last();
        assert(forall|i: int| 0 <= i < before.len() ==> before[i] == times[i]);
        lemma_budget(limit, windows, id, before);
        let last = times.len() - 1;
        assert(times[last].since(times[0]) < NANOS_PER_SECOND);
    }
}

/// The position of the message that opened the window which message `i` falls
/// into: the first one, and then each that comes a second or more after the one
/// that opened the window before.
pub open spec fn window_opening(times: Seq<Instant>, i: int) -> int
    decreases i,
{
    if i <= 0 {
        0
    } else {
        let before = window_opening(times, i - 1);
        if times[i].since(times[before]) >= NANOS_PER_SECOND {
            i
        } else {
            before
        }
    }
}

/// The limit is a budget of every window: of all the messages that a new connection
/// ever sends, exactly those are let through that are among the first `limit` of
/// their window.
pub proof fn law_every_window(
    limit: u32,
    windows: Map<ConnectionId, (u32, Instant)>,
    id: ConnectionId,
    times: Seq<Instant>,
    i: int,
)
    requires
        limit > 0,
        !windows.contains_key(id),
        0 <= i < times.len(),
    ensures
        0 <= window_opening(times, i) <= i,
        checked(limit, windows_after(limit, windows, id, times.take(i)), id, times[i]).1 == (i
            - window_opening(times, i) < limit),
{
    if i > 0 {
        lemma_every_window(limit, windows, id, times, i);
    }
}

/// A connection's window after its first `n` messages.
proof fn lemma_every_window(
    limit: u32,
    windows: Map<ConnectionId, (u32, Instant)>,
    id: ConnectionId,
    times: Seq<Instant>,
    n: int,
)
    requires
        limit > 0,
        !windows.contains_key(id),
        0 < n <= times.len(),
    ensures
        0 <= window_opening(times, n - 1) < n,
        windows_after(limit, windows, id, times.take(n)).contains_key(id),
        windows_after(limit, windows, id, times.take(n))[id] == (
            (if n - window_opening(times, n - 1) < limit {
                (n - window_opening(times, n - 1)) as u32
            } else {
                limit
            }),
            times[window_opening(times, n - 1)],
        ),
    decreases n,
{
    let sent = times.take(n);
    assert(sent.drop_last() =~= times.take(n - 1));
    assert(sent.last() == times[n - 1]);
    let before = windows_after(limit, windows, id, times.take(n - 1));
    assert(windows_after(limit, windows, id, sent) == checked(
        limit,
        before,
        id,
        times[n - 1],
    ).0);
    if n > 1 {
        lemma_every_window(limit, windows, id, times, n - 1);
        let opening = window_opening(times, n - 2);
        assert(window_of(before, id, times[n - 1]) == before[id]);
        if times[n - 1].since(times[opening]) < NANOS_PER_SECOND {
            assert(window_opening(times, n - 1) == opening);
        }
    } else {
        assert(before == windows);
        assert(window_opening(times, 0) == 0);
    }
}

/// Connections are limited one by one: what one sends leaves the windows of all
/// others as they were.
pub proof fn law_others_unaffected(
    limit: u32,
    windows: Map<ConnectionId, (u32, Instant)>,
    id: ConnectionId,
    other: ConnectionId,
    now: Instant,
)
    requires
        id != other,
    ensures
        checked(limit, windows, id, now).0.contains_key(other) == windows.contains_key(other),
        checked(limit, windows, id, now).0[other] == windows[other],
{
}

/// A refusal lasts at most a second: a message that comes a second or more after
/// its connection's window began is let through.
pub proof fn law_window_expires(
    limit: u32,
    windows: Map<ConnectionId, (u32, Instant)>,
    id: ConnectionId,
    now: Instant,
)
    requires
        windows.contains_key(id),
        now.since(windows[id].1) >= NANOS_PER_SECOND,
    ensures
        checked(limit, windows, id, now).1,
        checked(limit, windows, id, now).0[id] == (1u32, now),
{
}

/// What the clock says decides: a message that comes a second or more after its
/// connection's window began opens a new window and is let through as its first.
/// One that comes earlier is let through exactly where the count is below the limit,
/// and only then is counted; the window's beginning stays.
pub proof fn law_window_decides(
    limit: u32,
    windows: Map<ConnectionId, (u32, Instant)>,
    id: ConnectionId,
    now: Instant,
)
    requires
        windows.contains_key(id),
    ensures
        now.nanos - windows[id].1.nanos >= 1_000_000_000 ==> {
            &&& checked(limit, windows, id, now).1
            &&& checked(limit, windows, id, now).0 == windows.insert(id, (1u32, now))
        },
        now.nanos - windows[id].1.nanos < 1_000_000_000 && windows[id].0 < limit ==> {
            &&& checked(limit, windows, id, now).1
            &&& checked(limit, windows, id, now).0 == windows.insert(
                id,
                ((windows[id].0 + 1) as u32, windows[id].1),
            )
        },
        now.nanos - windows[id].1.nanos < 1_000_000_000 && windows[id].0 >= limit ==> {
            &&& !checked(limit, windows, id, now).1
            &&& checked(limit, windows, id, now).0 == windows
        },
{
    assert(windows.insert(id, windows[id]) =~= windows);
}

/// A first message opens a window: it is let through exactly where the limit is not
/// zero, and only then is counted.
pub proof fn law_first_message_opens_a_window(
    limit: u32,
    windows: Map<ConnectionId, (u32, Instant)>,
    id: ConnectionId,
    now: Instant,
)
    requires
        !windows.contains_key(id),
    ensures
        checked(limit, windows, id, now).1 == (limit > 0),
        checked(limit, windows, id, now).0 == windows.insert(
            id,
            (if limit > 0 {
                1u32
            } else {
                0u32
            }, now),
        ),
{
}

/// A limiter does what its limit and windows say.
pub proof fn law_limiter_goes_by_its_windows(limiter: RateLimiter, id: ConnectionId, now: Instant)
    ensures
        limiter.admits(id, now) == checked(limiter.limit(), limiter.windows(), id, now).1,
        limiter.windows_with(id, now) == checked(limiter.limit(), limiter.windows(), id, now).0,
{
}

} // verus!
