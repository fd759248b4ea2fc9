//! Spotting connections that send suspiciously much.

use dashmap::DashMap;
use vstd::prelude::*;

use crate::filters::{lemma_filter_all, lemma_filter_narrower};
use crate::ids::ConnectionId;
use crate::message::Message;
use crate::time::{Clock, Instant, NANOS_PER_SECOND, NANOS_PER_TEN_SECONDS};

verus! {

/// How many messages of the last ten seconds are still unsuspicious.
pub const MAX_RECENT: usize = 100;

/// How many messages of one kind within a second are still unsuspicious.
pub const MAX_SIMILAR: usize = 10;

/// How many flags are still unsuspicious.
pub const MAX_FLAGS: u32 = 5;

/// What the map of flags holds: how often each connection was flagged.
pub uninterp spec fn flag_map(m: DashMap<ConnectionId, u32>) -> Map<ConnectionId, u32>;

/// `DashMap::new`: an empty map.
#[verifier::external_body]
fn flags_new() -> (m: DashMap<ConnectionId, u32>)
    ensures
        (flag_map(m) == Map::<ConnectionId, u32>::empty()),
{
    DashMap::new()
}

/// `DashMap::entry` and `Entry::or_insert`: the value of a key, which is put in
/// with a default where it was absent.
#[verifier::external_body]
fn flags_entry(m: &mut DashMap<ConnectionId, u32>, id: ConnectionId, default: u32) -> (value: u32)
    ensures
        flag_map(*old(m)).contains_key(id) ==> value == flag_map(*old(m))[id] && flag_map(*final(m))
            == flag_map(*old(m)),
        !flag_map(*old(m)).contains_key(id) ==> value == default && flag_map(*final(m)) == flag_map(
            *old(m),
        ).insert(id, default),
{
    *m.entry(id).or_insert(default)
}

/// `DashMap::insert`: sets the value of a key.
#[verifier::external_body]
fn flags_insert(m: &mut DashMap<ConnectionId, u32>, id: ConnectionId, value: u32)
    ensures
        flag_map(*final(m)) == flag_map(*old(m)).insert(id, value),
{
    m.insert(id, value);
}

/// `DashMap::get`: the value of a key, where there is one.
#[verifier::external_body]
fn flags_get(m: &DashMap<ConnectionId, u32>, id: ConnectionId) -> (value: Option<u32>)
    ensures
        match value {
            Some(n) => flag_map(*m).contains_key(id) && n == flag_map(*m)[id],
            None => !flag_map(*m).contains_key(id),
        },
{
    m.get(&id).map(|entry| *entry)
}

/// `DashMap::remove`: takes a key and its value out.
#[verifier::external_body]
fn flags_remove(m: &mut DashMap<ConnectionId, u32>, id: ConnectionId)
    ensures
        flag_map(*final(m)) == flag_map(*old(m)).remove(id),
{
    m.remove(&id);
}

/// What the map of patterns holds: for each connection, the kinds of its recent
/// messages, each with the time at which it came.
pub uninterp spec fn pattern_map(
    m: DashMap<ConnectionId, Vec<(u32, Instant)>>,
) -> Map<ConnectionId, Seq<(u32, Instant)>>;

/// `DashMap::new`: an empty map.
#[verifier::external_body]
fn patterns_new() -> (m: DashMap<ConnectionId, Vec<(u32, Instant)>>)
    ensures
        (pattern_map(m) == Map::<ConnectionId, Seq<(u32, Instant)>>::empty()),
{
    DashMap::new()
}

/// `DashMap::remove`: takes a key and its value out.
#[verifier::external_body]
fn patterns_remove(m: &mut DashMap<ConnectionId, Vec<(u32, Instant)>>, id: ConnectionId) -> (value:
    Option<Vec<(u32, Instant)>>)
    ensures
        pattern_map(*final(m)) == pattern_map(*old(m)).remove(id),
        match value {
            Some(v) => pattern_map(*old(m)).contains_key(id) && v@ == pattern_map(*old(m))[id],
            None => !pattern_map(*old(m)).contains_key(id),
        },
{
    m.remove(&id).map(|entry| entry.1)
}

/// `DashMap::insert`: sets the value of a key.
#[verifier::external_body]
fn patterns_insert(
    m: &mut DashMap<ConnectionId, Vec<(u32, Instant)>>,
    id: ConnectionId,
    value: Vec<(u32, Instant)>,
)
    ensures
        pattern_map(*final(m)) == pattern_map(*old(m)).insert(id, value@),
{
    m.insert(id, value);
}

/// Came less than ten seconds before `now`.
pub open spec fn is_recent(now: Instant) -> spec_fn((u32, Instant)) -> bool {
    |p: (u32, Instant)| now.since(p.1) < NANOS_PER_TEN_SECONDS
}

/// Is of the given kind and came less than a second before `now`.
pub open spec fn is_similar(kind: u32, now: Instant) -> spec_fn((u32, Instant)) -> bool {
    |p: (u32, Instant)| p.0 == kind && now.since(p.1) < NANOS_PER_SECOND
}

/// Those messages of a history that came less than ten seconds before `now`.
pub open spec fn recent(history: Seq<(u32, Instant)>, now: Instant) -> Seq<(u32, Instant)> {
    history.filter(is_recent(now))
}

/// Those messages of a history that are of the given kind and came less than a
/// second before `now`.
pub open spec fn similar(history: Seq<(u32, Instant)>, kind: u32, now: Instant) -> Seq<
    (u32, Instant),
> {
    history.filter(is_similar(kind, now))
}

/// The history of a connection after a message of the given kind at `now`.
pub open spec fn remembered(history: Seq<(u32, Instant)>, kind: u32, now: Instant) -> Seq<
    (u32, Instant),
> {
    recent(history.push((kind, now)), now)
}

/// Whether a history that ends with a message of the given kind at `now` is unsuspicious.
pub open spec fn unsuspicious(history: Seq<(u32, Instant)>, kind: u32, now: Instant) -> bool {
    history.len() <= MAX_RECENT && similar(history, kind, now).len() <= MAX_SIMILAR
}

/// What is known of all connections.
#[verifier::ext_equal]
pub struct Watch {
    /// How often each connection was flagged.
    pub flags: Map<ConnectionId, u32>,
    /// The recent messages of each connection.
    pub histories: Map<ConnectionId, Seq<(u32, Instant)>>,
}

impl Watch {
    /// How often a connection was flagged.
    pub open spec fn flag_count(self, id: ConnectionId) -> u32 {
        if self.flags.contains_key(id) {
            self.flags[id]
        } else {
            0
        }
    }

    /// The recent messages of a connection.
    pub open spec fn history(self, id: ConnectionId) -> Seq<(u32, Instant)> {
        if self.histories.contains_key(id) {
            self.histories[id]
        } else {
            Seq::empty()
        }
    }

    /// Whether a message of the given kind from `id` at `now` passes.
    pub open spec fn passes(self, id: ConnectionId, kind: u32, now: Instant) -> bool {
        unsuspicious(remembered(self.history(id), kind, now), kind, now)
    }

    /// What is known after a message of the given kind from `id` at `now`. A
    /// message that does not pass adds a flag.
    pub open spec fn after(self, id: ConnectionId, kind: u32, now: Instant) -> Watch {
        Watch {
            flags: if self.passes(id, kind, now) {
                self.flags
            } else {
                self.flags.insert(id, self.flag_count(id).wrapping_add(1))
            },
            histories: self.histories.insert(id, remembered(self.history(id), kind, now)),
        }
    }

    /// Whether a connection has been flagged too often.
    pub open spec fn suspicious(self, id: ConnectionId) -> bool {
        self.flag_count(id) > MAX_FLAGS
    }

    /// What is known after everything about `id` was forgotten.
    pub open spec fn cleared(self, id: ConnectionId) -> Watch {
        Watch { flags: self.flags.remove(id), histories: self.histories.remove(id) }
    }
}

/// Drops the messages that came ten seconds or more before `now`.
fn keep_recent(history: &Vec<(u32, Instant)>, now: Instant) -> (kept: Vec<(u32, Instant)>)
    ensures
        kept@ == recent(history@, now),
{
    let mut kept: Vec<(u32, Instant)> = Vec::new();
    let mut i: usize = 0;
    assert(history@.take(0).filter(is_recent(now)) =~= Seq::empty()) by {
        reveal(Seq::filter);
    }
    while i < history.len()
        invariant
            i <= history.len(),
            kept@ == recent(history@.take(i as int), now),
        decreases history.len() - i,
    {
        let entry = history[i];
        proof {
            assert(history@.take(i + 1) =~= history@.take(i as int).push(entry));
            history@.take(i as int).lemma_filter_push(entry, is_recent(now));
        }
        if now.nanos_since(entry.1) < NANOS_PER_TEN_SECONDS {
            kept.push(entry);
        }
        i += 1;
    }
    assert(history@.take(i as int) =~= history@);
    kept
}

/// How many messages of the given kind came less than a second before `now`.
fn count_similar(history: &Vec<(u32, Instant)>, kind: u32, now: Instant) -> (count: usize)
    ensures
        count == similar(history@, kind, now).len(),
{
    let mut count: usize = 0;
    let mut i: usize = 0;
    assert(history@.take(0).filter(is_similar(kind, now)) =~= Seq::empty()) by {
        reveal(Seq::filter);
    }
    while i < history.len()
        invariant
            i <= history.len(),
            count <= i,
            count == similar(history@.take(i as int), kind, now).len(),
        decreases history.len() - i,
    {
        let entry = history[i];
        proof {
            assert(history@.take(i + 1) =~= history@.take(i as int).push(entry));
            history@.take(i as int).lemma_filter_push(entry, is_similar(kind, now));
        }
        if entry.0 == kind && now.nanos_since(entry.1) < NANOS_PER_SECOND {
            count += 1;
        }
        i += 1;
    }
    assert(history@.take(i as int) =~= history@);
    count
}

/// Watches what connections send, and flags those that send too much.
#[derive(Debug)]
pub struct AntiCheat {
    suspicious_connections: DashMap<ConnectionId, u32>,
    message_patterns: DashMap<ConnectionId, Vec<(u32, Instant)>>,
    clock: Clock,
}

impl View for AntiCheat {
    type V = Watch;

    closed spec fn view(&self) -> Watch {
        Watch {
            flags: flag_map(self.suspicious_connections),
            histories: pattern_map(self.message_patterns),
        }
    }
}

impl AntiCheat {
    /// The clock by which messages are timed.
    pub closed spec fn own_clock(&self) -> Clock {
        self.clock
    }

    /// Nothing seen yet.
    pub fn new() -> (a: AntiCheat)
        ensures
            a@.flags == Map::<ConnectionId, u32>::empty(),
            a@.histories == Map::<ConnectionId, Seq<(u32, Instant)>>::empty(),
            a.own_clock().starts_now(),
    {
        AntiCheat {
            suspicious_connections: flags_new(),
            message_patterns: patterns_new(),
            clock: Clock::start(),
        }
    }

    /// Takes note of a message that comes now, and says whether it passes.
    ///
    /// A message from a connection of which nothing is known passes, whatever the time.
    pub fn analyze_message(&mut self, connection_id: ConnectionId, message: &Message) -> (passes:
        bool)
        ensures
            final(self).own_clock() == old(self).own_clock(),
            exists|now: Instant|
                old(self).own_clock().reads(now) && #[trigger] old(self)@.after(connection_id, message@.msg_type.index(), now)
                    == final(self)@ && passes == old(self)@.passes(
                    connection_id,
                    message@.msg_type.index(),
                    now,
                ),
            old(self)@.history(connection_id).len() == 0 ==> passes,
    {
        let now = self.clock.now();
        proof {
            let kind = message@.msg_type.index();
            if self@.history(connection_id).len() == 0 {
                lemma_first_passes(self@, connection_id, kind, now);
            }
        }
        self.analyze_message_at(connection_id, message, now)
    }

    /// Takes note of a message that comes at `now`, and says whether it passes.
    pub fn analyze_message_at(
        &mut self,
        connection_id: ConnectionId,
        message: &Message,
        now: Instant,
    ) -> (passes: bool)
        ensures
            final(self).own_clock() == old(self).own_clock(),
            final(self)@ == old(self)@.after(connection_id, message@.msg_type.index(), now),
            passes == old(self)@.passes(connection_id, message@.msg_type.index(), now),
    {
        let kind = message.msg_type.index();
        let mut history = match patterns_remove(&mut self.message_patterns, connection_id) {
            Some(history) => history,
            None => Vec::new(),
        };
        assert(history@ =~= old(self)@.history(connection_id));
        history.push((kind, now));
        let kept = keep_recent(&history, now);
        let many = kept.len() > MAX_RECENT;
        let alike = count_similar(&kept, kind, now) > MAX_SIMILAR;
        patterns_insert(&mut self.message_patterns, connection_id, kept);
        assert(self@.histories =~= old(self)@.after(connection_id, kind, now).histories);
        if many || alike {
            self.flag_suspicious(connection_id);
            return false;
        }
        true
    }

    /// Adds a flag to a connection. The count wraps around.
    fn flag_suspicious(&mut self, connection_id: ConnectionId)
        ensures
            final(self)@.flags == old(self)@.flags.insert(
                connection_id,
                old(self)@.flag_count(connection_id).wrapping_add(1),
            ),
            final(self)@.histories == old(self)@.histories,
            final(self).own_clock() == old(self).own_clock(),
    {
        let count = flags_entry(&mut self.suspicious_connections, connection_id, 0);
        flags_insert(&mut self.suspicious_connections, connection_id, count.wrapping_add(1));
        assert(self@.flags =~= old(self)@.flags.insert(
            connection_id,
            old(self)@.flag_count(connection_id).wrapping_add(1),
        ));
    }

    /// Whether a connection has been flagged more than five times.
    pub fn is_suspicious(&self, connection_id: ConnectionId) -> (suspicious: bool)
        ensures
            suspicious == self@.suspicious(connection_id),
    {
        match flags_get(&self.suspicious_connections, connection_id) {
            Some(count) => count > MAX_FLAGS,
            None => false,
        }
    }

    /// Forgets everything about a connection.
    pub fn clear_flags(&mut self, connection_id: ConnectionId)
        ensures
            final(self)@ == old(self)@.cleared(connection_id),
            final(self).own_clock() == old(self).own_clock(),
    {
        flags_remove(&mut self.suspicious_connections, connection_id);
        let _ = patterns_remove(&mut self.message_patterns, connection_id);
    }
}

/// Where nothing is known of a connection, its message passes.
proof fn lemma_first_passes(watch: Watch, id: ConnectionId, kind: u32, now: Instant)
    requires
        watch.history(id).len() == 0,
    ensures
        watch.passes(id, kind, now),
{
    let one = watch.history(id).push((kind, now));
    let kept = recent(one, now);
    one.lemma_filter_len(is_recent(now));
    kept.lemma_filter_len(is_similar(kind, now));
}

/// What is known after messages of one kind from `id` at the given times.
pub open spec fn watch_after(watch: Watch, id: ConnectionId, kind: u32, times: Seq<Instant>) -> Watch
    decreases times.len(),
{
    if times.len() == 0 {
        watch
    } else {
        watch_after(watch, id, kind, times.drop_last()).after(id, kind, times.last())
    }
}

/// A flood is caught: of the messages of one kind that a connection sends within
/// a second, the first ten pass and each one after them is refused.
pub proof fn law_flood(
    watch: Watch,
    id: ConnectionId,
    kind: u32,
    times: Seq<Instant>,
    now: Instant,
)
    requires
        watch.history(id).len() == 0,
        forall|i: int, j: int| 0 <= i < times.len() && 0 <= j < times.len() ==>
            (#[trigger] times[i]).since(#[trigger] times[j]) < NANOS_PER_SECOND,
        forall|i: int| 0 <= i < times.len() ==> now.since(#[trigger] times[i]) < NANOS_PER_SECOND,
    ensures
        watch_after(watch, id, kind, times).passes(id, kind, now) == (times.len() < MAX_SIMILAR),
{
    lemma_flood(watch, id, kind, times);
    let history = watch_after(watch, id, kind, times).history(id);
    let all = Seq::new(times.len(), |i: int| (kind, times[i]));
    assert(history =~= all);
    let longer = all.push((kind, now));
    assert forall|i: int| 0 <= i < longer.len() implies now.since((#[trigger] longer[i]).1)
        < NANOS_PER_SECOND by {
        if i < times.len() {
            assert(now.since(times[i]) < NANOS_PER_SECOND);
        }
    }
    lemma_filter_all(longer, is_recent(now));
    lemma_filter_all(longer, is_similar(kind, now));
}

/// Who keeps flooding becomes suspicious: of a connection that was never flagged
/// and sends messages of one kind within a second, each message beyond the first
/// ten adds a flag, so that it is suspicious from the sixteenth on.
pub proof fn law_flood_is_suspicious(
    watch: Watch,
    id: ConnectionId,
    kind: u32,
    times: Seq<Instant>,
)
    requires
        watch.history(id).len() == 0,
        watch.flag_count(id) == 0,
        times.len() <= u32::MAX,
        forall|i: int, j: int| 0 <= i < times.len() && 0 <= j < times.len() ==>
            (#[trigger] times[i]).since(#[trigger] times[j]) < NANOS_PER_SECOND,
    ensures
        watch_after(watch, id, kind, times).flag_count(id) == (if times.len() <= MAX_SIMILAR {
            0
        } else {
            times.len() - MAX_SIMILAR
        }),
        watch_after(watch, id, kind, times).suspicious(id) == (times.len() > MAX_SIMILAR
            + MAX_FLAGS),
    decreases times.len(),
{
    if times.len() > 0 {
        let before = times.drop_last();
        let now = times.last();
        assert forall|i: int, j: int| 0 <= i < before.len() && 0 <= j < before.len() implies
            (#[trigger] before[i]).since(#[trigger] before[j]) < NANOS_PER_SECOND by {
            assert(times[i].since(times[j]) < NANOS_PER_SECOND);
        }
        assert forall|i: int| 0 <= i < before.len() implies now.since(#[trigger] before[i])
            < NANOS_PER_SECOND by {
            assert(times[times.len() - 1].since(times[i]) < NANOS_PER_SECOND);
        }
        law_flood_is_suspicious(watch, id, kind, before);
        law_flood(watch, id, kind, before, now);
    }
}

/// All messages of a flood are remembered.
proof fn lemma_flood(watch: Watch, id: ConnectionId, kind: u32, times: Seq<Instant>)
    requires
        watch.history(id).len() == 0,
        forall|i: int, j: int| 0 <= i < times.len() && 0 <= j < times.len() ==>
            (#[trigger] times[i]).since(#[trigger] times[j]) < NANOS_PER_SECOND,
    ensures
        watch_after(watch, id, kind, times).history(id) == Seq::new(
            times.len(),
            |i: int| (kind, times[i]),
        ),
    decreases times.len(),
{
    let all = Seq::new(times.len(), |i: int| (kind, times[i]));
    if times.len() == 0 {
        assert(watch.history(id) =~= all);
    } else {
        let before = times.drop_last();
        let now = times.last();
        assert forall|i: int, j: int| 0 <= i < before.len() && 0 <= j < before.len() implies
            (#[trigger] before[i]).since(#[trigger] before[j]) < NANOS_PER_SECOND by {
            assert(times[i].since(times[j]) < NANOS_PER_SECOND);
        }
        lemma_flood(watch, id, kind, before);
        let history = watch_after(watch, id, kind, before).history(id);
        assert(history.push((kind, now)) =~= all);
        assert forall|i: int| 0 <= i < all.len() implies now.since((#[trigger] all[i]).1)
            < NANOS_PER_TEN_SECONDS by {
            assert(times[times.len() - 1].since(times[i]) < NANOS_PER_SECOND);
        }
        lemma_filter_all(all, is_recent(now));
    }
}

/// What is known after the given messages from `id`, each with its kind and time.
pub open spec fn watch_all(
    watch: Watch,
    id: ConnectionId,
    messages: Seq<(u32, Instant)>,
) -> Watch
    decreases messages.len(),
{
    if messages.len() == 0 {
        watch
    } else {
        watch_all(watch, id, messages.drop_last()).after(
            id,
            messages.last().0,
            messages.last().1,
        )
    }
}

/// Times do not run backwards.
pub open spec fn in_order(messages: Seq<(u32, Instant)>) -> bool {
    forall|i: int, j: int| 0 <= i <= j < messages.len() ==> (#[trigger] messages[i]).1.nanos
        <= (#[trigger] messages[j]).1.nanos
}

/// Messages are counted over their times alone: of all that a connection ever sends,
/// of whatever kinds, a message is refused exactly where it makes more than a hundred
/// within ten seconds, or more than ten of its kind within one.
pub proof fn law_counts_decide(
    watch: Watch,
    id: ConnectionId,
    messages: Seq<(u32, Instant)>,
    kind: u32,
    now: Instant,
)
    requires
        watch.history(id).len() == 0,
        in_order(messages.push((kind, now))),
    ensures
        watch_all(watch, id, messages).passes(id, kind, now) == (recent(
            messages.push((kind, now)),
            now,
        ).len() <= MAX_RECENT && similar(messages.push((kind, now)), kind, now).len()
            <= MAX_SIMILAR),
{
    let all = messages.push((kind, now));
    assert(all.drop_last() =~= messages);
    lemma_remembered_all(watch, id, all);
    lemma_filter_narrower(all, is_recent(now), is_similar(kind, now));
}

/// What is remembered of all messages are the recent ones.
proof fn lemma_remembered_all(watch: Watch, id: ConnectionId, messages: Seq<(u32, Instant)>)
    requires
        watch.history(id).len() == 0,
        messages.len() > 0,
        in_order(messages),
    ensures
        remembered(
            watch_all(watch, id, messages.drop_last()).history(id),
            messages.last().0,
            messages.last().1,
        ) == recent(messages, messages.last().1),
    decreases messages.len(),
{
    let before = messages.drop_last();
    let last = messages.last();
    let now = last.1;
    let history = watch_all(watch, id, before).history(id);
    assert(messages =~= before.push(last));
    assert(forall|i: int| 0 <= i < before.len() ==> before[i] == messages[i]);
    if before.len() > 0 {
        let earlier = before.last().1;
        assert(in_order(before)) by {
            assert forall|i: int, j: int| 0 <= i <= j < before.len() implies (
            #[trigger] before[i]).1.nanos <= (#[trigger] before[j]).1.nanos by {
                assert(messages[i].1.nanos <= messages[j].1.nanos);
            }
        }
        lemma_remembered_all(watch, id, before);
        assert(history == recent(before, earlier));
        assert forall|i: int|
            0 <= i < before.len() && is_recent(now)(#[trigger] before[i]) implies is_recent(
            earlier,
        )(before[i]) by {
            assert(messages[i].1.nanos <= messages[before.len() - 1].1.nanos);
            assert(messages[before.len() - 1].1.nanos <= messages[messages.len() - 1].1.nanos);
        }
        lemma_filter_narrower(before, is_recent(earlier), is_recent(now));
    } else {
        assert(history =~= before);
    }
    before.lemma_filter_push(last, is_recent(now));
    history.lemma_filter_push(last, is_recent(now));
}

/// A clean slate: a connection of which everything was forgotten is not
/// suspicious, and its next message passes.
pub proof fn law_cleared(watch: Watch, id: ConnectionId, kind: u32, now: Instant)
    ensures
        !watch.cleared(id).suspicious(id),
        watch.cleared(id).passes(id, kind, now),
{
    lemma_first_passes(watch.cleared(id), id, kind, now);
}

/// Connections are watched one by one: what one sends changes nothing that is
/// known of the others.
pub proof fn law_others_unaffected(
    watch: Watch,
    id: ConnectionId,
    other: ConnectionId,
    kind: u32,
    now: Instant,
)
    requires
        id != other,
    ensures
        watch.after(id, kind, now).flag_count(other) == watch.flag_count(other),
        watch.after(id, kind, now).history(other) == watch.history(other),
        watch.cleared(id).flag_count(other) == watch.flag_count(other),
        watch.cleared(id).history(other) == watch.history(other),
{
}

/// Came within so many nanoseconds before `now`.
pub open spec fn came_within(now: Instant, span: int) -> spec_fn((u32, Instant)) -> bool {
    |p: (u32, Instant)| now.nanos - p.1.nanos < span
}

/// Is of the given kind and came within so many nanoseconds before `now`.
pub open spec fn alike_within(kind: u32, now: Instant, span: int) -> spec_fn(
    (u32, Instant),
) -> bool {
    |p: (u32, Instant)| p.0 == kind && now.nanos - p.1.nanos < span
}

/// The last of the messages is one too many: with it, more than a hundred came within
/// ten seconds, or more than ten of its kind within one.
pub open spec fn one_too_many(messages: Seq<(u32, Instant)>) -> bool {
    let (kind, now) = messages.last();
    ||| messages.filter(came_within(now, 10_000_000_000)).len() > 100
    ||| messages.filter(alike_within(kind, now, 1_000_000_000)).len() > 10
}

/// How many of the messages were one too many when they came.
pub open spec fn count_too_many(messages: Seq<(u32, Instant)>) -> nat
    decreases messages.len(),
{
    if messages.len() == 0 {
        0
    } else {
        count_too_many(messages.drop_last()) + (if one_too_many(messages) {
            1nat
        } else {
            0nat
        })
    }
}

/// The two ways of saying what is recent, and what is alike, agree.
proof fn lemma_spans(kind: u32, now: Instant)
    ensures
        is_recent(now) == came_within(now, 10_000_000_000),
        is_similar(kind, now) == alike_within(kind, now, 1_000_000_000),
{
    assert(is_recent(now) =~= came_within(now, 10_000_000_000));
    assert(is_similar(kind, now) =~= alike_within(kind, now, 1_000_000_000));
}

/// What is known decides: a message passes exactly where, together with what is
/// remembered of its connection, no more than a hundred came within ten seconds and
/// no more than ten of its kind within one. What came within ten seconds is
/// remembered, the message last, whether or not it passes.
pub proof fn law_memory_decides(watch: Watch, id: ConnectionId, kind: u32, now: Instant)
    ensures
        watch.passes(id, kind, now) == !one_too_many(watch.history(id).push((kind, now))),
        watch.after(id, kind, now).history(id) == watch.history(id).push((kind, now)).filter(
            came_within(now, 10_000_000_000),
        ),
{
    let all = watch.history(id).push((kind, now));
    lemma_spans(kind, now);
    lemma_filter_narrower(all, is_recent(now), is_similar(kind, now));
}

/// Each refusal adds one flag: a message that is refused, for whichever reason, raises
/// the count of its connection by one, as far as the counter goes, and a message that
/// passes leaves it.
pub proof fn law_each_refusal_adds_a_flag(watch: Watch, id: ConnectionId, kind: u32, now: Instant)
    ensures
        watch.passes(id, kind, now) ==> watch.after(id, kind, now).flag_count(id)
            == watch.flag_count(id),
        !watch.passes(id, kind, now) && watch.flag_count(id) < u32::MAX ==> watch.after(
            id,
            kind,
            now,
        ).flag_count(id) == watch.flag_count(id) + 1,
{
}

/// Flags count what was too much: of a connection of which nothing was known, the flags
/// are as many as the messages, of whatever kinds, that were one too many when they
/// came, and exactly those were refused.
pub proof fn law_flags_count_refusals(
    watch: Watch,
    id: ConnectionId,
    messages: Seq<(u32, Instant)>,
)
    requires
        watch.history(id).len() == 0,
        watch.flag_count(id) == 0,
        in_order(messages),
        messages.len() <= u32::MAX,
    ensures
        watch_all(watch, id, messages).flag_count(id) == count_too_many(messages),
        count_too_many(messages) <= messages.len(),
        messages.len() > 0 ==> watch_all(watch, id, messages.drop_last()).passes(
            id,
            messages.last().0,
            messages.last().1,
        ) == !one_too_many(messages),
    decreases messages.len(),
{
    if messages.len() > 0 {
        let before = messages.drop_last();
        let (kind, now) = messages.last();
        assert(in_order(before)) by {
            assert forall|i: int, j: int| 0 <= i <= j < before.len() implies (
            #[trigger] before[i]).1.nanos <= (#[trigger] before[j]).1.nanos by {
                assert(messages[i].1.nanos <= messages[j].1.nanos);
            }
        }
        law_flags_count_refusals(watch, id, before);
        assert(messages =~= before.push((kind, now)));
        law_counts_decide(watch, id, before, kind, now);
        lemma_spans(kind, now);
        law_each_refusal_adds_a_flag(watch_all(watch, id, before), id, kind, now);
    }
}

/// More than five flags make a connection suspicious, five do not.
pub proof fn law_suspicious_beyond_five_flags(watch: Watch, id: ConnectionId)
    ensures
        watch.suspicious(id) <==> watch.flag_count(id) >= 6,
        watch.flags.contains_key(id) ==> watch.flag_count(id) == watch.flags[id],
        !watch.flags.contains_key(id) ==> watch.flag_count(id) == 0,
{
}

/// Forgetting is complete: neither flags nor messages of the connection are left.
pub proof fn law_forgetting_is_complete(watch: Watch, id: ConnectionId)
    ensures
        watch.cleared(id).flag_count(id) == 0,
        watch.cleared(id).history(id).len() == 0,
        watch.cleared(id).flags == watch.flags.remove(id),
        watch.cleared(id).histories == watch.histories.remove(id),
{
}

} // verus!
