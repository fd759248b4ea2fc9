//! The wire format of messages.
//!
//! A message is written with `bincode`, piece by piece: the identifier and the
//! position of the message type; the text, where the type carries one; the
//! payload, the timestamp and the priority; the three flags. `bincode` writes a
//! structure as its fields one after the other, so the pieces in this order are
//! the encoding of the whole message.

use bytes::Bytes;
use uuid::Uuid;
use vstd::prelude::*;
use vstd::utf8::encode_utf8;

use crate::error::NetworkError;
use crate::message::{Message, MessagePriority, MessageType, MessageTypeView, MessageView};
use crate::message::{CUSTOM_INDEX, MESSAGE_TYPES, PRIORITIES};
use crate::payload::contents;
use crate::text::{decimal, decimal_text};

verus! {

/// `n` in `width` bytes, least significant byte first.
pub open spec fn le_bytes(n: nat, width: nat) -> Seq<u8>
    decreases width,
{
    if width == 0 {
        Seq::empty()
    } else {
        seq![(n % 256) as u8] + le_bytes(n / 256, (width - 1) as nat)
    }
}

/// `n` in `width` bytes, most significant byte first.
pub open spec fn be_bytes(n: nat, width: nat) -> Seq<u8> {
    le_bytes(n, width).reverse()
}

/// A run of bytes behind its length.
pub open spec fn counted(bytes: Seq<u8>) -> Seq<u8> {
    le_bytes(bytes.len(), 8) + bytes
}

/// A flag in one byte.
pub open spec fn flag_byte(flag: bool) -> u8 {
    if flag {
        1
    } else {
        0
    }
}

/// The first piece: the identifier's sixteen bytes and the position of the message type.
pub open spec fn head_bytes(id: u128, index: u32) -> Seq<u8> {
    counted(be_bytes(id as nat, 16)) + le_bytes(index as nat, 4)
}

/// The text of a custom message type, in UTF-8.
pub open spec fn name_bytes(name: Seq<char>) -> Seq<u8> {
    counted(encode_utf8(name))
}

/// The payload, the timestamp and the position of the priority.
pub open spec fn body_bytes(data: Seq<u8>, timestamp: u64, priority: u32) -> Seq<u8> {
    counted(data) + le_bytes(timestamp as nat, 8) + le_bytes(priority as nat, 4)
}

/// The flags `reliable`, `compressed` and `encrypted`.
pub open spec fn tail_bytes(reliable: bool, compressed: bool, encrypted: bool) -> Seq<u8> {
    seq![flag_byte(reliable), flag_byte(compressed), flag_byte(encrypted)]
}

/// The bytes of a message on the wire.
pub open spec fn wire_bytes(m: MessageView) -> Seq<u8> {
    head_bytes(m.id, m.msg_type.index())
        + (match m.msg_type {
            MessageTypeView::Custom(name) => name_bytes(name),
            _ => Seq::empty(),
        })
        + body_bytes(m.data, m.timestamp, m.priority.spec_index())
        + tail_bytes(m.reliable, m.compressed, m.encrypted)
}

/// What `bincode` says of bytes that do not start with a head.
pub uninterp spec fn head_error(data: Seq<u8>) -> Seq<char>;

/// What `bincode` says of bytes that do not start with a text.
pub uninterp spec fn name_error(data: Seq<u8>) -> Seq<char>;

/// What `bincode` says of bytes that do not start with a body.
pub uninterp spec fn body_error(data: Seq<u8>) -> Seq<char>;

/// The first of three bytes that is no flag, where those before it are flags.
pub open spec fn bad_flag(data: Seq<u8>) -> Option<u8> {
    if data.len() > 0 && data[0] > 1 {
        Some(data[0])
    } else if data.len() > 1 && data[1] > 1 {
        Some(data[1])
    } else if data.len() > 2 && data[2] > 1 {
        Some(data[2])
    } else {
        None
    }
}

/// What is said of a byte that is no flag.
pub open spec fn flag_error(byte: u8) -> Seq<char> {
    "invalid u8 while decoding bool, expected 0 or 1, found "@ + decimal(byte as nat)
}

/// What `bincode` says of bytes that end before the tail does.
pub uninterp spec fn tail_error(data: Seq<u8>) -> Seq<char>;

/// `bincode::serialize` of a UUID and a `u32`.
///
/// Claimed: it succeeds, and writes the UUID as a counted run of its sixteen
/// bytes, most significant first, and the number in four bytes, least
/// significant first.
#[verifier::external_body]
fn write_head(id: u128, index: u32) -> (r: Result<Vec<u8>, String>)
    ensures
        r is Ok,
        r->Ok_0@ == head_bytes(id, index),
{
    bincode::serialize(&(Uuid::from_u128(id), index)).map_err(|e| e.to_string())
}

/// `bincode::serialize` of a string.
///
/// Claimed: it succeeds, and writes the counted run of the string's UTF-8 bytes.
#[verifier::external_body]
fn write_name(name: &String) -> (r: Result<Vec<u8>, String>)
    ensures
        r is Ok,
        r->Ok_0@ == name_bytes(name@),
{
    bincode::serialize(name).map_err(|e| e.to_string())
}

/// `bincode::serialize` of a `Bytes`, a `u64` and a `u32`.
///
/// Claimed: it succeeds, and writes the bytes as a counted run and the numbers in
/// eight and four bytes, least significant first.
#[verifier::external_body]
fn write_body(data: &Bytes, timestamp: u64, priority: u32) -> (r: Result<Vec<u8>, String>)
    ensures
        r is Ok,
        r->Ok_0@ == body_bytes(contents(*data), timestamp, priority),
{
    bincode::serialize(&(data, timestamp, priority)).map_err(|e| e.to_string())
}

/// `bincode::serialize` of three flags.
///
/// Claimed: it succeeds, and writes each flag as one byte, 0 or 1.
#[verifier::external_body]
fn write_tail(reliable: bool, compressed: bool, encrypted: bool) -> (r: Result<Vec<u8>, String>)
    ensures
        r is Ok,
        r->Ok_0@ == tail_bytes(reliable, compressed, encrypted),
{
    bincode::serialize(&(reliable, compressed, encrypted)).map_err(|e| e.to_string())
}

/// `bincode::deserialize` of a UUID and a `u32`.
///
/// Claimed: it succeeds exactly where the bytes start with the encoding of such a
/// pair, and then gives that pair; what follows is left unread. Otherwise the
/// words of the error depend on the bytes alone.
#[verifier::external_body]
fn read_head(data: &[u8]) -> (r: Result<(u128, u32), String>)
    ensures
        match r {
            Ok((id, index)) => head_bytes(id, index).is_prefix_of(data@),
            Err(e) => e@ == head_error(data@) && (forall|id: u128, index: u32|
                !(#[trigger] head_bytes(id, index)).is_prefix_of(data@)),
        },
{
    bincode::deserialize::<(Uuid, u32)>(data)
        .map(|(id, index)| (id.as_u128(), index))
        .map_err(|e| e.to_string())
}

/// `bincode::deserialize` of a string.
///
/// Claimed: it succeeds exactly where the bytes start with the encoding of a
/// string, and then gives that string; what follows is left unread. Otherwise the
/// words of the error depend on the bytes alone.
#[verifier::external_body]
fn read_name(data: &[u8]) -> (r: Result<String, String>)
    ensures
        match r {
            Ok(name) => name_bytes(name@).is_prefix_of(data@),
            Err(e) => e@ == name_error(data@) && (forall|name: Seq<char>|
                !(#[trigger] name_bytes(name)).is_prefix_of(data@)),
        },
{
    bincode::deserialize::<String>(data).map_err(|e| e.to_string())
}

/// `bincode::deserialize` of a `Bytes`, a `u64` and a `u32`.
///
/// Claimed: it succeeds exactly where the bytes start with the encoding of such a
/// triple, and then gives that triple; what follows is left unread. Otherwise the
/// words of the error depend on the bytes alone.
#[verifier::external_body]
fn read_body(data: &[u8]) -> (r: Result<(Bytes, u64, u32), String>)
    ensures
        match r {
            Ok((payload, timestamp, priority)) => body_bytes(
                contents(payload),
                timestamp,
                priority,
            ).is_prefix_of(data@),
            Err(e) => e@ == body_error(data@) && (forall|payload: Seq<u8>, timestamp: u64, priority: u32|
                !(#[trigger] body_bytes(payload, timestamp, priority)).is_prefix_of(data@)),
        },
{
    bincode::deserialize::<(Bytes, u64, u32)>(data).map_err(|e| e.to_string())
}

/// `bincode::deserialize` of three flags.
///
/// Claimed: it succeeds exactly where the bytes start with three bytes that are
/// each 0 or 1, and then gives the flags; what follows is left unread. Otherwise
/// the error names the first byte that is no flag, or, where there is none, its
/// words depend on the bytes alone.
#[verifier::external_body]
fn read_tail(data: &[u8]) -> (r: Result<(bool, bool, bool), String>)
    ensures
        match r {
            Ok((reliable, compressed, encrypted)) => tail_bytes(
                reliable,
                compressed,
                encrypted,
            ).is_prefix_of(data@),
            Err(e) => e@ == (match bad_flag(data@) {
                Some(byte) => flag_error(byte),
                None => tail_error(data@),
            }) && (forall|reliable: bool, compressed: bool, encrypted: bool|
                !(#[trigger] tail_bytes(reliable, compressed, encrypted)).is_prefix_of(data@)),
        },
{
    bincode::deserialize::<(bool, bool, bool)>(data).map_err(|e| e.to_string())
}

/// The head that the bytes start with.
pub open spec fn head_at(data: Seq<u8>) -> Option<(u128, u32)> {
    if exists|id: u128, index: u32| (#[trigger] head_bytes(id, index)).is_prefix_of(data) {
        Some(choose|id: u128, index: u32| (#[trigger] head_bytes(id, index)).is_prefix_of(data))
    } else {
        None
    }
}

/// The text that the bytes start with.
pub open spec fn name_at(data: Seq<u8>) -> Option<Seq<char>> {
    if exists|name: Seq<char>| (#[trigger] name_bytes(name)).is_prefix_of(data) {
        Some(choose|name: Seq<char>| (#[trigger] name_bytes(name)).is_prefix_of(data))
    } else {
        None
    }
}

/// The body that the bytes start with.
pub open spec fn body_at(data: Seq<u8>) -> Option<(Seq<u8>, u64, u32)> {
    if exists|payload: Seq<u8>, timestamp: u64, priority: u32|
        (#[trigger] body_bytes(payload, timestamp, priority)).is_prefix_of(data) {
        Some(
            choose|payload: Seq<u8>, timestamp: u64, priority: u32|
                (#[trigger] body_bytes(payload, timestamp, priority)).is_prefix_of(data),
        )
    } else {
        None
    }
}

/// The tail that the bytes start with.
pub open spec fn tail_at(data: Seq<u8>) -> Option<(bool, bool, bool)> {
    if exists|reliable: bool, compressed: bool, encrypted: bool|
        (#[trigger] tail_bytes(reliable, compressed, encrypted)).is_prefix_of(data) {
        Some(
            choose|reliable: bool, compressed: bool, encrypted: bool|
                (#[trigger] tail_bytes(reliable, compressed, encrypted)).is_prefix_of(data),
        )
    } else {
        None
    }
}

/// What is said of a position at which no variant stands.
pub open spec fn variant_error(index: u32, count: u32) -> Seq<char> {
    "invalid value: integer `"@ + decimal(index as nat) + "`, expected variant index 0 <= i < "@
        + decimal(count as nat)
}

/// How many bytes a head takes.
pub const HEAD_LEN: usize = 28;

/// The message of identifier `id` and type `msg_type` whose remaining pieces the
/// bytes start with, or what is wrong with them.
pub open spec fn decoded_rest(id: u128, msg_type: MessageTypeView, data: Seq<u8>) -> Result<
    MessageView,
    Seq<char>,
> {
    match body_at(data) {
        None => Err(body_error(data)),
        Some((payload, timestamp, priority)) => if priority >= PRIORITIES {
            Err(variant_error(priority, PRIORITIES))
        } else {
            let rest = data.skip(body_bytes(payload, timestamp, priority).len() as int);
            match tail_at(rest) {
                None => Err(
                    match bad_flag(rest) {
                        Some(byte) => flag_error(byte),
                        None => tail_error(rest),
                    },
                ),
                Some((reliable, compressed, encrypted)) => Ok(
                    MessageView {
                        id,
                        msg_type,
                        data: payload,
                        timestamp,
                        priority: MessagePriority::spec_from_index(priority),
                        reliable,
                        compressed,
                        encrypted,
                    },
                ),
            }
        },
    }
}

/// The message that the bytes start with, or what is wrong with them. The
/// pieces are read in order, and the first that cannot be read decides.
pub open spec fn decoded(data: Seq<u8>) -> Result<MessageView, Seq<char>> {
    match head_at(data) {
        None => Err(head_error(data)),
        Some((id, index)) => {
            let rest = data.skip(HEAD_LEN as int);
            if index >= MESSAGE_TYPES {
                Err(variant_error(index, MESSAGE_TYPES))
            } else if index == CUSTOM_INDEX {
                match name_at(rest) {
                    None => Err(name_error(rest)),
                    Some(name) => decoded_rest(
                        id,
                        MessageTypeView::Custom(name),
                        rest.skip(name_bytes(name).len() as int),
                    ),
                }
            } else {
                decoded_rest(id, MessageTypeView::plain(index), rest)
            }
        },
    }
}

proof fn lemma_le_len(n: nat, width: nat)
    ensures
        le_bytes(n, width).len() == width,
    decreases width,
{
    if width > 0 {
        lemma_le_len(n / 256, (width - 1) as nat);
    }
}

/// `n` fits into `width` bytes.
spec fn fits(n: nat, width: nat) -> bool
    decreases width,
{
    if width == 0 {
        n == 0
    } else {
        fits(n / 256, (width - 1) as nat)
    }
}

proof fn lemma_le_injective(a: nat, b: nat, width: nat)
    requires
        fits(a, width),
        fits(b, width),
        le_bytes(a, width) == le_bytes(b, width),
    ensures
        a == b,
    decreases width,
{
    if width > 0 {
        let w = (width - 1) as nat;
        let s = le_bytes(a, width);
        let t = le_bytes(b, width);
        assert(s[0] == (a % 256) as u8 && t[0] == (b % 256) as u8);
        assert(s.skip(1) =~= le_bytes(a / 256, w));
        assert(t.skip(1) =~= le_bytes(b / 256, w));
        lemma_le_injective(a / 256, b / 256, w);
    }
}

proof fn lemma_fits_u32(n: u32)
    ensures
        fits(n as nat, 4),
{
    reveal_with_fuel(fits, 5);
}

proof fn lemma_fits_u64(n: u64)
    ensures
        fits(n as nat, 8),
{
    reveal_with_fuel(fits, 9);
}

proof fn lemma_fits_u128(n: u128)
    ensures
        fits(n as nat, 16),
{
    reveal_with_fuel(fits, 17);
}

/// One run of bytes is a prefix where its halves are, one behind the other.
proof fn lemma_prefix_split(p: Seq<u8>, q: Seq<u8>, data: Seq<u8>)
    ensures
        (p + q).is_prefix_of(data) <==> (p.is_prefix_of(data) && q.is_prefix_of(
            data.skip(p.len() as int),
        )),
{
    if (p + q).is_prefix_of(data) {
        assert forall|i: int| 0 <= i < p.len() implies p[i] == data[i] by {
            assert((p + q)[i] == data.subrange(0, (p + q).len() as int)[i]);
        }
        assert(p =~= data.subrange(0, p.len() as int));
        let rest = data.skip(p.len() as int);
        assert forall|i: int| 0 <= i < q.len() implies q[i] == rest[i] by {
            assert((p + q)[p.len() + i] == data.subrange(0, (p + q).len() as int)[p.len() + i]);
        }
        assert(q =~= rest.subrange(0, q.len() as int));
    }
    if p.is_prefix_of(data) && q.is_prefix_of(data.skip(p.len() as int)) {
        let rest = data.skip(p.len() as int);
        assert forall|i: int| 0 <= i < (p + q).len() implies (p + q)[i] == data[i] by {
            if i < p.len() {
                assert(p[i] == data.subrange(0, p.len() as int)[i]);
            } else {
                assert(q[i - p.len()] == rest.subrange(0, q.len() as int)[i - p.len()]);
            }
        }
        assert((p + q) =~= data.subrange(0, (p + q).len() as int));
    }
}

/// Two prefixes of the same length are the same.
proof fn lemma_prefix_same(p: Seq<u8>, q: Seq<u8>, data: Seq<u8>)
    requires
        p.is_prefix_of(data),
        q.is_prefix_of(data),
        p.len() == q.len(),
    ensures
        p == q,
{
}

/// Bytes start with at most one counted run.
proof fn lemma_counted_unique(a: Seq<u8>, b: Seq<u8>, data: Seq<u8>)
    requires
        counted(a).is_prefix_of(data),
        counted(b).is_prefix_of(data),
        data.len() <= u64::MAX,
    ensures
        a == b,
{
    let la = le_bytes(a.len(), 8);
    let lb = le_bytes(b.len(), 8);
    lemma_le_len(a.len(), 8);
    lemma_le_len(b.len(), 8);
    lemma_prefix_split(la, a, data);
    lemma_prefix_split(lb, b, data);
    lemma_prefix_same(la, lb, data);
    lemma_fits_u64(a.len() as u64);
    lemma_fits_u64(b.len() as u64);
    lemma_le_injective(a.len(), b.len(), 8);
    lemma_prefix_same(a, b, data.skip(8));
}

/// Bytes start with at most one number of a given width.
proof fn lemma_number_unique(a: nat, b: nat, width: nat, data: Seq<u8>)
    requires
        fits(a, width),
        fits(b, width),
        le_bytes(a, width).is_prefix_of(data),
        le_bytes(b, width).is_prefix_of(data),
    ensures
        a == b,
{
    lemma_le_len(a, width);
    lemma_le_len(b, width);
    lemma_prefix_same(le_bytes(a, width), le_bytes(b, width), data);
    lemma_le_injective(a, b, width);
}

proof fn lemma_head_len(id: u128, index: u32)
    ensures
        head_bytes(id, index).len() == HEAD_LEN,
{
    lemma_le_len(id as nat, 16);
    lemma_le_len(16, 8);
    lemma_le_len(index as nat, 4);
}

/// Whatever is read as a message starts with the length of its identifier.
pub(crate) proof fn lemma_first_byte(data: Seq<u8>)
    requires
        decoded(data) is Ok,
    ensures
        data.len() > 0,
        data[0] == 16,
{
    let (id, index) = head_at(data)->Some_0;
    let head = head_bytes(id, index);
    lemma_head_len(id, index);
    lemma_le_len(id as nat, 16);
    assert(le_bytes(16, 8)[0] == 16);
    assert(head[0] == 16);
    assert(head[0] == data.subrange(0, head.len() as int)[0]);
}

proof fn lemma_name_len(name: Seq<char>)
    ensures
        name_bytes(name).len() == 8 + encode_utf8(name).len(),
{
    lemma_le_len(encode_utf8(name).len(), 8);
}

proof fn lemma_body_len(payload: Seq<u8>, timestamp: u64, priority: u32)
    ensures
        body_bytes(payload, timestamp, priority).len() == payload.len() + 20,
{
    lemma_le_len(payload.len(), 8);
    lemma_le_len(timestamp as nat, 8);
    lemma_le_len(priority as nat, 4);
}

/// Bytes start with at most one head.
proof fn lemma_head_at(id: u128, index: u32, data: Seq<u8>)
    requires
        head_bytes(id, index).is_prefix_of(data),
        data.len() <= u64::MAX,
    ensures
        head_at(data) == Some((id, index)),
{
    let (jd, jndex) = choose|jd: u128, jndex: u32|
        (#[trigger] head_bytes(jd, jndex)).is_prefix_of(data);
    let p = be_bytes(id as nat, 16);
    let q = be_bytes(jd as nat, 16);
    lemma_prefix_split(counted(p), le_bytes(index as nat, 4), data);
    lemma_prefix_split(counted(q), le_bytes(jndex as nat, 4), data);
    lemma_counted_unique(p, q, data);
    assert(p.reverse() =~= le_bytes(id as nat, 16));
    assert(q.reverse() =~= le_bytes(jd as nat, 16));
    lemma_fits_u128(id);
    lemma_fits_u128(jd);
    lemma_le_injective(id as nat, jd as nat, 16);
    lemma_fits_u32(index);
    lemma_fits_u32(jndex);
    lemma_number_unique(index as nat, jndex as nat, 4, data.skip(counted(p).len() as int));
}

/// Bytes start with at most one text.
proof fn lemma_name_at(name: Seq<char>, data: Seq<u8>)
    requires
        name_bytes(name).is_prefix_of(data),
        data.len() <= u64::MAX,
    ensures
        name_at(data) == Some(name),
{
    let other = choose|other: Seq<char>| (#[trigger] name_bytes(other)).is_prefix_of(data);
    lemma_counted_unique(encode_utf8(name), encode_utf8(other), data);
    vstd::utf8::encode_utf8_decode_utf8(name);
    vstd::utf8::encode_utf8_decode_utf8(other);
}

/// Bytes start with at most one body.
proof fn lemma_body_at(payload: Seq<u8>, timestamp: u64, priority: u32, data: Seq<u8>)
    requires
        body_bytes(payload, timestamp, priority).is_prefix_of(data),
        data.len() <= u64::MAX,
    ensures
        body_at(data) == Some((payload, timestamp, priority)),
{
    let (other, time, urgency) = choose|other: Seq<u8>, time: u64, urgency: u32|
        (#[trigger] body_bytes(other, time, urgency)).is_prefix_of(data);
    lemma_prefix_split(
        counted(payload) + le_bytes(timestamp as nat, 8),
        le_bytes(priority as nat, 4),
        data,
    );
    lemma_prefix_split(counted(other) + le_bytes(time as nat, 8), le_bytes(urgency as nat, 4), data);
    lemma_prefix_split(counted(payload), le_bytes(timestamp as nat, 8), data);
    lemma_prefix_split(counted(other), le_bytes(time as nat, 8), data);
    lemma_counted_unique(payload, other, data);
    lemma_fits_u64(timestamp);
    lemma_fits_u64(time);
    let rest = data.skip(counted(payload).len() as int);
    lemma_number_unique(timestamp as nat, time as nat, 8, rest);
    lemma_fits_u32(priority);
    lemma_fits_u32(urgency);
    lemma_number_unique(
        priority as nat,
        urgency as nat,
        4,
        data.skip((counted(payload) + le_bytes(timestamp as nat, 8)).len() as int),
    );
}

/// Bytes start with at most one tail.
proof fn lemma_tail_at(reliable: bool, compressed: bool, encrypted: bool, data: Seq<u8>)
    requires
        tail_bytes(reliable, compressed, encrypted).is_prefix_of(data),
    ensures
        tail_at(data) == Some((reliable, compressed, encrypted)),
{
    let (r, c, e) = choose|r: bool, c: bool, e: bool|
        (#[trigger] tail_bytes(r, c, e)).is_prefix_of(data);
    let p = tail_bytes(reliable, compressed, encrypted);
    let q = tail_bytes(r, c, e);
    lemma_prefix_same(p, q, data);
    assert(p[0] == q[0] && p[1] == q[1] && p[2] == q[2]);
}

/// What follows the head of a message on the wire.
spec fn after_head(m: MessageView) -> Seq<u8> {
    (match m.msg_type {
        MessageTypeView::Custom(name) => name_bytes(name),
        _ => Seq::empty(),
    }) + after_name(m)
}

/// What follows the message type on the wire.
spec fn after_name(m: MessageView) -> Seq<u8> {
    body_bytes(m.data, m.timestamp, m.priority.spec_index()) + tail_bytes(
        m.reliable,
        m.compressed,
        m.encrypted,
    )
}

proof fn lemma_wire_pieces(m: MessageView)
    ensures
        wire_bytes(m) == head_bytes(m.id, m.msg_type.index()) + after_head(m),
{
    assert(wire_bytes(m) =~= head_bytes(m.id, m.msg_type.index()) + after_head(m));
}

/// Where the remaining pieces of `m` stand, they are read back.
proof fn lemma_rest_of_wire(m: MessageView, data: Seq<u8>)
    requires
        after_name(m).is_prefix_of(data),
        data.len() <= u64::MAX,
    ensures
        decoded_rest(m.id, m.msg_type, data) == Ok::<MessageView, Seq<char>>(m),
{
    let priority = m.priority.spec_index();
    let body = body_bytes(m.data, m.timestamp, priority);
    let tail = tail_bytes(m.reliable, m.compressed, m.encrypted);
    lemma_prefix_split(body, tail, data);
    lemma_body_at(m.data, m.timestamp, priority, data);
    lemma_tail_at(m.reliable, m.compressed, m.encrypted, data.skip(body.len() as int));
}

/// What is read of the remaining pieces stands there.
proof fn lemma_rest_is_wire(id: u128, msg_type: MessageTypeView, data: Seq<u8>)
    ensures
        decoded_rest(id, msg_type, data) matches Ok(m) ==> {
            &&& m.id == id
            &&& m.msg_type == msg_type
            &&& after_name(m).is_prefix_of(data)
        },
{
    if decoded_rest(id, msg_type, data) is Ok {
        let m = decoded_rest(id, msg_type, data)->Ok_0;
        let body = body_bytes(m.data, m.timestamp, m.priority.spec_index());
        lemma_prefix_split(body, tail_bytes(m.reliable, m.compressed, m.encrypted), data);
    }
}

proof fn lemma_plain_index(t: MessageTypeView)
    requires
        !(t is Custom),
    ensures
        t.index() < CUSTOM_INDEX,
        MessageTypeView::plain(t.index()) == t,
{
}

/// Where the bytes of `m` without its head stand, they are read back.
proof fn lemma_after_head(m: MessageView, data: Seq<u8>)
    requires
        head_at(data) == Some((m.id, m.msg_type.index())),
        after_head(m).is_prefix_of(data.skip(HEAD_LEN as int)),
        HEAD_LEN <= data.len() <= u64::MAX,
    ensures
        decoded(data) == Ok::<MessageView, Seq<char>>(m),
{
    let after = data.skip(HEAD_LEN as int);
    if m.msg_type is Custom {
        let name = m.msg_type->Custom_0;
        lemma_prefix_split(name_bytes(name), after_name(m), after);
        lemma_name_at(name, after);
        lemma_rest_of_wire(m, after.skip(name_bytes(name).len() as int));
    } else {
        lemma_plain_index(m.msg_type);
        assert(after_head(m) =~= after_name(m));
        lemma_rest_of_wire(m, after);
    }
}

/// Reading gives back what writing wrote, whatever follows it: the bytes of a
/// message are read as that message.
pub proof fn law_wire_round_trip(m: MessageView, rest: Seq<u8>)
    requires
        wire_bytes(m).len() + rest.len() <= u64::MAX,
    ensures
        decoded(wire_bytes(m) + rest) == Ok::<MessageView, Seq<char>>(m),
{
    let data = wire_bytes(m) + rest;
    let index = m.msg_type.index();
    let head = head_bytes(m.id, index);
    assert(wire_bytes(m).is_prefix_of(data)) by {
        assert(data.subrange(0, wire_bytes(m).len() as int) =~= wire_bytes(m));
    }
    lemma_wire_pieces(m);
    lemma_prefix_split(head, after_head(m), data);
    lemma_head_at(m.id, index, data);
    lemma_head_len(m.id, index);
    lemma_after_head(m, data);
}

/// Only what was written is read: where bytes are read as a message, they start
/// with the bytes of that message.
pub proof fn law_read_was_written(data: Seq<u8>)
    ensures
        decoded(data) matches Ok(m) ==> wire_bytes(m).is_prefix_of(data),
{
    if decoded(data) is Ok {
        let m = decoded(data)->Ok_0;
        let (id, index) = head_at(data)->Some_0;
        let head = head_bytes(id, index);
        let after = data.skip(HEAD_LEN as int);
        lemma_head_len(id, index);
        if index == CUSTOM_INDEX {
            let name = name_at(after)->Some_0;
            let msg_type = MessageTypeView::Custom(name);
            lemma_rest_is_wire(id, msg_type, after.skip(name_bytes(name).len() as int));
            lemma_prefix_split(name_bytes(name), after_name(m), after);
        } else {
            lemma_rest_is_wire(id, MessageTypeView::plain(index), after);
            assert(after_head(m) =~= after_name(m));
        }
        assert(m.msg_type.index() == index);
        lemma_prefix_split(head, after_head(m), data);
        lemma_wire_pieces(m);
    }
}

/// Different messages differ on the wire.
pub proof fn law_wire_injective(a: MessageView, b: MessageView)
    requires
        wire_bytes(a) == wire_bytes(b),
        wire_bytes(a).len() <= u64::MAX,
    ensures
        a == b,
{
    law_wire_round_trip(a, Seq::empty());
    law_wire_round_trip(b, Seq::empty());
}

/// What is said of a position at which no variant stands.
fn variant_error_text(index: u32, count: u32) -> (s: String)
    ensures
        s@ == variant_error(index, count),
{
    let mut s = "invalid value: integer `".to_owned();
    s.append(decimal_text(index as u64).as_str());
    s.append("`, expected variant index 0 <= i < ");
    s.append(decimal_text(count as u64).as_str());
    s
}

/// Appends `more` to `bytes`, or turns a failed write into an error.
fn append_piece(bytes: &mut Vec<u8>, more: Result<Vec<u8>, String>) -> (r: Result<(), NetworkError>)
    ensures
        match more {
            Ok(piece) => r is Ok && final(bytes)@ == old(bytes)@ + piece@,
            Err(e) => r == Err::<(), NetworkError>(NetworkError::Serialization(e)) && final(bytes)@ == old(bytes)@,
        },
{
    match more {
        Ok(mut piece) => {
            bytes.append(&mut piece);
            Ok(())
        },
        Err(e) => Err(NetworkError::Serialization(e)),
    }
}

/// Writes a message in the wire format.
pub fn encode(m: &Message) -> (r: Result<Vec<u8>, NetworkError>)
    ensures
        r is Ok,
        r->Ok_0@ == wire_bytes(m@),
{
    let mut bytes: Vec<u8> = Vec::new();
    append_piece(&mut bytes, write_head(m.id, m.msg_type.index()))?;
    match &m.msg_type {
        MessageType::Custom(name) => {
            append_piece(&mut bytes, write_name(name))?;
        },
        _ => {},
    }
    append_piece(&mut bytes, write_body(&m.data, m.timestamp, m.priority.index()))?;
    append_piece(&mut bytes, write_tail(m.reliable, m.compressed, m.encrypted))?;
    assert(bytes@ =~= wire_bytes(m@));
    Ok(bytes)
}

/// Reads the remaining pieces of the message of identifier `id` and type `msg_type`.
fn decode_rest(id: u128, msg_type: MessageType, data: &[u8]) -> (r: Result<Message, NetworkError>)
    ensures
        match decoded_rest(id, msg_type@, data@) {
            Ok(m) => r matches Ok(message) && message@ == m,
            Err(e) => r matches Err(NetworkError::Serialization(text)) && text@ == e,
        },
{
    let len = data.len();
    let (payload, timestamp, priority) = match read_body(data) {
        Ok(body) => body,
        Err(e) => {
            return Err(NetworkError::Serialization(e));
        },
    };
    proof {
        lemma_body_at(contents(payload), timestamp, priority, data@);
        lemma_body_len(contents(payload), timestamp, priority);
    }
    if priority >= PRIORITIES {
        return Err(NetworkError::Serialization(variant_error_text(priority, PRIORITIES)));
    }
    let taken: usize = payload.len() + 20;
    let rest = vstd::slice::slice_subrange(data, taken, len);
    assert(rest@ =~= data@.skip(taken as int));
    let (reliable, compressed, encrypted) = match read_tail(rest) {
        Ok(tail) => tail,
        Err(e) => {
            return Err(NetworkError::Serialization(e));
        },
    };
    proof {
        lemma_tail_at(reliable, compressed, encrypted, rest@);
    }
    Ok(
        Message {
            id,
            msg_type,
            data: payload,
            timestamp,
            priority: MessagePriority::from_index(priority),
            reliable,
            compressed,
            encrypted,
        },
    )
}

/// Reads the message that the bytes start with.
pub fn decode(data: &[u8]) -> (r: Result<Message, NetworkError>)
    ensures
        match decoded(data@) {
            Ok(m) => r matches Ok(message) && message@ == m,
            Err(e) => r matches Err(NetworkError::Serialization(text)) && text@ == e,
        },
{
    let len = data.len();
    let (id, index) = match read_head(data) {
        Ok(head) => head,
        Err(e) => {
            return Err(NetworkError::Serialization(e));
        },
    };
    proof {
        lemma_head_at(id, index, data@);
        lemma_head_len(id, index);
    }
    if index >= MESSAGE_TYPES {
        return Err(NetworkError::Serialization(variant_error_text(index, MESSAGE_TYPES)));
    }
    let rest = vstd::slice::slice_subrange(data, HEAD_LEN, len);
    assert(rest@ =~= data@.skip(HEAD_LEN as int));
    if index != CUSTOM_INDEX {
        return decode_rest(id, MessageType::plain(index), rest);
    }
    let name = match read_name(rest) {
        Ok(name) => name,
        Err(e) => {
            return Err(NetworkError::Serialization(e));
        },
    };
    proof {
        lemma_name_at(name@, rest@);
        lemma_name_len(name@);
    }
    let taken: usize = 8 + name.as_str().len();
    let after = vstd::slice::slice_subrange(rest, taken, rest.len());
    assert(after@ =~= rest@.skip(taken as int));
    decode_rest(id, MessageType::Custom(name), after)
}

/// The number that bytes stand for, the least significant byte first.
pub open spec fn le_value(bytes: Seq<u8>) -> nat
    decreases bytes.len(),
{
    if bytes.len() == 0 {
        0
    } else {
        bytes[0] as nat + 256 * le_value(bytes.skip(1))
    }
}

/// Bytes of a number stand for it.
proof fn lemma_le_value(n: nat, width: nat)
    requires
        fits(n, width),
    ensures
        le_value(le_bytes(n, width)) == n,
        le_bytes(n, width).len() == width,
    decreases width,
{
    lemma_le_len(n, width);
    if width > 0 {
        lemma_le_value(n / 256, (width - 1) as nat);
        assert(le_bytes(n, width).skip(1) =~= le_bytes(n / 256, (width - 1) as nat));
    }
}

/// Where the parts of a message stand: sixteen bytes of identifier behind their number,
/// most significant byte first; the type's position in four bytes; the text of a custom
/// type behind its length in eight bytes; the data behind its length in eight bytes; the
/// timestamp in eight bytes; the priority's position in four; and a byte for each flag.
/// Numbers other than the identifier stand with the least significant byte first.
pub proof fn law_wire_layout(m: MessageView)
    requires
        wire_bytes(m).len() <= u64::MAX,
    ensures
        ({
            let w = wire_bytes(m);
            let at: int = match m.msg_type {
                MessageTypeView::Custom(name) => 36int + encode_utf8(name).len(),
                _ => 28int,
            };
            let end = at + 8 + m.data.len();
            &&& w.len() == end + 15
            &&& le_value(w.subrange(0, 8)) == 16
            &&& le_value(w.subrange(8, 24).reverse()) == m.id
            &&& le_value(w.subrange(24, 28)) == m.msg_type.index()
            &&& m.msg_type matches MessageTypeView::Custom(name) ==> {
                &&& le_value(w.subrange(28, 36)) == encode_utf8(name).len()
                &&& w.subrange(36, at) == encode_utf8(name)
            }
            &&& le_value(w.subrange(at, at + 8)) == m.data.len()
            &&& w.subrange(at + 8, end) == m.data
            &&& le_value(w.subrange(end, end + 8)) == m.timestamp
            &&& le_value(w.subrange(end + 8, end + 12)) == m.priority.spec_index()
            &&& w[end + 12] == (if m.reliable {
                1u8
            } else {
                0u8
            })
            &&& w[end + 13] == (if m.compressed {
                1u8
            } else {
                0u8
            })
            &&& w[end + 14] == (if m.encrypted {
                1u8
            } else {
                0u8
            })
        }),
{
    let w = wire_bytes(m);
    let index = m.msg_type.index();
    let priority = m.priority.spec_index();
    let head = head_bytes(m.id, index);
    let name: Seq<u8> = match m.msg_type {
        MessageTypeView::Custom(name) => name_bytes(name),
        _ => Seq::empty(),
    };
    let body = body_bytes(m.data, m.timestamp, priority);
    let tail = tail_bytes(m.reliable, m.compressed, m.encrypted);
    let at = 28int + name.len();
    let end = at + 8 + m.data.len();
    lemma_head_len(m.id, index);
    lemma_body_len(m.data, m.timestamp, priority);
    if m.msg_type is Custom {
        lemma_name_len(m.msg_type->Custom_0);
    }
    assert(w == head + name + body + tail);
    lemma_fits_u64(16);
    lemma_le_value(16, 8);
    lemma_fits_u128(m.id);
    lemma_le_value(m.id as nat, 16);
    lemma_fits_u32(index);
    lemma_le_value(index as nat, 4);
    assert(w.subrange(0, 8) =~= le_bytes(16, 8));
    assert(w.subrange(8, 24).reverse() =~= le_bytes(m.id as nat, 16));
    assert(w.subrange(24, 28) =~= le_bytes(index as nat, 4));
    if m.msg_type is Custom {
        let text = encode_utf8(m.msg_type->Custom_0);
        lemma_fits_u64(text.len() as u64);
        lemma_le_value(text.len(), 8);
        assert(w.subrange(28, 36) =~= le_bytes(text.len(), 8));
        assert(w.subrange(36, at) =~= text);
    }
    lemma_fits_u64(m.data.len() as u64);
    lemma_le_value(m.data.len(), 8);
    lemma_fits_u64(m.timestamp);
    lemma_le_value(m.timestamp as nat, 8);
    lemma_fits_u32(priority);
    lemma_le_value(priority as nat, 4);
    assert(w.subrange(at, at + 8) =~= le_bytes(m.data.len(), 8));
    assert(w.subrange(at + 8, end) =~= m.data);
    assert(w.subrange(end, end + 8) =~= le_bytes(m.timestamp as nat, 8));
    assert(w.subrange(end + 8, end + 12) =~= le_bytes(priority as nat, 4));
    assert(w[end + 12] == tail[0]);
    assert(w[end + 13] == tail[1]);
    assert(w[end + 14] == tail[2]);
}

/// An unknown message type is named: where bytes start with an identifier and a position
/// at which no type stands, the error gives that position and how many types there are.
pub proof fn law_unknown_type_is_named(data: Seq<u8>, id: u128, index: u32)
    requires
        head_bytes(id, index).is_prefix_of(data),
        data.len() <= u64::MAX,
        index >= 13,
    ensures
        decoded(data) == Err::<MessageView, Seq<char>>(
            "invalid value: integer `"@ + decimal(index as nat)
                + "`, expected variant index 0 <= i < "@ + decimal(13),
        ),
{
    lemma_head_at(id, index, data);
}

/// Bytes are read as a message exactly where they start with its bytes.
pub proof fn law_read_exactly_what_was_written(data: Seq<u8>, m: MessageView)
    requires
        data.len() <= u64::MAX,
    ensures
        decoded(data) == Ok::<MessageView, Seq<char>>(m) <==> wire_bytes(m).is_prefix_of(data),
{
    if wire_bytes(m).is_prefix_of(data) {
        let rest = data.skip(wire_bytes(m).len() as int);
        assert(wire_bytes(m) + rest =~= data) by {
            assert(forall|i: int|
                0 <= i < wire_bytes(m).len() ==> wire_bytes(m)[i] == data.subrange(
                    0,
                    wire_bytes(m).len() as int,
                )[i]);
        }
        law_wire_round_trip(m, rest);
    }
    if decoded(data) == Ok::<MessageView, Seq<char>>(m) {
        law_read_was_written(data);
    }
}

/// An unknown priority is named: where the parts up to the priority stand there and its
/// position is none of a priority, the error gives that position and how many
/// priorities there are.
pub proof fn law_unknown_priority_is_named(
    data: Seq<u8>,
    id: u128,
    index: u32,
    payload: Seq<u8>,
    timestamp: u64,
    priority: u32,
)
    requires
        (head_bytes(id, index) + body_bytes(payload, timestamp, priority)).is_prefix_of(data),
        data.len() <= u64::MAX,
        index < 12,
        priority >= 4,
    ensures
        decoded(data) == Err::<MessageView, Seq<char>>(
            "invalid value: integer `"@ + decimal(priority as nat)
                + "`, expected variant index 0 <= i < "@ + decimal(4),
        ),
{
    let head = head_bytes(id, index);
    lemma_prefix_split(head, body_bytes(payload, timestamp, priority), data);
    lemma_head_len(id, index);
    lemma_head_at(id, index, data);
    lemma_body_at(payload, timestamp, priority, data.skip(HEAD_LEN as int));
}

/// A byte that is no flag is named: where the parts up to the flags stand there, the
/// first byte behind them that is neither 0 nor 1 is the one that the error gives.
pub proof fn law_bad_flag_is_named(
    data: Seq<u8>,
    id: u128,
    index: u32,
    payload: Seq<u8>,
    timestamp: u64,
    priority: u32,
    flags: Seq<u8>,
    place: int,
)
    requires
        data == head_bytes(id, index) + body_bytes(payload, timestamp, priority) + flags,
        data.len() <= u64::MAX,
        index < 12,
        priority < 4,
        0 <= place < 3,
        place < flags.len(),
        flags[place] > 1,
        forall|i: int| 0 <= i < place ==> #[trigger] flags[i] <= 1,
    ensures
        decoded(data) == Err::<MessageView, Seq<char>>(
            "invalid u8 while decoding bool, expected 0 or 1, found "@ + decimal(
                flags[place] as nat,
            ),
        ),
{
    let head = head_bytes(id, index);
    let body = body_bytes(payload, timestamp, priority);
    assert((head + body).is_prefix_of(data)) by {
        assert(data.subrange(0, (head + body).len() as int) =~= head + body);
    }
    lemma_prefix_split(head, body, data);
    lemma_head_len(id, index);
    lemma_head_at(id, index, data);
    lemma_body_at(payload, timestamp, priority, data.skip(HEAD_LEN as int));
    let rest = data.skip(HEAD_LEN as int).skip(body.len() as int);
    assert(rest =~= flags);
    assert forall|r: bool, c: bool, e: bool| !(#[trigger] tail_bytes(r, c, e)).is_prefix_of(
        rest,
    ) by {
        let tail = tail_bytes(r, c, e);
        if tail.is_prefix_of(rest) {
            assert(tail[place] == rest.subrange(0, 3)[place]);
        }
    }
    if place > 0 {
        assert(flags[0] <= 1);
    }
    if place > 1 {
        assert(flags[1] <= 1);
    }
}

} // verus!
