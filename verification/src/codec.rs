//! Making messages, and turning them into bytes and back.

use bytes::Bytes;
use vstd::prelude::*;
use vstd::slice::slice_to_vec;

use crate::error::NetworkError;
use crate::gzip::{gunzip, gunzipped, gzip, gzipped};
use crate::ids::{is_drawn, is_random_id, new_connection_id};
use crate::message::{Message, MessagePriority, MessageType, MessageTypeView, MessageView};
use crate::payload::contents;
use crate::time::{is_system_reading, timestamp_of, unix_millis};
use crate::wire::{decode, decoded, encode, law_wire_round_trip, lemma_first_byte, wire_bytes};

verus! {

/// A reliable message of normal priority, neither compressed nor encrypted.
pub open spec fn fresh(
    id: u128,
    timestamp: u64,
    msg_type: MessageTypeView,
    data: Seq<u8>,
) -> MessageView {
    MessageView {
        id,
        msg_type,
        data,
        timestamp,
        priority: MessagePriority::Normal,
        reliable: true,
        compressed: false,
        encrypted: false,
    }
}

/// The first byte of every gzip stream. A message in the wire format starts with
/// the length of its identifier, which is another byte.
pub const GZIP_MAGIC: u8 = 0x1f;

/// The bytes start as a gzip stream does.
pub open spec fn is_gzip(data: Seq<u8>) -> bool {
    data.len() > 0 && data[0] == GZIP_MAGIC
}

/// What packing makes of bytes: a gzip stream where compression is available,
/// else the bytes themselves.
pub open spec fn pack(data: Seq<u8>, compression: bool) -> Seq<u8> {
    if compression {
        gzipped(data)
    } else {
        data
    }
}

/// What unpacking makes of bytes: what the gzip stream holds where compression is
/// available, else the bytes themselves.
pub open spec fn unpack(data: Seq<u8>, compression: bool) -> Result<Seq<u8>, Seq<char>> {
    if compression {
        gunzipped(data)
    } else {
        Ok(data)
    }
}

/// The bytes that carry a message: its wire format, as a gzip stream where the
/// message asks for compression and compression is available.
pub open spec fn packed(m: MessageView, compression: bool) -> Seq<u8> {
    pack(wire_bytes(m), compression && m.compressed)
}

/// The bytes carry the message: writing it gave them, and where they are a gzip
/// stream, it is one that unpacks to the message's wire format.
pub open spec fn carries(bytes: Seq<u8>, m: MessageView, compression: bool) -> bool {
    &&& bytes == packed(m, compression)
    &&& compression && m.compressed ==> is_gzip(bytes) && gunzipped(bytes) == Ok::<
        Seq<u8>,
        Seq<char>,
    >(wire_bytes(m))
}

/// `r` holds bytes that carry the message.
pub open spec fn sends(r: Result<Vec<u8>, NetworkError>, m: MessageView, compression: bool) -> bool {
    r matches Ok(bytes) && carries(bytes@, m, compression)
}

/// Why bytes were not read as a message.
pub enum ReadFailure {
    /// They are not in the wire format.
    Format(Seq<char>),
    /// They could not be unpacked.
    Unpack(Seq<char>),
}

/// The message read from bytes that are already unpacked.
pub open spec fn read_plain(data: Seq<u8>) -> Result<MessageView, ReadFailure> {
    match decoded(data) {
        Ok(m) => Ok(m),
        Err(e) => Err(ReadFailure::Format(e)),
    }
}

/// The message read from the outcome of unpacking.
pub open spec fn read_unpacked(unpacked: Result<Seq<u8>, Seq<char>>) -> Result<
    MessageView,
    ReadFailure,
> {
    match unpacked {
        Ok(data) => read_plain(data),
        Err(e) => Err(ReadFailure::Unpack(e)),
    }
}

/// The message read from bytes that are not in the wire format, from the outcome
/// of unpacking them: what they hold, where that is a message marked for
/// compression. Everything else fails for the bytes' lack of format.
pub open spec fn read_packed(
    unpacked: Result<Seq<u8>, Seq<char>>,
    failure: ReadFailure,
) -> Result<MessageView, ReadFailure> {
    match read_unpacked(unpacked) {
        Ok(m) => if m.compressed {
            Ok(m)
        } else {
            Err(failure)
        },
        Err(_) => Err(failure),
    }
}

/// The message read from bytes. Where compression is available, what is marked for
/// compression has to be packed: such a message is read from a stream that unpacks
/// to it, and is refused where it stands there unpacked.
pub open spec fn opened(data: Seq<u8>, compression: bool) -> Result<MessageView, ReadFailure> {
    match read_plain(data) {
        Ok(m) => if compression && m.compressed {
            read_unpacked(gunzipped(data))
        } else {
            Ok(m)
        },
        Err(failure) => if compression {
            read_packed(gunzipped(data), failure)
        } else {
            Err(failure)
        },
    }
}

/// `r` is the executable form of `outcome`.
pub open spec fn reads_as(
    r: Result<Message, NetworkError>,
    outcome: Result<MessageView, ReadFailure>,
) -> bool {
    match outcome {
        Ok(m) => r matches Ok(message) && message@ == m,
        Err(ReadFailure::Format(e)) => r matches Err(NetworkError::Serialization(text)) && text@
            == e,
        Err(ReadFailure::Unpack(e)) => r matches Err(NetworkError::Io(text)) && text@ == e,
    }
}

/// Reading gives back what writing wrote: the bytes of a message are read as that
/// message, compressed or not, in a build with or without compression.
pub proof fn law_codec_round_trip(m: MessageView, compression: bool, bytes: Seq<u8>)
    requires
        carries(bytes, m, compression),
        wire_bytes(m).len() <= u64::MAX,
    ensures
        opened(bytes, compression) == Ok::<MessageView, ReadFailure>(m),
{
    law_wire_round_trip(m, Seq::empty());
    assert(wire_bytes(m) + Seq::empty() =~= wire_bytes(m));
    if decoded(bytes) is Ok {
        lemma_first_byte(bytes);
    }
}

impl Clone for Message {
    fn clone(&self) -> (m: Message)
        ensures
            m@ == self@,
    {
        Message {
            id: self.id,
            msg_type: self.msg_type.clone(),
            data: self.data.clone(),
            timestamp: self.timestamp,
            priority: self.priority,
            reliable: self.reliable,
            compressed: self.compressed,
            encrypted: self.encrypted,
        }
    }
}

impl Message {
    /// A reliable message of normal priority with the given identifier and
    /// timestamp, neither compressed nor encrypted.
    pub fn stamped(id: u128, timestamp: u64, msg_type: MessageType, data: Bytes) -> (m: Message)
        ensures
            m@ == fresh(id, timestamp, msg_type@, contents(data)),
    {
        Message {
            id,
            msg_type,
            data,
            timestamp,
            priority: MessagePriority::Normal,
            reliable: true,
            compressed: false,
            encrypted: false,
        }
    }

    /// A message with a random identifier and the time of day, in milliseconds
    /// since the Unix epoch.
    pub fn new(msg_type: MessageType, data: Bytes) -> (m: Message)
        ensures
            is_drawn(m.id),
            is_random_id(m.id),
            exists|reading: Option<u128>| #[trigger]
                is_system_reading(reading) && m.timestamp == timestamp_of(reading),
            m@ == fresh(m.id, m.timestamp, msg_type@, contents(data)),
    {
        Message::stamped(new_connection_id(), unix_millis(), msg_type, data)
    }

    /// The message with another priority.
    pub fn with_priority(self, priority: MessagePriority) -> (m: Message)
        ensures
            m@ == (MessageView { priority, ..self@ }),
    {
        Message { priority, ..self }
    }

    /// The message marked as one that may be lost.
    pub fn unreliable(self) -> (m: Message)
        ensures
            m@ == (MessageView { reliable: false, ..self@ }),
    {
        Message { reliable: false, ..self }
    }

    /// The message marked for compression.
    pub fn compressed(self) -> (m: Message)
        ensures
            m@ == (MessageView { compressed: true, ..self@ }),
    {
        Message { compressed: true, ..self }
    }

    /// The message marked for encryption.
    pub fn encrypted(self) -> (m: Message)
        ensures
            m@ == (MessageView { encrypted: true, ..self@ }),
    {
        Message { encrypted: true, ..self }
    }

    /// The gzip stream of `data` where compression is available, else a copy.
    /// Whatever comes out unpacks to the data.
    pub fn compress(data: &[u8], compression: bool) -> (r: Result<Vec<u8>, NetworkError>)
        ensures
            r is Ok,
            r->Ok_0@ == pack(data@, compression),
            unpack(r->Ok_0@, compression) == Ok::<Seq<u8>, Seq<char>>(data@),
            compression ==> is_gzip(r->Ok_0@),
    {
        if compression {
            match gzip(data) {
                Ok(stream) => Ok(stream),
                Err(e) => Err(NetworkError::Io(e)),
            }
        } else {
            Ok(slice_to_vec(data))
        }
    }

    /// What the gzip stream `data` unpacks to where compression is available, else a copy.
    pub fn decompress(data: &[u8], compression: bool) -> (r: Result<Vec<u8>, NetworkError>)
        ensures
            match unpack(data@, compression) {
                Ok(bytes) => r matches Ok(v) && v@ == bytes,
                Err(e) => r matches Err(NetworkError::Io(text)) && text@ == e,
            },
    {
        if compression {
            match gunzip(data) {
                Ok(bytes) => Ok(bytes),
                Err(e) => Err(NetworkError::Io(e)),
            }
        } else {
            Ok(slice_to_vec(data))
        }
    }

    /// The hook through which encrypted messages leave: the bytes as they are.
    fn encrypt(data: &[u8]) -> (r: Result<Vec<u8>, NetworkError>)
        ensures
            r matches Ok(bytes) && bytes@ == data@,
    {
        Ok(slice_to_vec(data))
    }

    /// The hook through which encrypted messages come in: the bytes as they are.
    fn decrypt(data: &[u8]) -> (r: Result<Vec<u8>, NetworkError>)
        ensures
            r matches Ok(bytes) && bytes@ == data@,
    {
        Ok(slice_to_vec(data))
    }

    /// The bytes that carry the message, in a build with or without compression.
    ///
    /// A message that is marked for compression leaves as a gzip stream where
    /// compression is available. Either way the bytes are read as the message.
    pub fn serialize_with(&self, compression: bool) -> (r: Result<Vec<u8>, NetworkError>)
        ensures
            sends(r, self@, compression),
            opened(r->Ok_0@, compression) == Ok::<MessageView, ReadFailure>(self@),
    {
        let mut data = encode(self)?;
        assert(wire_bytes(self@).len() == data.len());
        if self.compressed {
            data = Message::compress(data.as_slice(), compression)?;
        }
        if self.encrypted {
            data = Message::encrypt(data.as_slice())?;
        }
        proof {
            law_codec_round_trip(self@, compression, data@);
        }
        Ok(data)
    }

    /// The bytes that carry the message, in a build without compression.
    pub fn serialize(&self) -> (r: Result<Vec<u8>, NetworkError>)
        ensures
            r is Ok,
            r->Ok_0@ == wire_bytes(self@),
    {
        self.serialize_with(false)
    }

    /// The message read from the outcome of unpacking its bytes.
    pub fn deserialize_unpacked(unpacked: Result<Vec<u8>, NetworkError>) -> (r: Result<
        Message,
        NetworkError,
    >)
        ensures
            match unpacked {
                Ok(data) => reads_as(r, read_plain(data@)),
                Err(e) => r == Err::<Message, NetworkError>(e),
            },
    {
        match unpacked {
            Ok(data) => decode(data.as_slice()),
            Err(e) => Err(e),
        }
    }

    /// The message read from bytes that are not in the wire format, from the
    /// outcome of unpacking them. `failure` says what is wrong with the bytes, and is
    /// the outcome where they do not hold a message that is marked for compression.
    pub fn deserialize_packed(
        unpacked: Result<Vec<u8>, NetworkError>,
        failure: NetworkError,
    ) -> (r: Result<Message, NetworkError>)
        ensures
            match unpacked {
                Ok(data) => match read_plain(data@) {
                    Ok(m) => if m.compressed {
                        r matches Ok(message) && message@ == m
                    } else {
                        r == Err::<Message, NetworkError>(failure)
                    },
                    Err(_) => r == Err::<Message, NetworkError>(failure),
                },
                Err(_) => r == Err::<Message, NetworkError>(failure),
            },
    {
        match Message::deserialize_unpacked(unpacked) {
            Ok(message) => if message.compressed {
                Ok(message)
            } else {
                Err(failure)
            },
            Err(_) => Err(failure),
        }
    }

    /// Reads a message, in a build with or without compression.
    pub fn deserialize_with(data: &[u8], compression: bool) -> (r: Result<Message, NetworkError>)
        ensures
            reads_as(r, opened(data@, compression)),
    {
        let message = match decode(data) {
            Ok(message) => message,
            Err(failure) => {
                return if compression {
                    Message::deserialize_packed(Message::decompress(data, compression), failure)
                } else {
                    Err(failure)
                };
            },
        };
        let mut bytes = slice_to_vec(data);
        if message.encrypted {
            bytes = Message::decrypt(bytes.as_slice())?;
        }
        if message.compressed {
            return Message::deserialize_unpacked(
                Message::decompress(bytes.as_slice(), compression),
            );
        }
        decode(bytes.as_slice())
    }

    /// Reads a message, in a build without compression: the message that the
    /// bytes start with.
    pub fn deserialize(data: &[u8]) -> (r: Result<Message, NetworkError>)
        ensures
            reads_as(r, read_plain(data@)),
    {
        Message::deserialize_with(data, false)
    }
}

/// A new message is plain: it has the identifier, time, type and data that were given,
/// normal priority, is reliable, and asks for neither compression nor encryption.
pub proof fn law_new_message_is_plain(
    id: u128,
    timestamp: u64,
    msg_type: MessageTypeView,
    data: Seq<u8>,
)
    ensures
        fresh(id, timestamp, msg_type, data).id == id,
        fresh(id, timestamp, msg_type, data).timestamp == timestamp,
        fresh(id, timestamp, msg_type, data).msg_type == msg_type,
        fresh(id, timestamp, msg_type, data).data == data,
        fresh(id, timestamp, msg_type, data).priority == MessagePriority::Normal,
        fresh(id, timestamp, msg_type, data).reliable,
        !fresh(id, timestamp, msg_type, data).compressed,
        !fresh(id, timestamp, msg_type, data).encrypted,
{
}

/// What is sent: the message's wire format as it is, unless compression is available and
/// asked for; then the gzip stream of it. A refused sending is none of these.
pub proof fn law_what_is_sent(
    r: Result<Vec<u8>, NetworkError>,
    m: MessageView,
    compression: bool,
)
    requires
        sends(r, m, compression),
    ensures
        r is Ok,
        !compression || !m.compressed ==> r->Ok_0@ == wire_bytes(m),
        compression && m.compressed ==> {
            &&& r->Ok_0@ == gzipped(wire_bytes(m))
            &&& gunzipped(r->Ok_0@) == Ok::<Seq<u8>, Seq<char>>(wire_bytes(m))
        },
{
}

/// What packing and unpacking do without compression is nothing, and with it what gzip does.
pub proof fn law_packing_is_gzip(data: Seq<u8>)
    ensures
        pack(data, false) == data,
        pack(data, true) == gzipped(data),
        unpack(data, false) == Ok::<Seq<u8>, Seq<char>>(data),
        unpack(data, true) == gunzipped(data),
{
}

/// How bytes are read: as what they spell out, where nothing was to be unpacked. Where
/// compression is available, a message that is marked for it is read from what the
/// bytes unpack to. Everything else is refused: what can be unpacked no further for that
/// reason, what is no message for its lack of format.
pub proof fn law_how_bytes_are_read(data: Seq<u8>, compression: bool)
    ensures
        decoded(data) matches Ok(m) ==> (!compression || !m.compressed ==> opened(
            data,
            compression,
        ) == Ok::<MessageView, ReadFailure>(m)),
        decoded(data) matches Ok(m) ==> (compression && m.compressed ==> match gunzipped(data) {
            Ok(inner) => match decoded(inner) {
                Ok(n) => opened(data, compression) == Ok::<MessageView, ReadFailure>(n),
                Err(e) => opened(data, compression) == Err::<MessageView, ReadFailure>(
                    ReadFailure::Format(e),
                ),
            },
            Err(e) => opened(data, compression) == Err::<MessageView, ReadFailure>(
                ReadFailure::Unpack(e),
            ),
        }),
        decoded(data) matches Err(e) ==> {
            let holds_marked = compression && match gunzipped(data) {
                Ok(inner) => match decoded(inner) {
                    Ok(n) => n.compressed,
                    Err(_) => false,
                },
                Err(_) => false,
            };
            &&& holds_marked ==> opened(data, compression) == Ok::<MessageView, ReadFailure>(
                decoded(gunzipped(data)->Ok_0)->Ok_0,
            )
            &&& !holds_marked ==> opened(data, compression) == Err::<MessageView, ReadFailure>(
                ReadFailure::Format(e),
            )
        },
{
}

/// How an outcome is told: a message as itself, a lack of format as a serialization
/// error and a failed unpacking as an I/O error, each in its own words.
pub proof fn law_outcomes_are_told_apart(
    r: Result<Message, NetworkError>,
    outcome: Result<MessageView, ReadFailure>,
)
    requires
        reads_as(r, outcome),
    ensures
        outcome matches Ok(m) ==> r matches Ok(message) && message@ == m,
        outcome matches Err(ReadFailure::Format(e)) ==> r matches Err(
            NetworkError::Serialization(text),
        ) && text@ == e,
        outcome matches Err(ReadFailure::Unpack(e)) ==> r matches Err(NetworkError::Io(text))
            && text@ == e,
{
}

} // verus!
