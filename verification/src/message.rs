//! Messages: what travels between a host and its travelers.

use bytes::Bytes;
use vstd::prelude::*;

use crate::payload::contents;

verus! {

/// What a message is for.
#[derive(Debug)]
pub enum MessageType {
    Data,
    Heartbeat,
    Connect,
    Disconnect,
    JoinRoom,
    LeaveRoom,
    CreateRoom,
    DestroyRoom,
    Authentication,
    HostMigration,
    Ping,
    Pong,
    Custom(String),
}

/// A [`MessageType`] with its text as a sequence of characters.
pub enum MessageTypeView {
    Data,
    Heartbeat,
    Connect,
    Disconnect,
    JoinRoom,
    LeaveRoom,
    CreateRoom,
    DestroyRoom,
    Authentication,
    HostMigration,
    Ping,
    Pong,
    Custom(Seq<char>),
}

/// How many message types there are.
pub const MESSAGE_TYPES: u32 = 13;

/// The position of `Custom` among the message types.
pub const CUSTOM_INDEX: u32 = 12;

impl View for MessageType {
    type V = MessageTypeView;

    open spec fn view(&self) -> MessageTypeView {
        match self {
            MessageType::Data => MessageTypeView::Data,
            MessageType::Heartbeat => MessageTypeView::Heartbeat,
            MessageType::Connect => MessageTypeView::Connect,
            MessageType::Disconnect => MessageTypeView::Disconnect,
            MessageType::JoinRoom => MessageTypeView::JoinRoom,
            MessageType::LeaveRoom => MessageTypeView::LeaveRoom,
            MessageType::CreateRoom => MessageTypeView::CreateRoom,
            MessageType::DestroyRoom => MessageTypeView::DestroyRoom,
            MessageType::Authentication => MessageTypeView::Authentication,
            MessageType::HostMigration => MessageTypeView::HostMigration,
            MessageType::Ping => MessageTypeView::Ping,
            MessageType::Pong => MessageTypeView::Pong,
            MessageType::Custom(name) => MessageTypeView::Custom(name@),
        }
    }
}

impl Clone for MessageType {
    fn clone(&self) -> (t: MessageType)
        ensures
            t == *self,
    {
        match self {
            MessageType::Data => MessageType::Data,
            MessageType::Heartbeat => MessageType::Heartbeat,
            MessageType::Connect => MessageType::Connect,
            MessageType::Disconnect => MessageType::Disconnect,
            MessageType::JoinRoom => MessageType::JoinRoom,
            MessageType::LeaveRoom => MessageType::LeaveRoom,
            MessageType::CreateRoom => MessageType::CreateRoom,
            MessageType::DestroyRoom => MessageType::DestroyRoom,
            MessageType::Authentication => MessageType::Authentication,
            MessageType::HostMigration => MessageType::HostMigration,
            MessageType::Ping => MessageType::Ping,
            MessageType::Pong => MessageType::Pong,
            MessageType::Custom(name) => MessageType::Custom(name.clone()),
        }
    }
}

impl MessageTypeView {
    /// The position of the type among all message types, in the order of declaration.
    pub open spec fn index(self) -> u32 {
        match self {
            MessageTypeView::Data => 0,
            MessageTypeView::Heartbeat => 1,
            MessageTypeView::Connect => 2,
            MessageTypeView::Disconnect => 3,
            MessageTypeView::JoinRoom => 4,
            MessageTypeView::LeaveRoom => 5,
            MessageTypeView::CreateRoom => 6,
            MessageTypeView::DestroyRoom => 7,
            MessageTypeView::Authentication => 8,
            MessageTypeView::HostMigration => 9,
            MessageTypeView::Ping => 10,
            MessageTypeView::Pong => 11,
            MessageTypeView::Custom(_) => CUSTOM_INDEX,
        }
    }

    /// The type at position `index` among those that carry no text.
    pub open spec fn plain(index: u32) -> MessageTypeView {
        match index {
            0 => MessageTypeView::Data,
            1 => MessageTypeView::Heartbeat,
            2 => MessageTypeView::Connect,
            3 => MessageTypeView::Disconnect,
            4 => MessageTypeView::JoinRoom,
            5 => MessageTypeView::LeaveRoom,
            6 => MessageTypeView::CreateRoom,
            7 => MessageTypeView::DestroyRoom,
            8 => MessageTypeView::Authentication,
            9 => MessageTypeView::HostMigration,
            10 => MessageTypeView::Ping,
            _ => MessageTypeView::Pong,
        }
    }
}

impl MessageType {
    /// The position of the type among all message types, in the order of
    /// declaration. Two messages are of the same kind exactly where their
    /// positions agree; the text of a custom type does not enter.
    pub fn index(&self) -> (index: u32)
        ensures
            index == self@.index(),
            index < MESSAGE_TYPES,
    {
        match self {
            MessageType::Data => 0,
            MessageType::Heartbeat => 1,
            MessageType::Connect => 2,
            MessageType::Disconnect => 3,
            MessageType::JoinRoom => 4,
            MessageType::LeaveRoom => 5,
            MessageType::CreateRoom => 6,
            MessageType::DestroyRoom => 7,
            MessageType::Authentication => 8,
            MessageType::HostMigration => 9,
            MessageType::Ping => 10,
            MessageType::Pong => 11,
            MessageType::Custom(_) => CUSTOM_INDEX,
        }
    }

    /// The type at position `index` among those that carry no text.
    pub fn plain(index: u32) -> (t: MessageType)
        requires
            index < CUSTOM_INDEX,
        ensures
            t@ == MessageTypeView::plain(index),
            t@.index() == index,
    {
        match index {
            0 => MessageType::Data,
            1 => MessageType::Heartbeat,
            2 => MessageType::Connect,
            3 => MessageType::Disconnect,
            4 => MessageType::JoinRoom,
            5 => MessageType::LeaveRoom,
            6 => MessageType::CreateRoom,
            7 => MessageType::DestroyRoom,
            8 => MessageType::Authentication,
            9 => MessageType::HostMigration,
            10 => MessageType::Ping,
            _ => MessageType::Pong,
        }
    }
}

/// How urgent a message is.
#[derive(Debug, Clone, Copy, PartialEq, Eq, Structural)]
pub enum MessagePriority {
    Low,
    Normal,
    High,
    Critical,
}

/// How many priorities there are.
pub const PRIORITIES: u32 = 4;

impl MessagePriority {
    /// The position of the priority, in the order of declaration.
    pub open spec fn spec_index(self) -> u32 {
        match self {
            MessagePriority::Low => 0,
            MessagePriority::Normal => 1,
            MessagePriority::High => 2,
            MessagePriority::Critical => 3,
        }
    }

    /// The priority at position `index`.
    pub open spec fn spec_from_index(index: u32) -> MessagePriority {
        match index {
            0 => MessagePriority::Low,
            1 => MessagePriority::Normal,
            2 => MessagePriority::High,
            _ => MessagePriority::Critical,
        }
    }

    /// The position of the priority, in the order of declaration.
    pub fn index(&self) -> (index: u32)
        ensures
            index == self.spec_index(),
            index < PRIORITIES,
    {
        match self {
            MessagePriority::Low => 0,
            MessagePriority::Normal => 1,
            MessagePriority::High => 2,
            MessagePriority::Critical => 3,
        }
    }

    /// The priority at position `index`.
    pub fn from_index(index: u32) -> (p: MessagePriority)
        requires
            index < PRIORITIES,
        ensures
            p == Self::spec_from_index(index),
            p.spec_index() == index,
    {
        match index {
            0 => MessagePriority::Low,
            1 => MessagePriority::Normal,
            2 => MessagePriority::High,
            _ => MessagePriority::Critical,
        }
    }
}

/// A message with the flags that say how it is to be carried.
#[derive(Debug)]
pub struct Message {
    pub id: u128,
    pub msg_type: MessageType,
    pub data: Bytes,
    pub timestamp: u64,
    pub priority: MessagePriority,
    pub reliable: bool,
    pub compressed: bool,
    pub encrypted: bool,
}

/// A [`Message`] with its texts and bytes as sequences.
pub struct MessageView {
    pub id: u128,
    pub msg_type: MessageTypeView,
    pub data: Seq<u8>,
    pub timestamp: u64,
    pub priority: MessagePriority,
    pub reliable: bool,
    pub compressed: bool,
    pub encrypted: bool,
}

impl View for Message {
    type V = MessageView;

    open spec fn view(&self) -> MessageView {
        MessageView {
            id: self.id,
            msg_type: self.msg_type@,
            data: contents(self.data),
            timestamp: self.timestamp,
            priority: self.priority,
            reliable: self.reliable,
            compressed: self.compressed,
            encrypted: self.encrypted,
        }
    }
}

/// A message type stands for itself: its view is the type of the same name, with
/// the same text.
pub proof fn law_type_stands_for_itself(t: MessageType)
    ensures
        t is Data <==> t@ is Data,
        t is Heartbeat <==> t@ is Heartbeat,
        t is Connect <==> t@ is Connect,
        t is Disconnect <==> t@ is Disconnect,
        t is JoinRoom <==> t@ is JoinRoom,
        t is LeaveRoom <==> t@ is LeaveRoom,
        t is CreateRoom <==> t@ is CreateRoom,
        t is DestroyRoom <==> t@ is DestroyRoom,
        t is Authentication <==> t@ is Authentication,
        t is HostMigration <==> t@ is HostMigration,
        t is Ping <==> t@ is Ping,
        t is Pong <==> t@ is Pong,
        t is Custom <==> t@ is Custom,
        t matches MessageType::Custom(text) ==> t@ == MessageTypeView::Custom(text@),
{
}

/// Message types are numbered in the order of their declaration, from zero.
pub proof fn law_types_are_numbered_in_order(t: MessageTypeView)
    ensures
        t is Data <==> t.index() == 0,
        t is Heartbeat <==> t.index() == 1,
        t is Connect <==> t.index() == 2,
        t is Disconnect <==> t.index() == 3,
        t is JoinRoom <==> t.index() == 4,
        t is LeaveRoom <==> t.index() == 5,
        t is CreateRoom <==> t.index() == 6,
        t is DestroyRoom <==> t.index() == 7,
        t is Authentication <==> t.index() == 8,
        t is HostMigration <==> t.index() == 9,
        t is Ping <==> t.index() == 10,
        t is Pong <==> t.index() == 11,
        t is Custom <==> t.index() == 12,
        MESSAGE_TYPES == 13,
{
}

/// A number leads back to its type, for every type that carries no text.
pub proof fn law_number_leads_to_type(t: MessageTypeView)
    requires
        !(t is Custom),
    ensures
        MessageTypeView::plain(t.index()) == t,
{
}

/// Priorities are numbered by urgency, from zero, and a number leads back to its priority.
pub proof fn law_priorities_are_numbered_in_order(p: MessagePriority)
    ensures
        p is Low <==> p.spec_index() == 0,
        p is Normal <==> p.spec_index() == 1,
        p is High <==> p.spec_index() == 2,
        p is Critical <==> p.spec_index() == 3,
        MessagePriority::spec_from_index(p.spec_index()) == p,
        PRIORITIES == 4,
{
}

/// What is said of a message's view holds of its fields.
pub proof fn law_view_is_the_message(m: Message)
    ensures
        m@.id == m.id,
        m@.msg_type == m.msg_type@,
        m@.data == contents(m.data),
        m@.timestamp == m.timestamp,
        m@.priority == m.priority,
        m@.reliable == m.reliable,
        m@.compressed == m.compressed,
        m@.encrypted == m.encrypted,
{
}

} // verus!
