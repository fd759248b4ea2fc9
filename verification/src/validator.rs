//! Which messages are acceptable.

use vstd::prelude::*;

use crate::error::NetworkError;
use crate::message::{Message, MessageType, MessageTypeView, MessageView};

verus! {

/// Rejects messages that are too large, and messages that should carry data and do not.
#[derive(Debug, Clone, Copy, PartialEq, Eq, Structural)]
pub struct MessageValidator {
    max_size: usize,
}

/// Messages of this type have to carry data.
pub open spec fn needs_data(t: MessageTypeView) -> bool {
    t is Data || t is Custom
}

/// What a validator that admits `max_size` bytes of data says of a message.
pub open spec fn verdict(max_size: usize, m: MessageView) -> Result<(), NetworkError> {
    if m.data.len() > max_size {
        Err(NetworkError::MessageTooLarge)
    } else if needs_data(m.msg_type) && m.data.len() == 0 {
        Err(NetworkError::InvalidMessage)
    } else {
        Ok(())
    }
}

impl MessageValidator {
    /// The most bytes of data that a message may carry.
    pub closed spec fn max_size(&self) -> usize {
        self.max_size
    }

    /// A validator that admits `max_size` bytes of data.
    pub fn new(max_size: usize) -> (v: MessageValidator)
        ensures
            v.max_size() == max_size,
    {
        MessageValidator { max_size }
    }

    /// Whether a message is acceptable, and if not, why.
    pub fn validate(&self, message: &Message) -> (r: Result<(), NetworkError>)
        ensures
            r == verdict(self.max_size(), message@),
    {
        if message.data.len() > self.max_size {
            return Err(NetworkError::MessageTooLarge);
        }
        match &message.msg_type {
            MessageType::Data | MessageType::Custom(_) => {
                if message.data.is_empty() {
                    return Err(NetworkError::InvalidMessage);
                }
            },
            _ => {},
        }
        Ok(())
    }
}

/// Size comes first: a message is refused as too large exactly where it carries more
/// bytes than admitted, whatever its type.
pub proof fn law_too_large_is_refused(max_size: usize, m: MessageView)
    ensures
        verdict(max_size, m) == Err::<(), NetworkError>(NetworkError::MessageTooLarge)
            <==> m.data.len() > max_size,
{
}

/// Only data and custom messages have to carry something: within the size, every
/// other type is accepted, empty or not.
pub proof fn law_other_types_may_be_empty(max_size: usize, m: MessageView)
    requires
        m.data.len() <= max_size,
        match m.msg_type {
            MessageTypeView::Heartbeat => true,
            MessageTypeView::Connect => true,
            MessageTypeView::Disconnect => true,
            MessageTypeView::JoinRoom => true,
            MessageTypeView::LeaveRoom => true,
            MessageTypeView::CreateRoom => true,
            MessageTypeView::DestroyRoom => true,
            MessageTypeView::Authentication => true,
            MessageTypeView::HostMigration => true,
            MessageTypeView::Ping => true,
            MessageTypeView::Pong => true,
            MessageTypeView::Data => false,
            MessageTypeView::Custom(_) => false,
        },
    ensures
        verdict(max_size, m) == Ok::<(), NetworkError>(()),
{
}

/// Data and custom messages have to carry something: within the size, they are
/// accepted exactly where they carry at least one byte, and else are invalid.
pub proof fn law_data_has_to_be_there(max_size: usize, m: MessageView)
    requires
        m.data.len() <= max_size,
        m.msg_type == MessageTypeView::Data || m.msg_type is Custom,
    ensures
        m.data.len() == 0 ==> verdict(max_size, m) == Err::<(), NetworkError>(
            NetworkError::InvalidMessage,
        ),
        m.data.len() > 0 ==> verdict(max_size, m) == Ok::<(), NetworkError>(()),
{
}

} // verus!
