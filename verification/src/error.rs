//! What can go wrong on the network.

use vstd::prelude::*;

verus! {

#[derive(Debug, Clone)]
pub enum NetworkError {
    ConnectionFailed(String),
    Serialization(String),
    Io(String),
    Timeout,
    Disconnected,
    RoomFull,
    RoomNotFound(String),
    AuthenticationFailed,
    RateLimitExceeded,
    MessageTooLarge,
    InvalidMessage,
    PermissionDenied,
    AddressParse(String),
}

impl NetworkError {
    /// The error in words.
    pub open spec fn text(self) -> Seq<char> {
        match self {
            NetworkError::ConnectionFailed(reason) => "Connection failed: "@ + reason@,
            NetworkError::Serialization(reason) => "Serialization error: "@ + reason@,
            NetworkError::Io(reason) => "IO error: "@ + reason@,
            NetworkError::Timeout => "Timeout"@,
            NetworkError::Disconnected => "Disconnected"@,
            NetworkError::RoomFull => "Room full"@,
            NetworkError::RoomNotFound(room) => "Room not found: "@ + room@,
            NetworkError::AuthenticationFailed => "Authentication failed"@,
            NetworkError::RateLimitExceeded => "Rate limit exceeded"@,
            NetworkError::MessageTooLarge => "Message too large"@,
            NetworkError::InvalidMessage => "Invalid message format"@,
            NetworkError::PermissionDenied => "Permission denied"@,
            NetworkError::AddressParse(reason) => "Address parse error: "@ + reason@,
        }
    }

    /// The error in words.
    pub fn message(&self) -> (s: String)
        ensures
            s@ == self.text(),
    {
        match self {
            NetworkError::ConnectionFailed(reason) => joined("Connection failed: ", reason),
            NetworkError::Serialization(reason) => joined("Serialization error: ", reason),
            NetworkError::Io(reason) => joined("IO error: ", reason),
            NetworkError::Timeout => "Timeout".to_owned(),
            NetworkError::Disconnected => "Disconnected".to_owned(),
            NetworkError::RoomFull => "Room full".to_owned(),
            NetworkError::RoomNotFound(room) => joined("Room not found: ", room),
            NetworkError::AuthenticationFailed => "Authentication failed".to_owned(),
            NetworkError::RateLimitExceeded => "Rate limit exceeded".to_owned(),
            NetworkError::MessageTooLarge => "Message too large".to_owned(),
            NetworkError::InvalidMessage => "Invalid message format".to_owned(),
            NetworkError::PermissionDenied => "Permission denied".to_owned(),
            NetworkError::AddressParse(reason) => joined("Address parse error: ", reason),
        }
    }
}

/// `prefix` followed by `detail`.
fn joined(prefix: &str, detail: &String) -> (s: String)
    ensures
        s@ == prefix@ + detail@,
{
    let mut s = prefix.to_owned();
    s.append(detail.as_str());
    s
}

/// An error says what kind it is, and behind that, where it has one, its own detail
/// word for word.
pub proof fn law_errors_say_their_kind(detail: String)
    ensures
        NetworkError::ConnectionFailed(detail).text() == "Connection failed: "@ + detail@,
        NetworkError::Serialization(detail).text() == "Serialization error: "@ + detail@,
        NetworkError::Io(detail).text() == "IO error: "@ + detail@,
        NetworkError::RoomNotFound(detail).text() == "Room not found: "@ + detail@,
        NetworkError::AddressParse(detail).text() == "Address parse error: "@ + detail@,
        NetworkError::Timeout.text() == "Timeout"@,
        NetworkError::Disconnected.text() == "Disconnected"@,
        NetworkError::RoomFull.text() == "Room full"@,
        NetworkError::AuthenticationFailed.text() == "Authentication failed"@,
        NetworkError::RateLimitExceeded.text() == "Rate limit exceeded"@,
        NetworkError::MessageTooLarge.text() == "Message too large"@,
        NetworkError::InvalidMessage.text() == "Invalid message format"@,
        NetworkError::PermissionDenied.text() == "Permission denied"@,
{
}

} // verus!
