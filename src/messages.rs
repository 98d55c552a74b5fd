//! Frames exchanged with clients.
use vstd::prelude::*;

verus! {

/// The public projection of an authenticated user, as peers see it.
#[derive(Debug)]
pub struct Participant {
    pub user_id: u32,
    pub username: String,
}

impl Participant {
    /// A copy with the same fields.
    pub fn duplicate(&self) -> (r: Participant)
        ensures
            r == *self,
    {
        Participant { user_id: self.user_id, username: self.username.clone() }
    }
}

impl Clone for Participant {
    fn clone(&self) -> (r: Self)
        ensures
            r == *self,
    {
        self.duplicate()
    }
}

/// Frames that a client sends to the server.
#[allow(inconsistent_fields)]
#[derive(Debug)]
pub enum ClientMessage {
    Auth { token: String },
    JoinRoom { room_name: String, password: Option<String> },
    LeaveRoom { room_name: String },
    Offer { room_name: String, sdp: String, target_user_id: Option<u32> },
    Answer { room_name: String, sdp: String, target_user_id: u32 },
    IceCandidate {
        room_name: String,
        candidate: String,
        sdp_mid: Option<String>,
        sdp_mline_index: Option<u32>,
        target_user_id: Option<u32>,
    },
}

/// Frames that the server sends to a client.
#[allow(inconsistent_fields)]
#[derive(Debug)]
pub enum ServerMessage {
    RoomJoined { room_name: String, user_id: u32, participants: Vec<Participant> },
    RoomLeft { room_name: String, user_id: u32 },
    UserJoined { room_name: String, user: Participant },
    UserLeft { room_name: String, user_id: u32 },
    Offer { room_name: String, from_user_id: u32, sdp: String },
    Answer { room_name: String, from_user_id: u32, sdp: String },
    IceCandidate {
        room_name: String,
        from_user_id: u32,
        candidate: String,
        sdp_mid: Option<String>,
        sdp_mline_index: Option<u32>,
    },
    Error { message: String, code: Option<u32> },
    Authenticated { user_id: u32, username: String },
}

impl ServerMessage {
    /// An `error` frame without a code.
    pub fn error(message: &str) -> (r: ServerMessage)
        ensures
            r matches ServerMessage::Error { message: m, code: None } && m@ == message@,
    {
        ServerMessage::Error { message: message.to_string(), code: None }
    }

    /// An `error` frame that carries a numeric code.
    pub fn error_with_code(message: &str, code: u32) -> (r: ServerMessage)
        ensures
            r matches ServerMessage::Error { message: m, code: Some(c) } && m@ == message@ && c
                == code,
    {
        ServerMessage::Error { message: message.to_string(), code: Some(code) }
    }
}

} // verus!
