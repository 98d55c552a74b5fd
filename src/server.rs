//! Decisions of the per-connection handler.
//!
//! A stream is authenticated by its first frame, then each inbound frame is
//! answered or turned into one request on the room router. The transport, the
//! token check and the router itself are driven by the caller; the functions
//! here say what to send and what to ask for.
use vstd::prelude::*;
use vstd::string::StringExecFns;

use crate::auth::AuthenticatedUser;
use crate::codec::{decode_client, ClientFrame};
use crate::messages::{ClientMessage, Participant, ServerMessage};
use crate::room::{ConnectionId, RoomParticipant};
use crate::wire::Document;

verus! {

/// The first inbound event of a stream.
#[derive(Debug)]
pub enum FirstFrame {
    /// A text frame, with its JSON document when the text is JSON.
    Text(Option<Document>),
    /// A binary or control frame other than close.
    NotText,
    /// The peer closed the stream.
    Closed,
    /// The transport failed with this reason.
    Failed(String),
    /// The stream ended before any frame.
    Missing,
}

/// The token that the first frame offers, or why it offers none.
pub open spec fn auth_token_of(first: FirstFrame) -> Result<Seq<char>, Seq<char>> {
    match first {
        FirstFrame::Text(Some(d)) => match decode_client(d@) {
            Some(ClientFrame::Auth { token }) => Ok(token),
            Some(_) => Err("Expected Auth message, got other message type"@),
            None => Err("Invalid authentication message"@),
        },
        FirstFrame::Text(None) => Err("Invalid JSON format in authentication message"@),
        FirstFrame::NotText => Err("Invalid authentication message format"@),
        FirstFrame::Closed => Err("Connection closed during authentication"@),
        FirstFrame::Failed(e) => Err("WebSocket error during authentication: "@ + e@),
        FirstFrame::Missing => Err("No authentication message received"@),
    }
}

/// The token that the first frame of a stream offers: only an `auth` frame
/// offers one; any other frame is refused with its reason.
pub fn authentication_token(first: &FirstFrame) -> (r: Result<String, String>)
    ensures
        match r {
            Ok(t) => auth_token_of(*first) == Ok::<Seq<char>, Seq<char>>(t@),
            Err(e) => auth_token_of(*first) == Err::<Seq<char>, Seq<char>>(e@),
        },
{
    match first {
        FirstFrame::Text(Some(d)) => match crate::codec::decode_client_message(d) {
            Some(ClientMessage::Auth { token }) => Ok(token),
            Some(_) => Err("Expected Auth message, got other message type".to_string()),
            None => Err("Invalid authentication message".to_string()),
        },
        FirstFrame::Text(None) => Err("Invalid JSON format in authentication message".to_string()),
        FirstFrame::NotText => Err("Invalid authentication message format".to_string()),
        FirstFrame::Closed => Err("Connection closed during authentication".to_string()),
        FirstFrame::Failed(e) => Err("WebSocket error during authentication: ".to_string().concat(e.as_str())),
        FirstFrame::Missing => Err("No authentication message received".to_string()),
    }
}

/// The single frame that ends the authentication phase, and whether the
/// stream stays open: `authenticated` on success, otherwise an `error` frame
/// followed by closing the stream.
pub fn authentication_reply(outcome: &Result<AuthenticatedUser, String>) -> (r: (ServerMessage, bool))
    ensures
        match outcome {
            Ok(u) => r.1 && r.0@ == (crate::codec::ServerFrame::Authenticated {
                user_id: u.user_id,
                username: u.username@,
            }),
            Err(e) => !r.1 && r.0@ == (crate::codec::ServerFrame::Error {
                message: "Authentication failed: "@ + e@,
                code: None,
            }),
        },
{
    match outcome {
        Ok(u) => (ServerMessage::Authenticated { user_id: u.user_id, username: u.username.clone() }, true),
        Err(e) => (
            ServerMessage::Error {
                message: "Authentication failed: ".to_string().concat(e.as_str()),
                code: None,
            },
            false,
        ),
    }
}

/// A first frame that is not an `auth` frame is refused before any token
/// check; with [`authentication_reply`] it gets exactly one `error` frame and
/// the stream closes. Only an `auth` frame offers a token, and it offers the
/// token it carries.
pub proof fn law_non_auth_first_frame_refused(first: FirstFrame)
    ensures
        auth_token_of(first) is Ok <==> (first matches FirstFrame::Text(Some(d)) && decode_client(d@) matches Some(
            ClientFrame::Auth { .. },
        )),
        first matches FirstFrame::Text(Some(d)) ==> (decode_client(d@) matches Some(ClientFrame::Auth { token })
            ==> auth_token_of(first) == Ok::<Seq<char>, Seq<char>>(token)),
{
}

/// A request that the handler makes of the room router.
#[derive(Debug)]
pub enum RoomRequest {
    Join { room_name: String, participant: RoomParticipant },
    Leave { room_name: String, user_id: u32 },
    SendTo { room_name: String, target_user_id: u32, message: ServerMessage },
    Broadcast { room_name: String, sender_id: u32, message: ServerMessage },
}

/// What the handler does with one inbound frame.
#[derive(Debug)]
pub enum Step {
    /// Send this frame back to the client; nothing else happens.
    Reply(ServerMessage),
    /// Ask the router; the answer, if any, follows from its outcome.
    Request(RoomRequest),
}

/// The room a signaling frame refers to; the sender must be in it.
pub open spec fn signal_room(m: ClientMessage) -> Option<String> {
    match m {
        ClientMessage::Offer { room_name, .. } => Some(room_name),
        ClientMessage::Answer { room_name, .. } => Some(room_name),
        ClientMessage::IceCandidate { room_name, .. } => Some(room_name),
        _ => None,
    }
}

/// The room whose membership must be checked before `handle_client_message`.
pub fn membership_room(m: &ClientMessage) -> (r: Option<String>)
    ensures
        r == signal_room(*m),
{
    match m {
        ClientMessage::Offer { room_name, .. } => Some(room_name.clone()),
        ClientMessage::Answer { room_name, .. } => Some(room_name.clone()),
        ClientMessage::IceCandidate { room_name, .. } => Some(room_name.clone()),
        _ => None,
    }
}

/// The step for one inbound frame of an authenticated stream. `frame` is the
/// decoded frame, or why it could not be decoded; `sender_in_room` says whether
/// the sender is in the room of a signaling frame.
pub fn handle_client_message(
    user: &AuthenticatedUser,
    connection_id: ConnectionId,
    frame: Result<ClientMessage, String>,
    sender_in_room: bool,
) -> (r: Step)
    ensures
        match frame {
            Err(reason) => r matches Step::Reply(m) && m@ == (crate::codec::ServerFrame::Error {
                message: "Message handling error: Invalid JSON: "@ + reason@,
                code: None,
            }),
            Ok(ClientMessage::Auth { .. }) => r matches Step::Reply(m) && m@ == (crate::codec::ServerFrame::Error {
                message: "Authentication already completed"@,
                code: None,
            }),
            Ok(ClientMessage::JoinRoom { room_name, .. }) => r == Step::Request(
                RoomRequest::Join {
                    room_name,
                    participant: RoomParticipant { user: *user, connection_id },
                },
            ),
            Ok(ClientMessage::LeaveRoom { room_name }) => r == Step::Request(
                RoomRequest::Leave { room_name, user_id: user.user_id },
            ),
            Ok(m) => if !sender_in_room {
                r matches Step::Reply(e) && e@ == (crate::codec::ServerFrame::Error {
                    message: "You are not in this room"@,
                    code: None,
                })
            } else {
                signal_request(m, user.user_id, r)
            },
        },
{
    match frame {
        Err(reason) => Step::Reply(
            ServerMessage::Error {
                message: "Message handling error: Invalid JSON: ".to_string().concat(reason.as_str()),
                code: None,
            },
        ),
        Ok(ClientMessage::Auth { .. }) => Step::Reply(ServerMessage::error("Authentication already completed")),
        Ok(ClientMessage::JoinRoom { room_name, .. }) => Step::Request(
            RoomRequest::Join {
                room_name,
                participant: RoomParticipant { user: user.duplicate(), connection_id },
            },
        ),
        Ok(ClientMessage::LeaveRoom { room_name }) => Step::Request(
            RoomRequest::Leave { room_name, user_id: user.user_id },
        ),
        Ok(ClientMessage::Offer { room_name, sdp, target_user_id }) => {
            if !sender_in_room {
                return Step::Reply(ServerMessage::error("You are not in this room"));
            }
            let message = ServerMessage::Offer { room_name: room_name.clone(), from_user_id: user.user_id, sdp };
            match target_user_id {
                Some(target_user_id) => Step::Request(RoomRequest::SendTo { room_name, target_user_id, message }),
                None => Step::Request(RoomRequest::Broadcast { room_name, sender_id: user.user_id, message }),
            }
        },
        Ok(ClientMessage::Answer { room_name, sdp, target_user_id }) => {
            if !sender_in_room {
                return Step::Reply(ServerMessage::error("You are not in this room"));
            }
            let message = ServerMessage::Answer { room_name: room_name.clone(), from_user_id: user.user_id, sdp };
            Step::Request(RoomRequest::SendTo { room_name, target_user_id, message })
        },
        Ok(ClientMessage::IceCandidate { room_name, candidate, sdp_mid, sdp_mline_index, target_user_id }) => {
            if !sender_in_room {
                return Step::Reply(ServerMessage::error("You are not in this room"));
            }
            let message = ServerMessage::IceCandidate {
                room_name: room_name.clone(),
                from_user_id: user.user_id,
                candidate,
                sdp_mid,
                sdp_mline_index,
            };
            match target_user_id {
                Some(target_user_id) => Step::Request(RoomRequest::SendTo { room_name, target_user_id, message }),
                None => Step::Request(RoomRequest::Broadcast { room_name, sender_id: user.user_id, message }),
            }
        },
    }
}

/// The router request for a signaling frame of a member: the payload, sent
/// as from `from`, to the target when one is named and to the rest of the
/// room otherwise.
pub open spec fn signal_request(m: ClientMessage, from: u32, r: Step) -> bool {
    match m {
        ClientMessage::Offer { room_name, sdp, target_user_id } => {
            let message = ServerMessage::Offer { room_name, from_user_id: from, sdp };
            match target_user_id {
                Some(t) => r == Step::Request(RoomRequest::SendTo { room_name, target_user_id: t, message }),
                None => r == Step::Request(RoomRequest::Broadcast { room_name, sender_id: from, message }),
            }
        },
        ClientMessage::Answer { room_name, sdp, target_user_id } => {
            let message = ServerMessage::Answer { room_name, from_user_id: from, sdp };
            r == Step::Request(RoomRequest::SendTo { room_name, target_user_id, message })
        },
        ClientMessage::IceCandidate { room_name, candidate, sdp_mid, sdp_mline_index, target_user_id } => {
            let message = ServerMessage::IceCandidate {
                room_name,
                from_user_id: from,
                candidate,
                sdp_mid,
                sdp_mline_index,
            };
            match target_user_id {
                Some(t) => r == Step::Request(RoomRequest::SendTo { room_name, target_user_id: t, message }),
                None => r == Step::Request(RoomRequest::Broadcast { room_name, sender_id: from, message }),
            }
        },
        _ => false,
    }
}

/// The answer to a join request: `room-joined` with the participants that
/// were there before, or an `error` frame.
pub fn join_reply(room_name: String, user_id: u32, outcome: Result<Vec<Participant>, String>) -> (r: ServerMessage)
    ensures
        match outcome {
            Ok(ps) => r == (ServerMessage::RoomJoined { room_name, user_id, participants: ps }),
            Err(e) => r@ == (crate::codec::ServerFrame::Error { message: "Failed to join room: "@ + e@, code: None }),
        },
{
    match outcome {
        Ok(participants) => ServerMessage::RoomJoined { room_name, user_id, participants },
        Err(e) => ServerMessage::Error {
            message: "Failed to join room: ".to_string().concat(e.as_str()),
            code: None,
        },
    }
}

/// The answer to a leave request: `room-left`, or an `error` frame.
pub fn leave_reply(room_name: String, user_id: u32, outcome: Result<(), String>) -> (r: ServerMessage)
    ensures
        match outcome {
            Ok(()) => r == (ServerMessage::RoomLeft { room_name, user_id }),
            Err(e) => r@ == (crate::codec::ServerFrame::Error { message: "Failed to leave room: "@ + e@, code: None }),
        },
{
    match outcome {
        Ok(()) => ServerMessage::RoomLeft { room_name, user_id },
        Err(e) => ServerMessage::Error {
            message: "Failed to leave room: ".to_string().concat(e.as_str()),
            code: None,
        },
    }
}

/// The answer owed for a routing outcome: none when the frame was routed,
/// an `error` frame when the router refused it.
pub open spec fn route_answer(outcome: Result<(), String>) -> Option<crate::codec::ServerFrame> {
    match outcome {
        Ok(()) => None,
        Err(e) => Some(
            crate::codec::ServerFrame::Error {
                message: "Message handling error: Failed to route message: "@ + e@,
                code: None,
            },
        ),
    }
}

/// The answer to a routing request: none when it was routed, an `error`
/// frame when the router refused it.
pub fn route_reply(outcome: Result<(), String>) -> (r: Option<ServerMessage>)
    ensures
        match r {
            Some(m) => route_answer(outcome) == Some(m@),
            None => route_answer(outcome) is None,
        },
{
    match outcome {
        Ok(()) => None,
        Err(e) => Some(
            ServerMessage::Error {
                message: "Message handling error: Failed to route message: ".to_string().concat(e.as_str()),
                code: None,
            },
        ),
    }
}

/// What the router made of a request.
#[derive(Debug)]
pub enum Outcome {
    Joined { room_name: String, user_id: u32, result: Result<Vec<Participant>, String> },
    Left { room_name: String, user_id: u32, result: Result<(), String> },
    Routed(Result<(), String>),
}

/// The frame owed to the client for a router outcome, if any.
pub open spec fn answer_of(o: Outcome) -> Option<crate::codec::ServerFrame> {
    match o {
        Outcome::Joined { room_name, user_id, result } => Some(
            match result {
                Ok(ps) => crate::codec::ServerFrame::RoomJoined {
                    room: room_name@,
                    user_id,
                    participants: crate::codec::participants_view(ps@),
                },
                Err(e) => crate::codec::ServerFrame::Error { message: "Failed to join room: "@ + e@, code: None },
            },
        ),
        Outcome::Left { room_name, user_id, result } => Some(
            match result {
                Ok(()) => crate::codec::ServerFrame::RoomLeft { room: room_name@, user_id },
                Err(e) => crate::codec::ServerFrame::Error { message: "Failed to leave room: "@ + e@, code: None },
            },
        ),
        Outcome::Routed(result) => route_answer(result),
    }
}

/// The frame to send back for a router outcome: see [`join_reply`],
/// [`leave_reply`] and [`route_reply`].
pub fn answer(o: Outcome) -> (r: Option<ServerMessage>)
    ensures
        match r {
            Some(m) => answer_of(o) == Some(m@),
            None => answer_of(o) is None,
        },
{
    match o {
        Outcome::Joined { room_name, user_id, result } => Some(join_reply(room_name, user_id, result)),
        Outcome::Left { room_name, user_id, result } => Some(leave_reply(room_name, user_id, result)),
        Outcome::Routed(result) => route_reply(result),
    }
}

/// Every inbound frame of an authenticated stream is answered or routed:
/// [`handle_client_message`] gives a reply or a request, and of the outcomes
/// of a request only a routing the router accepted goes unanswered; every
/// other outcome owes exactly one frame.
pub proof fn law_frame_answered_or_routed(o: Outcome)
    ensures
        answer_of(o) is None <==> o matches Outcome::Routed(Ok(())),
{
}


} // verus!
