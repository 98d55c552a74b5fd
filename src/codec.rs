//! Frames to and from JSON documents.
//!
//! Each frame is an object whose `type` member names the variant, with
//! camelCase member names; an optional field that is `None` is left out.
use vstd::prelude::*;

use crate::messages::{ClientMessage, Participant, ServerMessage};
use crate::wire::{
    id_at, lemma_lookup_index, lemma_lookup_none, lookup, opt_id_at, opt_text_at, opt_view, record_id,
    record_id_of, record_text, record_text_of, record_view, records_view, text_at, Document, JsonValue,
    Scalar, ScalarModel, ValueModel,
};

verus! {

/// The model of a participant: user id and username.
pub type ParticipantModel = (u32, Seq<char>);

/// The mathematical value of a [`ServerMessage`].
pub enum ServerFrame {
    RoomJoined { room: Seq<char>, user_id: u32, participants: Seq<ParticipantModel> },
    RoomLeft { room: Seq<char>, user_id: u32 },
    UserJoined { room: Seq<char>, user: ParticipantModel },
    UserLeft { room: Seq<char>, user_id: u32 },
    Offer { room: Seq<char>, from: u32, sdp: Seq<char> },
    Answer { room: Seq<char>, from: u32, sdp: Seq<char> },
    IceCandidate {
        room: Seq<char>,
        from: u32,
        candidate: Seq<char>,
        sdp_mid: Option<Seq<char>>,
        sdp_mline_index: Option<u32>,
    },
    Error { message: Seq<char>, code: Option<u32> },
    Authenticated { user_id: u32, username: Seq<char> },
}

impl View for Participant {
    type V = ParticipantModel;

    open spec fn view(&self) -> ParticipantModel {
        (self.user_id, self.username@)
    }
}

pub open spec fn participants_view(ps: Seq<Participant>) -> Seq<ParticipantModel> {
    ps.map_values(|p: Participant| p@)
}

impl View for ServerMessage {
    type V = ServerFrame;

    open spec fn view(&self) -> ServerFrame {
        match self {
            ServerMessage::RoomJoined { room_name, user_id, participants } => ServerFrame::RoomJoined {
                room: room_name@,
                user_id: *user_id,
                participants: participants_view(participants@),
            },
            ServerMessage::RoomLeft { room_name, user_id } => ServerFrame::RoomLeft {
                room: room_name@,
                user_id: *user_id,
            },
            ServerMessage::UserJoined { room_name, user } => ServerFrame::UserJoined {
                room: room_name@,
                user: user@,
            },
            ServerMessage::UserLeft { room_name, user_id } => ServerFrame::UserLeft {
                room: room_name@,
                user_id: *user_id,
            },
            ServerMessage::Offer { room_name, from_user_id, sdp } => ServerFrame::Offer {
                room: room_name@,
                from: *from_user_id,
                sdp: sdp@,
            },
            ServerMessage::Answer { room_name, from_user_id, sdp } => ServerFrame::Answer {
                room: room_name@,
                from: *from_user_id,
                sdp: sdp@,
            },
            ServerMessage::IceCandidate {
                room_name,
                from_user_id,
                candidate,
                sdp_mid,
                sdp_mline_index,
            } => ServerFrame::IceCandidate {
                room: room_name@,
                from: *from_user_id,
                candidate: candidate@,
                sdp_mid: opt_view(*sdp_mid),
                sdp_mline_index: *sdp_mline_index,
            },
            ServerMessage::Error { message, code } => ServerFrame::Error { message: message@, code: *code },
            ServerMessage::Authenticated { user_id, username } => ServerFrame::Authenticated {
                user_id: *user_id,
                username: username@,
            },
        }
    }
}

pub type DocModel = Seq<(Seq<char>, ValueModel)>;

pub open spec fn text_member(key: Seq<char>, s: Seq<char>) -> DocModel {
    seq![(key, ValueModel::Text(s))]
}

pub open spec fn number_member(key: Seq<char>, n: u32) -> DocModel {
    seq![(key, ValueModel::Number(n as u64))]
}

pub open spec fn opt_text_member(key: Seq<char>, o: Option<Seq<char>>) -> DocModel {
    match o {
        Some(s) => text_member(key, s),
        None => Seq::empty(),
    }
}

pub open spec fn opt_number_member(key: Seq<char>, o: Option<u32>) -> DocModel {
    match o {
        Some(n) => number_member(key, n),
        None => Seq::empty(),
    }
}

/// A participant as a flat object.
pub open spec fn participant_record(p: ParticipantModel) -> Seq<(Seq<char>, ScalarModel)> {
    seq![("userId"@, ScalarModel::Number(p.0 as u64)), ("username"@, ScalarModel::Text(p.1))]
}

/// The document of a server frame.
pub open spec fn encode_server(f: ServerFrame) -> DocModel {
    match f {
        ServerFrame::RoomJoined { room, user_id, participants } => text_member("type"@, "room-joined"@)
            + text_member("roomName"@, room) + number_member("userId"@, user_id) + seq![
            ("participants"@, ValueModel::Array(participants.map_values(|p: ParticipantModel| participant_record(p)))),
        ],
        ServerFrame::RoomLeft { room, user_id } => text_member("type"@, "room-left"@) + text_member(
            "roomName"@,
            room,
        ) + number_member("userId"@, user_id),
        ServerFrame::UserJoined { room, user } => text_member("type"@, "user-joined"@) + text_member(
            "roomName"@,
            room,
        ) + seq![("user"@, ValueModel::Object(participant_record(user)))],
        ServerFrame::UserLeft { room, user_id } => text_member("type"@, "user-left"@) + text_member(
            "roomName"@,
            room,
        ) + number_member("userId"@, user_id),
        ServerFrame::Offer { room, from, sdp } => text_member("type"@, "offer"@) + text_member("roomName"@, room)
            + number_member("fromUserId"@, from) + text_member("sdp"@, sdp),
        ServerFrame::Answer { room, from, sdp } => text_member("type"@, "answer"@) + text_member(
            "roomName"@,
            room,
        ) + number_member("fromUserId"@, from) + text_member("sdp"@, sdp),
        ServerFrame::IceCandidate { room, from, candidate, sdp_mid, sdp_mline_index } => text_member(
            "type"@,
            "ice-candidate"@,
        ) + text_member("roomName"@, room) + number_member("fromUserId"@, from) + text_member(
            "candidate"@,
            candidate,
        ) + opt_text_member("sdpMid"@, sdp_mid) + opt_number_member("sdpMLineIndex"@, sdp_mline_index),
        ServerFrame::Error { message, code } => text_member("type"@, "error"@) + text_member("message"@, message)
            + opt_number_member("code"@, code),
        ServerFrame::Authenticated { user_id, username } => text_member("type"@, "authenticated"@)
            + number_member("userId"@, user_id) + text_member("username"@, username),
    }
}

/// A participant read from a flat object.
pub open spec fn participant_of(r: Seq<(Seq<char>, ScalarModel)>) -> Option<ParticipantModel> {
    match (record_id(r, "userId"@), record_text(r, "username"@)) {
        (Some(i), Some(n)) => Some((i, n)),
        _ => None,
    }
}

/// A participant member.
pub open spec fn user_at(d: DocModel, key: Seq<char>) -> Option<ParticipantModel> {
    match lookup(d, key) {
        Some(ValueModel::Object(r)) => participant_of(r),
        _ => None,
    }
}

/// An array member of participants; `None` when any element is not one.
pub open spec fn participants_at(d: DocModel, key: Seq<char>) -> Option<Seq<ParticipantModel>> {
    match lookup(d, key) {
        Some(ValueModel::Array(rs)) => if forall|i: int| 0 <= i < rs.len() ==> (#[trigger] participant_of(rs[i])) is Some {
            Some(rs.map_values(|r: Seq<(Seq<char>, ScalarModel)>| participant_of(r)->Some_0))
        } else {
            None
        },
        _ => None,
    }
}

/// The server frame a document holds, if any.
pub open spec fn decode_server(d: DocModel) -> Option<ServerFrame> {
    match text_at(d, "type"@) {
        Some(t) => if t == "room-joined"@ {
            match (text_at(d, "roomName"@), id_at(d, "userId"@), participants_at(d, "participants"@)) {
                (Some(room), Some(user_id), Some(participants)) => Some(
                    ServerFrame::RoomJoined { room, user_id, participants },
                ),
                _ => None,
            }
        } else if t == "room-left"@ {
            match (text_at(d, "roomName"@), id_at(d, "userId"@)) {
                (Some(room), Some(user_id)) => Some(ServerFrame::RoomLeft { room, user_id }),
                _ => None,
            }
        } else if t == "user-joined"@ {
            match (text_at(d, "roomName"@), user_at(d, "user"@)) {
                (Some(room), Some(user)) => Some(ServerFrame::UserJoined { room, user }),
                _ => None,
            }
        } else if t == "user-left"@ {
            match (text_at(d, "roomName"@), id_at(d, "userId"@)) {
                (Some(room), Some(user_id)) => Some(ServerFrame::UserLeft { room, user_id }),
                _ => None,
            }
        } else if t == "offer"@ {
            match (text_at(d, "roomName"@), id_at(d, "fromUserId"@), text_at(d, "sdp"@)) {
                (Some(room), Some(from), Some(sdp)) => Some(ServerFrame::Offer { room, from, sdp }),
                _ => None,
            }
        } else if t == "answer"@ {
            match (text_at(d, "roomName"@), id_at(d, "fromUserId"@), text_at(d, "sdp"@)) {
                (Some(room), Some(from), Some(sdp)) => Some(ServerFrame::Answer { room, from, sdp }),
                _ => None,
            }
        } else if t == "ice-candidate"@ {
            match (
                text_at(d, "roomName"@),
                id_at(d, "fromUserId"@),
                text_at(d, "candidate"@),
                opt_text_at(d, "sdpMid"@),
                opt_id_at(d, "sdpMLineIndex"@),
            ) {
                (Some(room), Some(from), Some(candidate), Some(sdp_mid), Some(sdp_mline_index)) => Some(
                    ServerFrame::IceCandidate { room, from, candidate, sdp_mid, sdp_mline_index },
                ),
                _ => None,
            }
        } else if t == "error"@ {
            match (text_at(d, "message"@), opt_id_at(d, "code"@)) {
                (Some(message), Some(code)) => Some(ServerFrame::Error { message, code }),
                _ => None,
            }
        } else if t == "authenticated"@ {
            match (id_at(d, "userId"@), text_at(d, "username"@)) {
                (Some(user_id), Some(username)) => Some(ServerFrame::Authenticated { user_id, username }),
                _ => None,
            }
        } else {
            None
        },
        None => None,
    }
}

proof fn lemma_literals()
    ensures
        "type"@ == seq!['t', 'y', 'p', 'e'],
        "roomName"@ == seq!['r', 'o', 'o', 'm', 'N', 'a', 'm', 'e'],
        "userId"@ == seq!['u', 's', 'e', 'r', 'I', 'd'],
        "participants"@ == seq!['p', 'a', 'r', 't', 'i', 'c', 'i', 'p', 'a', 'n', 't', 's'],
        "username"@ == seq!['u', 's', 'e', 'r', 'n', 'a', 'm', 'e'],
        "user"@ == seq!['u', 's', 'e', 'r'],
        "fromUserId"@ == seq!['f', 'r', 'o', 'm', 'U', 's', 'e', 'r', 'I', 'd'],
        "sdp"@ == seq!['s', 'd', 'p'],
        "candidate"@ == seq!['c', 'a', 'n', 'd', 'i', 'd', 'a', 't', 'e'],
        "sdpMid"@ == seq!['s', 'd', 'p', 'M', 'i', 'd'],
        "sdpMLineIndex"@ == seq!['s', 'd', 'p', 'M', 'L', 'i', 'n', 'e', 'I', 'n', 'd', 'e', 'x'],
        "message"@ == seq!['m', 'e', 's', 's', 'a', 'g', 'e'],
        "code"@ == seq!['c', 'o', 'd', 'e'],
        "room-joined"@ == seq!['r', 'o', 'o', 'm', '-', 'j', 'o', 'i', 'n', 'e', 'd'],
        "room-left"@ == seq!['r', 'o', 'o', 'm', '-', 'l', 'e', 'f', 't'],
        "user-joined"@ == seq!['u', 's', 'e', 'r', '-', 'j', 'o', 'i', 'n', 'e', 'd'],
        "user-left"@ == seq!['u', 's', 'e', 'r', '-', 'l', 'e', 'f', 't'],
        "offer"@ == seq!['o', 'f', 'f', 'e', 'r'],
        "answer"@ == seq!['a', 'n', 's', 'w', 'e', 'r'],
        "ice-candidate"@ == seq!['i', 'c', 'e', '-', 'c', 'a', 'n', 'd', 'i', 'd', 'a', 't', 'e'],
        "error"@ == seq!['e', 'r', 'r', 'o', 'r'],
        "authenticated"@ == seq!['a', 'u', 't', 'h', 'e', 'n', 't', 'i', 'c', 'a', 't', 'e', 'd'],
        "token"@ == seq!['t', 'o', 'k', 'e', 'n'],
        "password"@ == seq!['p', 'a', 's', 's', 'w', 'o', 'r', 'd'],
        "targetUserId"@ == seq!['t', 'a', 'r', 'g', 'e', 't', 'U', 's', 'e', 'r', 'I', 'd'],
        "auth"@ == seq!['a', 'u', 't', 'h'],
        "join-room"@ == seq!['j', 'o', 'i', 'n', '-', 'r', 'o', 'o', 'm'],
        "leave-room"@ == seq!['l', 'e', 'a', 'v', 'e', '-', 'r', 'o', 'o', 'm'],
{
    reveal_strlit("token");
    reveal_strlit("password");
    reveal_strlit("targetUserId");
    reveal_strlit("auth");
    reveal_strlit("join-room");
    reveal_strlit("leave-room");
    reveal_strlit("type");
    reveal_strlit("roomName");
    reveal_strlit("userId");
    reveal_strlit("participants");
    reveal_strlit("username");
    reveal_strlit("user");
    reveal_strlit("fromUserId");
    reveal_strlit("sdp");
    reveal_strlit("candidate");
    reveal_strlit("sdpMid");
    reveal_strlit("sdpMLineIndex");
    reveal_strlit("message");
    reveal_strlit("code");
    reveal_strlit("room-joined");
    reveal_strlit("room-left");
    reveal_strlit("user-joined");
    reveal_strlit("user-left");
    reveal_strlit("offer");
    reveal_strlit("answer");
    reveal_strlit("ice-candidate");
    reveal_strlit("error");
    reveal_strlit("authenticated");
    assert("type"@ =~= seq!['t', 'y', 'p', 'e']);
}

proof fn lemma_participant_round_trip(p: ParticipantModel)
    ensures
        participant_of(participant_record(p)) == Some(p),
{
    lemma_literals();
    let r = participant_record(p);
    assert("username"@ != "userId"@);
    lemma_lookup_index(r, "userId"@, 0);
    lemma_lookup_index(r, "username"@, 1);
}

proof fn lemma_participants_round_trip(ps: Seq<ParticipantModel>)
    ensures
        ({
            let rs = ps.map_values(|p: ParticipantModel| participant_record(p));
            &&& forall|i: int| 0 <= i < rs.len() ==> (#[trigger] participant_of(rs[i])) is Some
            &&& rs.map_values(|r: Seq<(Seq<char>, ScalarModel)>| participant_of(r)->Some_0) == ps
        }),
{
    let rs = ps.map_values(|p: ParticipantModel| participant_record(p));
    assert forall|i: int| 0 <= i < rs.len() implies (#[trigger] participant_of(rs[i])) is Some by {
        lemma_participant_round_trip(ps[i]);
    }
    let back = rs.map_values(|r: Seq<(Seq<char>, ScalarModel)>| participant_of(r)->Some_0);
    assert forall|i: int| 0 <= i < ps.len() implies back[i] == ps[i] by {
        lemma_participant_round_trip(ps[i]);
    }
    assert(back =~= ps);
}

/// Decoding the document of a server frame gives the frame back.
pub proof fn law_server_round_trip(f: ServerFrame)
    ensures
        decode_server(encode_server(f)) == Some(f),
{
    lemma_literals();
    let d = encode_server(f);
    lemma_lookup_index(d, "type"@, 0);
    assert("user"@.len() != "username"@.len());
    assert("sdp"@.len() != "sdpMid"@.len());
    assert("sdp"@.len() != "sdpMLineIndex"@.len());
    match f {
        ServerFrame::RoomJoined { room, user_id, participants } => {
            lemma_lookup_index(d, "roomName"@, 1);
            lemma_lookup_index(d, "userId"@, 2);
            lemma_lookup_index(d, "participants"@, 3);
            lemma_participants_round_trip(participants);
        },
        ServerFrame::RoomLeft { room, user_id } => {
            lemma_lookup_index(d, "roomName"@, 1);
            lemma_lookup_index(d, "userId"@, 2);
        },
        ServerFrame::UserJoined { room, user } => {
            lemma_lookup_index(d, "roomName"@, 1);
            lemma_lookup_index(d, "user"@, 2);
            lemma_participant_round_trip(user);
        },
        ServerFrame::UserLeft { room, user_id } => {
            lemma_lookup_index(d, "roomName"@, 1);
            lemma_lookup_index(d, "userId"@, 2);
        },
        ServerFrame::Offer { room, from, sdp } => {
            lemma_lookup_index(d, "roomName"@, 1);
            lemma_lookup_index(d, "fromUserId"@, 2);
            lemma_lookup_index(d, "sdp"@, 3);
        },
        ServerFrame::Answer { room, from, sdp } => {
            lemma_lookup_index(d, "roomName"@, 1);
            lemma_lookup_index(d, "fromUserId"@, 2);
            lemma_lookup_index(d, "sdp"@, 3);
        },
        ServerFrame::IceCandidate { room, from, candidate, sdp_mid, sdp_mline_index } => {
            lemma_lookup_index(d, "roomName"@, 1);
            lemma_lookup_index(d, "fromUserId"@, 2);
            lemma_lookup_index(d, "candidate"@, 3);
            match sdp_mid {
                Some(m) => {
                    lemma_lookup_index(d, "sdpMid"@, 4);
                    match sdp_mline_index {
                        Some(n) => lemma_lookup_index(d, "sdpMLineIndex"@, 5),
                        None => lemma_lookup_none(d, "sdpMLineIndex"@),
                    }
                },
                None => {
                    lemma_lookup_none(d, "sdpMid"@);
                    match sdp_mline_index {
                        Some(n) => lemma_lookup_index(d, "sdpMLineIndex"@, 4),
                        None => lemma_lookup_none(d, "sdpMLineIndex"@),
                    }
                },
            }
        },
        ServerFrame::Error { message, code } => {
            lemma_lookup_index(d, "message"@, 1);
            match code {
                Some(c) => lemma_lookup_index(d, "code"@, 2),
                None => lemma_lookup_none(d, "code"@),
            }
        },
        ServerFrame::Authenticated { user_id, username } => {
            lemma_lookup_index(d, "userId"@, 1);
            lemma_lookup_index(d, "username"@, 2);
        },
    }
}

fn text_entry(key: &str, value: String) -> (r: (String, JsonValue))
    ensures
        r.0@ == key@,
        r.1@ == ValueModel::Text(value@),
{
    (key.to_string(), JsonValue::Text(value))
}

fn number_entry(key: &str, n: u32) -> (r: (String, JsonValue))
    ensures
        r.0@ == key@,
        r.1@ == ValueModel::Number(n as u64),
{
    (key.to_string(), JsonValue::Number(n as u64))
}

/// Whether a text equals a literal.
pub fn is_text(s: &String, lit: &str) -> (r: bool)
    ensures
        r == (s@ == lit@),
{
    *s == lit.to_string()
}

fn participant_object(p: &Participant) -> (r: Vec<(String, Scalar)>)
    ensures
        record_view(r@) == participant_record(p@),
{
    let mut r: Vec<(String, Scalar)> = Vec::new();
    r.push(("userId".to_string(), Scalar::Number(p.user_id as u64)));
    r.push(("username".to_string(), Scalar::Text(p.username.clone())));
    proof {
        assert(record_view(r@) =~= participant_record(p@));
    }
    r
}

fn participant_from_object(r: &Vec<(String, Scalar)>) -> (o: Option<Participant>)
    ensures
        match o {
            Some(p) => participant_of(record_view(r@)) == Some(p@),
            None => participant_of(record_view(r@)) is None,
        },
{
    match (record_id_of(r, "userId"), record_text_of(r, "username")) {
        (Some(user_id), Some(username)) => Some(Participant { user_id, username }),
        _ => None,
    }
}

/// The document of a server frame.
pub fn encode_server_message(m: &ServerMessage) -> (d: Document)
    ensures
        d@ == encode_server(m@),
{
    let mut ms: Vec<(String, JsonValue)> = Vec::new();
    match m {
        ServerMessage::RoomJoined { room_name, user_id, participants } => {
            ms.push(text_entry("type", "room-joined".to_string()));
            ms.push(text_entry("roomName", room_name.clone()));
            ms.push(number_entry("userId", *user_id));
            let mut rs: Vec<Vec<(String, Scalar)>> = Vec::new();
            let mut i: usize = 0;
            while i < participants.len()
                invariant
                    i <= participants@.len(),
                    rs@.len() == i,
                    forall|k: int| 0 <= k < i ==> #[trigger] record_view(rs@[k]@) == participant_record(participants@[k]@),
                decreases participants@.len() - i,
            {
                rs.push(participant_object(&participants[i]));
                i = i + 1;
            }
            proof {
                assert(records_view(rs@) =~= participants_view(participants@).map_values(
                    |p: ParticipantModel| participant_record(p),
                ));
            }
            ms.push(("participants".to_string(), JsonValue::Array(rs)));
        },
        ServerMessage::RoomLeft { room_name, user_id } => {
            ms.push(text_entry("type", "room-left".to_string()));
            ms.push(text_entry("roomName", room_name.clone()));
            ms.push(number_entry("userId", *user_id));
        },
        ServerMessage::UserJoined { room_name, user } => {
            ms.push(text_entry("type", "user-joined".to_string()));
            ms.push(text_entry("roomName", room_name.clone()));
            ms.push(("user".to_string(), JsonValue::Object(participant_object(user))));
        },
        ServerMessage::UserLeft { room_name, user_id } => {
            ms.push(text_entry("type", "user-left".to_string()));
            ms.push(text_entry("roomName", room_name.clone()));
            ms.push(number_entry("userId", *user_id));
        },
        ServerMessage::Offer { room_name, from_user_id, sdp } => {
            ms.push(text_entry("type", "offer".to_string()));
            ms.push(text_entry("roomName", room_name.clone()));
            ms.push(number_entry("fromUserId", *from_user_id));
            ms.push(text_entry("sdp", sdp.clone()));
        },
        ServerMessage::Answer { room_name, from_user_id, sdp } => {
            ms.push(text_entry("type", "answer".to_string()));
            ms.push(text_entry("roomName", room_name.clone()));
            ms.push(number_entry("fromUserId", *from_user_id));
            ms.push(text_entry("sdp", sdp.clone()));
        },
        ServerMessage::IceCandidate { room_name, from_user_id, candidate, sdp_mid, sdp_mline_index } => {
            ms.push(text_entry("type", "ice-candidate".to_string()));
            ms.push(text_entry("roomName", room_name.clone()));
            ms.push(number_entry("fromUserId", *from_user_id));
            ms.push(text_entry("candidate", candidate.clone()));
            match sdp_mid {
                Some(mid) => ms.push(text_entry("sdpMid", mid.clone())),
                None => {},
            }
            match sdp_mline_index {
                Some(n) => ms.push(number_entry("sdpMLineIndex", *n)),
                None => {},
            }
        },
        ServerMessage::Error { message, code } => {
            ms.push(text_entry("type", "error".to_string()));
            ms.push(text_entry("message", message.clone()));
            match code {
                Some(c) => ms.push(number_entry("code", *c)),
                None => {},
            }
        },
        ServerMessage::Authenticated { user_id, username } => {
            ms.push(text_entry("type", "authenticated".to_string()));
            ms.push(number_entry("userId", *user_id));
            ms.push(text_entry("username", username.clone()));
        },
    }
    let d = Document { members: ms };
    proof {
        assert(d@ =~= encode_server(m@));
    }
    d
}

fn participants_from_array(rs: &Vec<Vec<(String, Scalar)>>) -> (o: Option<Vec<Participant>>)
    ensures
        ({
            let v = records_view(rs@);
            match o {
                Some(ps) => (forall|i: int| 0 <= i < v.len() ==> (#[trigger] participant_of(v[i])) is Some) && participants_view(ps@)
                    == v.map_values(|r: Seq<(Seq<char>, ScalarModel)>| participant_of(r)->Some_0),
                None => !(forall|i: int| 0 <= i < v.len() ==> (#[trigger] participant_of(v[i])) is Some),
            }
        }),
{
    let ghost v = records_view(rs@);
    let mut out: Vec<Participant> = Vec::new();
    let mut i: usize = 0;
    while i < rs.len()
        invariant
            i <= rs@.len(),
            v == records_view(rs@),
            forall|k: int| 0 <= k < i ==> (#[trigger] participant_of(v[k])) is Some,
            out@.len() == i,
            forall|k: int| 0 <= k < i ==> (#[trigger] out@[k])@ == participant_of(v[k])->Some_0,
        decreases rs@.len() - i,
    {
        proof {
            assert(v[i as int] == record_view(rs@[i as int]@));
        }
        match participant_from_object(&rs[i]) {
            Some(p) => {
                out.push(p);
            },
            None => {
                return None;
            },
        }
        i = i + 1;
    }
    proof {
        assert(participants_view(out@) =~= v.map_values(|r: Seq<(Seq<char>, ScalarModel)>| participant_of(r)->Some_0));
    }
    Some(out)
}

/// The server frame a document holds; `None` when it holds none.
pub fn decode_server_message(d: &Document) -> (r: Option<ServerMessage>)
    ensures
        match r {
            Some(m) => decode_server(d@) == Some(m@),
            None => decode_server(d@) is None,
        },
{
    let t = match d.text("type") {
        Some(t) => t,
        None => return None,
    };
    if is_text(&t, "room-joined") {
        let room_name = d.text("roomName");
        let user_id = d.id("userId");
        let participants = match d.get("participants") {
            Some(JsonValue::Array(rs)) => participants_from_array(rs),
            _ => None,
        };
        match (room_name, user_id, participants) {
            (Some(room_name), Some(user_id), Some(participants)) => Some(
                ServerMessage::RoomJoined { room_name, user_id, participants },
            ),
            _ => None,
        }
    } else if is_text(&t, "room-left") {
        match (d.text("roomName"), d.id("userId")) {
            (Some(room_name), Some(user_id)) => Some(ServerMessage::RoomLeft { room_name, user_id }),
            _ => None,
        }
    } else if is_text(&t, "user-joined") {
        let user = match d.get("user") {
            Some(JsonValue::Object(r)) => participant_from_object(r),
            _ => None,
        };
        match (d.text("roomName"), user) {
            (Some(room_name), Some(user)) => Some(ServerMessage::UserJoined { room_name, user }),
            _ => None,
        }
    } else if is_text(&t, "user-left") {
        match (d.text("roomName"), d.id("userId")) {
            (Some(room_name), Some(user_id)) => Some(ServerMessage::UserLeft { room_name, user_id }),
            _ => None,
        }
    } else if is_text(&t, "offer") {
        match (d.text("roomName"), d.id("fromUserId"), d.text("sdp")) {
            (Some(room_name), Some(from_user_id), Some(sdp)) => Some(
                ServerMessage::Offer { room_name, from_user_id, sdp },
            ),
            _ => None,
        }
    } else if is_text(&t, "answer") {
        match (d.text("roomName"), d.id("fromUserId"), d.text("sdp")) {
            (Some(room_name), Some(from_user_id), Some(sdp)) => Some(
                ServerMessage::Answer { room_name, from_user_id, sdp },
            ),
            _ => None,
        }
    } else if is_text(&t, "ice-candidate") {
        match (
            d.text("roomName"),
            d.id("fromUserId"),
            d.text("candidate"),
            d.opt_text("sdpMid"),
            d.opt_id("sdpMLineIndex"),
        ) {
            (Some(room_name), Some(from_user_id), Some(candidate), Some(sdp_mid), Some(sdp_mline_index)) => Some(
                ServerMessage::IceCandidate { room_name, from_user_id, candidate, sdp_mid, sdp_mline_index },
            ),
            _ => None,
        }
    } else if is_text(&t, "error") {
        match (d.text("message"), d.opt_id("code")) {
            (Some(message), Some(code)) => Some(ServerMessage::Error { message, code }),
            _ => None,
        }
    } else if is_text(&t, "authenticated") {
        match (d.id("userId"), d.text("username")) {
            (Some(user_id), Some(username)) => Some(ServerMessage::Authenticated { user_id, username }),
            _ => None,
        }
    } else {
        None
    }
}

/// The mathematical value of a [`ClientMessage`].
pub enum ClientFrame {
    Auth { token: Seq<char> },
    JoinRoom { room: Seq<char>, password: Option<Seq<char>> },
    LeaveRoom { room: Seq<char> },
    Offer { room: Seq<char>, sdp: Seq<char>, target: Option<u32> },
    Answer { room: Seq<char>, sdp: Seq<char>, target: u32 },
    IceCandidate {
        room: Seq<char>,
        candidate: Seq<char>,
        sdp_mid: Option<Seq<char>>,
        sdp_mline_index: Option<u32>,
        target: Option<u32>,
    },
}

impl View for ClientMessage {
    type V = ClientFrame;

    open spec fn view(&self) -> ClientFrame {
        match self {
            ClientMessage::Auth { token } => ClientFrame::Auth { token: token@ },
            ClientMessage::JoinRoom { room_name, password } => ClientFrame::JoinRoom {
                room: room_name@,
                password: opt_view(*password),
            },
            ClientMessage::LeaveRoom { room_name } => ClientFrame::LeaveRoom { room: room_name@ },
            ClientMessage::Offer { room_name, sdp, target_user_id } => ClientFrame::Offer {
                room: room_name@,
                sdp: sdp@,
                target: *target_user_id,
            },
            ClientMessage::Answer { room_name, sdp, target_user_id } => ClientFrame::Answer {
                room: room_name@,
                sdp: sdp@,
                target: *target_user_id,
            },
            ClientMessage::IceCandidate { room_name, candidate, sdp_mid, sdp_mline_index, target_user_id } =>
                ClientFrame::IceCandidate {
                room: room_name@,
                candidate: candidate@,
                sdp_mid: opt_view(*sdp_mid),
                sdp_mline_index: *sdp_mline_index,
                target: *target_user_id,
            },
        }
    }
}

/// The document of a client frame.
pub open spec fn encode_client(f: ClientFrame) -> DocModel {
    match f {
        ClientFrame::Auth { token } => text_member("type"@, "auth"@) + text_member("token"@, token),
        ClientFrame::JoinRoom { room, password } => text_member("type"@, "join-room"@) + text_member(
            "roomName"@,
            room,
        ) + opt_text_member("password"@, password),
        ClientFrame::LeaveRoom { room } => text_member("type"@, "leave-room"@) + text_member("roomName"@, room),
        ClientFrame::Offer { room, sdp, target } => text_member("type"@, "offer"@) + text_member("roomName"@, room)
            + text_member("sdp"@, sdp) + opt_number_member("targetUserId"@, target),
        ClientFrame::Answer { room, sdp, target } => text_member("type"@, "answer"@) + text_member(
            "roomName"@,
            room,
        ) + text_member("sdp"@, sdp) + number_member("targetUserId"@, target),
        ClientFrame::IceCandidate { room, candidate, sdp_mid, sdp_mline_index, target } => text_member(
            "type"@,
            "ice-candidate"@,
        ) + text_member("roomName"@, room) + text_member("candidate"@, candidate) + opt_text_member(
            "sdpMid"@,
            sdp_mid,
        ) + opt_number_member("sdpMLineIndex"@, sdp_mline_index) + opt_number_member("targetUserId"@, target),
    }
}

/// The client frame a document holds, if any.
pub open spec fn decode_client(d: DocModel) -> Option<ClientFrame> {
    match text_at(d, "type"@) {
        Some(t) => if t == "auth"@ {
            match text_at(d, "token"@) {
                Some(token) => Some(ClientFrame::Auth { token }),
                None => None,
            }
        } else if t == "join-room"@ {
            match (text_at(d, "roomName"@), opt_text_at(d, "password"@)) {
                (Some(room), Some(password)) => Some(ClientFrame::JoinRoom { room, password }),
                _ => None,
            }
        } else if t == "leave-room"@ {
            match text_at(d, "roomName"@) {
                Some(room) => Some(ClientFrame::LeaveRoom { room }),
                None => None,
            }
        } else if t == "offer"@ {
            match (text_at(d, "roomName"@), text_at(d, "sdp"@), opt_id_at(d, "targetUserId"@)) {
                (Some(room), Some(sdp), Some(target)) => Some(ClientFrame::Offer { room, sdp, target }),
                _ => None,
            }
        } else if t == "answer"@ {
            match (text_at(d, "roomName"@), text_at(d, "sdp"@), id_at(d, "targetUserId"@)) {
                (Some(room), Some(sdp), Some(target)) => Some(ClientFrame::Answer { room, sdp, target }),
                _ => None,
            }
        } else if t == "ice-candidate"@ {
            match (
                text_at(d, "roomName"@),
                text_at(d, "candidate"@),
                opt_text_at(d, "sdpMid"@),
                opt_id_at(d, "sdpMLineIndex"@),
                opt_id_at(d, "targetUserId"@),
            ) {
                (Some(room), Some(candidate), Some(sdp_mid), Some(sdp_mline_index), Some(target)) => Some(
                    ClientFrame::IceCandidate { room, candidate, sdp_mid, sdp_mline_index, target },
                ),
                _ => None,
            }
        } else {
            None
        },
        None => None,
    }
}

/// Decoding the document of a client frame gives the frame back.
pub proof fn law_client_round_trip(f: ClientFrame)
    ensures
        decode_client(encode_client(f)) == Some(f),
{
    lemma_literals();
    let d = encode_client(f);
    lemma_lookup_index(d, "type"@, 0);
    assert("sdp"@.len() != "sdpMid"@.len());
    assert("sdp"@.len() != "sdpMLineIndex"@.len());
    match f {
        ClientFrame::Auth { token } => {
            lemma_lookup_index(d, "token"@, 1);
        },
        ClientFrame::JoinRoom { room, password } => {
            lemma_lookup_index(d, "roomName"@, 1);
            match password {
                Some(p) => lemma_lookup_index(d, "password"@, 2),
                None => lemma_lookup_none(d, "password"@),
            }
        },
        ClientFrame::LeaveRoom { room } => {
            lemma_lookup_index(d, "roomName"@, 1);
        },
        ClientFrame::Offer { room, sdp, target } => {
            lemma_lookup_index(d, "roomName"@, 1);
            lemma_lookup_index(d, "sdp"@, 2);
            match target {
                Some(t) => lemma_lookup_index(d, "targetUserId"@, 3),
                None => lemma_lookup_none(d, "targetUserId"@),
            }
        },
        ClientFrame::Answer { room, sdp, target } => {
            lemma_lookup_index(d, "roomName"@, 1);
            lemma_lookup_index(d, "sdp"@, 2);
            lemma_lookup_index(d, "targetUserId"@, 3);
        },
        ClientFrame::IceCandidate { room, candidate, sdp_mid, sdp_mline_index, target } => {
            lemma_lookup_index(d, "roomName"@, 1);
            lemma_lookup_index(d, "candidate"@, 2);
            let n0: int = 3;
            let n1: int = if sdp_mid is Some { n0 + 1 } else { n0 };
            let n2: int = if sdp_mline_index is Some { n1 + 1 } else { n1 };
            match sdp_mid {
                Some(m) => lemma_lookup_index(d, "sdpMid"@, n0),
                None => lemma_lookup_none(d, "sdpMid"@),
            }
            match sdp_mline_index {
                Some(m) => lemma_lookup_index(d, "sdpMLineIndex"@, n1),
                None => lemma_lookup_none(d, "sdpMLineIndex"@),
            }
            match target {
                Some(t) => lemma_lookup_index(d, "targetUserId"@, n2),
                None => lemma_lookup_none(d, "targetUserId"@),
            }
        },
    }
}

/// The document of a client frame.
pub fn encode_client_message(m: &ClientMessage) -> (d: Document)
    ensures
        d@ == encode_client(m@),
{
    let mut ms: Vec<(String, JsonValue)> = Vec::new();
    match m {
        ClientMessage::Auth { token } => {
            ms.push(text_entry("type", "auth".to_string()));
            ms.push(text_entry("token", token.clone()));
        },
        ClientMessage::JoinRoom { room_name, password } => {
            ms.push(text_entry("type", "join-room".to_string()));
            ms.push(text_entry("roomName", room_name.clone()));
            match password {
                Some(p) => ms.push(text_entry("password", p.clone())),
                None => {},
            }
        },
        ClientMessage::LeaveRoom { room_name } => {
            ms.push(text_entry("type", "leave-room".to_string()));
            ms.push(text_entry("roomName", room_name.clone()));
        },
        ClientMessage::Offer { room_name, sdp, target_user_id } => {
            ms.push(text_entry("type", "offer".to_string()));
            ms.push(text_entry("roomName", room_name.clone()));
            ms.push(text_entry("sdp", sdp.clone()));
            match target_user_id {
                Some(t) => ms.push(number_entry("targetUserId", *t)),
                None => {},
            }
        },
        ClientMessage::Answer { room_name, sdp, target_user_id } => {
            ms.push(text_entry("type", "answer".to_string()));
            ms.push(text_entry("roomName", room_name.clone()));
            ms.push(text_entry("sdp", sdp.clone()));
            ms.push(number_entry("targetUserId", *target_user_id));
        },
        ClientMessage::IceCandidate { room_name, candidate, sdp_mid, sdp_mline_index, target_user_id } => {
            ms.push(text_entry("type", "ice-candidate".to_string()));
            ms.push(text_entry("roomName", room_name.clone()));
            ms.push(text_entry("candidate", candidate.clone()));
            match sdp_mid {
                Some(mid) => ms.push(text_entry("sdpMid", mid.clone())),
                None => {},
            }
            match sdp_mline_index {
                Some(n) => ms.push(number_entry("sdpMLineIndex", *n)),
                None => {},
            }
            match target_user_id {
                Some(t) => ms.push(number_entry("targetUserId", *t)),
                None => {},
            }
        },
    }
    let d = Document { members: ms };
    proof {
        assert(d@ =~= encode_client(m@));
    }
    d
}

/// The client frame a document holds; `None` when it holds none (an unknown
/// `type`, or a member missing or of the wrong kind).
pub fn decode_client_message(d: &Document) -> (r: Option<ClientMessage>)
    ensures
        match r {
            Some(m) => decode_client(d@) == Some(m@),
            None => decode_client(d@) is None,
        },
{
    let t = match d.text("type") {
        Some(t) => t,
        None => return None,
    };
    if is_text(&t, "auth") {
        match d.text("token") {
            Some(token) => Some(ClientMessage::Auth { token }),
            None => None,
        }
    } else if is_text(&t, "join-room") {
        match (d.text("roomName"), d.opt_text("password")) {
            (Some(room_name), Some(password)) => Some(ClientMessage::JoinRoom { room_name, password }),
            _ => None,
        }
    } else if is_text(&t, "leave-room") {
        match d.text("roomName") {
            Some(room_name) => Some(ClientMessage::LeaveRoom { room_name }),
            None => None,
        }
    } else if is_text(&t, "offer") {
        match (d.text("roomName"), d.text("sdp"), d.opt_id("targetUserId")) {
            (Some(room_name), Some(sdp), Some(target_user_id)) => Some(
                ClientMessage::Offer { room_name, sdp, target_user_id },
            ),
            _ => None,
        }
    } else if is_text(&t, "answer") {
        match (d.text("roomName"), d.text("sdp"), d.id("targetUserId")) {
            (Some(room_name), Some(sdp), Some(target_user_id)) => Some(
                ClientMessage::Answer { room_name, sdp, target_user_id },
            ),
            _ => None,
        }
    } else if is_text(&t, "ice-candidate") {
        match (
            d.text("roomName"),
            d.text("candidate"),
            d.opt_text("sdpMid"),
            d.opt_id("sdpMLineIndex"),
            d.opt_id("targetUserId"),
        ) {
            (Some(room_name), Some(candidate), Some(sdp_mid), Some(sdp_mline_index), Some(target_user_id)) => Some(
                ClientMessage::IceCandidate { room_name, candidate, sdp_mid, sdp_mline_index, target_user_id },
            ),
            _ => None,
        }
    } else {
        None
    }
}

} // verus!
