//! The cluster plane: messages between nodes, the shared-store schema, and
//! the decisions of the cluster-aware room router.
//!
//! The router performs no store call itself. Reads are done by the caller and
//! their results handed in; writes and publications are queued as
//! [`StoreCommand`]s for the caller to run, and frames for local clients are
//! queued as [`Dispatch`]es.
use vstd::prelude::*;
use vstd::string::StringExecFns;

use crate::codec::{is_text, ParticipantModel};
use crate::messages::{Participant, ServerMessage};
use crate::room::{
    after_close, connections_of, has_user, members, public_list, unique_users, user_index, without_entry, without_user,
    ConnectionId, Dispatch, LocalRoomManager, RoomParticipant,
};
use crate::wire::{
    lemma_lookup_index, lookup, opt_view, record_id, record_id_of, record_text, record_text_of, record_view,
    text_at, Document, JsonValue, Scalar, ScalarModel, ValueModel,
};

verus! {

/// The decimal digit of `d < 10`.
pub open spec fn digit_char(d: nat) -> char {
    if d == 0 { '0' } else if d == 1 { '1' } else if d == 2 { '2' } else if d == 3 { '3' } else if d == 4 { '4' }
    else if d == 5 { '5' } else if d == 6 { '6' } else if d == 7 { '7' } else if d == 8 { '8' } else { '9' }
}

/// The decimal text of a number, without leading zeros.
pub open spec fn dec(n: nat) -> Seq<char>
    decreases n,
{
    if n < 10 {
        seq![digit_char(n)]
    } else {
        dec(n / 10).push(digit_char(n % 10))
    }
}

pub open spec fn is_digit(c: char) -> bool {
    '0' <= c <= '9'
}

/// The value of a text of decimal digits.
pub open spec fn digits_value(s: Seq<char>) -> nat
    decreases s.len(),
{
    if s.len() == 0 {
        0
    } else {
        digits_value(s.drop_last()) * 10 + ((s.last() as u32) - 48) as nat
    }
}

/// A 32-bit number written in decimal, with an optional leading `+`.
pub open spec fn parsed_u32(s: Seq<char>) -> Option<u32> {
    let t = if s.len() > 0 && s[0] == '+' { s.skip(1) } else { s };
    if t.len() > 0 && (forall|i: int| 0 <= i < t.len() ==> is_digit(#[trigger] t[i])) && digits_value(t) <= u32::MAX {
        Some(digits_value(t) as u32)
    } else {
        None
    }
}

/// Relies on `u32`'s `ToString` (its `Display`): the decimal digits, without
/// leading zeros.
#[verifier::external_body]
fn decimal(n: u32) -> (r: String)
    ensures
        r@ == dec(n as nat),
{
    n.to_string()
}

/// Relies on `str::parse::<u32>`: an optional `+` and decimal digits whose
/// value fits in 32 bits.
#[verifier::external_body]
fn parse_u32(s: &str) -> (r: Option<u32>)
    ensures
        r == parsed_u32(s@),
{
    s.parse::<u32>().ok()
}

/// The lowercase hexadecimal digit of `d < 16`.
pub open spec fn hex_char(d: int) -> char {
    if d < 10 { digit_char(d as nat) } else if d == 10 { 'a' } else if d == 11 { 'b' } else if d == 12 { 'c' }
    else if d == 13 { 'd' } else if d == 14 { 'e' } else { 'f' }
}

/// The `i`-th hexadecimal digit of `n`, most significant first (`i < 32`).
pub open spec fn nibble(n: u128, i: int) -> int {
    ((n >> ((124 - 4 * i) as u128)) & 15u128) as int
}

/// The text form of a 128-bit identifier as `uuid` writes it: 32 lowercase
/// hexadecimal digits, most significant first, with a hyphen after the 8th,
/// 12th, 16th and 20th.
pub open spec fn uuid_text_of(id: u128) -> Seq<char> {
    Seq::new(
        36,
        |j: int|
            if j == 8 || j == 13 || j == 18 || j == 23 {
                '-'
            } else {
                let k = if j < 8 { j } else if j < 13 { j - 1 } else if j < 18 { j - 2 } else if j < 23 { j - 3 } else { j - 4 };
                hex_char(nibble(id, k))
            },
    )
}

/// Relies on `uuid::Uuid::from_u128` (the value's bytes, most significant
/// first) and its `Display` (the hyphenated lowercase form) for the text of a
/// connection id.
#[verifier::external_body]
fn connection_text(id: ConnectionId) -> (r: String)
    ensures
        r@ == uuid_text_of(id.value),
{
    uuid::Uuid::from_u128(id.value).to_string()
}

/// `prefix + middle + suffix`.
fn joined(prefix: &str, middle: &str, suffix: &str) -> (r: String)
    ensures
        r@ == prefix@ + middle@ + suffix@,
{
    prefix.to_string().concat(middle).concat(suffix)
}

/// The hash of a room's participants: user id to owning node.
pub fn room_key(room: &str) -> (r: String)
    ensures
        r@ == "rooms:"@ + room@ + ":participants"@,
{
    joined("rooms:", room, ":participants")
}

/// The hash of a node's connections: user id to connection record.
pub fn server_key(node_id: &str) -> (r: String)
    ensures
        r@ == "servers:"@ + node_id@ + ":connections"@,
{
    joined("servers:", node_id, ":connections")
}

/// The expiring heartbeat key of a node.
pub fn heartbeat_key(node_id: &str) -> (r: String)
    ensures
        r@ == "servers:"@ + node_id@ + ":heartbeat"@,
{
    joined("servers:", node_id, ":heartbeat")
}

/// The channel of membership deltas and routed signals.
pub fn messages_channel() -> (r: String)
    ensures
        r@ == "cluster:messages"@,
{
    "cluster:messages".to_string()
}

/// The channel of heartbeats.
pub fn events_channel() -> (r: String)
    ensures
        r@ == "cluster:events"@,
{
    "cluster:events".to_string()
}

/// Messages between nodes.
#[allow(inconsistent_fields)]
#[derive(Debug)]
pub enum ClusterMessage {
    /// A user joined a room; `None` as target means every node.
    UserJoined { room_id: String, user_id: u32, username: String, target_server: Option<String> },
    /// A user left a room; `None` as target means every node.
    UserLeft { room_id: String, user_id: u32, target_server: Option<String> },
    /// A signaling payload for one user, with its kind (`offer`, `answer` or `ice-candidate`).
    WebRTCSignal { room_id: String, from_user: u32, to_user: u32, signal_type: String, signal_data: String },
    /// A node's liveness beacon.
    ServerHeartbeat { node_id: String, timestamp: u64, connection_count: usize },
}

/// A command for the shared store.
#[derive(Debug)]
pub enum StoreCommand {
    /// Set a field of a hash to a text.
    HashSet { key: String, field: String, value: String },
    /// Set a field of a hash to a JSON document.
    HashSetDocument { key: String, field: String, value: Document },
    /// Delete a field of a hash.
    HashDelete { key: String, field: String },
    /// Set a key to a number that expires after `seconds`.
    SetExpiring { key: String, value: u64, seconds: u64 },
    /// Publish a JSON document on a channel.
    Publish { channel: String, message: Document },
}

/// The record of a connection kept in the shared store.
#[derive(Debug)]
pub struct ConnectionInfo {
    pub user_id: u32,
    pub username: String,
    pub room_id: String,
    /// When the connection joined, as RFC 3339 text.
    pub connected_at: String,
    pub connection_id: ConnectionId,
}

/// The mathematical value of a [`ClusterMessage`].
pub enum ClusterFrame {
    UserJoined { room: Seq<char>, user_id: u32, username: Seq<char>, target: Option<Seq<char>> },
    UserLeft { room: Seq<char>, user_id: u32, target: Option<Seq<char>> },
    WebRTCSignal { room: Seq<char>, from: u32, to: u32, kind: Seq<char>, data: Seq<char> },
    ServerHeartbeat { node: Seq<char>, timestamp: u64, connection_count: usize },
}

impl View for ClusterMessage {
    type V = ClusterFrame;

    open spec fn view(&self) -> ClusterFrame {
        match self {
            ClusterMessage::UserJoined { room_id, user_id, username, target_server } => ClusterFrame::UserJoined {
                room: room_id@,
                user_id: *user_id,
                username: username@,
                target: opt_view(*target_server),
            },
            ClusterMessage::UserLeft { room_id, user_id, target_server } => ClusterFrame::UserLeft {
                room: room_id@,
                user_id: *user_id,
                target: opt_view(*target_server),
            },
            ClusterMessage::WebRTCSignal { room_id, from_user, to_user, signal_type, signal_data } =>
                ClusterFrame::WebRTCSignal {
                room: room_id@,
                from: *from_user,
                to: *to_user,
                kind: signal_type@,
                data: signal_data@,
            },
            ClusterMessage::ServerHeartbeat { node_id, timestamp, connection_count } => ClusterFrame::ServerHeartbeat {
                node: node_id@,
                timestamp: *timestamp,
                connection_count: *connection_count,
            },
        }
    }
}

pub type RecordModel = Seq<(Seq<char>, ScalarModel)>;

pub open spec fn opt_text_scalar(key: Seq<char>, o: Option<Seq<char>>) -> RecordModel {
    match o {
        Some(s) => seq![(key, ScalarModel::Text(s))],
        None => Seq::empty(),
    }
}

/// The document of a cluster message: one member, named after the variant,
/// whose value is an object of the fields (an absent target is left out).
pub open spec fn encode_cluster(f: ClusterFrame) -> Seq<(Seq<char>, ValueModel)> {
    match f {
        ClusterFrame::UserJoined { room, user_id, username, target } => seq![
            ("UserJoined"@, ValueModel::Object(seq![
                ("room_id"@, ScalarModel::Text(room)),
                ("user_id"@, ScalarModel::Number(user_id as u64)),
                ("username"@, ScalarModel::Text(username)),
            ] + opt_text_scalar("target_server"@, target))),
        ],
        ClusterFrame::UserLeft { room, user_id, target } => seq![
            ("UserLeft"@, ValueModel::Object(seq![
                ("room_id"@, ScalarModel::Text(room)),
                ("user_id"@, ScalarModel::Number(user_id as u64)),
            ] + opt_text_scalar("target_server"@, target))),
        ],
        ClusterFrame::WebRTCSignal { room, from, to, kind, data } => seq![
            ("WebRTCSignal"@, ValueModel::Object(seq![
                ("room_id"@, ScalarModel::Text(room)),
                ("from_user"@, ScalarModel::Number(from as u64)),
                ("to_user"@, ScalarModel::Number(to as u64)),
                ("signal_type"@, ScalarModel::Text(kind)),
                ("signal_data"@, ScalarModel::Text(data)),
            ])),
        ],
        ClusterFrame::ServerHeartbeat { node, timestamp, connection_count } => seq![
            ("ServerHeartbeat"@, ValueModel::Object(seq![
                ("node_id"@, ScalarModel::Text(node)),
                ("timestamp"@, ScalarModel::Number(timestamp)),
                ("connection_count"@, ScalarModel::Number(connection_count as u64)),
            ])),
        ],
    }
}

/// An optional text of a flat object: `Some(None)` when absent.
pub open spec fn record_opt_text(r: RecordModel, key: Seq<char>) -> Option<Option<Seq<char>>> {
    match lookup(r, key) {
        None => Some(None),
        Some(ScalarModel::Text(s)) => Some(Some(s)),
        _ => None,
    }
}

/// A number of a flat object.
pub open spec fn record_number(r: RecordModel, key: Seq<char>) -> Option<u64> {
    match lookup(r, key) {
        Some(ScalarModel::Number(n)) => Some(n),
        _ => None,
    }
}

/// The cluster message a document holds, if any: exactly one member, named
/// after a variant, holding an object of that variant's fields.
pub open spec fn decode_cluster(d: Seq<(Seq<char>, ValueModel)>) -> Option<ClusterFrame> {
    if d.len() != 1 {
        None
    } else {
        match d[0].1 {
            ValueModel::Object(r) => if d[0].0 == "UserJoined"@ {
                match (record_text(r, "room_id"@), record_id(r, "user_id"@), record_text(r, "username"@), record_opt_text(r, "target_server"@)) {
                    (Some(room), Some(user_id), Some(username), Some(target)) => Some(ClusterFrame::UserJoined { room, user_id, username, target }),
                    _ => None,
                }
            } else if d[0].0 == "UserLeft"@ {
                match (record_text(r, "room_id"@), record_id(r, "user_id"@), record_opt_text(r, "target_server"@)) {
                    (Some(room), Some(user_id), Some(target)) => Some(ClusterFrame::UserLeft { room, user_id, target }),
                    _ => None,
                }
            } else if d[0].0 == "WebRTCSignal"@ {
                match (record_text(r, "room_id"@), record_id(r, "from_user"@), record_id(r, "to_user"@), record_text(r, "signal_type"@), record_text(r, "signal_data"@)) {
                    (Some(room), Some(from), Some(to), Some(kind), Some(data)) => Some(ClusterFrame::WebRTCSignal { room, from, to, kind, data }),
                    _ => None,
                }
            } else if d[0].0 == "ServerHeartbeat"@ {
                match (record_text(r, "node_id"@), record_number(r, "timestamp"@), record_number(r, "connection_count"@)) {
                    (Some(node), Some(timestamp), Some(count)) => if count <= usize::MAX {
                        Some(ClusterFrame::ServerHeartbeat { node, timestamp, connection_count: count as usize })
                    } else {
                        None
                    },
                    _ => None,
                }
            } else {
                None
            },
            _ => None,
        }
    }
}

fn text_scalar(key: &str, value: String) -> (r: (String, Scalar))
    ensures
        r.0@ == key@,
        r.1@ == ScalarModel::Text(value@),
{
    (key.to_string(), Scalar::Text(value))
}

fn number_scalar(key: &str, n: u64) -> (r: (String, Scalar))
    ensures
        r.0@ == key@,
        r.1@ == ScalarModel::Number(n),
{
    (key.to_string(), Scalar::Number(n))
}

/// The document of a cluster message.
pub fn encode_cluster_message(m: &ClusterMessage) -> (d: Document)
    ensures
        d@ == encode_cluster(m@),
{
    let mut r: Vec<(String, Scalar)> = Vec::new();
    let name;
    match m {
        ClusterMessage::UserJoined { room_id, user_id, username, target_server } => {
            name = "UserJoined".to_string();
            r.push(text_scalar("room_id", room_id.clone()));
            r.push(number_scalar("user_id", *user_id as u64));
            r.push(text_scalar("username", username.clone()));
            match target_server {
                Some(t) => r.push(text_scalar("target_server", t.clone())),
                None => {},
            }
        },
        ClusterMessage::UserLeft { room_id, user_id, target_server } => {
            name = "UserLeft".to_string();
            r.push(text_scalar("room_id", room_id.clone()));
            r.push(number_scalar("user_id", *user_id as u64));
            match target_server {
                Some(t) => r.push(text_scalar("target_server", t.clone())),
                None => {},
            }
        },
        ClusterMessage::WebRTCSignal { room_id, from_user, to_user, signal_type, signal_data } => {
            name = "WebRTCSignal".to_string();
            r.push(text_scalar("room_id", room_id.clone()));
            r.push(number_scalar("from_user", *from_user as u64));
            r.push(number_scalar("to_user", *to_user as u64));
            r.push(text_scalar("signal_type", signal_type.clone()));
            r.push(text_scalar("signal_data", signal_data.clone()));
        },
        ClusterMessage::ServerHeartbeat { node_id, timestamp, connection_count } => {
            name = "ServerHeartbeat".to_string();
            r.push(text_scalar("node_id", node_id.clone()));
            r.push(number_scalar("timestamp", *timestamp));
            r.push(number_scalar("connection_count", *connection_count as u64));
        },
    }
    let mut ms: Vec<(String, JsonValue)> = Vec::new();
    ms.push((name, JsonValue::Object(r)));
    let d = Document { members: ms };
    proof {
        assert(record_view(r@) =~= match encode_cluster(m@)[0].1 {
            ValueModel::Object(o) => o,
            _ => Seq::empty(),
        });
        assert(d@ =~= encode_cluster(m@));
    }
    d
}

fn record_opt_text_of(r: &Vec<(String, Scalar)>, key: &str) -> (o: Option<Option<String>>)
    ensures
        match o {
            Some(v) => record_opt_text(record_view(r@), key@) == Some(opt_view(v)),
            None => record_opt_text(record_view(r@), key@) is None,
        },
{
    let k = key.to_string();
    let found = crate::wire::find_member(r, &k);
    proof {
        match found {
            Some(v) => {
                let i = choose|i: int|
                    0 <= i < r@.len() && r@[i].0@ == k@ && r@[i].1 == *v && forall|j: int| 0 <= j < i ==> r@[j].0@ != k@;
                lemma_lookup_index(record_view(r@), key@, i);
            },
            None => {
                crate::wire::lemma_lookup_none(record_view(r@), key@);
            },
        }
    }
    match found {
        None => Some(None),
        Some(Scalar::Text(s)) => Some(Some(s.clone())),
        _ => None,
    }
}

fn record_number_of(r: &Vec<(String, Scalar)>, key: &str) -> (o: Option<u64>)
    ensures
        o == record_number(record_view(r@), key@),
{
    let k = key.to_string();
    let found = crate::wire::find_member(r, &k);
    proof {
        match found {
            Some(v) => {
                let i = choose|i: int|
                    0 <= i < r@.len() && r@[i].0@ == k@ && r@[i].1 == *v && forall|j: int| 0 <= j < i ==> r@[j].0@ != k@;
                lemma_lookup_index(record_view(r@), key@, i);
            },
            None => {
                crate::wire::lemma_lookup_none(record_view(r@), key@);
            },
        }
    }
    match found {
        Some(Scalar::Number(n)) => Some(*n),
        _ => None,
    }
}

/// The cluster message a document holds; `None` when it holds none.
pub fn decode_cluster_message(d: &Document) -> (r: Option<ClusterMessage>)
    ensures
        match r {
            Some(m) => decode_cluster(d@) == Some(m@),
            None => decode_cluster(d@) is None,
        },
{
    if d.members.len() != 1 {
        return None;
    }
    let name = &d.members[0].0;
    let fields = match &d.members[0].1 {
        JsonValue::Object(r) => r,
        _ => return None,
    };
    if is_text(name, "UserJoined") {
        match (
            record_text_of(fields, "room_id"),
            record_id_of(fields, "user_id"),
            record_text_of(fields, "username"),
            record_opt_text_of(fields, "target_server"),
        ) {
            (Some(room_id), Some(user_id), Some(username), Some(target_server)) => Some(
                ClusterMessage::UserJoined { room_id, user_id, username, target_server },
            ),
            _ => None,
        }
    } else if is_text(name, "UserLeft") {
        match (record_text_of(fields, "room_id"), record_id_of(fields, "user_id"), record_opt_text_of(fields, "target_server")) {
            (Some(room_id), Some(user_id), Some(target_server)) => Some(ClusterMessage::UserLeft { room_id, user_id, target_server }),
            _ => None,
        }
    } else if is_text(name, "WebRTCSignal") {
        match (
            record_text_of(fields, "room_id"),
            record_id_of(fields, "from_user"),
            record_id_of(fields, "to_user"),
            record_text_of(fields, "signal_type"),
            record_text_of(fields, "signal_data"),
        ) {
            (Some(room_id), Some(from_user), Some(to_user), Some(signal_type), Some(signal_data)) => Some(
                ClusterMessage::WebRTCSignal { room_id, from_user, to_user, signal_type, signal_data },
            ),
            _ => None,
        }
    } else if is_text(name, "ServerHeartbeat") {
        match (record_text_of(fields, "node_id"), record_number_of(fields, "timestamp"), record_number_of(fields, "connection_count")) {
            (Some(node_id), Some(timestamp), Some(count)) => if count <= usize::MAX as u64 {
                Some(ClusterMessage::ServerHeartbeat { node_id, timestamp, connection_count: count as usize })
            } else {
                None
            },
            _ => None,
        }
    } else {
        None
    }
}

/// The document of a connection record: the connection id as `uuid` text.
pub open spec fn connection_record(
    user_id: u32,
    username: Seq<char>,
    room: Seq<char>,
    connected_at: Seq<char>,
    connection_id: ConnectionId,
) -> Seq<(Seq<char>, ValueModel)> {
    seq![
        ("user_id"@, ValueModel::Number(user_id as u64)),
        ("username"@, ValueModel::Text(username)),
        ("room_id"@, ValueModel::Text(room)),
        ("connected_at"@, ValueModel::Text(connected_at)),
        ("connection_id"@, ValueModel::Text(uuid_text_of(connection_id.value))),
    ]
}

/// The document of a connection record.
pub open spec fn encode_connection_info(c: ConnectionInfo) -> Seq<(Seq<char>, ValueModel)> {
    connection_record(c.user_id, c.username@, c.room_id@, c.connected_at@, c.connection_id)
}

/// The document of a connection record.
pub fn encode_connection_info_document(c: &ConnectionInfo) -> (d: Document)
    ensures
        d@ == encode_connection_info(*c),
{
    let mut ms: Vec<(String, JsonValue)> = Vec::new();
    ms.push(("user_id".to_string(), JsonValue::Number(c.user_id as u64)));
    ms.push(("username".to_string(), JsonValue::Text(c.username.clone())));
    ms.push(("room_id".to_string(), JsonValue::Text(c.room_id.clone())));
    ms.push(("connected_at".to_string(), JsonValue::Text(c.connected_at.clone())));
    ms.push(("connection_id".to_string(), JsonValue::Text(connection_text(c.connection_id))));
    let d = Document { members: ms };
    proof {
        assert(d@ =~= encode_connection_info(*c));
    }
    d
}

/// What the router reads back from a stored connection record.
#[derive(Debug)]
pub struct StoredConnection {
    pub username: String,
    pub room_id: String,
    /// The connection id as text.
    pub connection_id: String,
}

/// The fields of a stored connection record, if it has them all.
pub open spec fn stored_connection(d: Seq<(Seq<char>, ValueModel)>) -> Option<(Seq<char>, Seq<char>, Seq<char>)> {
    match (text_at(d, "username"@), text_at(d, "room_id"@), text_at(d, "connection_id"@)) {
        (Some(u), Some(r), Some(c)) => Some((u, r, c)),
        _ => None,
    }
}

/// Reads a stored connection record.
pub fn decode_stored_connection(d: &Document) -> (r: Option<StoredConnection>)
    ensures
        match r {
            Some(s) => stored_connection(d@) == Some((s.username@, s.room_id@, s.connection_id@)),
            None => stored_connection(d@) is None,
        },
{
    match (d.text("username"), d.text("room_id"), d.text("connection_id")) {
        (Some(username), Some(room_id), Some(connection_id)) => Some(StoredConnection { username, room_id, connection_id }),
        _ => None,
    }
}

/// The connections after `p` connected: it replaces an entry of the same
/// user, or is added.
pub open spec fn upsert(cs: Seq<RoomParticipant>, p: RoomParticipant) -> Seq<RoomParticipant> {
    if has_user(cs, p.user.user_id) {
        cs.update(user_index(cs, p.user.user_id), p)
    } else {
        cs.push(p)
    }
}

/// The cluster message that carries a signaling frame to `target`; `None` for
/// the frames that are not signaling.
pub open spec fn signal_of(room: Seq<char>, target: u32, m: ServerMessage) -> Option<ClusterFrame> {
    match m {
        ServerMessage::Offer { from_user_id, sdp, .. } => Some(
            ClusterFrame::WebRTCSignal { room, from: from_user_id, to: target, kind: "offer"@, data: sdp@ },
        ),
        ServerMessage::Answer { from_user_id, sdp, .. } => Some(
            ClusterFrame::WebRTCSignal { room, from: from_user_id, to: target, kind: "answer"@, data: sdp@ },
        ),
        ServerMessage::IceCandidate { from_user_id, candidate, .. } => Some(
            ClusterFrame::WebRTCSignal { room, from: from_user_id, to: target, kind: "ice-candidate"@, data: candidate@ },
        ),
        _ => None,
    }
}

/// Whether `user_id` is among the participants `ps`.
pub open spec fn lists_user(ps: Seq<Participant>, user_id: u32) -> bool {
    exists|i: int| 0 <= i < ps.len() && #[trigger] ps[i].user_id == user_id
}

/// A publication of `f` on `cluster:messages`.
pub open spec fn publishes(c: StoreCommand, f: ClusterFrame) -> bool {
    c matches StoreCommand::Publish { channel, message } && channel@ == "cluster:messages"@ && message@ == encode_cluster(f)
}

/// A deletion of field `field` of hash `key`.
pub open spec fn deletes(c: StoreCommand, key: Seq<char>, field: Seq<char>) -> bool {
    c matches StoreCommand::HashDelete { key: k, field: f } && k@ == key && f@ == field
}

/// The router of a node in a cluster: the local registry, the node's
/// connections by user id, the health of the shared store, and the queued
/// store commands and frames.
pub struct ClusterRoomManager {
    local_manager: LocalRoomManager,
    node_id: String,
    local_connections: Vec<RoomParticipant>,
    redis_healthy: bool,
    commands: Vec<StoreCommand>,
    deliveries: Vec<Dispatch>,
}

impl ClusterRoomManager {
    pub closed spec fn local(self) -> Map<Seq<char>, Seq<RoomParticipant>> {
        self.local_manager@
    }

    pub closed spec fn local_pending(self) -> Seq<Dispatch> {
        self.local_manager.pending()
    }

    /// The connections of this node, one per user.
    pub closed spec fn connections(self) -> Seq<RoomParticipant> {
        self.local_connections@
    }

    pub closed spec fn healthy(self) -> bool {
        self.redis_healthy
    }

    pub closed spec fn node(self) -> Seq<char> {
        self.node_id@
    }

    /// Store commands queued and not yet taken, oldest first.
    pub closed spec fn queued(self) -> Seq<StoreCommand> {
        self.commands@
    }

    /// Frames produced from cluster messages and not yet taken.
    pub closed spec fn delivered(self) -> Seq<Dispatch> {
        self.deliveries@
    }

    pub closed spec fn wf(self) -> bool {
        self.local_manager.wf() && unique_users(self.local_connections@)
    }

    /// What a well-formed router promises: every local room is non-empty with
    /// unique user ids, and the node holds one connection per user.
    pub proof fn lemma_wf_facts(self)
        requires
            self.wf(),
        ensures
            forall|k: Seq<char>| #[trigger] self.local().contains_key(k) ==> self.local()[k].len() > 0 && unique_users(
                self.local()[k],
            ),
            unique_users(self.connections()),
    {
        self.local_manager.lemma_wf_rooms();
    }

    /// A router for node `node_id`, with the store taken as healthy.
    pub fn new(node_id: String) -> (r: ClusterRoomManager)
        ensures
            r.wf(),
            r.healthy(),
            r.node() == node_id@,
            r.local() == Map::<Seq<char>, Seq<RoomParticipant>>::empty(),
            r.connections().len() == 0,
            r.queued().len() == 0,
            r.delivered().len() == 0,
            r.local_pending().len() == 0,
    {
        ClusterRoomManager {
            local_manager: LocalRoomManager::new(),
            node_id,
            local_connections: Vec::new(),
            redis_healthy: true,
            commands: Vec::new(),
            deliveries: Vec::new(),
        }
    }

    /// This node's identifier.
    pub fn node_id(&self) -> (r: &String)
        ensures
            r@ == self.node(),
    {
        &self.node_id
    }

    /// Whether the shared store is taken as reachable.
    pub fn is_redis_healthy(&self) -> (r: bool)
        ensures
            r == self.healthy(),
    {
        self.redis_healthy
    }

    /// Records the outcome of a health probe; returns whether the mode changed.
    pub fn set_redis_health(&mut self, healthy: bool) -> (changed: bool)
        ensures
            changed == (old(self).healthy() != healthy),
            health_set(*old(self), *final(self), healthy),
    {
        let changed = self.redis_healthy != healthy;
        self.redis_healthy = healthy;
        changed
    }

    fn connection_position(&self, user_id: u32) -> (r: Option<usize>)
        ensures
            r matches Some(i) ==> i < self.local_connections@.len() && self.local_connections@[i as int].user.user_id
                == user_id,
            r is None ==> !has_user(self.local_connections@, user_id),
    {
        let mut i: usize = 0;
        while i < self.local_connections.len()
            invariant
                i <= self.local_connections@.len(),
                forall|k: int| 0 <= k < i ==> self.local_connections@[k].user.user_id != user_id,
            decreases self.local_connections@.len() - i,
        {
            if self.local_connections[i].user.user_id == user_id {
                return Some(i);
            }
            i = i + 1;
        }
        None
    }

    /// Whether `user_id` has a connection on this node.
    pub fn is_local_user(&self, user_id: u32) -> (r: bool)
        ensures
            r == has_user(self.connections(), user_id),
    {
        self.connection_position(user_id).is_some()
    }

    fn upsert_connection(&mut self, participant: RoomParticipant)
        requires
            unique_users(old(self).local_connections@),
        ensures
            final(self).local_connections@ == upsert(old(self).local_connections@, participant),
            unique_users(final(self).local_connections@),
            final(self).local_manager == old(self).local_manager,
            final(self).node_id == old(self).node_id,
            final(self).redis_healthy == old(self).redis_healthy,
            final(self).commands == old(self).commands,
            final(self).deliveries == old(self).deliveries,
    {
        let ghost cs = self.local_connections@;
        match self.connection_position(participant.user.user_id) {
            Some(i) => {
                proof {
                    assert(user_index(cs, participant.user.user_id) == i);
                }
                self.local_connections.set(i, participant);
                proof {
                    let n = self.local_connections@;
                    assert forall|a: int, b: int| 0 <= a < n.len() && 0 <= b < n.len() && a != b implies #[trigger] n[a].user.user_id
                        != #[trigger] n[b].user.user_id by {
                        assert(n[a].user.user_id == cs[a].user.user_id);
                        assert(n[b].user.user_id == cs[b].user.user_id);
                    }
                }
            },
            None => {
                self.local_connections.push(participant);
                proof {
                    let n = self.local_connections@;
                    assert forall|a: int, b: int| 0 <= a < n.len() && 0 <= b < n.len() && a != b implies #[trigger] n[a].user.user_id
                        != #[trigger] n[b].user.user_id by {
                        if a < cs.len() && b < cs.len() {
                            assert(n[a] == cs[a]);
                            assert(n[b] == cs[b]);
                        } else if a < cs.len() {
                            assert(n[a] == cs[a]);
                        } else {
                            assert(n[b] == cs[b]);
                        }
                    }
                }
            },
        }
    }

    fn remove_connection(&mut self, user_id: u32)
        requires
            unique_users(old(self).local_connections@),
        ensures
            final(self).local_connections@ == without_user(old(self).local_connections@, user_id),
            unique_users(final(self).local_connections@),
            final(self).local_manager == old(self).local_manager,
            final(self).node_id == old(self).node_id,
            final(self).redis_healthy == old(self).redis_healthy,
            final(self).commands == old(self).commands,
            final(self).deliveries == old(self).deliveries,
    {
        proof {
            crate::room::lemma_without_user(self.local_connections@, user_id);
        }
        match self.connection_position(user_id) {
            Some(i) => {
                proof {
                    assert(user_index(self.local_connections@, user_id) == i);
                }
                self.local_connections.remove(i);
            },
            None => {},
        }
    }

    /// Whether `user_id` is among `ps`.
    fn lists(ps: &Vec<Participant>, user_id: u32) -> (r: bool)
        ensures
            r == lists_user(ps@, user_id),
    {
        let mut i: usize = 0;
        while i < ps.len()
            invariant
                i <= ps@.len(),
                forall|k: int| 0 <= k < i ==> ps@[k].user_id != user_id,
            decreases ps@.len() - i,
        {
            if ps[i].user_id == user_id {
                return true;
            }
            i = i + 1;
        }
        false
    }

    /// The writes that register `participant` in `room_name` on this node,
    /// given `existing`, the participants that the store lists for the room.
    /// With a healthy store and the user not yet listed there are two: the
    /// room's hash maps the user to this node, and this node's hash maps the
    /// user to its connection record. Otherwise, or when the local registry
    /// already holds the user in the room, there are none, so a duplicate is
    /// never written.
    pub fn register_commands(
        &self,
        room_name: &str,
        participant: &RoomParticipant,
        existing: &Vec<Participant>,
        connected_at: String,
    ) -> (r: Vec<StoreCommand>)
        requires
            self.wf(),
        ensures
            !self.healthy() || lists_user(existing@, participant.user.user_id) || has_user(
                members(self.local(), room_name@),
                participant.user.user_id,
            ) ==> r@.len() == 0,
            self.healthy() && !lists_user(existing@, participant.user.user_id) && !has_user(
                members(self.local(), room_name@),
                participant.user.user_id,
            ) ==> {
                &&& r@.len() == 2
                &&& r@[0] matches StoreCommand::HashSet { key, field, value } && key@ == "rooms:"@ + room_name@
                    + ":participants"@ && field@ == dec(participant.user.user_id as nat) && value@ == self.node()
                &&& r@[1] matches StoreCommand::HashSetDocument { key, field, value } && key@ == "servers:"@
                    + self.node() + ":connections"@ && field@ == dec(participant.user.user_id as nat) && value@
                    == connection_record(
                    participant.user.user_id,
                    participant.user.username@,
                    room_name@,
                    connected_at@,
                    participant.connection_id,
                )
            },
    {
        let mut r: Vec<StoreCommand> = Vec::new();
        if !self.redis_healthy || Self::lists(existing, participant.user.user_id)
            || self.local_manager.user_in_room(room_name, participant.user.user_id) {
            return r;
        }
        let info = ConnectionInfo {
            user_id: participant.user.user_id,
            username: participant.user.username.clone(),
            room_id: room_name.to_string(),
            connected_at,
            connection_id: participant.connection_id,
        };
        r.push(
            StoreCommand::HashSet {
                key: room_key(room_name),
                field: decimal(participant.user.user_id),
                value: self.node_id.clone(),
            },
        );
        r.push(
            StoreCommand::HashSetDocument {
                key: server_key(self.node_id.as_str()),
                field: decimal(participant.user.user_id),
                value: encode_connection_info_document(&info),
            },
        );
        r
    }

    /// Joins `participant` to a room. The connection is recorded first,
    /// whatever the outcome. With a healthy store, a user already in the room
    /// (listed in `existing`, the store's list from before, or held by the
    /// local registry) is refused as a duplicate and nothing else changes;
    /// otherwise, once registered (`registered`), the answer is `existing`
    /// and a `UserJoined` is published. In every other case the local
    /// registry decides.
    pub fn join_room(
        &mut self,
        room_name: String,
        participant: RoomParticipant,
        existing: Vec<Participant>,
        registered: bool,
    ) -> (r: Result<Vec<Participant>, String>)
        requires
            old(self).wf(),
        ensures
            final(self).wf(),
            final(self).connections() == upsert(old(self).connections(), participant),
            final(self).healthy() == old(self).healthy(),
            final(self).node() == old(self).node(),
            final(self).delivered() == old(self).delivered(),
            ({
                let uid = participant.user.user_id;
                let before = members(old(self).local(), room_name@);
                let dup = lists_user(existing@, uid) || has_user(before, uid);
                &&& old(self).healthy() && dup ==> {
                    &&& r matches Err(e) && e@ == "User already in room"@
                    &&& final(self).local() == old(self).local()
                    &&& final(self).local_pending() == old(self).local_pending()
                    &&& final(self).queued() == old(self).queued()
                }
                &&& old(self).healthy() && !dup && registered ==> {
                    &&& r matches Ok(v) && v@ == existing@
                    &&& final(self).local() == old(self).local()
                    &&& final(self).local_pending() == old(self).local_pending()
                    &&& final(self).queued().len() == old(self).queued().len() + 1
                    &&& final(self).queued().drop_last() == old(self).queued()
                    &&& publishes(
                        final(self).queued().last(),
                        ClusterFrame::UserJoined {
                            room: room_name@,
                            user_id: uid,
                            username: participant.user.username@,
                            target: None,
                        },
                    )
                }
                &&& !(old(self).healthy() && (dup || registered)) ==> {
                    &&& final(self).queued() == old(self).queued()
                    &&& if has_user(before, uid) {
                        &&& r matches Err(e) && e@ == "User already in room"@
                        &&& final(self).local() == old(self).local()
                        &&& final(self).local_pending() == old(self).local_pending()
                    } else {
                        &&& r matches Ok(v) && v@ == public_list(before)
                        &&& final(self).local() == old(self).local().insert(room_name@, before.push(participant))
                        &&& final(self).local_pending().drop_last() == old(self).local_pending()
                        &&& final(self).local_pending().len() == old(self).local_pending().len() + 1
                        &&& final(self).local_pending().last().recipients@ == connections_of(before)
                        &&& final(self).local_pending().last().message == (ServerMessage::UserJoined {
                            room_name,
                            user: participant.public_view(),
                        })
                    }
                }
            }),
    {
        self.upsert_connection(participant.duplicate());
        if self.redis_healthy && (Self::lists(&existing, participant.user.user_id)
            || self.local_manager.user_in_room(room_name.as_str(), participant.user.user_id)) {
            return Err("User already in room".to_string());
        }
        if self.redis_healthy && registered {
            let message = ClusterMessage::UserJoined {
                room_id: room_name.clone(),
                user_id: participant.user.user_id,
                username: participant.user.username.clone(),
                target_server: None,
            };
            self.commands.push(StoreCommand::Publish { channel: messages_channel(), message: encode_cluster_message(&message) });
            Ok(existing)
        } else {
            self.local_manager.join_room(room_name, participant)
        }
    }

    /// Removes a user from a room. With a healthy store that lists the user
    /// in the room (`stored`, the store's answer when it could be read), the
    /// user's two entries are deleted there, a `UserLeft` is published, and
    /// the answer is success. Otherwise the local registry decides, so a user
    /// who is in no room gets a membership error and nothing changes. The
    /// user's connection entry goes when the leave succeeds.
    pub fn leave_room(&mut self, room_name: &str, user_id: u32, stored: Option<bool>) -> (r: Result<(), String>)
        requires
            old(self).wf(),
        ensures
            final(self).wf(),
            final(self).connections() == if r is Ok {
                without_user(old(self).connections(), user_id)
            } else {
                old(self).connections()
            },
            final(self).healthy() == old(self).healthy(),
            final(self).node() == old(self).node(),
            final(self).delivered() == old(self).delivered(),
            old(self).healthy() && stored == Some(true) ==> {
                &&& r is Ok
                &&& final(self).local() == old(self).local()
                &&& final(self).local_pending() == old(self).local_pending()
                &&& final(self).queued().len() == old(self).queued().len() + 3
                &&& final(self).queued().take(old(self).queued().len() as int) == old(self).queued()
                &&& deletes(
                    final(self).queued()[old(self).queued().len() as int],
                    "rooms:"@ + room_name@ + ":participants"@,
                    dec(user_id as nat),
                )
                &&& deletes(
                    final(self).queued()[old(self).queued().len() as int + 1],
                    "servers:"@ + old(self).node() + ":connections"@,
                    dec(user_id as nat),
                )
                &&& publishes(
                    final(self).queued()[old(self).queued().len() as int + 2],
                    ClusterFrame::UserLeft { room: room_name@, user_id, target: None },
                )
            },
            !(old(self).healthy() && stored == Some(true)) ==> {
                &&& final(self).queued() == old(self).queued()
                &&& !old(self).local().contains_key(room_name@) ==> (r matches Err(e) && e@ == "Room not found"@)
                    && final(self).local() == old(self).local() && final(self).local_pending() == old(self).local_pending()
                &&& old(self).local().contains_key(room_name@) && !has_user(old(self).local()[room_name@], user_id) ==> (
                r matches Err(e) && e@ == "User not in room"@) && final(self).local() == old(self).local()
                    && final(self).local_pending() == old(self).local_pending()
                &&& old(self).local().contains_key(room_name@) && has_user(old(self).local()[room_name@], user_id) ==> {
                    let rest = without_user(old(self).local()[room_name@], user_id);
                    &&& r is Ok
                    &&& final(self).local() == if rest.len() == 0 {
                        old(self).local().remove(room_name@)
                    } else {
                        old(self).local().insert(room_name@, rest)
                    }
                    &&& final(self).local_pending().drop_last() == old(self).local_pending()
                    &&& final(self).local_pending().len() == old(self).local_pending().len() + 1
                    &&& final(self).local_pending().last().recipients@ == connections_of(old(self).local()[room_name@])
                    &&& crate::room::user_left_of(final(self).local_pending().last().message) == Some(
                        (room_name@, user_id),
                    )
                }
            },
    {
        let in_store = match stored {
            Some(b) => b,
            None => false,
        };
        let r = if self.redis_healthy && in_store {
            let field = decimal(user_id);
            self.commands.push(StoreCommand::HashDelete { key: room_key(room_name), field: field.clone() });
            self.commands.push(StoreCommand::HashDelete { key: server_key(self.node_id.as_str()), field });
            let message = ClusterMessage::UserLeft { room_id: room_name.to_string(), user_id, target_server: None };
            self.commands.push(StoreCommand::Publish { channel: messages_channel(), message: encode_cluster_message(&message) });
            Ok(())
        } else {
            self.local_manager.leave_room(room_name, user_id)
        };
        if r.is_ok() {
            self.remove_connection(user_id);
        }
        r
    }

    /// Sends `message` to the rest of a room on this node; broadcasts do not
    /// cross nodes.
    pub fn broadcast_to_room(&mut self, room_name: &str, sender_id: u32, message: ServerMessage) -> (r: Result<(), String>)
        requires
            old(self).wf(),
        ensures
            final(self).wf(),
            final(self).local() == old(self).local(),
            final(self).connections() == old(self).connections(),
            final(self).healthy() == old(self).healthy(),
            final(self).node() == old(self).node(),
            final(self).queued() == old(self).queued(),
            final(self).delivered() == old(self).delivered(),
            r is Ok <==> old(self).local().contains_key(room_name@),
            r matches Err(e) ==> e@ == "Room not found"@,
            !old(self).local().contains_key(room_name@) ==> final(self).local_pending() == old(self).local_pending(),
            old(self).local().contains_key(room_name@) ==> {
                &&& final(self).local_pending().drop_last() == old(self).local_pending()
                &&& final(self).local_pending().len() == old(self).local_pending().len() + 1
                &&& final(self).local_pending().last().recipients@ == crate::room::others_of(
                    old(self).local()[room_name@],
                    sender_id,
                )
                &&& final(self).local_pending().last().message == message
            },
    {
        self.local_manager.broadcast_to_room(room_name, sender_id, message)
    }

    /// Sends `message` to one user of a room; `owner` is the node that the
    /// store lists for the target in the room, if any. With a healthy store,
    /// a target connected here whom the store lists in the room on this node
    /// gets the frame on its connection; a target connected elsewhere gets a
    /// signaling frame published as a `WebRTCSignal`, another frame falls
    /// back to the local registry, and an unlisted one is an error. In every
    /// other case the local registry decides (a silent no-op for a target not
    /// in the room).
    pub fn send_to_user_in_room(
        &mut self,
        room_name: &str,
        target_user_id: u32,
        message: ServerMessage,
        owner: Option<String>,
    ) -> (r: Result<(), String>)
        requires
            old(self).wf(),
        ensures
            final(self).wf(),
            final(self).local() == old(self).local(),
            final(self).connections() == old(self).connections(),
            final(self).healthy() == old(self).healthy(),
            final(self).node() == old(self).node(),
            ({
                let cs = old(self).connections();
                let connected = has_user(cs, target_user_id);
                let here = old(self).healthy() && connected && (owner matches Some(o) && o@ == old(self).node());
                let remote = old(self).healthy() && !connected;
                &&& here ==> {
                    &&& r is Ok
                    &&& final(self).queued() == old(self).queued()
                    &&& final(self).local_pending() == old(self).local_pending()
                    &&& final(self).delivered().drop_last() == old(self).delivered()
                    &&& final(self).delivered().len() == old(self).delivered().len() + 1
                    &&& final(self).delivered().last().recipients@ == seq![cs[user_index(cs, target_user_id)].connection_id]
                    &&& final(self).delivered().last().message == message
                }
                &&& !here ==> final(self).delivered() == old(self).delivered()
                &&& remote && owner is None ==> (r matches Err(e) && e@ == "User not found in room"@)
                    && final(self).queued() == old(self).queued()
                    && final(self).local_pending() == old(self).local_pending()
                &&& remote && owner is Some && signal_of(room_name@, target_user_id, message) is Some ==> {
                    &&& r is Ok
                    &&& final(self).local_pending() == old(self).local_pending()
                    &&& final(self).queued().len() == old(self).queued().len() + 1
                    &&& final(self).queued().drop_last() == old(self).queued()
                    &&& publishes(final(self).queued().last(), signal_of(room_name@, target_user_id, message)->Some_0)
                }
                &&& !here && !(remote && (owner is None || signal_of(room_name@, target_user_id, message) is Some)) ==> {
                    &&& final(self).queued() == old(self).queued()
                    &&& (r is Ok <==> old(self).local().contains_key(room_name@))
                    &&& r matches Err(e) ==> e@ == "Room not found"@
                    &&& !(old(self).local().contains_key(room_name@) && has_user(
                        old(self).local()[room_name@],
                        target_user_id,
                    )) ==> final(self).local_pending() == old(self).local_pending()
                    &&& old(self).local().contains_key(room_name@) && has_user(
                        old(self).local()[room_name@],
                        target_user_id,
                    ) ==> {
                        let ps = old(self).local()[room_name@];
                        &&& final(self).local_pending().drop_last() == old(self).local_pending()
                        &&& final(self).local_pending().len() == old(self).local_pending().len() + 1
                        &&& final(self).local_pending().last().recipients@ == seq![
                            ps[user_index(ps, target_user_id)].connection_id,
                        ]
                        &&& final(self).local_pending().last().message == message
                    }
                }
            }),
    {
        let listed_here = match &owner {
            Some(o) => *o == self.node_id,
            None => false,
        };
        match self.connection_position(target_user_id) {
            Some(i) if self.redis_healthy && listed_here => {
                proof {
                    assert(user_index(self.local_connections@, target_user_id) == i);
                }
                let mut recipients: Vec<ConnectionId> = Vec::new();
                recipients.push(self.local_connections[i].connection_id);
                self.deliveries.push(Dispatch { recipients, message });
                return Ok(());
            },
            _ => {},
        }
        if self.redis_healthy && !self.is_local_user(target_user_id) {
            if owner.is_none() {
                return Err("User not found in room".to_string());
            }
            let signal = match &message {
                ServerMessage::Offer { from_user_id, sdp, .. } => Some(
                    ClusterMessage::WebRTCSignal {
                        room_id: room_name.to_string(),
                        from_user: *from_user_id,
                        to_user: target_user_id,
                        signal_type: "offer".to_string(),
                        signal_data: sdp.clone(),
                    },
                ),
                ServerMessage::Answer { from_user_id, sdp, .. } => Some(
                    ClusterMessage::WebRTCSignal {
                        room_id: room_name.to_string(),
                        from_user: *from_user_id,
                        to_user: target_user_id,
                        signal_type: "answer".to_string(),
                        signal_data: sdp.clone(),
                    },
                ),
                ServerMessage::IceCandidate { from_user_id, candidate, .. } => Some(
                    ClusterMessage::WebRTCSignal {
                        room_id: room_name.to_string(),
                        from_user: *from_user_id,
                        to_user: target_user_id,
                        signal_type: "ice-candidate".to_string(),
                        signal_data: candidate.clone(),
                    },
                ),
                _ => None,
            };
            match signal {
                Some(c) => {
                    self.commands.push(StoreCommand::Publish { channel: messages_channel(), message: encode_cluster_message(&c) });
                    return Ok(());
                },
                None => {},
            }
        }
        self.local_manager.send_to_user_in_room(room_name, target_user_id, message)
    }

    /// Whether a user is in a room: the store's answer (`stored`, when it could
    /// be read) with a healthy store, otherwise the local registry's.
    pub fn user_in_room(&self, room_name: &str, user_id: u32, stored: Option<bool>) -> (r: bool)
        requires
            self.wf(),
        ensures
            r == match (self.healthy(), stored) {
                (true, Some(b)) => b,
                _ => self.local().contains_key(room_name@) && has_user(self.local()[room_name@], user_id),
            },
    {
        match (self.redis_healthy, stored) {
            (true, Some(b)) => b,
            _ => self.local_manager.user_in_room(room_name, user_id),
        }
    }

    /// Cleans up after the stream of `user_id` with `connection_id` closed.
    /// Only entries with both that user and that connection go: from this
    /// node's connections, from the local registry, and, with a healthy store
    /// whose record (`stored`) names this connection, from the store, with a
    /// `UserLeft` published.
    pub fn remove_user_from_all_rooms(&mut self, user_id: u32, connection_id: ConnectionId, stored: Option<Document>)
        requires
            old(self).wf(),
        ensures
            final(self).wf(),
            final(self).connections() == without_entry(old(self).connections(), user_id, connection_id),
            final(self).local() == after_close(old(self).local(), user_id, connection_id),
            final(self).local_pending().len() >= old(self).local_pending().len(),
            final(self).local_pending().take(old(self).local_pending().len() as int) == old(self).local_pending(),
            crate::room::left_notices(
                final(self).local_pending().skip(old(self).local_pending().len() as int),
                old(self).local(),
                user_id,
                connection_id,
            ),
            crate::room::left_notices_complete(
                final(self).local_pending().skip(old(self).local_pending().len() as int),
                old(self).local(),
                user_id,
                connection_id,
            ),
            final(self).healthy() == old(self).healthy(),
            final(self).node() == old(self).node(),
            final(self).delivered() == old(self).delivered(),
            ({
                let rec = match stored {
                    Some(d) => stored_connection(d@),
                    None => None,
                };
                if old(self).healthy() && rec is Some && rec->Some_0.2 == uuid_text_of(connection_id.value) {
                    let room = rec->Some_0.1;
                    &&& final(self).queued().len() == old(self).queued().len() + 3
                    &&& final(self).queued().take(old(self).queued().len() as int) == old(self).queued()
                    &&& deletes(
                        final(self).queued()[old(self).queued().len() as int],
                        "rooms:"@ + room + ":participants"@,
                        dec(user_id as nat),
                    )
                    &&& deletes(
                        final(self).queued()[old(self).queued().len() as int + 1],
                        "servers:"@ + old(self).node() + ":connections"@,
                        dec(user_id as nat),
                    )
                    &&& publishes(
                        final(self).queued()[old(self).queued().len() as int + 2],
                        ClusterFrame::UserLeft { room, user_id, target: None },
                    )
                } else {
                    final(self).queued() == old(self).queued()
                }
            }),
    {
        match self.connection_position(user_id) {
            Some(i) => {
                proof {
                    assert(user_index(self.local_connections@, user_id) == i);
                }
                if self.local_connections[i].connection_id == connection_id {
                    self.local_connections.remove(i);
                }
            },
            None => {},
        }
        proof {
            crate::room::lemma_without_entry(old(self).local_connections@, user_id, connection_id);
        }
        self.local_manager.remove_user_from_all_rooms(user_id, connection_id);
        if self.redis_healthy {
            let rec = match &stored {
                Some(d) => decode_stored_connection(d),
                None => None,
            };
            match rec {
                Some(rec) => {
                    let current = connection_text(connection_id);
                    if rec.connection_id == current {
                        let field = decimal(user_id);
                        self.commands.push(StoreCommand::HashDelete { key: room_key(rec.room_id.as_str()), field: field.clone() });
                        self.commands.push(StoreCommand::HashDelete { key: server_key(self.node_id.as_str()), field });
                        let message = ClusterMessage::UserLeft { room_id: rec.room_id, user_id, target_server: None };
                        self.commands.push(
                            StoreCommand::Publish { channel: messages_channel(), message: encode_cluster_message(&message) },
                        );
                    }
                },
                None => {},
            }
        }
    }

    /// The participants of a room: the store's list (`from_store`) with a
    /// healthy store, otherwise the local registry's.
    pub fn get_room_participants(&self, room_name: &str, from_store: Vec<Participant>) -> (r: Vec<Participant>)
        requires
            self.wf(),
        ensures
            self.healthy() ==> r@ == from_store@,
            !self.healthy() ==> r@ == public_list(members(self.local(), room_name@)),
    {
        if self.redis_healthy {
            from_store
        } else {
            self.local_manager.get_room_participants(room_name)
        }
    }

    /// The router can serve: through the store when it is healthy, else locally.
    pub fn health_check(&self) -> (r: bool)
        ensures
            r,
    {
        self.redis_healthy || self.local_manager.health_check()
    }

    /// Acts on a message from the cluster bus. A membership delta for this
    /// node (untargeted, or targeted here) goes to every connection of this
    /// node as `user-joined` / `user-left`. A signal goes, as the matching
    /// frame with the signal's room, to the target's connection when it is
    /// here. Anything else is ignored.
    pub fn handle_cluster_message(&mut self, message: ClusterMessage)
        requires
            old(self).wf(),
        ensures
            final(self).wf(),
            final(self).local() == old(self).local(),
            final(self).local_pending() == old(self).local_pending(),
            final(self).connections() == old(self).connections(),
            final(self).healthy() == old(self).healthy(),
            final(self).node() == old(self).node(),
            final(self).queued() == old(self).queued(),
            match cluster_delivery(old(self).connections(), old(self).node(), message@) {
                Some((recipients, frame)) => {
                    &&& final(self).delivered().len() == old(self).delivered().len() + 1
                    &&& final(self).delivered().drop_last() == old(self).delivered()
                    &&& final(self).delivered().last().recipients@ == recipients
                    &&& final(self).delivered().last().message@ == frame
                },
                None => final(self).delivered() == old(self).delivered(),
            },
    {
        match message {
            ClusterMessage::UserJoined { room_id, user_id, username, target_server } => {
                if !self.is_target(&target_server) {
                    return;
                }
                let frame = ServerMessage::UserJoined { room_name: room_id, user: Participant { user_id, username } };
                let recipients = self.all_connections();
                self.deliveries.push(Dispatch { recipients, message: frame });
            },
            ClusterMessage::UserLeft { room_id, user_id, target_server } => {
                if !self.is_target(&target_server) {
                    return;
                }
                let frame = ServerMessage::UserLeft { room_name: room_id, user_id };
                let recipients = self.all_connections();
                self.deliveries.push(Dispatch { recipients, message: frame });
            },
            ClusterMessage::WebRTCSignal { room_id, from_user, to_user, signal_type, signal_data } => {
                let i = match self.connection_position(to_user) {
                    Some(i) => i,
                    None => return,
                };
                proof {
                    assert(user_index(self.local_connections@, to_user) == i);
                }
                let frame = if is_text(&signal_type, "offer") {
                    ServerMessage::Offer { room_name: room_id, from_user_id: from_user, sdp: signal_data }
                } else if is_text(&signal_type, "answer") {
                    ServerMessage::Answer { room_name: room_id, from_user_id: from_user, sdp: signal_data }
                } else if is_text(&signal_type, "ice-candidate") {
                    ServerMessage::IceCandidate {
                        room_name: room_id,
                        from_user_id: from_user,
                        candidate: signal_data,
                        sdp_mid: None,
                        sdp_mline_index: None,
                    }
                } else {
                    return;
                };
                let mut recipients: Vec<ConnectionId> = Vec::new();
                recipients.push(self.local_connections[i].connection_id);
                self.deliveries.push(Dispatch { recipients, message: frame });
            },
            ClusterMessage::ServerHeartbeat { .. } => {},
        }
    }

    fn is_target(&self, target_server: &Option<String>) -> (r: bool)
        ensures
            r == match target_server {
                Some(t) => t@ == self.node(),
                None => true,
            },
    {
        match target_server {
            Some(t) => *t == self.node_id,
            None => true,
        }
    }

    fn all_connections(&self) -> (r: Vec<ConnectionId>)
        ensures
            r@ == connections_of(self.local_connections@),
    {
        let mut out: Vec<ConnectionId> = Vec::new();
        let mut i: usize = 0;
        while i < self.local_connections.len()
            invariant
                i <= self.local_connections@.len(),
                out@.len() == i,
                forall|k: int| 0 <= k < i ==> out@[k] == #[trigger] self.local_connections@[k].connection_id,
            decreases self.local_connections@.len() - i,
        {
            out.push(self.local_connections[i].connection_id);
            i = i + 1;
        }
        proof {
            assert(out@ =~= connections_of(self.local_connections@));
        }
        out
    }

    /// The heartbeat of this node at `timestamp`: the expiring heartbeat key,
    /// valid for 30 seconds, and a `ServerHeartbeat` on `cluster:events`
    /// with the number of connections here.
    pub fn heartbeat_commands(&self, timestamp: u64) -> (r: Vec<StoreCommand>)
        ensures
            r@.len() == 2,
            r@[0] matches StoreCommand::SetExpiring { key, value, seconds } && key@ == "servers:"@ + self.node()
                + ":heartbeat"@ && value == timestamp && seconds == 30,
            r@[1] matches StoreCommand::Publish { channel, message } && channel@ == "cluster:events"@ && message@
                == encode_cluster(
                ClusterFrame::ServerHeartbeat {
                    node: self.node(),
                    timestamp,
                    connection_count: self.connections().len() as usize,
                },
            ),
    {
        let beat = ClusterMessage::ServerHeartbeat {
            node_id: self.node_id.clone(),
            timestamp,
            connection_count: self.local_connections.len(),
        };
        let mut r: Vec<StoreCommand> = Vec::new();
        r.push(StoreCommand::SetExpiring { key: heartbeat_key(self.node_id.as_str()), value: timestamp, seconds: 30 });
        r.push(StoreCommand::Publish { channel: events_channel(), message: encode_cluster_message(&beat) });
        r
    }

    /// Hands out the queued store commands.
    pub fn take_commands(&mut self) -> (r: Vec<StoreCommand>)
        ensures
            r@ == old(self).queued(),
            final(self).queued().len() == 0,
            final(self).local() == old(self).local(),
            final(self).local_pending() == old(self).local_pending(),
            final(self).connections() == old(self).connections(),
            final(self).healthy() == old(self).healthy(),
            final(self).node() == old(self).node(),
            final(self).delivered() == old(self).delivered(),
            final(self).wf() == old(self).wf(),
    {
        let mut out: Vec<StoreCommand> = Vec::new();
        std::mem::swap(&mut out, &mut self.commands);
        out
    }

    /// Hands out the frames for local clients: those of the local registry,
    /// then those produced from cluster messages.
    pub fn take_outbox(&mut self) -> (r: Vec<Dispatch>)
        ensures
            r@ == old(self).local_pending() + old(self).delivered(),
            final(self).local_pending().len() == 0,
            final(self).delivered().len() == 0,
            final(self).local() == old(self).local(),
            final(self).connections() == old(self).connections(),
            final(self).healthy() == old(self).healthy(),
            final(self).node() == old(self).node(),
            final(self).queued() == old(self).queued(),
            final(self).wf() == old(self).wf(),
    {
        let mut out = self.local_manager.take_outbox();
        let mut mine: Vec<Dispatch> = Vec::new();
        std::mem::swap(&mut mine, &mut self.deliveries);
        out.append(&mut mine);
        out
    }
}

/// `after` is `before` with the store's health set to `healthy` and nothing
/// else changed.
pub open spec fn health_set(before: ClusterRoomManager, after: ClusterRoomManager, healthy: bool) -> bool {
    &&& after.healthy() == healthy
    &&& after.local() == before.local()
    &&& after.local_pending() == before.local_pending()
    &&& after.connections() == before.connections()
    &&& after.node() == before.node()
    &&& after.queued() == before.queued()
    &&& after.delivered() == before.delivered()
    &&& after.wf() == before.wf()
}

/// Losing and regaining the shared store leaves the local registry and the
/// node's connections as they were.
pub proof fn law_health_round_trip(a: ClusterRoomManager, b: ClusterRoomManager, c: ClusterRoomManager)
    requires
        a.healthy(),
        health_set(a, b, false),
        health_set(b, c, true),
    ensures
        c.healthy(),
        c.local() == a.local(),
        c.connections() == a.connections(),
        c.wf() == a.wf(),
{
}

/// What a cluster message delivers on a node with connections `cs`: the
/// recipients and the frame, or nothing.
pub open spec fn cluster_delivery(cs: Seq<RoomParticipant>, node: Seq<char>, f: ClusterFrame) -> Option<
    (Seq<ConnectionId>, crate::codec::ServerFrame),
> {
    match f {
        ClusterFrame::UserJoined { room, user_id, username, target } => if target is None || target == Some(node) {
            Some((connections_of(cs), crate::codec::ServerFrame::UserJoined { room, user: (user_id, username) }))
        } else {
            None
        },
        ClusterFrame::UserLeft { room, user_id, target } => if target is None || target == Some(node) {
            Some((connections_of(cs), crate::codec::ServerFrame::UserLeft { room, user_id }))
        } else {
            None
        },
        ClusterFrame::WebRTCSignal { room, from, to, kind, data } => if !has_user(cs, to) {
            None
        } else {
            let rcpt = seq![cs[user_index(cs, to)].connection_id];
            if kind == "offer"@ {
                Some((rcpt, crate::codec::ServerFrame::Offer { room, from, sdp: data }))
            } else if kind == "answer"@ {
                Some((rcpt, crate::codec::ServerFrame::Answer { room, from, sdp: data }))
            } else if kind == "ice-candidate"@ {
                Some(
                    (
                        rcpt,
                        crate::codec::ServerFrame::IceCandidate {
                            room,
                            from,
                            candidate: data,
                            sdp_mid: None,
                            sdp_mline_index: None,
                        },
                    ),
                )
            } else {
                None
            }
        },
        ClusterFrame::ServerHeartbeat { .. } => None,
    }
}

/// The participants listed by a room's hash in the store: `entries` are its
/// (user id text, owning node) pairs and `records[i]` is the connection record
/// that the owner of `entries[i]` keeps for that user, if it could be read.
/// Entries whose user id does not parse or whose record has no username are
/// skipped.
pub open spec fn store_participants(entries: Seq<(Seq<char>, Seq<char>)>, records: Seq<Option<Seq<(Seq<char>, ValueModel)>>>) -> Seq<
    ParticipantModel,
>
    decreases entries.len(),
{
    if entries.len() == 0 || records.len() != entries.len() {
        Seq::empty()
    } else {
        let rest = store_participants(entries.drop_last(), records.drop_last());
        match (parsed_u32(entries.last().0), records.last()) {
            (Some(id), Some(d)) => match text_at(d, "username"@) {
                Some(name) => rest.push((id, name)),
                None => rest,
            },
            _ => rest,
        }
    }
}

pub open spec fn entries_view(es: Seq<(String, String)>) -> Seq<(Seq<char>, Seq<char>)> {
    es.map_values(|e: (String, String)| (e.0@, e.1@))
}

pub open spec fn records_view_of(rs: Seq<Option<Document>>) -> Seq<Option<Seq<(Seq<char>, ValueModel)>>> {
    rs.map_values(|r: Option<Document>| match r {
        Some(d) => Some(d@),
        None => None,
    })
}

/// The participants of a room from what the store holds; see
/// [`store_participants`].
pub fn participants_from_store(entries: &Vec<(String, String)>, records: &Vec<Option<Document>>) -> (r: Vec<Participant>)
    requires
        entries@.len() == records@.len(),
    ensures
        crate::codec::participants_view(r@) == store_participants(entries_view(entries@), records_view_of(records@)),
{
    let ghost ev = entries_view(entries@);
    let ghost rv = records_view_of(records@);
    let mut out: Vec<Participant> = Vec::new();
    let mut i: usize = 0;
    while i < entries.len()
        invariant
            i <= entries@.len(),
            entries@.len() == records@.len(),
            ev == entries_view(entries@),
            rv == records_view_of(records@),
            crate::codec::participants_view(out@) == store_participants(ev.take(i as int), rv.take(i as int)),
        decreases entries@.len() - i,
    {
        proof {
            assert(ev.take(i + 1).drop_last() =~= ev.take(i as int));
            assert(rv.take(i + 1).drop_last() =~= rv.take(i as int));
            assert(ev.take(i + 1).last() == ev[i as int]);
            assert(rv.take(i + 1).last() == rv[i as int]);
        }
        let id = parse_u32(entries[i].0.as_str());
        match (id, &records[i]) {
            (Some(id), Some(d)) => match d.text("username") {
                Some(username) => {
                    out.push(Participant { user_id: id, username });
                    proof {
                        assert(crate::codec::participants_view(out@) =~= store_participants(ev.take(i + 1), rv.take(i + 1)));
                    }
                },
                None => {},
            },
            _ => {},
        }
        i = i + 1;
    }
    proof {
        assert(ev.take(i as int) =~= ev);
        assert(rv.take(i as int) =~= rv);
    }
    out
}

proof fn lemma_cluster_literals()
    ensures
        "UserJoined"@ == seq!['U', 's', 'e', 'r', 'J', 'o', 'i', 'n', 'e', 'd'],
        "UserLeft"@ == seq!['U', 's', 'e', 'r', 'L', 'e', 'f', 't'],
        "WebRTCSignal"@ == seq!['W', 'e', 'b', 'R', 'T', 'C', 'S', 'i', 'g', 'n', 'a', 'l'],
        "ServerHeartbeat"@ == seq!['S', 'e', 'r', 'v', 'e', 'r', 'H', 'e', 'a', 'r', 't', 'b', 'e', 'a', 't'],
        "room_id"@ == seq!['r', 'o', 'o', 'm', '_', 'i', 'd'],
        "user_id"@ == seq!['u', 's', 'e', 'r', '_', 'i', 'd'],
        "username"@ == seq!['u', 's', 'e', 'r', 'n', 'a', 'm', 'e'],
        "target_server"@ == seq!['t', 'a', 'r', 'g', 'e', 't', '_', 's', 'e', 'r', 'v', 'e', 'r'],
        "from_user"@ == seq!['f', 'r', 'o', 'm', '_', 'u', 's', 'e', 'r'],
        "to_user"@ == seq!['t', 'o', '_', 'u', 's', 'e', 'r'],
        "signal_type"@ == seq!['s', 'i', 'g', 'n', 'a', 'l', '_', 't', 'y', 'p', 'e'],
        "signal_data"@ == seq!['s', 'i', 'g', 'n', 'a', 'l', '_', 'd', 'a', 't', 'a'],
        "node_id"@ == seq!['n', 'o', 'd', 'e', '_', 'i', 'd'],
        "timestamp"@ == seq!['t', 'i', 'm', 'e', 's', 't', 'a', 'm', 'p'],
        "connection_count"@ == seq!['c', 'o', 'n', 'n', 'e', 'c', 't', 'i', 'o', 'n', '_', 'c', 'o', 'u', 'n', 't'],
{
    reveal_strlit("UserJoined");
    reveal_strlit("UserLeft");
    reveal_strlit("WebRTCSignal");
    reveal_strlit("ServerHeartbeat");
    reveal_strlit("room_id");
    reveal_strlit("user_id");
    reveal_strlit("username");
    reveal_strlit("target_server");
    reveal_strlit("from_user");
    reveal_strlit("to_user");
    reveal_strlit("signal_type");
    reveal_strlit("signal_data");
    reveal_strlit("node_id");
    reveal_strlit("timestamp");
    reveal_strlit("connection_count");
}

/// Decoding the document of a cluster message gives the message back.
pub proof fn law_cluster_round_trip(f: ClusterFrame)
    ensures
        decode_cluster(encode_cluster(f)) == Some(f),
{
    lemma_cluster_literals();
    let d = encode_cluster(f);
    assert("UserJoined"@.len() != "UserLeft"@.len());
    assert("user_id"@.len() != "username"@.len());
    assert("signal_type"@[7] != "signal_data"@[7]);
    match f {
        ClusterFrame::UserJoined { room, user_id, username, target } => {
            let r = match d[0].1 {
                ValueModel::Object(r) => r,
                _ => Seq::empty(),
            };
            lemma_lookup_index(r, "room_id"@, 0);
            lemma_lookup_index(r, "user_id"@, 1);
            lemma_lookup_index(r, "username"@, 2);
            match target {
                Some(t) => lemma_lookup_index(r, "target_server"@, 3),
                None => crate::wire::lemma_lookup_none(r, "target_server"@),
            }
        },
        ClusterFrame::UserLeft { room, user_id, target } => {
            let r = match d[0].1 {
                ValueModel::Object(r) => r,
                _ => Seq::empty(),
            };
            lemma_lookup_index(r, "room_id"@, 0);
            lemma_lookup_index(r, "user_id"@, 1);
            match target {
                Some(t) => lemma_lookup_index(r, "target_server"@, 2),
                None => crate::wire::lemma_lookup_none(r, "target_server"@),
            }
        },
        ClusterFrame::WebRTCSignal { room, from, to, kind, data } => {
            let r = match d[0].1 {
                ValueModel::Object(r) => r,
                _ => Seq::empty(),
            };
            lemma_lookup_index(r, "room_id"@, 0);
            lemma_lookup_index(r, "from_user"@, 1);
            lemma_lookup_index(r, "to_user"@, 2);
            lemma_lookup_index(r, "signal_type"@, 3);
            lemma_lookup_index(r, "signal_data"@, 4);
        },
        ClusterFrame::ServerHeartbeat { node, timestamp, connection_count } => {
            let r = match d[0].1 {
                ValueModel::Object(r) => r,
                _ => Seq::empty(),
            };
            lemma_lookup_index(r, "node_id"@, 0);
            lemma_lookup_index(r, "timestamp"@, 1);
            lemma_lookup_index(r, "connection_count"@, 2);
        },
    }
}

/// After the stream of `user_id` with `connection_id` closes on a node in a
/// cluster, neither the local registry nor the node's connections hold that
/// user through that connection, while an entry of the same user through
/// another connection stays.
pub proof fn law_cluster_close_matches_connection(m: ClusterRoomManager, user_id: u32, connection_id: ConnectionId, other: ConnectionId)
    requires
        m.wf(),
    ensures
        forall|k: Seq<char>| #[trigger] after_close(m.local(), user_id, connection_id).contains_key(k) ==> !crate::room::holds_entry(
            after_close(m.local(), user_id, connection_id)[k],
            user_id,
            connection_id,
        ),
        !crate::room::holds_entry(without_entry(m.connections(), user_id, connection_id), user_id, connection_id),
        other != connection_id && crate::room::holds_entry(m.connections(), user_id, other) ==> crate::room::holds_entry(
            without_entry(m.connections(), user_id, connection_id),
            user_id,
            other,
        ),
{
    m.lemma_wf_facts();
    crate::room::law_no_entry_after_close(m.local(), user_id, connection_id);
    crate::room::lemma_without_entry(m.connections(), user_id, connection_id);
}

proof fn lemma_nibble_range(n: u128, i: int)
    requires
        0 <= i < 32,
    ensures
        0 <= nibble(n, i) < 16,
{
    let sh = (124 - 4 * i) as u128;
    assert((n >> sh) & 15u128 <= 15u128) by (bit_vector);
}

proof fn lemma_nibbles_determine(a: u128, b: u128)
    requires
        forall|i: int| 0 <= i < 32 ==> #[trigger] nibble(a, i) == nibble(b, i),
    ensures
        a == b,
{
    assert(nibble(a, 0) == nibble(b, 0));
    assert(nibble(a, 1) == nibble(b, 1));
    assert(nibble(a, 2) == nibble(b, 2));
    assert(nibble(a, 3) == nibble(b, 3));
    assert(nibble(a, 4) == nibble(b, 4));
    assert(nibble(a, 5) == nibble(b, 5));
    assert(nibble(a, 6) == nibble(b, 6));
    assert(nibble(a, 7) == nibble(b, 7));
    assert(nibble(a, 8) == nibble(b, 8));
    assert(nibble(a, 9) == nibble(b, 9));
    assert(nibble(a, 10) == nibble(b, 10));
    assert(nibble(a, 11) == nibble(b, 11));
    assert(nibble(a, 12) == nibble(b, 12));
    assert(nibble(a, 13) == nibble(b, 13));
    assert(nibble(a, 14) == nibble(b, 14));
    assert(nibble(a, 15) == nibble(b, 15));
    assert(nibble(a, 16) == nibble(b, 16));
    assert(nibble(a, 17) == nibble(b, 17));
    assert(nibble(a, 18) == nibble(b, 18));
    assert(nibble(a, 19) == nibble(b, 19));
    assert(nibble(a, 20) == nibble(b, 20));
    assert(nibble(a, 21) == nibble(b, 21));
    assert(nibble(a, 22) == nibble(b, 22));
    assert(nibble(a, 23) == nibble(b, 23));
    assert(nibble(a, 24) == nibble(b, 24));
    assert(nibble(a, 25) == nibble(b, 25));
    assert(nibble(a, 26) == nibble(b, 26));
    assert(nibble(a, 27) == nibble(b, 27));
    assert(nibble(a, 28) == nibble(b, 28));
    assert(nibble(a, 29) == nibble(b, 29));
    assert(nibble(a, 30) == nibble(b, 30));
    assert(nibble(a, 31) == nibble(b, 31));
    assert(a == b) by (bit_vector)
        requires
        (a >> 124u128) & 15u128 == (b >> 124u128) & 15u128,
        (a >> 120u128) & 15u128 == (b >> 120u128) & 15u128,
        (a >> 116u128) & 15u128 == (b >> 116u128) & 15u128,
        (a >> 112u128) & 15u128 == (b >> 112u128) & 15u128,
        (a >> 108u128) & 15u128 == (b >> 108u128) & 15u128,
        (a >> 104u128) & 15u128 == (b >> 104u128) & 15u128,
        (a >> 100u128) & 15u128 == (b >> 100u128) & 15u128,
        (a >> 96u128) & 15u128 == (b >> 96u128) & 15u128,
        (a >> 92u128) & 15u128 == (b >> 92u128) & 15u128,
        (a >> 88u128) & 15u128 == (b >> 88u128) & 15u128,
        (a >> 84u128) & 15u128 == (b >> 84u128) & 15u128,
        (a >> 80u128) & 15u128 == (b >> 80u128) & 15u128,
        (a >> 76u128) & 15u128 == (b >> 76u128) & 15u128,
        (a >> 72u128) & 15u128 == (b >> 72u128) & 15u128,
        (a >> 68u128) & 15u128 == (b >> 68u128) & 15u128,
        (a >> 64u128) & 15u128 == (b >> 64u128) & 15u128,
        (a >> 60u128) & 15u128 == (b >> 60u128) & 15u128,
        (a >> 56u128) & 15u128 == (b >> 56u128) & 15u128,
        (a >> 52u128) & 15u128 == (b >> 52u128) & 15u128,
        (a >> 48u128) & 15u128 == (b >> 48u128) & 15u128,
        (a >> 44u128) & 15u128 == (b >> 44u128) & 15u128,
        (a >> 40u128) & 15u128 == (b >> 40u128) & 15u128,
        (a >> 36u128) & 15u128 == (b >> 36u128) & 15u128,
        (a >> 32u128) & 15u128 == (b >> 32u128) & 15u128,
        (a >> 28u128) & 15u128 == (b >> 28u128) & 15u128,
        (a >> 24u128) & 15u128 == (b >> 24u128) & 15u128,
        (a >> 20u128) & 15u128 == (b >> 20u128) & 15u128,
        (a >> 16u128) & 15u128 == (b >> 16u128) & 15u128,
        (a >> 12u128) & 15u128 == (b >> 12u128) & 15u128,
        (a >> 8u128) & 15u128 == (b >> 8u128) & 15u128,
        (a >> 4u128) & 15u128 == (b >> 4u128) & 15u128,
        (a >> 0u128) & 15u128 == (b >> 0u128) & 15u128,
    ;
}

/// Two different connection ids have different texts, so a store record
/// that names a newer connection is never taken for the one that closed.
pub proof fn law_connection_text_distinct(a: u128, b: u128)
    requires
        a != b,
    ensures
        uuid_text_of(a) != uuid_text_of(b),
{
    if uuid_text_of(a) == uuid_text_of(b) {
        assert forall|k: int| 0 <= k < 32 implies #[trigger] nibble(a, k) == nibble(b, k) by {
            let j = if k < 8 { k } else if k < 12 { k + 1 } else if k < 16 { k + 2 } else if k < 20 { k + 3 } else { k + 4 };
            assert(uuid_text_of(a)[j] == uuid_text_of(b)[j]);
            lemma_nibble_range(a, k);
            lemma_nibble_range(b, k);
        }
        lemma_nibbles_determine(a, b);
    }
}

} // verus!
