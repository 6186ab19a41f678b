//! The connection lifecycle state machine and the decisions of the session
//! pipeline. The lifecycle is a one-way, consuming progression from an
//! unresolved room id, through acquired credentials, to a live session; the
//! I/O that drives it (REST calls, the socket, the concurrent loops) stands
//! outside this library and feeds its outcomes back in as plain values.

use vstd::prelude::*;

verus! {

use crate::connector::{wss_chars, Host};
use crate::packet::{build_model, parse_bytes, ser_bytes, Auth, Operation, RawPacket};
use vstd::utf8::encode_utf8;

/// How many frames each bounded pipeline queue holds. A stalled consumer
/// exerts backpressure on producers instead of growing memory without bound.
pub const QUEUE_CAPACITY: usize = 64;

/// Seconds between keepalive frames. The cadence is not verified against any
/// server-side timeout; a backed-up outbound queue delays heartbeats.
pub const HEARTBEAT_INTERVAL_SECS: u64 = 30;

/// The bounded per-subscriber backlog of the event multicast; a subscriber
/// that falls behind silently misses the oldest events.
pub const EVENT_BACKLOG: usize = 128;

/// The lifecycle phase before the room id is resolved.
pub struct Uninited;

/// The lifecycle phase with credentials acquired: the session token and the
/// ordered candidate hosts.
pub struct Disconnected {
    key: String,
    host_list: Vec<Host>,
}

/// A room's connection lifecycle, owning one phase at a time.
pub struct RoomService<S> {
    roomid: u64,
    status: S,
}

impl<S> RoomService<S> {
    pub closed spec fn spec_roomid(&self) -> u64 {
        self.roomid
    }

    /// The room id this service is about.
    pub fn room_id(&self) -> (r: u64)
        ensures
            r == self.spec_roomid(),
    {
        self.roomid
    }
}

impl RoomService<()> {
    pub fn new(roomid: u64) -> (r: RoomService<Uninited>)
        ensures
            r.spec_roomid() == roomid,
    {
        RoomService { roomid, status: Uninited }
    }
}

impl RoomService<Uninited> {
    /// Applies the outcome of room resolution: a canonical id replaces the
    /// alias, an absent one leaves the id unchanged.
    pub fn with_room_id(self, resolved: Option<u64>) -> (r: RoomService<Uninited>)
        ensures
            r.spec_roomid() == match resolved {
                Some(id) => id,
                None => self.spec_roomid(),
            },
    {
        match resolved {
            Some(id) => RoomService { roomid: id, status: self.status },
            None => self,
        }
    }

    /// Enters the credentialed phase with the token and host list obtained
    /// from the external credential resolver.
    pub fn into_disconnected(self, key: String, host_list: Vec<Host>) -> (r: RoomService<
        Disconnected,
    >)
        ensures
            r.spec_roomid() == self.spec_roomid(),
            r.spec_key() == key@,
            r.spec_hosts() == host_list.deep_view(),
    {
        RoomService { roomid: self.roomid, status: Disconnected { key, host_list } }
    }
}

impl RoomService<Disconnected> {
    pub closed spec fn spec_key(&self) -> Seq<char> {
        self.status.key@
    }

    pub closed spec fn spec_hosts(&self) -> Seq<crate::connector::HostModel> {
        self.status.host_list.deep_view()
    }

    /// The URL this phase connects to — always the first host — or the
    /// immediate failure when the host list is empty. No I/O happens here.
    pub fn connect_url(&self) -> (r: Result<String, ConnectError>)
        ensures
            self.spec_hosts().len() == 0 <==> r is Err,
            r is Err ==> r matches Err(ConnectError::HostListIsEmpty),
            r matches Ok(u) ==> self.spec_hosts().len() > 0 && u@ == wss_chars(
                self.spec_hosts()[0].host,
                self.spec_hosts()[0].wss_port,
            ),
    {
        if self.status.host_list.is_empty() {
            return Err(ConnectError::HostListIsEmpty);
        }
        Ok(self.status.host_list[0].wss())
    }

    /// The Auth message this phase's handshake sends: uid 0, the canonical
    /// room id, and the stored session token.
    pub fn auth_message(&self) -> (r: Auth)
        ensures
            r.spec_uid() == 0,
            r.spec_roomid() == self.spec_roomid(),
            r.spec_key() matches Some(k) && k == self.spec_key(),
    {
        Auth::new(0, self.roomid, Some(self.status.key.clone()))
    }
}

/// Why `connect` fails from the credentialed phase.
#[derive(Debug)]
pub enum ConnectError {
    HostListIsEmpty,
    WsError(String),
}

// ---------------------------------------------------------------------------
// Session pipeline decisions
// ---------------------------------------------------------------------------

/// One message as the transport hands it over: a binary payload, the peer's
/// close, or any other (text or control) message.
pub enum StreamMessage {
    Binary(Vec<u8>),
    Close,
    Other,
}

/// What the inbound loop does with one transport message: deliver the parsed
/// frame to the inbound queue, stop at the peer's close, or skip the message.
pub enum InboundAction {
    Deliver(RawPacket),
    Stop,
    Skip,
}

/// The inbound loop's decision for one transport message. A binary message
/// too short for a frame header is dropped; only the peer's close ends the
/// loop.
pub fn inbound_step(msg: StreamMessage) -> (r: InboundAction)
    ensures
        msg is Binary && msg->Binary_0@.len() >= 16 ==> (r is Deliver && r->Deliver_0@
            == parse_bytes(msg->Binary_0@)),
        msg is Binary && msg->Binary_0@.len() < 16 ==> r is Skip,
        msg is Close ==> r is Stop,
        msg is Other ==> r is Skip,
{
    match msg {
        StreamMessage::Binary(b) => {
            if b.len() >= 16 {
                InboundAction::Deliver(RawPacket::from_buffer(b.as_slice()))
            } else {
                InboundAction::Skip
            }
        },
        StreamMessage::Close => InboundAction::Stop,
        StreamMessage::Other => InboundAction::Skip,
    }
}

/// The handshake's check of the single reply awaited after the Auth frame:
/// it must be a binary message holding at least a frame header; anything
/// else — closed stream, non-binary message — fails the handshake.
pub fn check_handshake_reply(reply: Option<StreamMessage>) -> (r: Option<RawPacket>)
    ensures
        (reply is Some && reply->0 is Binary && reply->0->Binary_0@.len() >= 16) <==> r is Some,
        r is Some ==> (reply->0 is Binary && r->0@ == parse_bytes(reply->0->Binary_0@)),
{
    match reply {
        Some(StreamMessage::Binary(b)) => {
            if b.len() >= 16 {
                Some(RawPacket::from_buffer(b.as_slice()))
            } else {
                None
            }
        },
        _ => None,
    }
}

/// The serialized Auth frame the handshake sends first, or nothing where the
/// serialized message is too large to frame.
pub fn auth_packet_bytes(auth: Auth) -> (r: Option<Vec<u8>>)
    ensures
        ({
            let body = encode_utf8(auth.json_chars());
            &&& (r is Some <==> body.len() + 16 <= u32::MAX)
            &&& (r matches Some(v) ==> v@ == ser_bytes(build_model(Operation::Auth, body)))
        }),
{
    let body = auth.ser();
    if body.len() <= (u32::MAX - 16) as usize {
        Some(RawPacket::build(Operation::Auth, body).ser())
    } else {
        None
    }
}

} // verus!
