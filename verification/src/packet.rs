//! The binary packet codec: a fixed 16-byte big-endian header followed by a
//! body whose interpretation is selected by the `proto_code` header field.

use vstd::prelude::*;

verus! {

use crate::text::{dec_chars, escape_chars, push_dec, push_escaped};
use vstd::slice::{slice_subrange, slice_to_vec};
use vstd::string::{StrSliceExecFns, StringExecFns};
use vstd::utf8::encode_utf8;

// ---------------------------------------------------------------------------
// Big-endian integers on the wire
// ---------------------------------------------------------------------------

/// The four bytes of `x` in big-endian order.
pub open spec fn be32(x: u32) -> Seq<u8> {
    seq![
        ((x >> 24) & 0xff) as u8,
        ((x >> 16) & 0xff) as u8,
        ((x >> 8) & 0xff) as u8,
        (x & 0xff) as u8,
    ]
}

/// The two bytes of `x` in big-endian order.
pub open spec fn be16(x: u16) -> Seq<u8> {
    seq![((x >> 8) & 0xff) as u8, (x & 0xff) as u8]
}

/// The `u32` read from four big-endian bytes.
pub open spec fn u32_from_be(s: Seq<u8>) -> u32
    recommends
        s.len() == 4,
{
    ((s[0] as u32) << 24) | ((s[1] as u32) << 16) | ((s[2] as u32) << 8) | (s[3] as u32)
}

/// The `u16` read from two big-endian bytes.
pub open spec fn u16_from_be(s: Seq<u8>) -> u16
    recommends
        s.len() == 2,
{
    ((s[0] as u16) << 8) | (s[1] as u16)
}

pub proof fn lemma_be32_round_trip(x: u32)
    ensures
        u32_from_be(be32(x)) == x,
{
    assert(((((x >> 24) & 0xff) as u8 as u32) << 24) | ((((x >> 16) & 0xff) as u8 as u32) << 16)
        | ((((x >> 8) & 0xff) as u8 as u32) << 8) | (((x & 0xff) as u8) as u32) == x)
        by (bit_vector);
}

pub proof fn lemma_be16_round_trip(x: u16)
    ensures
        u16_from_be(be16(x)) == x,
{
    assert(((((x >> 8) & 0xff) as u8 as u16) << 8) | (((x & 0xff) as u8) as u16) == x)
        by (bit_vector);
}

/// Appends the four big-endian bytes of `val`.
pub fn write_u32_be(out: &mut Vec<u8>, val: u32)
    ensures
        final(out)@ == old(out)@ + be32(val),
{
    proof {
        assert((val >> 24) & 0xff < 256 && (val >> 16) & 0xff < 256 && (val >> 8) & 0xff < 256
            && val & 0xff < 256) by (bit_vector);
    }
    out.push(((val >> 24) & 0xff) as u8);
    out.push(((val >> 16) & 0xff) as u8);
    out.push(((val >> 8) & 0xff) as u8);
    out.push((val & 0xff) as u8);
    proof {
        assert(out@ =~= old(out)@ + be32(val));
    }
}

/// Appends the two big-endian bytes of `val`.
pub fn write_u16_be(out: &mut Vec<u8>, val: u16)
    ensures
        final(out)@ == old(out)@ + be16(val),
{
    proof {
        assert((val >> 8) & 0xff < 256 && val & 0xff < 256) by (bit_vector);
    }
    out.push(((val >> 8) & 0xff) as u8);
    out.push((val & 0xff) as u8);
    proof {
        assert(out@ =~= old(out)@ + be16(val));
    }
}

/// Reads a big-endian `u32` at offset `at`.
pub fn read_u32_be(buffer: &[u8], at: usize) -> (r: u32)
    requires
        at + 4 <= buffer@.len(),
    ensures
        r == u32_from_be(buffer@.subrange(at as int, at as int + 4)),
{
    let b0 = buffer[at];
    let b1 = buffer[at + 1];
    let b2 = buffer[at + 2];
    let b3 = buffer[at + 3];
    ((b0 as u32) << 24) | ((b1 as u32) << 16) | ((b2 as u32) << 8) | (b3 as u32)
}

/// Reads a big-endian `u16` at offset `at`.
pub fn read_u16_be(buffer: &[u8], at: usize) -> (r: u16)
    requires
        at + 2 <= buffer@.len(),
    ensures
        r == u16_from_be(buffer@.subrange(at as int, at as int + 2)),
{
    let b0 = buffer[at];
    let b1 = buffer[at + 1];
    ((b0 as u16) << 8) | (b1 as u16)
}

// ---------------------------------------------------------------------------
// Frames
// ---------------------------------------------------------------------------

/// The mathematical value of one frame: the five header fields and the body.
pub struct FrameModel {
    pub size: u32,
    pub header_size: u16,
    pub proto_code: u16,
    pub opcode: u32,
    pub sequence: u32,
    pub data: Seq<u8>,
}

#[derive(Debug, Clone)]
struct RawPacketHead {
    size: u32,
    header_size: u16,
    proto_code: u16,
    opcode: u32,
    sequence: u32,
}

#[derive(Debug, Clone)]
struct RawPacketData(Vec<u8>);

/// One protocol frame: header plus body.
#[derive(Debug, Clone)]
pub struct RawPacket {
    head: RawPacketHead,
    data: RawPacketData,
}

impl View for RawPacket {
    type V = FrameModel;

    closed spec fn view(&self) -> FrameModel {
        FrameModel {
            size: self.head.size,
            header_size: self.head.header_size,
            proto_code: self.head.proto_code,
            opcode: self.head.opcode,
            sequence: self.head.sequence,
            data: self.data.0@,
        }
    }
}

impl DeepView for RawPacket {
    type V = FrameModel;

    open spec fn deep_view(&self) -> FrameModel {
        self.view()
    }
}

/// The serialized form of a frame: 16-byte big-endian header, then the body.
pub open spec fn ser_bytes(p: FrameModel) -> Seq<u8> {
    be32(p.size) + be16(p.header_size) + be16(p.proto_code) + be32(p.opcode) + be32(p.sequence)
        + p.data
}

/// The frame read back from a buffer holding exactly one serialized frame:
/// the five header fields, and everything after byte 16 as the body.
pub open spec fn parse_bytes(b: Seq<u8>) -> FrameModel
    recommends
        b.len() >= 16,
{
    FrameModel {
        size: u32_from_be(b.subrange(0, 4)),
        header_size: u16_from_be(b.subrange(4, 6)),
        proto_code: u16_from_be(b.subrange(6, 8)),
        opcode: u32_from_be(b.subrange(8, 12)),
        sequence: u32_from_be(b.subrange(12, 16)),
        data: b.skip(16),
    }
}

/// The frame produced by `RawPacket::build`: an uncompressed (`proto_code` 1)
/// frame whose `size` counts the header and the body.
pub open spec fn build_model(op: Operation, data: Seq<u8>) -> FrameModel
    recommends
        data.len() + 16 <= u32::MAX,
{
    FrameModel {
        size: (16 + data.len()) as u32,
        header_size: 16,
        proto_code: 1,
        opcode: opcode_of(op),
        sequence: 1,
        data: data,
    }
}

/// The body of the fixed heartbeat frame: the 15 ASCII bytes `[object Object]`.
pub open spec fn heartbeat_body() -> Seq<u8> {
    seq![91u8, 111, 98, 106, 101, 99, 116, 32, 79, 98, 106, 101, 99, 116, 93]
}

/// The fixed heartbeat frame.
pub open spec fn heartbeat_model() -> FrameModel {
    FrameModel {
        size: 31,
        header_size: 16,
        proto_code: 1,
        opcode: 2,
        sequence: 1,
        data: heartbeat_body(),
    }
}

impl RawPacket {
    /// The fixed keepalive frame. Its body is a protocol quirk that must be
    /// reproduced byte for byte.
    pub fn heartbeat() -> (r: Self)
        ensures
            r@ == heartbeat_model(),
    {
        let mut body: Vec<u8> = Vec::new();
        body.push(91);
        body.push(111);
        body.push(98);
        body.push(106);
        body.push(101);
        body.push(99);
        body.push(116);
        body.push(32);
        body.push(79);
        body.push(98);
        body.push(106);
        body.push(101);
        body.push(99);
        body.push(116);
        body.push(93);
        proof {
            assert(body@ =~= heartbeat_body());
        }
        RawPacket {
            head: RawPacketHead {
                size: 31,
                header_size: 16,
                proto_code: 1,
                opcode: 2,
                sequence: 1,
            },
            data: RawPacketData(body),
        }
    }

    /// Parses one frame from a buffer that holds exactly one frame's bytes.
    /// The buffer length is not checked against the `size` field; the
    /// transport delivers one frame per message.
    pub fn from_buffer(buffer: &[u8]) -> (r: Self)
        requires
            buffer@.len() >= 16,
        ensures
            r@ == parse_bytes(buffer@),
    {
        let size = read_u32_be(buffer, 0);
        let header_size = read_u16_be(buffer, 4);
        let version = read_u16_be(buffer, 6);
        let opcode = read_u32_be(buffer, 8);
        let sequence = read_u32_be(buffer, 12);
        let data = slice_to_vec(slice_subrange(buffer, 16, buffer.len()));
        proof {
            assert(buffer@.subrange(16, buffer@.len() as int) =~= buffer@.skip(16));
        }
        RawPacket {
            head: RawPacketHead { size, header_size, proto_code: version, opcode, sequence },
            data: RawPacketData(data),
        }
    }

    /// Builds an uncompressed frame around `data`.
    pub fn build(op: Operation, data: Vec<u8>) -> (r: Self)
        requires
            data@.len() + 16 <= u32::MAX,
        ensures
            r@ == build_model(op, data@),
    {
        let size = (16 + data.len()) as u32;
        let opcode = opcode_value(&op);
        RawPacket {
            head: RawPacketHead { size, header_size: 16, proto_code: 1, opcode, sequence: 1 },
            data: RawPacketData(data),
        }
    }

    /// Serializes the frame: header fields in order, big-endian, then the
    /// body verbatim.
    pub fn ser(self) -> (r: Vec<u8>)
        ensures
            r@ == ser_bytes(self@),
    {
        let ghost m = self@;
        let RawPacket { head, data } = self;
        let mut buffer: Vec<u8> = Vec::new();
        write_u32_be(&mut buffer, head.size);
        write_u16_be(&mut buffer, head.header_size);
        write_u16_be(&mut buffer, head.proto_code);
        write_u32_be(&mut buffer, head.opcode);
        write_u32_be(&mut buffer, head.sequence);
        let mut body = data.0;
        buffer.append(&mut body);
        proof {
            assert(buffer@ =~= ser_bytes(m));
        }
        buffer
    }
}

/// The round trip of the codec: any frame built by `build` comes back
/// unchanged from `parse_bytes` after `ser_bytes`.
pub proof fn lemma_build_ser_parse_round_trip(op: Operation, data: Seq<u8>)
    requires
        data.len() + 16 <= u32::MAX,
    ensures
        parse_bytes(ser_bytes(build_model(op, data))) == build_model(op, data),
{
    lemma_ser_parse_round_trip(build_model(op, data));
}

/// Serialization inverts parsing for every frame whose fields are
/// unconstrained: `parse_bytes` recovers each header field and the body.
pub proof fn lemma_ser_parse_round_trip(p: FrameModel)
    ensures
        parse_bytes(ser_bytes(p)) == p,
{
    let b = ser_bytes(p);
    assert(b.subrange(0, 4) =~= be32(p.size));
    assert(b.subrange(4, 6) =~= be16(p.header_size));
    assert(b.subrange(6, 8) =~= be16(p.proto_code));
    assert(b.subrange(8, 12) =~= be32(p.opcode));
    assert(b.subrange(12, 16) =~= be32(p.sequence));
    assert(b.skip(16) =~= p.data);
    lemma_be32_round_trip(p.size);
    lemma_be16_round_trip(p.header_size);
    lemma_be16_round_trip(p.proto_code);
    lemma_be32_round_trip(p.opcode);
    lemma_be32_round_trip(p.sequence);
}

// ---------------------------------------------------------------------------
// Operation codes
// ---------------------------------------------------------------------------

/// The closed enumeration of frame operation codes.
#[derive(Debug)]
pub enum Operation {
    Handshake,
    HandshakeReply,
    Heartbeat,
    HeartbeatReply,
    SendMsg,
    SendMsgReply,
    DisconnectReply,
    Auth,
    AuthReply,
    ProtoReady,
    ProtoFinish,
    ChangeRoom,
    ChangeRoomReply,
    Register,
    RegisterReply,
    Unregister,
    UnregisterReply,
}

/// The wire value of each operation code.
pub open spec fn opcode_of(op: Operation) -> u32 {
    match op {
        Operation::Handshake => 0,
        Operation::HandshakeReply => 1,
        Operation::Heartbeat => 2,
        Operation::HeartbeatReply => 3,
        Operation::SendMsg => 4,
        Operation::SendMsgReply => 5,
        Operation::DisconnectReply => 6,
        Operation::Auth => 7,
        Operation::AuthReply => 8,
        Operation::ProtoReady => 9,
        Operation::ProtoFinish => 10,
        Operation::ChangeRoom => 11,
        Operation::ChangeRoomReply => 12,
        Operation::Register => 13,
        Operation::RegisterReply => 14,
        Operation::Unregister => 15,
        Operation::UnregisterReply => 16,
    }
}

fn opcode_value(op: &Operation) -> (r: u32)
    ensures
        r == opcode_of(*op),
{
    match op {
        Operation::Handshake => 0,
        Operation::HandshakeReply => 1,
        Operation::Heartbeat => 2,
        Operation::HeartbeatReply => 3,
        Operation::SendMsg => 4,
        Operation::SendMsgReply => 5,
        Operation::DisconnectReply => 6,
        Operation::Auth => 7,
        Operation::AuthReply => 8,
        Operation::ProtoReady => 9,
        Operation::ProtoFinish => 10,
        Operation::ChangeRoom => 11,
        Operation::ChangeRoomReply => 12,
        Operation::Register => 13,
        Operation::RegisterReply => 14,
        Operation::Unregister => 15,
        Operation::UnregisterReply => 16,
    }
}

// ---------------------------------------------------------------------------
// Decoded payloads
// ---------------------------------------------------------------------------

/// One decoded payload unit: the raw bytes of a structured (JSON) value, a
/// popularity counter, or the undecodable legacy compressed form.
#[derive(Debug, Clone)]
pub enum Data {
    Json(Vec<u8>),
    Popularity(u32),
    Deflate(String),
}

/// The mathematical value of one decoded payload unit.
pub enum DataModel {
    Json(Seq<u8>),
    Popularity(u32),
    Deflate(Seq<char>),
}

impl View for Data {
    type V = DataModel;

    open spec fn view(&self) -> DataModel {
        match self {
            Data::Json(b) => DataModel::Json(b@),
            Data::Popularity(n) => DataModel::Popularity(*n),
            Data::Deflate(s) => DataModel::Deflate(s@),
        }
    }
}

impl DeepView for Data {
    type V = DataModel;

    open spec fn deep_view(&self) -> DataModel {
        self.view()
    }
}

// ---------------------------------------------------------------------------
// Outside calls of the decoder
// ---------------------------------------------------------------------------

/// Whether `bytes` parse as one structured (JSON) value.
pub uninterp spec fn json_ok(bytes: Seq<u8>) -> bool;

/// Relies on serde_json::from_slice::<serde_json::Value>: whether the bytes
/// parse as one JSON value depends on the bytes alone.
#[verifier::external_body]
fn json_valid(data: &Vec<u8>) -> (r: bool)
    ensures
        r == json_ok(data@),
{
    serde_json::from_slice::<serde_json::Value>(data.as_slice()).is_ok()
}

/// Whether `bytes` are a well-formed brotli stream.
pub uninterp spec fn brotli_ok(bytes: Seq<u8>) -> bool;

/// The decompressed form of a well-formed brotli stream `bytes`.
pub uninterp spec fn brotli_out(bytes: Seq<u8>) -> Seq<u8>;

/// Relies on brotli::Decompressor (read through std::io::Read::read_to_end):
/// whether the stream decompresses, and to what, depends on the bytes alone.
#[verifier::external_body]
fn brotli_decompress(data: &Vec<u8>) -> (r: Option<Vec<u8>>)
    ensures
        r is Some <==> brotli_ok(data@),
        r matches Some(out) ==> out@ == brotli_out(data@),
{
    let reader = std::io::Cursor::new(data.as_slice());
    let mut decompressor = brotli::Decompressor::new(reader, 4096);
    let mut buffer = Vec::new();
    match std::io::Read::read_to_end(&mut decompressor, &mut buffer) {
        Ok(_) => Some(buffer),
        Err(_) => None,
    }
}

// ---------------------------------------------------------------------------
// Frame sequences and the decode cascade
// ---------------------------------------------------------------------------

/// The frames read from a buffer that holds a concatenation of serialized
/// frames: each step takes `size` bytes as one frame and continues behind
/// them. A remainder too short for a header, or with a `size` field that is
/// smaller than a header or overruns the buffer, is malformed and dropped.
pub open spec fn parse_frames(b: Seq<u8>) -> Seq<FrameModel>
    decreases b.len(),
{
    if b.len() < 16 {
        Seq::empty()
    } else {
        let size = u32_from_be(b.subrange(0, 4)) as int;
        if size < 16 || size > b.len() {
            Seq::empty()
        } else {
            seq![parse_bytes(b.take(size))] + parse_frames(b.skip(size))
        }
    }
}

/// How many nesting levels of compressed frames the decoder unfolds. Deeper
/// nesting is treated like a decompression failure and yields nothing.
pub const DECODE_DEPTH: u32 = 32;

/// What one frame decodes to, unfolding at most `fuel` levels of compressed
/// nesting:
/// - `proto_code` 0: one `Json` payload if the body parses, else nothing;
/// - `proto_code` 1: the big-endian counter in the first four body bytes,
///   nothing if the body is shorter;
/// - `proto_code` 2: the unsupported legacy compression, nothing;
/// - `proto_code` 3: the body is decompressed, re-framed, and each recovered
///   frame is decoded in order; nothing if decompression fails;
/// - anything else: nothing.
pub open spec fn decode_one(p: FrameModel, fuel: nat) -> Seq<DataModel>
    decreases fuel, 0nat, 0nat,
{
    if p.proto_code == 0 {
        if json_ok(p.data) {
            seq![DataModel::Json(p.data)]
        } else {
            Seq::empty()
        }
    } else if p.proto_code == 1 {
        if p.data.len() >= 4 {
            seq![DataModel::Popularity(u32_from_be(p.data.subrange(0, 4)))]
        } else {
            Seq::empty()
        }
    } else if p.proto_code == 3 {
        if brotli_ok(p.data) && fuel > 0 {
            decode_all(parse_frames(brotli_out(p.data)), (fuel - 1) as nat)
        } else {
            Seq::empty()
        }
    } else {
        Seq::empty()
    }
}

/// What a sequence of frames decodes to: each frame's payloads, flattened in
/// order.
pub open spec fn decode_all(frames: Seq<FrameModel>, fuel: nat) -> Seq<DataModel>
    decreases fuel, frames.len(), 1nat,
{
    if frames.len() == 0 {
        Seq::empty()
    } else {
        decode_one(frames[0], fuel) + decode_all(frames.skip(1), fuel)
    }
}

impl RawPacket {
    /// Splits a buffer recovered from decompression into its frames.
    pub fn from_buffers(buffer: &[u8]) -> (r: Vec<RawPacket>)
        ensures
            r.deep_view() == parse_frames(buffer@),
    {
        let mut packets: Vec<RawPacket> = Vec::new();
        let mut ptr: usize = 0;
        proof {
            assert(buffer@.skip(0) =~= buffer@);
            assert(packets.deep_view() + parse_frames(buffer@) =~= parse_frames(buffer@));
        }
        loop
            invariant
                ptr <= buffer@.len(),
                parse_frames(buffer@) == packets.deep_view() + parse_frames(
                    buffer@.skip(ptr as int),
                ),
            ensures
                parse_frames(buffer@.skip(ptr as int)) == Seq::<FrameModel>::empty(),
            decreases buffer@.len() - ptr,
        {
            let ghost rest = buffer@.skip(ptr as int);
            if buffer.len() - ptr < 16 {
                proof {
                    assert(parse_frames(rest) == Seq::<FrameModel>::empty());
                }
                break;
            }
            let size = read_u32_be(buffer, ptr);
            proof {
                assert(rest.subrange(0, 4) =~= buffer@.subrange(ptr as int, ptr as int + 4));
            }
            if size < 16 || (size as usize) > buffer.len() - ptr {
                proof {
                    assert(parse_frames(rest) == Seq::<FrameModel>::empty());
                }
                break;
            }
            let end = ptr + size as usize;
            let frame = Self::from_buffer(slice_subrange(buffer, ptr, end));
            let ghost pv = packets.deep_view();
            proof {
                assert(rest.take(size as int) =~= buffer@.subrange(ptr as int, end as int));
                assert(rest.skip(size as int) =~= buffer@.skip(end as int));
                assert(parse_frames(rest) == seq![parse_bytes(rest.take(size as int))]
                    + parse_frames(rest.skip(size as int)));
                assert((pv + seq![frame@]) + parse_frames(buffer@.skip(end as int)) =~= pv + (
                seq![frame@] + parse_frames(buffer@.skip(end as int))));
            }
            packets.push(frame);
            proof {
                assert(packets.deep_view() =~= pv + seq![frame@]);
            }
            ptr = end;
        }
        proof {
            assert(packets.deep_view() + Seq::<FrameModel>::empty() =~= packets.deep_view());
        }
        packets
    }

    fn decode_rec(self, fuel: u32) -> (r: Vec<Data>)
        ensures
            r.deep_view() == decode_one(self@, fuel as nat),
        decreases fuel,
    {
        let ghost m = self@;
        let RawPacket { head, data } = self;
        let body: Vec<u8> = data.0;
        let mut out: Vec<Data> = Vec::new();
        if head.proto_code == 0 {
            if json_valid(&body) {
                out.push(Data::Json(body));
                proof {
                    assert(out.deep_view() =~= decode_one(m, fuel as nat));
                }
            } else {
                proof {
                    assert(out.deep_view() =~= decode_one(m, fuel as nat));
                }
            }
        } else if head.proto_code == 1 {
            if body.len() >= 4 {
                let popularity = read_u32_be(body.as_slice(), 0);
                out.push(Data::Popularity(popularity));
            }
            proof {
                assert(out.deep_view() =~= decode_one(m, fuel as nat));
            }
        } else if head.proto_code == 3 && fuel > 0 {
            match brotli_decompress(&body) {
                Some(buffer) => {
                    let ghost subfuel = (fuel - 1) as nat;
                    let mut frames = Self::from_buffers(buffer.as_slice());
                    let ghost all = frames.deep_view();
                    proof {
                        assert(out.deep_view() =~= Seq::<DataModel>::empty());
                        assert(Seq::<DataModel>::empty() + decode_all(all, subfuel) =~= decode_all(
                            all,
                            subfuel,
                        ));
                    }
                    while frames.len() > 0
                        invariant
                            decode_all(all, subfuel) == out.deep_view() + decode_all(
                                frames.deep_view(),
                                subfuel,
                            ),
                            fuel >= 1,
                            subfuel == (fuel - 1) as nat,
                        decreases frames@.len(),
                    {
                        let ghost fv = frames.deep_view();
                        let ghost ov = out.deep_view();
                        proof {
                            assert(fv.len() > 0);
                            assert(decode_all(fv, subfuel) == decode_one(fv[0], subfuel)
                                + decode_all(fv.skip(1), subfuel));
                        }
                        let frame = frames.remove(0);
                        proof {
                            assert(frame@ == fv[0]);
                            assert(frames.deep_view() =~= fv.skip(1));
                        }
                        let mut sub = frame.decode_rec(fuel - 1);
                        let ghost sv = sub.deep_view();
                        out.append(&mut sub);
                        proof {
                            assert(out.deep_view() =~= ov + sv);
                            assert((ov + sv) + decode_all(fv.skip(1), subfuel) =~= ov + (sv
                                + decode_all(fv.skip(1), subfuel)));
                        }
                    }
                    proof {
                        assert(frames.deep_view().len() == 0);
                        assert(decode_all(frames.deep_view(), subfuel) == Seq::<
                            DataModel,
                        >::empty());
                        assert(out.deep_view() + Seq::<DataModel>::empty() =~= out.deep_view());
                        assert(out.deep_view() == decode_one(m, fuel as nat));
                    }
                },
                None => {
                    proof {
                        assert(out.deep_view() =~= decode_one(m, fuel as nat));
                    }
                },
            }
        } else {
            proof {
                assert(out.deep_view() =~= decode_one(m, fuel as nat));
            }
        }
        out
    }

    /// Decodes the frame's body as selected by `proto_code`, unfolding
    /// compressed frames recursively. Malformed bodies yield an empty result,
    /// never a failure.
    pub fn get_datas(self) -> (r: Vec<Data>)
        ensures
            r.deep_view() == decode_one(self@, DECODE_DEPTH as nat),
    {
        self.decode_rec(DECODE_DEPTH)
    }
}

/// A malformed body yields an empty decode result for every payload kind: a
/// body that does not parse as JSON for kind 0, one shorter than a counter
/// for kind 1, the unsupported legacy kind 2, a body that does not
/// decompress for kind 3, and every unknown kind.
pub proof fn lemma_malformed_body_empty(p: FrameModel, fuel: nat)
    requires
        (p.proto_code == 0 && !json_ok(p.data)) || (p.proto_code == 1 && p.data.len() < 4) || (
        p.proto_code == 3 && !brotli_ok(p.data)) || p.proto_code == 2 || p.proto_code > 3,
    ensures
        decode_one(p, fuel) == Seq::<DataModel>::empty(),
{
}

/// The recursive decompression case: a compressed frame whose decompressed
/// body is the concatenation of two well-formed structured frames decodes to
/// exactly their two structured payloads, in order.
pub proof fn lemma_nested_frames_decode(p: FrameModel, f1: FrameModel, f2: FrameModel)
    requires
        p.proto_code == 3,
        brotli_ok(p.data),
        brotli_out(p.data) == ser_bytes(f1) + ser_bytes(f2),
        f1.proto_code == 0 && json_ok(f1.data) && f1.size == 16 + f1.data.len(),
        f2.proto_code == 0 && json_ok(f2.data) && f2.size == 16 + f2.data.len(),
    ensures
        decode_one(p, DECODE_DEPTH as nat) == seq![
            DataModel::Json(f1.data),
            DataModel::Json(f2.data),
        ],
{
    let buf = brotli_out(p.data);
    let b1 = ser_bytes(f1);
    let b2 = ser_bytes(f2);
    assert(b1.len() == 16 + f1.data.len());
    assert(b2.len() == 16 + f2.data.len());
    assert(buf.subrange(0, 4) =~= be32(f1.size));
    lemma_be32_round_trip(f1.size);
    assert(buf.take(f1.size as int) =~= b1);
    assert(buf.skip(f1.size as int) =~= b2);
    lemma_ser_parse_round_trip(f1);
    assert(b2.subrange(0, 4) =~= be32(f2.size));
    lemma_be32_round_trip(f2.size);
    assert(b2.take(f2.size as int) =~= b2);
    assert(b2.skip(f2.size as int) =~= Seq::<u8>::empty());
    lemma_ser_parse_round_trip(f2);
    let frames = parse_frames(buf);
    assert(parse_frames(b2.skip(f2.size as int)) =~= Seq::<FrameModel>::empty());
    assert(parse_frames(b2) =~= seq![f2]);
    assert(frames =~= seq![f1, f2]);
    let subfuel = (DECODE_DEPTH - 1) as nat;
    assert(frames.skip(1) =~= seq![f2]);
    assert(seq![f2].skip(1) =~= Seq::<FrameModel>::empty());
    assert(decode_one(f1, subfuel) =~= seq![DataModel::Json(f1.data)]);
    assert(decode_one(f2, subfuel) =~= seq![DataModel::Json(f2.data)]);
    assert(decode_all(seq![f2], subfuel) == decode_one(f2, subfuel) + decode_all(
        seq![f2].skip(1),
        subfuel,
    ));
    assert(decode_all(frames, subfuel) == decode_one(f1, subfuel) + decode_all(
        frames.skip(1),
        subfuel,
    ));
    assert(decode_all(frames, subfuel) =~= seq![
        DataModel::Json(f1.data),
        DataModel::Json(f2.data),
    ]);
    assert(decode_one(p, DECODE_DEPTH as nat) == decode_all(frames, subfuel));
}

impl PartialEq for RawPacket {
    fn eq(&self, other: &Self) -> (r: bool) {
        let r = self.head.size == other.head.size && self.head.header_size
            == other.head.header_size && self.head.proto_code == other.head.proto_code
            && self.head.opcode == other.head.opcode && self.head.sequence == other.head.sequence
            && self.data.0 == other.data.0;
        proof {
            if r {
                assert(self.data.0@ =~= other.data.0@);
            }
            if self@ == other@ {
                assert(self.data.0@.len() == other.data.0@.len());
                assert(forall|i: int|
                    0 <= i < self.data.0@.len() ==> self.data.0@[i] == other.data.0@[i]);
            }
        }
        r
    }
}

impl vstd::std_specs::cmp::PartialEqSpecImpl for RawPacket {
    open spec fn obeys_eq_spec() -> bool {
        true
    }

    open spec fn eq_spec(&self, other: &Self) -> bool {
        self@ == other@
    }
}

// ---------------------------------------------------------------------------
// The Auth message
// ---------------------------------------------------------------------------

/// The prefix of the Auth JSON text, up to and including the `"key":` label.
/// Protocol version, platform and message type are fixed by this client.
pub open spec fn auth_json_prefix(uid: u64, roomid: u64) -> Seq<char> {
    "{\"uid\":"@ + dec_chars(uid as nat) + ",\"roomid\":"@ + dec_chars(roomid as nat)
        + ",\"protover\":3,\"platform\":\"web\",\"type\":2,\"key\":"@
}

/// The full Auth JSON text: the session token as an escaped JSON string, or
/// `null` where no token is required.
pub open spec fn auth_json_chars(uid: u64, roomid: u64, key: Option<Seq<char>>) -> Seq<char> {
    match key {
        Some(k) => auth_json_prefix(uid, roomid) + "\""@ + escape_chars(k) + "\""@ + "}"@,
        None => auth_json_prefix(uid, roomid) + "null"@ + "}"@,
    }
}

/// The credentials sent once at session start.
#[derive(Debug, Clone)]
pub struct Auth {
    uid: u64,
    roomid: u64,
    protover: i32,
    platform: &'static str,
    auth_type: i32,
    key: Option<String>,
}

impl Auth {
    pub closed spec fn spec_uid(&self) -> u64 {
        self.uid
    }

    pub closed spec fn spec_roomid(&self) -> u64 {
        self.roomid
    }

    pub closed spec fn spec_key(&self) -> Option<Seq<char>> {
        match self.key {
            Some(k) => Some(k@),
            None => None,
        }
    }

    /// The JSON text this message serializes to.
    pub open spec fn json_chars(&self) -> Seq<char> {
        auth_json_chars(self.spec_uid(), self.spec_roomid(), self.spec_key())
    }

    pub fn new(uid: u64, roomid: u64, key: Option<String>) -> (r: Self)
        ensures
            r.spec_uid() == uid,
            r.spec_roomid() == roomid,
            key matches Some(k) ==> r.spec_key() matches Some(kc) && kc == k@,
            key is None ==> r.spec_key() is None,
    {
        Auth { uid, roomid, protover: 3, platform: "web", auth_type: 2, key }
    }

    /// Serializes the message as UTF-8 JSON text.
    pub fn ser(self) -> (r: Vec<u8>)
        ensures
            r@ == encode_utf8(self.json_chars()),
    {
        let mut s = String::new();
        s.append("{\"uid\":");
        proof {
            assert(Seq::<char>::empty() + "{\"uid\":"@ =~= "{\"uid\":"@);
        }
        push_dec(&mut s, self.uid);
        s.append(",\"roomid\":");
        push_dec(&mut s, self.roomid);
        s.append(",\"protover\":3,\"platform\":\"web\",\"type\":2,\"key\":");
        match &self.key {
            Some(k) => {
                s.append("\"");
                push_escaped(&mut s, k.as_str());
                s.append("\"");
            },
            None => {
                s.append("null");
            },
        }
        s.append("}");
        proof {
            assert(s@ == self.json_chars());
        }
        s.as_str().as_bytes_vec()
    }
}

// ---------------------------------------------------------------------------
// Dispatching decoded payloads
// ---------------------------------------------------------------------------

/// Why a decoded payload yields no dispatchable event.
#[derive(Debug)]
pub enum EventParseError {
    CmdDeserError(String),
    DeflateMessage,
}

/// What the event dispatcher does with one decoded payload: publish the
/// popularity counter directly, or hand the structured bytes to the external
/// domain-event decoder.
#[derive(Debug)]
pub enum DispatchAction {
    PublishPopularity(u32),
    DecodeStructured(Vec<u8>),
}

impl Data {
    /// The dispatch decision for one decoded payload. The undecodable legacy
    /// form is reported, never published.
    pub fn dispatch_action(self) -> (r: Result<DispatchAction, EventParseError>)
        ensures
            self@ matches DataModel::Json(b) ==> r matches Ok(DispatchAction::DecodeStructured(v))
                && v@ == b,
            self@ matches DataModel::Popularity(n) ==> r matches Ok(
                DispatchAction::PublishPopularity(m),
            ) && m == n,
            self@ matches DataModel::Deflate(s) ==> r matches Err(EventParseError::DeflateMessage),
    {
        match self {
            Data::Json(b) => Ok(DispatchAction::DecodeStructured(b)),
            Data::Popularity(n) => Ok(DispatchAction::PublishPopularity(n)),
            Data::Deflate(_) => Err(EventParseError::DeflateMessage),
        }
    }
}

} // verus!
