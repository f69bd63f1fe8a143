//! The wire form of envelopes whose payload is already a string of bytes.
//!
//! An envelope is a tag byte followed, for a message, by the sender's path,
//! the recipient's id and the payload, which runs to the end. Integers are
//! little-endian; ids travel as 64-bit values. On a stream each envelope is
//! preceded by its length as a 64-bit value.

use crate::path::{ActorPath, HostAddr};
use crate::router::RoutingMessage;
use vstd::bytes::{
    lemma_auto_spec_u128_to_from_le_bytes, lemma_auto_spec_u16_to_from_le_bytes,
    lemma_auto_spec_u32_to_from_le_bytes, lemma_auto_spec_u64_to_from_le_bytes,
    spec_u128_from_le_bytes, spec_u128_to_le_bytes, spec_u16_from_le_bytes, spec_u16_to_le_bytes,
    spec_u32_from_le_bytes, spec_u32_to_le_bytes, spec_u64_from_le_bytes, spec_u64_to_le_bytes,
    u128_from_le_bytes, u128_to_le_bytes, u16_from_le_bytes, u16_to_le_bytes, u32_from_le_bytes,
    u32_to_le_bytes, u64_from_le_bytes, u64_to_le_bytes,
};
use vstd::prelude::*;
use vstd::slice::{slice_subrange, slice_to_vec};

verus! {

/// Tag of an acknowledgment.
pub const TAG_ACK: u8 = 0;

/// Tag of a message.
pub const TAG_MESSAGE: u8 = 1;

/// Tag of a local path.
pub const PATH_LOCAL: u8 = 0;

/// Tag of a remote path with an IPv4 endpoint.
pub const PATH_V4: u8 = 1;

/// Tag of a remote path with an IPv6 endpoint.
pub const PATH_V6: u8 = 2;

/// Why a string of bytes is no envelope.
#[derive(Clone, Copy, Debug, PartialEq, Eq, Structural)]
pub enum CodecError {
    /// The bytes end before the envelope does.
    Truncated,
    /// A tag byte has a value that stands for nothing.
    UnknownTag { tag: u8 },
    /// Bytes follow an acknowledgment.
    TrailingBytes,
    /// An id does not fit this machine's `usize`.
    IdOutOfRange,
    /// A frame announces more bytes than this machine can address.
    Oversized,
}

/// The eight bytes of an id.
pub open spec fn id_bytes(id: usize) -> Seq<u8> {
    spec_u64_to_le_bytes(id as u64)
}

/// The bytes of an endpoint, without a tag.
pub open spec fn host_bytes(addr: HostAddr) -> Seq<u8> {
    match addr {
        HostAddr::V4 { ip, port } => spec_u32_to_le_bytes(ip) + spec_u16_to_le_bytes(port),
        HostAddr::V6 { ip, port, flowinfo, scope_id } => spec_u128_to_le_bytes(ip)
            + spec_u16_to_le_bytes(port) + spec_u32_to_le_bytes(flowinfo) + spec_u32_to_le_bytes(
            scope_id,
        ),
    }
}

/// The tag that opens the bytes of a path.
pub open spec fn path_tag(path: ActorPath) -> u8 {
    match path {
        ActorPath::Local { .. } => PATH_LOCAL,
        ActorPath::Remote { addr: HostAddr::V4 { .. }, .. } => PATH_V4,
        ActorPath::Remote { addr: HostAddr::V6 { .. }, .. } => PATH_V6,
    }
}

/// The bytes of a path: its tag, the endpoint if it has one, and the id.
pub open spec fn path_bytes(path: ActorPath) -> Seq<u8> {
    match path {
        ActorPath::Local { id } => seq![PATH_LOCAL] + id_bytes(id),
        ActorPath::Remote { addr, id } => seq![path_tag(path)] + host_bytes(addr) + id_bytes(id),
    }
}

/// The bytes of an envelope.
pub open spec fn envelope_bytes(envelope: RoutingMessage<Seq<u8>>) -> Seq<u8> {
    match envelope {
        RoutingMessage::Ack => seq![TAG_ACK],
        RoutingMessage::Message { sender, recipient, message } => seq![TAG_MESSAGE] + path_bytes(
            sender,
        ) + id_bytes(recipient) + message,
    }
}

fn put_id(out: &mut Vec<u8>, id: usize)
    ensures
        final(out)@ == old(out)@ + id_bytes(id),
{
    let mut bytes = u64_to_le_bytes(id as u64);
    out.append(&mut bytes);
}

fn put_host(out: &mut Vec<u8>, addr: HostAddr)
    ensures
        final(out)@ == old(out)@ + host_bytes(addr),
{
    match addr {
        HostAddr::V4 { ip, port } => {
            let mut ip_bytes = u32_to_le_bytes(ip);
            let mut port_bytes = u16_to_le_bytes(port);
            out.append(&mut ip_bytes);
            out.append(&mut port_bytes);
            assert(out@ =~= old(out)@ + host_bytes(addr));
        },
        HostAddr::V6 { ip, port, flowinfo, scope_id } => {
            let mut ip_bytes = u128_to_le_bytes(ip);
            let mut port_bytes = u16_to_le_bytes(port);
            let mut flow_bytes = u32_to_le_bytes(flowinfo);
            let mut scope_bytes = u32_to_le_bytes(scope_id);
            out.append(&mut ip_bytes);
            out.append(&mut port_bytes);
            out.append(&mut flow_bytes);
            out.append(&mut scope_bytes);
            assert(out@ =~= old(out)@ + host_bytes(addr));
        },
    }
}

fn put_path(out: &mut Vec<u8>, path: ActorPath)
    ensures
        final(out)@ == old(out)@ + path_bytes(path),
{
    match path {
        ActorPath::Local { id } => {
            out.push(PATH_LOCAL);
            put_id(out, id);
        },
        ActorPath::Remote { addr, id } => {
            match addr {
                HostAddr::V4 { .. } => out.push(PATH_V4),
                HostAddr::V6 { .. } => out.push(PATH_V6),
            }
            put_host(out, addr);
            put_id(out, id);
        },
    }
    assert(out@ =~= old(out)@ + path_bytes(path));
}

/// Writes an envelope out as bytes.
pub fn encode(envelope: &RoutingMessage<Vec<u8>>) -> (out: Vec<u8>)
    ensures
        out@ == envelope_bytes(envelope@),
{
    let mut out: Vec<u8> = Vec::new();
    match envelope {
        RoutingMessage::Ack => {
            out.push(TAG_ACK);
        },
        RoutingMessage::Message { sender, recipient, message } => {
            out.push(TAG_MESSAGE);
            put_path(&mut out, *sender);
            put_id(&mut out, *recipient);
            let mut payload = slice_to_vec(message.as_slice());
            out.append(&mut payload);
        },
    }
    assert(out@ =~= envelope_bytes(envelope@));
    out
}

/// How many bytes the path with the tag `tag` takes, the tag included.
pub open spec fn path_len(tag: u8) -> int {
    if tag == PATH_LOCAL {
        9
    } else if tag == PATH_V4 {
        15
    } else {
        35
    }
}

/// The id that `bytes` begin with.
pub open spec fn parse_id(bytes: Seq<u8>) -> Result<usize, CodecError> {
    if bytes.len() < 8 {
        Err(CodecError::Truncated)
    } else if spec_u64_from_le_bytes(bytes.take(8)) > usize::MAX {
        Err(CodecError::IdOutOfRange)
    } else {
        Ok(spec_u64_from_le_bytes(bytes.take(8)) as usize)
    }
}

/// The endpoint of the kind `tag` that `bytes` begin with, where `bytes` are
/// long enough to hold one.
pub open spec fn parse_host(tag: u8, bytes: Seq<u8>) -> HostAddr {
    if tag == PATH_V4 {
        HostAddr::V4 {
            ip: spec_u32_from_le_bytes(bytes.subrange(0, 4)),
            port: spec_u16_from_le_bytes(bytes.subrange(4, 6)),
        }
    } else {
        HostAddr::V6 {
            ip: spec_u128_from_le_bytes(bytes.subrange(0, 16)),
            port: spec_u16_from_le_bytes(bytes.subrange(16, 18)),
            flowinfo: spec_u32_from_le_bytes(bytes.subrange(18, 22)),
            scope_id: spec_u32_from_le_bytes(bytes.subrange(22, 26)),
        }
    }
}

/// The path that `bytes` begin with.
pub open spec fn parse_path(bytes: Seq<u8>) -> Result<ActorPath, CodecError> {
    if bytes.len() == 0 {
        Err(CodecError::Truncated)
    } else if bytes[0] != PATH_LOCAL && bytes[0] != PATH_V4 && bytes[0] != PATH_V6 {
        Err(CodecError::UnknownTag { tag: bytes[0] })
    } else if bytes.len() < path_len(bytes[0]) {
        Err(CodecError::Truncated)
    } else {
        match parse_id(bytes.skip(path_len(bytes[0]) - 8)) {
            Err(e) => Err(e),
            Ok(id) => if bytes[0] == PATH_LOCAL {
                Ok(ActorPath::Local { id })
            } else {
                Ok(ActorPath::Remote { addr: parse_host(bytes[0], bytes.skip(1)), id })
            },
        }
    }
}

/// The envelope that `bytes` are, or why they are none.
pub open spec fn parse_envelope(bytes: Seq<u8>) -> Result<RoutingMessage<Seq<u8>>, CodecError> {
    if bytes.len() == 0 {
        Err(CodecError::Truncated)
    } else if bytes[0] == TAG_ACK {
        if bytes.len() == 1 {
            Ok(RoutingMessage::Ack)
        } else {
            Err(CodecError::TrailingBytes)
        }
    } else if bytes[0] == TAG_MESSAGE {
        match parse_path(bytes.skip(1)) {
            Err(e) => Err(e),
            Ok(sender) => match parse_id(bytes.skip(1 + path_len(path_tag(sender)))) {
                Err(e) => Err(e),
                Ok(recipient) => Ok(
                    RoutingMessage::Message {
                        sender,
                        recipient,
                        message: bytes.skip(1 + path_len(path_tag(sender)) + 8),
                    },
                ),
            },
        }
    } else {
        Err(CodecError::UnknownTag { tag: bytes[0] })
    }
}

/// What decoding gives, seen as bytes.
pub open spec fn decoded_view(r: Result<RoutingMessage<Vec<u8>>, CodecError>) -> Result<
    RoutingMessage<Seq<u8>>,
    CodecError,
> {
    match r {
        Ok(envelope) => Ok(envelope@),
        Err(e) => Err(e),
    }
}

fn take_id(bytes: &[u8], at: usize) -> (r: Result<usize, CodecError>)
    requires
        at <= bytes.len(),
    ensures
        r == parse_id(bytes@.skip(at as int)),
{
    if bytes.len() - at < 8 {
        return Err(CodecError::Truncated);
    }
    assert(bytes@.skip(at as int).take(8) =~= bytes@.subrange(at as int, at + 8));
    let value = u64_from_le_bytes(slice_subrange(bytes, at, at + 8));
    if value > usize::MAX as u64 {
        Err(CodecError::IdOutOfRange)
    } else {
        Ok(value as usize)
    }
}

fn take_host(bytes: &[u8], tag: u8, at: usize) -> (addr: HostAddr)
    requires
        tag == PATH_V4 || tag == PATH_V6,
        at + path_len(tag) - 9 <= bytes.len(),
    ensures
        addr == parse_host(tag, bytes@.skip(at as int)),
{
    let ghost rest = bytes@.skip(at as int);
    if tag == PATH_V4 {
        assert(rest.subrange(0, 4) =~= bytes@.subrange(at as int, at + 4));
        assert(rest.subrange(4, 6) =~= bytes@.subrange(at + 4, at + 6));
        HostAddr::V4 {
            ip: u32_from_le_bytes(slice_subrange(bytes, at, at + 4)),
            port: u16_from_le_bytes(slice_subrange(bytes, at + 4, at + 6)),
        }
    } else {
        assert(rest.subrange(0, 16) =~= bytes@.subrange(at as int, at + 16));
        assert(rest.subrange(16, 18) =~= bytes@.subrange(at + 16, at + 18));
        assert(rest.subrange(18, 22) =~= bytes@.subrange(at + 18, at + 22));
        assert(rest.subrange(22, 26) =~= bytes@.subrange(at + 22, at + 26));
        HostAddr::V6 {
            ip: u128_from_le_bytes(slice_subrange(bytes, at, at + 16)),
            port: u16_from_le_bytes(slice_subrange(bytes, at + 16, at + 18)),
            flowinfo: u32_from_le_bytes(slice_subrange(bytes, at + 18, at + 22)),
            scope_id: u32_from_le_bytes(slice_subrange(bytes, at + 22, at + 26)),
        }
    }
}

fn take_path(bytes: &[u8], at: usize) -> (r: Result<ActorPath, CodecError>)
    requires
        at <= bytes.len(),
    ensures
        r == parse_path(bytes@.skip(at as int)),
        r matches Ok(path) ==> at + path_len(path_tag(path)) <= bytes.len(),
{
    let ghost rest = bytes@.skip(at as int);
    if bytes.len() - at == 0 {
        return Err(CodecError::Truncated);
    }
    let tag = bytes[at];
    let len: usize = if tag == PATH_LOCAL {
        9
    } else if tag == PATH_V4 {
        15
    } else if tag == PATH_V6 {
        35
    } else {
        return Err(CodecError::UnknownTag { tag });
    };
    if bytes.len() - at < len {
        return Err(CodecError::Truncated);
    }
    assert(rest.skip(len - 8) =~= bytes@.skip(at + len - 8));
    assert(rest.skip(1) =~= bytes@.skip(at + 1));
    match take_id(bytes, at + len - 8) {
        Err(e) => Err(e),
        Ok(id) => if tag == PATH_LOCAL {
            Ok(ActorPath::Local { id })
        } else {
            Ok(ActorPath::Remote { addr: take_host(bytes, tag, at + 1), id })
        },
    }
}

/// Reads an envelope back from its bytes, or says why they are none.
pub fn decode(bytes: &[u8]) -> (r: Result<RoutingMessage<Vec<u8>>, CodecError>)
    ensures
        decoded_view(r) == parse_envelope(bytes@),
{
    if bytes.len() == 0 {
        return Err(CodecError::Truncated);
    }
    let tag = bytes[0];
    if tag == TAG_ACK {
        if bytes.len() == 1 {
            Ok(RoutingMessage::Ack)
        } else {
            Err(CodecError::TrailingBytes)
        }
    } else if tag == TAG_MESSAGE {
        match take_path(bytes, 1) {
            Err(e) => Err(e),
            Ok(sender) => {
                let at: usize = 1 + match sender {
                    ActorPath::Local { .. } => 9,
                    ActorPath::Remote { addr: HostAddr::V4 { .. }, .. } => 15,
                    ActorPath::Remote { addr: HostAddr::V6 { .. }, .. } => 35,
                };
                match take_id(bytes, at) {
                    Err(e) => Err(e),
                    Ok(recipient) => {
                        let message = slice_to_vec(slice_subrange(bytes, at + 8, bytes.len()));
                        assert(message@ =~= bytes@.skip(at + 8));
                        Ok(RoutingMessage::Message { sender, recipient, message })
                    },
                }
            },
        }
    } else {
        Err(CodecError::UnknownTag { tag })
    }
}

/// An id is read back from its bytes, whatever follows them.
pub proof fn lemma_parse_id_of_bytes(id: usize, rest: Seq<u8>)
    ensures
        id_bytes(id).len() == 8,
        parse_id(id_bytes(id) + rest) == Ok::<usize, CodecError>(id),
{
    lemma_auto_spec_u64_to_from_le_bytes();
    assert((id_bytes(id) + rest).take(8) =~= id_bytes(id));
}

/// The bytes that an id was read from are the bytes of that id.
pub proof fn lemma_bytes_of_parsed_id(bytes: Seq<u8>)
    requires
        parse_id(bytes) is Ok,
    ensures
        bytes.len() >= 8,
        id_bytes(parse_id(bytes)->Ok_0) == bytes.take(8),
{
    lemma_auto_spec_u64_to_from_le_bytes();
    let value = spec_u64_from_le_bytes(bytes.take(8));
    assert(value as usize as u64 == value);
    assert(spec_u64_to_le_bytes(spec_u64_from_le_bytes(bytes.take(8))) == bytes.take(8));
}

/// An endpoint is read back from its bytes, whatever follows them.
pub proof fn lemma_parse_host_of_bytes(addr: HostAddr, rest: Seq<u8>)
    ensures
        host_bytes(addr).len() + 9 == path_len(path_tag(ActorPath::Remote { addr, id: 0 })),
        parse_host(path_tag(ActorPath::Remote { addr, id: 0 }), host_bytes(addr) + rest) == addr,
{
    lemma_auto_spec_u16_to_from_le_bytes();
    lemma_auto_spec_u32_to_from_le_bytes();
    lemma_auto_spec_u128_to_from_le_bytes();
    let bytes = host_bytes(addr) + rest;
    match addr {
        HostAddr::V4 { ip, port } => {
            assert(bytes.subrange(0, 4) =~= spec_u32_to_le_bytes(ip));
            assert(bytes.subrange(4, 6) =~= spec_u16_to_le_bytes(port));
        },
        HostAddr::V6 { ip, port, flowinfo, scope_id } => {
            assert(bytes.subrange(0, 16) =~= spec_u128_to_le_bytes(ip));
            assert(bytes.subrange(16, 18) =~= spec_u16_to_le_bytes(port));
            assert(bytes.subrange(18, 22) =~= spec_u32_to_le_bytes(flowinfo));
            assert(bytes.subrange(22, 26) =~= spec_u32_to_le_bytes(scope_id));
        },
    }
}

/// The bytes that an endpoint was read from are the bytes of that endpoint.
pub proof fn lemma_bytes_of_parsed_host(tag: u8, bytes: Seq<u8>)
    requires
        tag == PATH_V4 || tag == PATH_V6,
        bytes.len() >= path_len(tag) - 9,
    ensures
        host_bytes(parse_host(tag, bytes)) == bytes.take(path_len(tag) - 9),
        path_tag(ActorPath::Remote { addr: parse_host(tag, bytes), id: 0 }) == tag,
{
    lemma_auto_spec_u16_to_from_le_bytes();
    lemma_auto_spec_u32_to_from_le_bytes();
    lemma_auto_spec_u128_to_from_le_bytes();
    if tag == PATH_V4 {
        let ip = bytes.subrange(0, 4);
        let port = bytes.subrange(4, 6);
        assert(spec_u32_to_le_bytes(spec_u32_from_le_bytes(ip)) == ip);
        assert(spec_u16_to_le_bytes(spec_u16_from_le_bytes(port)) == port);
        assert(ip + port =~= bytes.take(6));
    } else {
        let ip = bytes.subrange(0, 16);
        let port = bytes.subrange(16, 18);
        let flowinfo = bytes.subrange(18, 22);
        let scope_id = bytes.subrange(22, 26);
        assert(spec_u128_to_le_bytes(spec_u128_from_le_bytes(ip)) == ip);
        assert(spec_u16_to_le_bytes(spec_u16_from_le_bytes(port)) == port);
        assert(spec_u32_to_le_bytes(spec_u32_from_le_bytes(flowinfo)) == flowinfo);
        assert(spec_u32_to_le_bytes(spec_u32_from_le_bytes(scope_id)) == scope_id);
        assert(ip + port + flowinfo + scope_id =~= bytes.take(26));
    }
}

/// A path is read back from its bytes, whatever follows them.
pub proof fn lemma_parse_path_of_bytes(path: ActorPath, rest: Seq<u8>)
    ensures
        path_bytes(path).len() == path_len(path_tag(path)),
        parse_path(path_bytes(path) + rest) == Ok::<ActorPath, CodecError>(path),
{
    let bytes = path_bytes(path) + rest;
    match path {
        ActorPath::Local { id } => {
            lemma_parse_id_of_bytes(id, rest);
            assert(bytes.skip(1) =~= id_bytes(id) + rest);
        },
        ActorPath::Remote { addr, id } => {
            lemma_parse_id_of_bytes(id, rest);
            lemma_parse_host_of_bytes(addr, id_bytes(id) + rest);
            assert(bytes.skip(1) =~= host_bytes(addr) + (id_bytes(id) + rest));
            assert(bytes.skip(path_len(path_tag(path)) - 8) =~= id_bytes(id) + rest);
        },
    }
}

/// The bytes that a path was read from are the bytes of that path.
pub proof fn lemma_bytes_of_parsed_path(bytes: Seq<u8>)
    requires
        parse_path(bytes) is Ok,
    ensures
        bytes.len() >= path_len(path_tag(parse_path(bytes)->Ok_0)),
        path_bytes(parse_path(bytes)->Ok_0) == bytes.take(
            path_len(path_tag(parse_path(bytes)->Ok_0)),
        ),
{
    let tag = bytes[0];
    let len = path_len(tag);
    let path = parse_path(bytes)->Ok_0;
    lemma_bytes_of_parsed_id(bytes.skip(len - 8));
    assert(bytes.skip(len - 8).take(8) =~= bytes.subrange(len - 8, len));
    if tag == PATH_LOCAL {
        assert(path_bytes(path) =~= bytes.take(len));
    } else {
        lemma_bytes_of_parsed_host(tag, bytes.skip(1));
        assert(bytes.skip(1).take(len - 9) =~= bytes.subrange(1, len - 8));
        assert(path_bytes(path) =~= bytes.take(len));
    }
}

/// Decoding inverts encoding: whatever envelope is written out, reading the
/// bytes back gives that envelope, with the same sender, recipient and
/// payload.
pub proof fn lemma_decode_inverts_encode(envelope: RoutingMessage<Seq<u8>>)
    ensures
        parse_envelope(envelope_bytes(envelope)) == Ok::<RoutingMessage<Seq<u8>>, CodecError>(
            envelope,
        ),
{
    let bytes = envelope_bytes(envelope);
    match envelope {
        RoutingMessage::Ack => {},
        RoutingMessage::Message { sender, recipient, message } => {
            let tail = id_bytes(recipient) + message;
            lemma_parse_path_of_bytes(sender, tail);
            lemma_parse_id_of_bytes(recipient, message);
            let at = 1 + path_len(path_tag(sender));
            assert(bytes.skip(1) =~= path_bytes(sender) + tail);
            assert(bytes.skip(at) =~= tail);
            assert(bytes.skip(at + 8) =~= message);
        },
    }
}

/// Encoding inverts decoding: bytes that are read as an envelope are exactly
/// the bytes of that envelope, so no two strings of bytes stand for the same
/// envelope.
pub proof fn lemma_encode_inverts_decode(bytes: Seq<u8>)
    requires
        parse_envelope(bytes) is Ok,
    ensures
        envelope_bytes(parse_envelope(bytes)->Ok_0) == bytes,
{
    match parse_envelope(bytes)->Ok_0 {
        RoutingMessage::Ack => {
            assert(bytes =~= seq![TAG_ACK]);
        },
        RoutingMessage::Message { sender, recipient, message } => {
            let at = 1 + path_len(path_tag(sender));
            lemma_bytes_of_parsed_path(bytes.skip(1));
            lemma_bytes_of_parsed_id(bytes.skip(at));
            assert(bytes.skip(1).take(at - 1) =~= bytes.subrange(1, at));
            assert(bytes.skip(at).take(8) =~= bytes.subrange(at, at + 8));
            assert(bytes =~= seq![TAG_MESSAGE] + bytes.subrange(1, at) + bytes.subrange(
                at,
                at + 8,
            ) + bytes.skip(at + 8));
        },
    }
}

/// How many bytes of a frame precede its body.
pub const FRAME_HEADER_LEN: usize = 8;

/// What the front of a receive buffer holds.
#[derive(Clone, Copy, Debug, PartialEq, Eq, Structural)]
pub enum FrameStatus {
    /// Less than one whole frame: more bytes have to arrive.
    Incomplete,
    /// One whole frame: its body runs from the header's end to `end`.
    Ready { end: usize },
    /// The header announces a frame that can never be held.
    Oversized,
}

/// A body with its length in front.
pub open spec fn framed(body: Seq<u8>) -> Seq<u8> {
    spec_u64_to_le_bytes(body.len() as u64) + body
}

/// The body length that the first eight bytes of `buffer` announce.
pub open spec fn announced_len(buffer: Seq<u8>) -> int {
    spec_u64_from_le_bytes(buffer.take(8)) as int
}

/// What the front of `buffer` holds.
pub open spec fn frame_status(buffer: Seq<u8>) -> FrameStatus {
    if buffer.len() < 8 {
        FrameStatus::Incomplete
    } else if 8 + announced_len(buffer) > usize::MAX {
        FrameStatus::Oversized
    } else if buffer.len() < 8 + announced_len(buffer) {
        FrameStatus::Incomplete
    } else {
        FrameStatus::Ready { end: (8 + announced_len(buffer)) as usize }
    }
}

/// The bytes that carry an envelope on a stream.
pub open spec fn stream_bytes(envelope: RoutingMessage<Seq<u8>>) -> Seq<u8> {
    framed(envelope_bytes(envelope))
}

/// What the front of a receive buffer amounts to: nothing yet, an envelope
/// together with the number of bytes it took, or the reason why the stream
/// is broken.
pub open spec fn parse_stream(buffer: Seq<u8>) -> Result<
    Option<(RoutingMessage<Seq<u8>>, usize)>,
    CodecError,
> {
    match frame_status(buffer) {
        FrameStatus::Incomplete => Ok(None),
        FrameStatus::Oversized => Err(CodecError::Oversized),
        FrameStatus::Ready { end } => match parse_envelope(buffer.subrange(8, end as int)) {
            Ok(envelope) => Ok(Some((envelope, end))),
            Err(e) => Err(e),
        },
    }
}

/// Puts the length of `body` in front of it.
pub fn frame(body: &[u8]) -> (out: Vec<u8>)
    ensures
        out@ == framed(body@),
{
    let mut out = u64_to_le_bytes(body.len() as u64);
    let mut rest = slice_to_vec(body);
    out.append(&mut rest);
    out
}

/// Looks for one whole frame at the front of `buffer`.
pub fn split_frame(buffer: &[u8]) -> (status: FrameStatus)
    ensures
        status == frame_status(buffer@),
{
    if buffer.len() < FRAME_HEADER_LEN {
        return FrameStatus::Incomplete;
    }
    assert(buffer@.take(8) =~= buffer@.subrange(0, 8));
    let announced = u64_from_le_bytes(slice_subrange(buffer, 0, FRAME_HEADER_LEN));
    if announced > (usize::MAX - FRAME_HEADER_LEN) as u64 {
        FrameStatus::Oversized
    } else if ((buffer.len() - FRAME_HEADER_LEN) as u64) < announced {
        FrameStatus::Incomplete
    } else {
        FrameStatus::Ready { end: FRAME_HEADER_LEN + announced as usize }
    }
}

/// The bytes to put on a stream for `envelope`.
pub fn write_envelope(envelope: &RoutingMessage<Vec<u8>>) -> (out: Vec<u8>)
    ensures
        out@ == stream_bytes(envelope@),
{
    let body = encode(envelope);
    frame(body.as_slice())
}

/// Reads the envelope at the front of a receive buffer, if all of it has
/// arrived, and says how many bytes of the buffer it took.
pub fn read_envelope(buffer: &[u8]) -> (r: Result<
    Option<(RoutingMessage<Vec<u8>>, usize)>,
    CodecError,
>)
    ensures
        match r {
            Ok(Some((envelope, consumed))) => parse_stream(buffer@) == Ok::<
                Option<(RoutingMessage<Seq<u8>>, usize)>,
                CodecError,
            >(Some((envelope@, consumed))),
            Ok(None) => parse_stream(buffer@) == Ok::<
                Option<(RoutingMessage<Seq<u8>>, usize)>,
                CodecError,
            >(None),
            Err(e) => parse_stream(buffer@) == Err::<
                Option<(RoutingMessage<Seq<u8>>, usize)>,
                CodecError,
            >(e),
        },
{
    match split_frame(buffer) {
        FrameStatus::Incomplete => Ok(None),
        FrameStatus::Oversized => Err(CodecError::Oversized),
        FrameStatus::Ready { end } => match decode(
            slice_subrange(buffer, FRAME_HEADER_LEN, end),
        ) {
            Ok(envelope) => Ok(Some((envelope, end))),
            Err(e) => Err(e),
        },
    }
}

/// A frame is found again at the front of a buffer, whatever follows it, and
/// its body is what was framed.
pub proof fn lemma_split_of_framed(body: Seq<u8>, rest: Seq<u8>)
    requires
        8 + body.len() <= usize::MAX,
    ensures
        frame_status(framed(body) + rest) == (FrameStatus::Ready {
            end: (8 + body.len()) as usize,
        }),
        (framed(body) + rest).subrange(8, 8 + body.len() as int) == body,
{
    lemma_auto_spec_u64_to_from_le_bytes();
    let buffer = framed(body) + rest;
    assert(buffer.take(8) =~= spec_u64_to_le_bytes(body.len() as u64));
    assert(buffer.subrange(8, 8 + body.len() as int) =~= body);
}

/// Bytes that arrive later change nothing about a frame that is already
/// whole, nor about one that is already known to be oversized.
pub proof fn lemma_frame_status_is_stable(buffer: Seq<u8>, more: Seq<u8>)
    requires
        frame_status(buffer) != FrameStatus::Incomplete,
    ensures
        frame_status(buffer + more) == frame_status(buffer),
        parse_stream(buffer + more) == parse_stream(buffer),
{
    assert((buffer + more).take(8) =~= buffer.take(8));
    if let FrameStatus::Ready { end } = frame_status(buffer) {
        assert((buffer + more).subrange(8, end as int) =~= buffer.subrange(8, end as int));
    }
}

/// An envelope put on a stream is read back from it, whatever follows, and
/// takes exactly the bytes that were written for it.
pub proof fn lemma_read_inverts_write(envelope: RoutingMessage<Seq<u8>>, rest: Seq<u8>)
    requires
        stream_bytes(envelope).len() <= usize::MAX,
    ensures
        parse_stream(stream_bytes(envelope) + rest) == Ok::<
            Option<(RoutingMessage<Seq<u8>>, usize)>,
            CodecError,
        >(Some((envelope, stream_bytes(envelope).len() as usize))),
{
    lemma_auto_spec_u64_to_from_le_bytes();
    lemma_split_of_framed(envelope_bytes(envelope), rest);
    lemma_decode_inverts_encode(envelope);
}

} // verus!
