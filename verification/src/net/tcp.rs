//! Frames of the reliable channel.
//!
//! A frame is a length of four bytes, most significant first, and a body. The
//! first byte of the body tells what follows: a message as JSON, or a piece of
//! a file in a binary form of its own, which avoids the cost of encoding file
//! contents as text.

use vstd::prelude::*;
use vstd::slice::slice_subrange;
use vstd::slice::slice_to_vec;
use vstd::utf8::{decode_utf8, encode_utf8, valid_utf8};

use crate::bytes::{
    append_bytes, push_u16_be, push_u32_be, read_u16_be, read_u32_be, u16_at_be, u16_be, u32_at_be,
    u32_be,
};
use crate::protocol::{Message, MsgKind, Payload};
use crate::text::text_from_utf8;

verus! {

/// The longest body that is accepted: 16 MiB.
pub const MAX_FRAME: u32 = 0x100_0000;

/// The tag of a body that holds a JSON message.
pub const FRAME_JSON: u8 = 0;

/// The tag of a body that holds a piece of a file.
pub const FRAME_FILE_CHUNK: u8 = 1;

/// Why a frame cannot be written or read.
#[derive(Debug, Clone, Copy, PartialEq, Eq, Structural)]
pub enum FrameError {
    BadLength(u32),
    Empty,
    UnknownTag(u8),
    TruncatedHeader,
    TruncatedIdentifiers,
    IdentifierTooLong,
    NotUtf8,
}

/// The body of a frame: JSON that is still to be parsed, or the message itself.
#[derive(Debug, Clone)]
pub enum FrameBody {
    Json(Vec<u8>),
    Message(Message),
}

/// What a frame body means.
pub enum BodyView {
    Json(Seq<u8>),
    Chunk { from: Seq<char>, id: Seq<char>, seq: u32, data: Seq<u8> },
}

/// The bytes of a name.
pub open spec fn utf8(s: Seq<char>) -> Seq<u8> {
    encode_utf8(s)
}

/// The part of a chunk body before the data: the tag, the lengths of the two
/// names, the sequence number and the two names.
pub open spec fn chunk_header(from: Seq<char>, id: Seq<char>, seq: u32) -> Seq<u8> {
    seq![FRAME_FILE_CHUNK] + u16_be(utf8(from).len() as int) + u16_be(utf8(id).len() as int)
        + u32_be(seq as int) + utf8(from) + utf8(id)
}

/// The body that carries a piece of a file.
pub open spec fn chunk_body(from: Seq<char>, id: Seq<char>, seq: u32, data: Seq<u8>) -> Seq<u8> {
    chunk_header(from, id, seq) + data
}

/// The body that carries JSON.
pub open spec fn json_body(json: Seq<u8>) -> Seq<u8> {
    seq![FRAME_JSON] + json
}

/// Whether a name fits into the header of a chunk.
pub open spec fn name_fits(name: Seq<char>) -> bool {
    utf8(name).len() <= u16::MAX
}

/// The body of the frame for a message whose JSON form is `json`. Pieces of
/// files have a form of their own.
pub open spec fn body_of(msg: Message, json: Seq<u8>) -> Result<Seq<u8>, FrameError> {
    match msg.payload {
        Payload::FileChunk { id, seq, data } => if name_fits(msg.from@) && name_fits(id@) {
            Ok(chunk_body(msg.from@, id@, seq, data@))
        } else {
            Err(FrameError::IdentifierTooLong)
        },
        _ => Ok(json_body(json)),
    }
}

/// What a body means, or why it means nothing.
pub open spec fn decoded(body: Seq<u8>) -> Result<BodyView, FrameError> {
    if body.len() == 0 {
        Err(FrameError::Empty)
    } else if body[0] == FRAME_JSON {
        Ok(BodyView::Json(body.skip(1)))
    } else if body[0] == FRAME_FILE_CHUNK {
        decoded_chunk(body.skip(1))
    } else {
        Err(FrameError::UnknownTag(body[0]))
    }
}

/// What the part of a chunk body behind the tag means.
pub open spec fn decoded_chunk(rest: Seq<u8>) -> Result<BodyView, FrameError> {
    let from_end = 8 + u16_at_be(rest, 0);
    let names_end = from_end + u16_at_be(rest, 2);
    if rest.len() < 8 {
        Err(FrameError::TruncatedHeader)
    } else if names_end > rest.len() {
        Err(FrameError::TruncatedIdentifiers)
    } else {
        let from = rest.subrange(8, from_end);
        let id = rest.subrange(from_end, names_end);
        if !valid_utf8(from) || !valid_utf8(id) {
            Err(FrameError::NotUtf8)
        } else {
            Ok(
                BodyView::Chunk {
                    from: decode_utf8(from),
                    id: decode_utf8(id),
                    seq: u32_at_be(rest, 4) as u32,
                    data: rest.skip(names_end),
                },
            )
        }
    }
}

impl FrameBody {
    /// Whether this is what `v` describes.
    pub open spec fn shows(self, v: BodyView) -> bool {
        match (self, v) {
            (FrameBody::Json(json), BodyView::Json(j)) => json@ == j,
            (FrameBody::Message(m), BodyView::Chunk { from, id, seq, data }) => {
                &&& m.kind == MsgKind::Clipboard
                &&& m.from@ == from
                &&& m.payload matches Payload::FileChunk { id: i, seq: s, data: d } && i@ == id && s
                    == seq && d@ == data
            },
            _ => false,
        }
    }
}

/// Writes the body of a frame. `json` is the message as JSON; it is not looked
/// at for a piece of a file.
pub fn encode_body(msg: &Message, json: &[u8]) -> (r: Result<Vec<u8>, FrameError>)
    ensures
        match body_of(*msg, json@) {
            Ok(body) => r matches Ok(b) && b@ == body,
            Err(e) => r matches Err(err) && err == e,
        },
{
    let mut body: Vec<u8> = Vec::new();
    match &msg.payload {
        Payload::FileChunk { id, seq, data } => {
            let from = msg.from.as_str().as_bytes();
            let id = id.as_str().as_bytes();
            if from.len() > u16::MAX as usize || id.len() > u16::MAX as usize {
                return Err(FrameError::IdentifierTooLong);
            }
            body.push(FRAME_FILE_CHUNK);
            push_u16_be(&mut body, from.len() as u16);
            push_u16_be(&mut body, id.len() as u16);
            push_u32_be(&mut body, *seq);
            append_bytes(&mut body, from);
            append_bytes(&mut body, id);
            append_bytes(&mut body, data.as_slice());
            assert(Seq::<u8>::empty().push(FRAME_FILE_CHUNK) =~= seq![FRAME_FILE_CHUNK]);
        },
        _ => {
            body.push(FRAME_JSON);
            append_bytes(&mut body, json);
            assert(Seq::<u8>::empty().push(FRAME_JSON) =~= seq![FRAME_JSON]);
        },
    }
    Ok(body)
}

/// Reads the body of a frame.
pub fn decode_body(body: &[u8]) -> (r: Result<FrameBody, FrameError>)
    ensures
        match decoded(body@) {
            Ok(v) => r matches Ok(b) && b.shows(v),
            Err(e) => r matches Err(err) && err == e,
        },
{
    if body.len() == 0 {
        return Err(FrameError::Empty);
    }
    let tag: u8 = body[0];
    let rest = slice_subrange(body, 1, body.len());
    assert(rest@ =~= body@.skip(1));
    if tag == FRAME_JSON {
        return Ok(FrameBody::Json(slice_to_vec(rest)));
    }
    if tag != FRAME_FILE_CHUNK {
        return Err(FrameError::UnknownTag(tag));
    }
    if rest.len() < 8 {
        return Err(FrameError::TruncatedHeader);
    }
    let from_end: usize = 8 + read_u16_be(rest, 0) as usize;
    let names_end: usize = from_end + read_u16_be(rest, 2) as usize;
    let seq: u32 = read_u32_be(rest, 4);
    if names_end > rest.len() {
        return Err(FrameError::TruncatedIdentifiers);
    }
    let from = match text_from_utf8(slice_subrange(rest, 8, from_end)) {
        Some(s) => s,
        None => return Err(FrameError::NotUtf8),
    };
    let id = match text_from_utf8(slice_subrange(rest, from_end, names_end)) {
        Some(s) => s,
        None => return Err(FrameError::NotUtf8),
    };
    let data = slice_to_vec(slice_subrange(rest, names_end, rest.len()));
    assert(data@ =~= rest@.skip(names_end as int));
    Ok(
        FrameBody::Message(
            Message { kind: MsgKind::Clipboard, from, payload: Payload::FileChunk { id, seq, data } },
        ),
    )
}

/// A frame: the length of the body and the body.
pub open spec fn frame_of(body: Seq<u8>) -> Seq<u8> {
    u32_be(body.len() as int) + body
}

/// Puts the length in front of a body.
pub fn encode_frame(body: &[u8]) -> (frame: Vec<u8>)
    requires
        body@.len() <= u32::MAX,
    ensures
        frame@ == frame_of(body@),
{
    let mut frame: Vec<u8> = Vec::new();
    push_u32_be(&mut frame, body.len() as u32);
    append_bytes(&mut frame, body);
    frame
}

/// Whether a body of `n` bytes is accepted.
pub open spec fn acceptable_length(n: int) -> bool {
    0 < n <= MAX_FRAME
}

/// Reads the length in front of a body. Empty and oversized bodies are refused.
pub fn decode_length(header: &[u8]) -> (r: Result<u32, FrameError>)
    requires
        header@.len() == 4,
    ensures
        ({
            let n = u32_at_be(header@, 0);
            if acceptable_length(n) {
                r == Ok::<u32, FrameError>(n as u32)
            } else {
                r == Err::<u32, FrameError>(FrameError::BadLength(n as u32))
            }
        }),
{
    let n: u32 = read_u32_be(header, 0);
    if n == 0 || n > MAX_FRAME {
        return Err(FrameError::BadLength(n));
    }
    Ok(n)
}

/// A machine's address.
#[derive(Debug, Clone, Copy, PartialEq, Eq, Structural)]
pub enum IpAddr {
    /// The four octets as a number, the first one most significant.
    V4(u32),
    /// The sixteen octets as a number, the first one most significant.
    V6(u128),
}

/// The order of addresses: IPv4 before IPv6, then by the octets.
pub open spec fn ip_before(a: IpAddr, b: IpAddr) -> bool {
    match (a, b) {
        (IpAddr::V4(x), IpAddr::V4(y)) => x < y,
        (IpAddr::V4(_), IpAddr::V6(_)) => true,
        (IpAddr::V6(_), IpAddr::V4(_)) => false,
        (IpAddr::V6(x), IpAddr::V6(y)) => x < y,
    }
}

/// The order of end points: by address, then by port.
pub open spec fn before(ip1: IpAddr, port1: u16, ip2: IpAddr, port2: u16) -> bool {
    ip_before(ip1, ip2) || (ip1 == ip2 && port1 < port2)
}

/// Whether this machine listens for the connection; otherwise it connects. The
/// machine with the lower address listens.
pub fn is_server(my_ip: IpAddr, my_port: u16, peer_ip: IpAddr, peer_port: u16) -> (r: bool)
    ensures
        r == before(my_ip, my_port, peer_ip, peer_port),
{
    match (my_ip, peer_ip) {
        (IpAddr::V4(x), IpAddr::V4(y)) => x < y || (x == y && my_port < peer_port),
        (IpAddr::V4(_), IpAddr::V6(_)) => true,
        (IpAddr::V6(_), IpAddr::V4(_)) => false,
        (IpAddr::V6(x), IpAddr::V6(y)) => x < y || (x == y && my_port < peer_port),
    }
}

/// A piece of a file comes out of its frame body as it went in.
pub proof fn law_chunk_round_trip(from: Seq<char>, id: Seq<char>, seq: u32, data: Seq<u8>)
    requires
        name_fits(from),
        name_fits(id),
    ensures
        decoded(chunk_body(from, id, seq, data)) == Ok::<BodyView, FrameError>(
            BodyView::Chunk { from, id, seq, data },
        ),
{
    broadcast use {vstd::utf8::encode_utf8_valid_utf8, vstd::utf8::encode_utf8_decode_utf8};

    let f = utf8(from);
    let i = utf8(id);
    let body = chunk_body(from, id, seq, data);
    let rest = body.skip(1);
    assert(rest =~= u16_be(f.len() as int) + u16_be(i.len() as int) + u32_be(seq as int) + f + i
        + data);
    assert(u16_at_be(rest, 0) == f.len());
    assert(u16_at_be(rest, 2) == i.len());
    assert(u32_at_be(rest, 4) == seq);
    let from_end = 8 + f.len() as int;
    let names_end = from_end + i.len() as int;
    assert(rest.subrange(8, from_end) =~= f);
    assert(rest.subrange(from_end, names_end) =~= i);
    assert(rest.skip(names_end) =~= data);
}

/// JSON comes out of its frame body as it went in.
pub proof fn law_json_round_trip(json: Seq<u8>)
    ensures
        decoded(json_body(json)) == Ok::<BodyView, FrameError>(BodyView::Json(json)),
{
    assert(json_body(json).skip(1) =~= json);
}

/// What `encode_body` writes for any message, `decode_body` reads: a piece of a
/// file as it was, anything else as its JSON.
pub proof fn law_body_round_trip(msg: Message, json: Seq<u8>)
    ensures
        match (body_of(msg, json), msg.payload) {
            (Ok(body), Payload::FileChunk { id, seq, data }) => decoded(body) == Ok::<
                BodyView,
                FrameError,
            >(BodyView::Chunk { from: msg.from@, id: id@, seq, data: data@ }),
            (Ok(body), _) => decoded(body) == Ok::<BodyView, FrameError>(BodyView::Json(json)),
            (Err(e), p) => p is FileChunk && e == FrameError::IdentifierTooLong,
        },
{
    match msg.payload {
        Payload::FileChunk { id, seq, data } => {
            if name_fits(msg.from@) && name_fits(id@) {
                law_chunk_round_trip(msg.from@, id@, seq, data@);
            }
        },
        _ => {
            law_json_round_trip(json);
        },
    }
}

/// The length in front of a frame is that of its body, and the body follows it.
pub proof fn law_frame_round_trip(body: Seq<u8>)
    requires
        body.len() <= u32::MAX,
    ensures
        u32_at_be(frame_of(body).take(4), 0) == body.len(),
        frame_of(body).skip(4) == body,
{
    assert(frame_of(body).skip(4) =~= body);
}

/// Of two different end points exactly one listens, so the two machines agree
/// on who connects to whom.
pub proof fn law_exactly_one_side_listens(ip1: IpAddr, port1: u16, ip2: IpAddr, port2: u16)
    requires
        ip1 != ip2 || port1 != port2,
    ensures
        before(ip1, port1, ip2, port2) != before(ip2, port2, ip1, port1),
{
}

/// The bytes of a frame: four that tell the length of the body, the most significant
/// first, and the body.
pub proof fn law_frame_layout(body: Seq<u8>)
    requires
        body.len() <= 0xFFFF_FFFF,
    ensures
        frame_of(body).len() == 4 + body.len(),
        0x100_0000 * frame_of(body)[0] + 0x1_0000 * frame_of(body)[1] + 0x100 * frame_of(body)[2]
            + frame_of(body)[3] == body.len(),
        forall|i: int| 0 <= i < body.len() ==> #[trigger] body[i] == frame_of(body)[4 + i],
{
}

/// Bodies of one byte to 16 MiB are accepted, and no others.
pub proof fn law_accepted_lengths(n: int)
    ensures
        acceptable_length(n) == (1 <= n <= 16 * 1024 * 1024),
{
}

/// The bytes of the body of a message: a zero and the JSON, or, for a piece of a file, a
/// one, the lengths of sender and transfer in two bytes each, the number of the piece in
/// four, the sender, the transfer and the piece.
pub proof fn law_body_layout(msg: Message, json: Seq<u8>)
    ensures
        !(msg.payload is FileChunk) ==> (body_of(msg, json) matches Ok(b) && b.len() == 1
            + json.len() && b[0] == 0 && b.skip(1) == json),
        msg.payload matches Payload::FileChunk { id, seq, data } ==> {
            let f = encode_utf8(msg.from@);
            let t = encode_utf8(id@);
            &&& f.len() > 0xFFFF || t.len() > 0xFFFF ==> (body_of(msg, json) matches Err(e) && e
                == FrameError::IdentifierTooLong)
            &&& f.len() <= 0xFFFF && t.len() <= 0xFFFF ==> {
                let b = body_of(msg, json)->Ok_0;
                &&& body_of(msg, json) is Ok
                &&& b.len() == 9 + f.len() + t.len() + data@.len()
                &&& b[0] == 1
                &&& 0x100 * b[1] + b[2] == f.len()
                &&& 0x100 * b[3] + b[4] == t.len()
                &&& 0x100_0000 * b[5] + 0x1_0000 * b[6] + 0x100 * b[7] + b[8] == seq
                &&& b.subrange(9, 9 + f.len() as int) == f
                &&& b.subrange(9 + f.len() as int, 9 + f.len() as int + t.len() as int) == t
                &&& b.skip(9 + f.len() as int + t.len() as int) == data@
            }
        },
{
    match msg.payload {
        Payload::FileChunk { id, seq, data } => {
            let f = encode_utf8(msg.from@);
            let t = encode_utf8(id@);
            if f.len() <= 0xFFFF && t.len() <= 0xFFFF {
                let b = body_of(msg, json)->Ok_0;
                assert(b.subrange(9, 9 + f.len() as int) =~= f);
                assert(b.subrange(9 + f.len() as int, 9 + f.len() as int + t.len() as int) =~= t);
                assert(b.skip(9 + f.len() as int + t.len() as int) =~= data@);
            }
        },
        _ => {
            assert(json_body(json).skip(1) =~= json);
        },
    }
}

/// Which bodies are refused: an empty one, one with a tag other than zero and one, a piece
/// of a file without its eight bytes of numbers or without the names that these announce,
/// and one whose names are not UTF-8. Every other body is accepted.
pub proof fn law_refused_bodies(b: Seq<u8>)
    ensures
        b.len() == 0 ==> (decoded(b) matches Err(e) && e == FrameError::Empty),
        b.len() > 0 && b[0] > 1 ==> (decoded(b) matches Err(e) && e == FrameError::UnknownTag(b[0])),
        b.len() > 0 && b[0] == 0 ==> decoded(b) is Ok,
        b.len() > 0 && b[0] == 1 && b.len() < 9 ==> (decoded(b) matches Err(e) && e
            == FrameError::TruncatedHeader),
        b.len() >= 9 && b[0] == 1 ==> {
            let f = 0x100 * b[1] + b[2];
            let t = 0x100 * b[3] + b[4];
            &&& b.len() < 9 + f + t ==> (decoded(b) matches Err(e) && e
                == FrameError::TruncatedIdentifiers)
            &&& b.len() >= 9 + f + t ==> {
                let utf8 = valid_utf8(b.subrange(9, 9 + f)) && valid_utf8(
                    b.subrange(9 + f, 9 + f + t),
                );
                &&& !utf8 ==> (decoded(b) matches Err(e) && e == FrameError::NotUtf8)
                &&& utf8 ==> (decoded(b) matches Ok(BodyView::Chunk { from, id, seq, data }) && from
                    == decode_utf8(b.subrange(9, 9 + f)) && id == decode_utf8(
                    b.subrange(9 + f, 9 + f + t),
                ) && seq == 0x100_0000 * b[5] + 0x1_0000 * b[6] + 0x100 * b[7] + b[8] && data
                    == b.skip(9 + f + t))
            }
        },
{
    if b.len() >= 9 && b[0] == 1 {
        let rest = b.skip(1);
        let f = 0x100 * b[1] + b[2];
        let t = 0x100 * b[3] + b[4];
        assert(u16_at_be(rest, 0) == f);
        assert(u16_at_be(rest, 2) == t);
        assert(u32_at_be(rest, 4) == 0x100_0000 * b[5] + 0x1_0000 * b[6] + 0x100 * b[7] + b[8]);
        if b.len() >= 9 + f + t {
            assert(rest.subrange(8, 8 + f) =~= b.subrange(9, 9 + f));
            assert(rest.subrange(8 + f, 8 + f + t) =~= b.subrange(9 + f, 9 + f + t));
            assert(rest.skip(8 + f + t) =~= b.skip(9 + f + t));
        }
    }
}

/// The machine with the lower address listens: an IPv4 address is lower than an IPv6
/// address, and of two of one kind that with the lower octets is; with one address for
/// both the lower port decides.
pub proof fn law_lower_address_listens(
    a: u32,
    b: u32,
    c: u128,
    d: u128,
    ip: IpAddr,
    port1: u16,
    port2: u16,
)
    ensures
        a < b ==> before(IpAddr::V4(a), port1, IpAddr::V4(b), port2) && !before(
            IpAddr::V4(b),
            port2,
            IpAddr::V4(a),
            port1,
        ),
        c < d ==> before(IpAddr::V6(c), port1, IpAddr::V6(d), port2) && !before(
            IpAddr::V6(d),
            port2,
            IpAddr::V6(c),
            port1,
        ),
        before(IpAddr::V4(a), port1, IpAddr::V6(c), port2),
        !before(IpAddr::V6(c), port1, IpAddr::V4(a), port2),
        before(ip, port1, ip, port2) == (port1 < port2),
{
}

/// A body that was read means what it says: the JSON as it is, or a piece of a file with
/// its sender, transfer, number and bytes.
pub proof fn law_bodies_mean_what_they_say(b: FrameBody, v: BodyView)
    requires
        b.shows(v),
    ensures
        v matches BodyView::Json(json) ==> (b matches FrameBody::Json(j) && j@ == json),
        v matches BodyView::Chunk { from, id, seq, data } ==> (b matches FrameBody::Message(m)
            && m.from@ == from && m.kind == MsgKind::Clipboard && (m.payload matches
            Payload::FileChunk { id: i, seq: s, data: d } && i@ == id && s == seq && d@ == data)),
{
}

} // verus!
