//! HTTP/2 frames: the frame header, the frames that the client sends and those it understands.
use crate::http::{Http2ErrorCode, HttpError, HttpResult, StreamId};
use solicit::http::frame::{DataFrame, Frame, FrameHeader, FrameHeaderBuffer, HeadersFrame};
use solicit::http::frame::{RawFrame, SettingsFrame};
use vstd::prelude::*;
use vstd::slice::{slice_subrange, slice_to_vec};

verus! {

/// Length of the header in front of every frame.
pub const HEADER_LEN: usize = 9;

pub const DATA: u8 = 0;

pub const HEADERS: u8 = 1;

pub const RST_STREAM: u8 = 3;

pub const SETTINGS: u8 = 4;

pub const PING: u8 = 6;

pub const GOAWAY: u8 = 7;

/// On SETTINGS and PING frames: the frame acknowledges one that was received.
pub const ACK: u8 = 1;

/// On DATA and HEADERS frames: nothing follows on the stream.
pub const END_STREAM: u8 = 1;

/// On HEADERS frames: the block is complete.
pub const END_HEADERS: u8 = 4;

/// On DATA and HEADERS frames: the payload starts with the length of its padding.
pub const PADDED: u8 = 8;

/// On HEADERS frames: the block follows five octets of priority.
pub const PRIORITY: u8 = 32;

/// In SETTINGS frames: the number of streams that the sender wants to handle at a time.
pub const MAX_CONCURRENT_STREAMS: u16 = 3;

/// The number that two octets, most significant first, stand for.
pub open spec fn be16(b: Seq<u8>, at: int) -> int {
    b[at] * 256 + b[at + 1]
}

/// The number that three octets, most significant first, stand for.
pub open spec fn be24(b: Seq<u8>, at: int) -> int {
    b[at] * 0x1_0000 + b[at + 1] * 256 + b[at + 2]
}

/// The number that four octets, most significant first, stand for.
pub open spec fn be32(b: Seq<u8>, at: int) -> int {
    b[at] * 0x100_0000 + b[at + 1] * 0x1_0000 + b[at + 2] * 256 + b[at + 3]
}

/// The three least significant octets of a number, most significant first.
pub open spec fn octets24(n: int) -> Seq<u8> {
    seq![((n / 0x1_0000) % 256) as u8, ((n / 256) % 256) as u8, (n % 256) as u8]
}

/// The four octets of a number, most significant first.
pub open spec fn octets32(n: int) -> Seq<u8> {
    seq![
        ((n / 0x100_0000) % 256) as u8,
        ((n / 0x1_0000) % 256) as u8,
        ((n / 256) % 256) as u8,
        (n % 256) as u8,
    ]
}

/// Whether the flag with the given bit is set.
pub open spec fn flag_set(flags: u8, bit: u8) -> bool {
    (flags / bit) % 2 == 1
}

/// A frame on the wire.
pub open spec fn frame_bytes(kind: u8, flags: u8, id: StreamId, payload: Seq<u8>) -> Seq<u8> {
    octets24(payload.len() as int) + seq![kind, flags] + octets32(id as int) + payload
}

/// The kind of the frame that starts a buffer.
pub open spec fn frame_kind(b: Seq<u8>) -> u8 {
    b[3]
}

/// The flags of the frame that starts a buffer.
pub open spec fn frame_flags(b: Seq<u8>) -> u8 {
    b[4]
}

/// The stream of the frame that starts a buffer.
pub open spec fn frame_stream(b: Seq<u8>) -> StreamId {
    be32(b, 5) as u32
}

/// Whether a buffer starts with a whole frame.
pub open spec fn starts_with_frame(b: Seq<u8>) -> bool {
    b.len() >= 9 && b.len() >= 9 + be24(b, 0)
}

/// How many octets the frame that starts a buffer takes.
pub open spec fn frame_len(b: Seq<u8>) -> int {
    9 + be24(b, 0)
}

/// Whether a buffer is exactly one frame.
pub open spec fn is_frame(b: Seq<u8>) -> bool {
    b.len() >= 9 && b.len() == frame_len(b)
}

/// What follows the header.
pub open spec fn frame_payload(b: Seq<u8>) -> Seq<u8> {
    b.subrange(9, b.len() as int)
}

/// `solicit::http::frame::unpack_header`: reads the length from the first three octets, the kind
/// and the flags from one octet each, and the stream from the last four.
pub assume_specification[ solicit::http::frame::unpack_header ](header: &FrameHeaderBuffer) -> (h:
    FrameHeader)
    ensures
        h.0 == be24(header@, 0),
        h.1 == header@[3],
        h.2 == header@[4],
        h.3 == be32(header@, 5),
;

/// The payload of a DATA or HEADERS frame without its padding; none if the padding would take all
/// of it.
pub open spec fn unpadded(flags: u8, payload: Seq<u8>) -> Option<Seq<u8>> {
    if !flag_set(flags, PADDED) {
        Some(payload)
    } else if payload.len() == 0 || payload[0] >= payload.len() {
        None
    } else {
        Some(payload.subrange(1, payload.len() - payload[0]))
    }
}

/// Stream, contents and end mark of a DATA frame.
pub open spec fn data_frame(b: Seq<u8>) -> Option<(StreamId, Seq<u8>, bool)> {
    if !is_frame(b) || frame_kind(b) != DATA || frame_stream(b) == 0 {
        None
    } else {
        match unpadded(frame_flags(b), frame_payload(b)) {
            Some(data) => Some((frame_stream(b), data, flag_set(frame_flags(b), END_STREAM))),
            None => None,
        }
    }
}

/// Whether a HEADERS frame announces a priority and is too short to hold one.
pub open spec fn priority_missing(b: Seq<u8>) -> bool {
    flag_set(frame_flags(b), PRIORITY) && match unpadded(frame_flags(b), frame_payload(b)) {
        Some(rest) => rest.len() < 5,
        None => false,
    }
}

/// Stream, header block and end mark of a HEADERS frame.
pub open spec fn headers_frame(b: Seq<u8>) -> Option<(StreamId, Seq<u8>, bool)> {
    if !is_frame(b) || frame_kind(b) != HEADERS || frame_stream(b) == 0 || priority_missing(b) {
        None
    } else {
        match unpadded(frame_flags(b), frame_payload(b)) {
            Some(rest) => {
                let block = if flag_set(frame_flags(b), PRIORITY) {
                    rest.subrange(5, rest.len() as int)
                } else {
                    rest
                };
                Some((frame_stream(b), block, flag_set(frame_flags(b), END_STREAM)))
            },
            None => None,
        }
    }
}

/// The settings, identifier and value, that the payload of a SETTINGS frame lists; those with an
/// identifier outside 1 to 6 are left out.
pub open spec fn settings_in(payload: Seq<u8>) -> Seq<(u16, u32)>
    decreases payload.len(),
{
    if payload.len() < 6 {
        Seq::empty()
    } else {
        let rest = settings_in(payload.subrange(6, payload.len() as int));
        if 1 <= be16(payload, 0) <= 6 {
            seq![(be16(payload, 0) as u16, be32(payload, 2) as u32)] + rest
        } else {
            rest
        }
    }
}

/// Acknowledgement mark and contents of a SETTINGS frame.
pub open spec fn settings_frame(b: Seq<u8>) -> Option<(bool, Seq<(u16, u32)>)> {
    if !is_frame(b) || frame_kind(b) != SETTINGS || frame_stream(b) != 0 {
        None
    } else if flag_set(frame_flags(b), ACK) {
        if frame_payload(b).len() == 0 {
            Some((true, Seq::empty()))
        } else {
            None
        }
    } else if frame_payload(b).len() % 6 != 0 {
        None
    } else {
        Some((false, settings_in(frame_payload(b))))
    }
}

/// `solicit::http::frame::RawFrame::with_payload` and `serialize`: the header's octets, most
/// significant first in each number, and then the payload.
#[verifier::external_body]
fn serialize(header: (u32, u8, u8, u32), payload: Vec<u8>) -> (bytes: Vec<u8>)
    requires
        header.0 < 0x100_0000,
    ensures
        bytes@ == octets24(header.0 as int) + seq![header.1, header.2] + octets32(header.3 as int)
            + payload@,
{
    RawFrame::with_payload(header, payload).serialize()
}

/// `solicit::http::frame::DataFrame::from_raw`: takes a DATA frame apart and drops its padding.
#[verifier::external_body]
fn parse_data(frame: &[u8]) -> (parts: Option<(StreamId, Vec<u8>, bool)>)
    requires
        frame@.len() >= HEADER_LEN,
    ensures
        match parts {
            Some((id, data, end)) => data_frame(frame@) == Some((id, data@, end)),
            None => data_frame(frame@) is None,
        },
{
    DataFrame::from_raw(RawFrame::from(frame.to_vec())).map(
        |f| { (f.get_stream_id(), f.data.clone(), f.is_end_of_stream()) },
    )
}

/// `solicit::http::frame::HeadersFrame::from_raw`: takes a HEADERS frame apart and drops its
/// padding and its priority. It does not return from a frame whose announced priority is missing.
#[verifier::external_body]
fn parse_headers(frame: &[u8]) -> (parts: Option<(StreamId, Vec<u8>, bool)>)
    requires
        frame@.len() >= HEADER_LEN,
        !priority_missing(frame@),
    ensures
        match parts {
            Some((id, block, end)) => headers_frame(frame@) == Some((id, block@, end)),
            None => headers_frame(frame@) is None,
        },
{
    HeadersFrame::from_raw(RawFrame::from(frame.to_vec())).map(
        |f| { (f.stream_id, f.header_fragment.clone(), f.is_end_of_stream()) },
    )
}

/// `solicit::http::frame::SettingsFrame::from_raw`: takes a SETTINGS frame apart, into the
/// acknowledgement mark and identifier and value of each setting that it knows.
#[verifier::external_body]
fn parse_settings(frame: &[u8]) -> (parts: Option<(bool, Vec<(u16, u32)>)>)
    requires
        frame@.len() >= HEADER_LEN,
    ensures
        match parts {
            Some((ack, settings)) => settings_frame(frame@) == Some((ack, settings@)),
            None => settings_frame(frame@) is None,
        },
{
    SettingsFrame::from_raw(RawFrame::from(frame.to_vec())).map(
        |f| { (f.is_ack(), f.settings.iter().map(|s| (s.get_id(), s.get_val())).collect()) },
    )
}

/// What a client sends before anything else: the connection preface, and a SETTINGS frame that
/// switches server push off.
pub open spec fn preface() -> Seq<u8> {
    vstd::utf8::encode_utf8("PRI * HTTP/2.0\r\n\r\nSM\r\n\r\n"@) + frame_bytes(
        SETTINGS,
        0,
        0,
        seq![0u8, 2, 0, 0, 0, 0],
    )
}

/// `solicit::http::client::write_preface` into a vector, which cannot fail.
#[verifier::external_body]
pub(crate) fn write_preface() -> (bytes: Vec<u8>)
    ensures
        bytes@ == preface(),
{
    let mut buf: Vec<u8> = Vec::new();
    solicit::http::client::write_preface(&mut buf).expect("infallible write to vec");
    buf
}

/// A frame, decoded as far as the client understands it.
#[derive(Debug)]
pub enum HttpFrame {
    Data { id: StreamId, data: Vec<u8>, end: bool },
    Headers { id: StreamId, block: Vec<u8>, end: bool },
    RstStream { id: StreamId, code: Http2ErrorCode },
    Settings { ack: bool, settings: Vec<(u16, u32)> },
    Ping { ack: bool, data: Vec<u8> },
    GoAway { last_stream_id: StreamId, code: Http2ErrorCode, debug_data: Option<Vec<u8>> },
    /// A frame of a kind that the client has no use for
    Other,
}

/// An `HttpFrame` as contracts speak of it.
#[verifier::ext_equal]
pub enum FrameModel {
    Data { id: StreamId, data: Seq<u8>, end: bool },
    Headers { id: StreamId, block: Seq<u8>, end: bool },
    RstStream { id: StreamId, code: Http2ErrorCode },
    Settings { ack: bool, settings: Seq<(u16, u32)> },
    Ping { ack: bool, data: Seq<u8> },
    GoAway { last_stream_id: StreamId, code: Http2ErrorCode, debug_data: Option<Seq<u8>> },
    Other,
}

impl View for HttpFrame {
    type V = FrameModel;

    open spec fn view(&self) -> FrameModel {
        match *self {
            HttpFrame::Data { id, data, end } => FrameModel::Data { id, data: data@, end },
            HttpFrame::Headers { id, block, end } => FrameModel::Headers { id, block: block@, end },
            HttpFrame::RstStream { id, code } => FrameModel::RstStream { id, code },
            HttpFrame::Settings { ack, settings } => FrameModel::Settings {
                ack,
                settings: settings@,
            },
            HttpFrame::Ping { ack, data } => FrameModel::Ping { ack, data: data@ },
            HttpFrame::GoAway { last_stream_id, code, debug_data } => FrameModel::GoAway {
                last_stream_id,
                code,
                debug_data: match debug_data {
                    Some(data) => Some(data@),
                    None => None,
                },
            },
            HttpFrame::Other => FrameModel::Other,
        }
    }
}

/// What a whole frame says; none if it breaks the rules of its kind.
pub open spec fn decode_frame(b: Seq<u8>) -> Option<FrameModel> {
    let id = frame_stream(b);
    let flags = frame_flags(b);
    let payload = frame_payload(b);
    if frame_kind(b) == DATA {
        match data_frame(b) {
            Some((id, data, end)) => Some(FrameModel::Data { id, data, end }),
            None => None,
        }
    } else if frame_kind(b) == HEADERS {
        match headers_frame(b) {
            Some((id, block, end)) => Some(FrameModel::Headers { id, block, end }),
            None => None,
        }
    } else if frame_kind(b) == RST_STREAM {
        if id != 0 && payload.len() == 4 {
            Some(
                FrameModel::RstStream {
                    id,
                    code: Http2ErrorCode::numbered(be32(payload, 0) as u32),
                },
            )
        } else {
            None
        }
    } else if frame_kind(b) == SETTINGS {
        match settings_frame(b) {
            Some((ack, settings)) => Some(FrameModel::Settings { ack, settings }),
            None => None,
        }
    } else if frame_kind(b) == PING {
        if id == 0 && payload.len() == 8 {
            Some(FrameModel::Ping { ack: flag_set(flags, ACK), data: payload })
        } else {
            None
        }
    } else if frame_kind(b) == GOAWAY {
        if id == 0 && payload.len() >= 8 {
            Some(
                FrameModel::GoAway {
                    last_stream_id: (be32(payload, 0) % 0x8000_0000) as u32,
                    code: Http2ErrorCode::numbered(be32(payload, 4) as u32),
                    debug_data: if payload.len() > 8 {
                        Some(payload.subrange(8, payload.len() as int))
                    } else {
                        None
                    },
                },
            )
        } else {
            None
        }
    } else {
        Some(FrameModel::Other)
    }
}

/// Reads four octets, most significant first.
fn read_u32(b: &[u8], at: usize) -> (n: u32)
    requires
        at + 4 <= b@.len(),
    ensures
        n == be32(b@, at as int),
{
    b[at] as u32 * 0x100_0000 + b[at + 1] as u32 * 0x1_0000 + b[at + 2] as u32 * 256 + b[at
        + 3] as u32
}

/// Writes four octets, most significant first.
fn write_u32(n: u32) -> (b: Vec<u8>)
    ensures
        b@ == octets32(n as int),
{
    let mut b: Vec<u8> = Vec::new();
    b.push(((n / 0x100_0000) % 256) as u8);
    b.push(((n / 0x1_0000) % 256) as u8);
    b.push(((n / 256) % 256) as u8);
    b.push((n % 256) as u8);
    b
}

/// Receiver that will yield precisely one frame
///
/// If a WrappedReceive can be successfully constructed from `parse`, `recv_frame` decodes the
/// frame.
pub struct WrappedReceive<'a> {
    frame: &'a [u8],
    kind: u8,
    flags: u8,
    id: StreamId,
}

impl<'a> WrappedReceive<'a> {
    /// The octets of the frame.
    pub closed spec fn bytes(self) -> Seq<u8> {
        self.frame@
    }

    #[verifier::type_invariant]
    spec fn well_formed(self) -> bool {
        &&& is_frame(self.frame@)
        &&& self.kind == frame_kind(self.frame@)
        &&& self.flags == frame_flags(self.frame@)
        &&& self.id == frame_stream(self.frame@)
    }

    /// Attempts to read an entire frame from the transport read buffer.
    ///
    /// In the case where not enough bytes are available to construct a frame, parse returns
    /// None.
    pub fn parse(buf: &'a [u8]) -> (receiver: Option<WrappedReceive<'a>>)
        ensures
            receiver is Some <==> starts_with_frame(buf@),
            receiver matches Some(r) ==> is_frame(r.bytes()) && r.bytes() == buf@.subrange(
                0,
                frame_len(buf@),
            ),
    {
        if buf.len() < HEADER_LEN {
            return None;
        }
        let header = [
            buf[0],
            buf[1],
            buf[2],
            buf[3],
            buf[4],
            buf[5],
            buf[6],
            buf[7],
            buf[8],
        ];
        let (len, kind, flags, id) = solicit::http::frame::unpack_header(&header);
        if buf.len() - HEADER_LEN < len as usize {
            return None;
        }
        let frame = slice_subrange(buf, 0, HEADER_LEN + len as usize);
        Some(WrappedReceive { frame, kind, flags, id })
    }

    /// The octets of the frame.
    pub fn frame(&self) -> (frame: &'a [u8])
        ensures
            frame@ == self.bytes(),
    {
        self.frame
    }

    /// Decodes the frame; fails if it breaks the rules of its kind.
    pub fn recv_frame(&self) -> (frame: HttpResult<HttpFrame>)
        ensures
            match frame {
                Ok(f) => decode_frame(self.bytes()) == Some(f@),
                Err(err) => decode_frame(self.bytes()) is None && err is InvalidFrame,
            },
    {
        proof {
            use_type_invariant(self);
        }
        let frame = self.frame;
        let payload = slice_subrange(frame, HEADER_LEN, frame.len());
        let decoded = if self.kind == DATA {
            match parse_data(frame) {
                Some((id, data, end)) => Some(HttpFrame::Data { id, data, end }),
                None => None,
            }
        } else if self.kind == HEADERS {
            if self.priority_is_missing(payload) {
                None
            } else {
                match parse_headers(frame) {
                    Some((id, block, end)) => Some(HttpFrame::Headers { id, block, end }),
                    None => None,
                }
            }
        } else if self.kind == RST_STREAM {
            if self.id != 0 && payload.len() == 4 {
                let code = Http2ErrorCode::from_u32(read_u32(payload, 0));
                Some(HttpFrame::RstStream { id: self.id, code })
            } else {
                None
            }
        } else if self.kind == SETTINGS {
            match parse_settings(frame) {
                Some((ack, settings)) => Some(HttpFrame::Settings { ack, settings }),
                None => None,
            }
        } else if self.kind == PING {
            if self.id == 0 && payload.len() == 8 {
                Some(HttpFrame::Ping { ack: self.flags % 2 == 1, data: slice_to_vec(payload) })
            } else {
                None
            }
        } else if self.kind == GOAWAY {
            if self.id == 0 && payload.len() >= 8 {
                let debug_data = if payload.len() > 8 {
                    Some(slice_to_vec(slice_subrange(payload, 8, payload.len())))
                } else {
                    None
                };
                Some(
                    HttpFrame::GoAway {
                        last_stream_id: read_u32(payload, 0) % 0x8000_0000,
                        code: Http2ErrorCode::from_u32(read_u32(payload, 4)),
                        debug_data,
                    },
                )
            } else {
                None
            }
        } else {
            Some(HttpFrame::Other)
        };
        match decoded {
            Some(f) => Ok(f),
            None => Err(HttpError::InvalidFrame),
        }
    }

    /// Whether the frame announces a priority that its payload has no room for.
    fn priority_is_missing(&self, payload: &[u8]) -> (missing: bool)
        requires
            payload@ == frame_payload(self.bytes()),
        ensures
            missing == priority_missing(self.bytes()),
    {
        proof {
            use_type_invariant(self);
        }
        if (self.flags / PRIORITY) % 2 != 1 {
            return false;
        }
        if (self.flags / PADDED) % 2 != 1 {
            return payload.len() < 5;
        }
        if payload.len() == 0 || payload[0] as usize >= payload.len() {
            return false;
        }
        payload.len() - payload[0] as usize - 1 < 5
    }
}

/// Only the three least significant octets of a number decide `octets24`.
proof fn octets24_of_remainder(n: int)
    requires
        n >= 0,
    ensures
        octets24(n % 0x100_0000) == octets24(n),
{
    let q = n / 0x100_0000;
    let r = n % 0x100_0000;
    assert(n / 0x1_0000 == q * 256 + r / 0x1_0000);
    assert((n / 0x1_0000) % 256 == (r / 0x1_0000) % 256);
    assert(n / 256 == q * 0x1_0000 + r / 256);
    assert((n / 256) % 256 == (r / 256) % 256);
    assert(n % 256 == r % 256);
}

/// Builds a frame.
fn build(kind: u8, flags: u8, id: StreamId, payload: Vec<u8>) -> (bytes: Vec<u8>)
    ensures
        bytes@ == frame_bytes(kind, flags, id, payload@),
{
    let len: u32 = (payload.len() % 0x100_0000) as u32;
    proof {
        octets24_of_remainder(payload@.len() as int);
    }
    serialize((len, kind, flags, id), payload)
}

/// The flags of a frame that ends the stream or does not.
pub open spec fn end_flags(end: bool) -> u8 {
    if end {
        END_STREAM
    } else {
        0
    }
}

/// Builds a DATA frame.
pub fn build_data(id: StreamId, data: Vec<u8>, end: bool) -> (bytes: Vec<u8>)
    ensures
        bytes@ == frame_bytes(DATA, end_flags(end), id, data@),
{
    build(
        DATA,
        if end {
            END_STREAM
        } else {
            0
        },
        id,
        data,
    )
}

/// The flags of a HEADERS frame with a whole block.
pub open spec fn headers_flags(end: bool) -> u8 {
    if end {
        5
    } else {
        END_HEADERS
    }
}

/// Builds a HEADERS frame that holds the whole block.
pub fn build_headers(id: StreamId, block: Vec<u8>, end: bool) -> (bytes: Vec<u8>)
    ensures
        bytes@ == frame_bytes(HEADERS, headers_flags(end), id, block@),
{
    build(
        HEADERS,
        if end {
            END_HEADERS + END_STREAM
        } else {
            END_HEADERS
        },
        id,
        block,
    )
}

/// Builds a RST_STREAM frame.
pub fn build_rst_stream(id: StreamId, code: Http2ErrorCode) -> (bytes: Vec<u8>)
    ensures
        bytes@ == frame_bytes(RST_STREAM, 0, id, octets32(code.number() as int)),
{
    build(RST_STREAM, 0, id, write_u32(code.as_u32()))
}

/// Builds the SETTINGS frame that acknowledges the peer's settings.
pub fn build_settings_ack() -> (bytes: Vec<u8>)
    ensures
        bytes@ == frame_bytes(SETTINGS, ACK, 0, Seq::empty()),
{
    build(SETTINGS, ACK, 0, Vec::new())
}

/// Builds a PING frame.
pub fn build_ping(data: Vec<u8>) -> (bytes: Vec<u8>)
    ensures
        bytes@ == frame_bytes(PING, 0, 0, data@),
{
    build(PING, 0, 0, data)
}

/// Builds the PING frame that answers one with the given data.
pub fn build_ping_ack(data: Vec<u8>) -> (bytes: Vec<u8>)
    ensures
        bytes@ == frame_bytes(PING, ACK, 0, data@),
{
    build(PING, ACK, 0, data)
}

/// A frame whose payload fits the length field is read back from the octets that were written for
/// it, whatever follows them.
pub proof fn frame_round_trip(kind: u8, flags: u8, id: StreamId, payload: Seq<u8>, rest: Seq<u8>)
    requires
        payload.len() < 0x100_0000,
    ensures
        ({
            let frame = frame_bytes(kind, flags, id, payload);
            &&& is_frame(frame)
            &&& starts_with_frame(frame + rest)
            &&& (frame + rest).subrange(0, frame_len(frame + rest)) == frame
            &&& frame_kind(frame) == kind
            &&& frame_flags(frame) == flags
            &&& frame_stream(frame) == id
            &&& frame_payload(frame) == payload
        }),
{
    let frame = frame_bytes(kind, flags, id, payload);
    let n = payload.len() as int;
    assert(frame[0] == (n / 0x1_0000) % 256);
    assert(frame[1] == (n / 256) % 256);
    assert(frame[2] == n % 256);
    assert(be24(frame, 0) == n);
    assert(frame[5] == (id / 0x100_0000) % 256);
    assert(frame[6] == (id / 0x1_0000) % 256);
    assert(frame[7] == (id / 256) % 256);
    assert(frame[8] == id % 256);
    assert(be32(frame, 5) == id);
    assert(frame_payload(frame) =~= payload);
    assert(be24(frame + rest, 0) == n);
    assert((frame + rest).subrange(0, frame_len(frame + rest)) =~= frame);
}

/// The peer reads the DATA frames that are sent as they were meant.
pub proof fn data_round_trip(id: StreamId, data: Seq<u8>, end: bool)
    requires
        id != 0,
        data.len() < 0x100_0000,
    ensures
        decode_frame(frame_bytes(DATA, end_flags(end), id, data)) == Some(
            FrameModel::Data { id, data, end },
        ),
{
    frame_round_trip(DATA, end_flags(end), id, data, Seq::empty());
}

/// The peer reads the HEADERS frames that are sent as they were meant.
pub proof fn headers_round_trip(id: StreamId, block: Seq<u8>, end: bool)
    requires
        id != 0,
        block.len() < 0x100_0000,
    ensures
        decode_frame(frame_bytes(HEADERS, headers_flags(end), id, block)) == Some(
            FrameModel::Headers { id, block, end },
        ),
{
    frame_round_trip(HEADERS, headers_flags(end), id, block, Seq::empty());
}

/// The peer reads the RST_STREAM frames that are sent as they were meant.
pub proof fn rst_stream_round_trip(id: StreamId, code: Http2ErrorCode)
    requires
        id != 0,
    ensures
        decode_frame(frame_bytes(RST_STREAM, 0, id, octets32(code.number() as int))) == Some(
            FrameModel::RstStream { id, code },
        ),
{
    let payload = octets32(code.number() as int);
    frame_round_trip(RST_STREAM, 0, id, payload, Seq::empty());
    assert(be32(payload, 0) == code.number());
}

/// The peer reads the PING frames that are sent as they were meant.
pub proof fn ping_round_trip(data: Seq<u8>)
    requires
        data.len() == 8,
    ensures
        decode_frame(frame_bytes(PING, 0, 0, data)) == Some(FrameModel::Ping { ack: false, data }),
        decode_frame(frame_bytes(PING, ACK, 0, data)) == Some(FrameModel::Ping { ack: true, data }),
{
    frame_round_trip(PING, 0, 0, data, Seq::empty());
    frame_round_trip(PING, ACK, 0, data, Seq::empty());
}

/// The peer reads the acknowledgement of its settings as one.
pub proof fn settings_ack_round_trip()
    ensures
        decode_frame(frame_bytes(SETTINGS, ACK, 0, Seq::empty())) == Some(
            FrameModel::Settings { ack: true, settings: Seq::empty() },
        ),
{
    frame_round_trip(SETTINGS, ACK, 0, Seq::empty(), Seq::empty());
}

/// The two octets of a number, most significant first.
pub open spec fn octets16(n: int) -> Seq<u8> {
    seq![((n / 256) % 256) as u8, (n % 256) as u8]
}

/// Four octets give back the number that they were made of, whatever follows them.
pub proof fn number_round_trip(n: u32, rest: Seq<u8>)
    ensures
        be32(octets32(n as int) + rest, 0) == n,
{
    let b = octets32(n as int) + rest;
    assert(b[0] == (n / 0x100_0000) % 256);
    assert(b[1] == (n / 0x1_0000) % 256);
    assert(b[2] == (n / 256) % 256);
    assert(b[3] == n % 256);
}

/// A number of three octets gives back the octets.
proof fn octets24_round_trip(x: u8, y: u8, z: u8)
    ensures
        octets24(x * 0x1_0000 + y * 256 + z) == seq![x, y, z],
{
    let n = x * 0x1_0000 + y * 256 + z;
    assert(n / 256 == x * 256 + y);
    assert(octets24(n) =~= seq![x, y, z]);
}

/// A number of four octets gives back the octets.
proof fn octets32_round_trip(w: u8, x: u8, y: u8, z: u8)
    ensures
        octets32(w * 0x100_0000 + x * 0x1_0000 + y * 256 + z) == seq![w, x, y, z],
{
    let n = w * 0x100_0000 + x * 0x1_0000 + y * 256 + z;
    assert(n / 256 == w * 0x1_0000 + x * 256 + y);
    assert(n / 0x1_0000 == w * 256 + x);
    assert(octets32(n) =~= seq![w, x, y, z]);
}

/// Every frame is what is written for its kind, its flags, its stream and its payload.
pub proof fn frames_are_what_they_say(b: Seq<u8>)
    requires
        is_frame(b),
    ensures
        b == frame_bytes(frame_kind(b), frame_flags(b), frame_stream(b), frame_payload(b)),
        frame_payload(b).len() < 0x100_0000,
{
    let payload = frame_payload(b);
    octets24_round_trip(b[0], b[1], b[2]);
    octets32_round_trip(b[5], b[6], b[7], b[8]);
    let len = seq![b[0], b[1], b[2]];
    let id = seq![b[5], b[6], b[7], b[8]];
    assert(octets24(payload.len() as int) == len);
    assert(octets32(frame_stream(b) as int) == id);
    assert(len + seq![b[3], b[4]] + id + payload =~= b);
}

/// As long as an octet of a frame is missing, there is no frame.
pub proof fn frames_are_not_cut(kind: u8, flags: u8, id: StreamId, payload: Seq<u8>, k: int)
    requires
        payload.len() < 0x100_0000,
        0 <= k < 9 + payload.len(),
    ensures
        !starts_with_frame(frame_bytes(kind, flags, id, payload).take(k)),
{
    let frame = frame_bytes(kind, flags, id, payload);
    frame_round_trip(kind, flags, id, payload, Seq::empty());
    assert(frame.len() == 9 + payload.len());
    if k >= 9 {
        assert(be24(frame.take(k), 0) == be24(frame, 0));
    }
}

/// A payload with padding around its contents, if the flags announce it.
pub open spec fn with_padding(flags: u8, contents: Seq<u8>, padding: Seq<u8>) -> Seq<u8> {
    if (flags / 8) % 2 == 1 {
        seq![padding.len() as u8] + contents + padding
    } else {
        contents
    }
}

/// Padding is taken off again.
proof fn padding_comes_off(flags: u8, contents: Seq<u8>, padding: Seq<u8>)
    requires
        padding.len() < 256,
    ensures
        unpadded(flags, with_padding(flags, contents, padding)) == Some(contents),
{
    let payload = with_padding(flags, contents, padding);
    if (flags / 8) % 2 == 1 {
        assert(payload[0] == padding.len());
        assert(payload.subrange(1, payload.len() - payload[0]) =~= contents);
    }
}

/// A DATA frame says which stream it is for, what it holds and whether it is the last, whatever its
/// other flags and its padding are.
pub proof fn data_frames_are_read(flags: u8, id: StreamId, data: Seq<u8>, padding: Seq<u8>)
    requires
        id != 0,
        padding.len() < 256,
        with_padding(flags, data, padding).len() < 0x100_0000,
    ensures
        decode_frame(frame_bytes(DATA, flags, id, with_padding(flags, data, padding))) == Some(
            FrameModel::Data { id, data, end: flags % 2 == 1 },
        ),
{
    let payload = with_padding(flags, data, padding);
    frame_round_trip(DATA, flags, id, payload, Seq::empty());
    padding_comes_off(flags, data, padding);
}

/// A HEADERS frame says which stream it is for, which block it holds and whether it is the last,
/// whatever its other flags, its padding and its priority are.
pub proof fn headers_frames_are_read(
    flags: u8,
    id: StreamId,
    block: Seq<u8>,
    priority: Seq<u8>,
    padding: Seq<u8>,
)
    requires
        id != 0,
        padding.len() < 256,
        with_padding(flags, priority + block, padding).len() < 0x100_0000,
        priority.len() == if (flags / 32) % 2 == 1 {
            5nat
        } else {
            0
        },
    ensures
        decode_frame(
            frame_bytes(HEADERS, flags, id, with_padding(flags, priority + block, padding)),
        ) == Some(FrameModel::Headers { id, block, end: flags % 2 == 1 }),
{
    let contents = priority + block;
    let payload = with_padding(flags, contents, padding);
    frame_round_trip(HEADERS, flags, id, payload, Seq::empty());
    padding_comes_off(flags, contents, padding);
    if (flags / 32) % 2 == 1 {
        assert(contents.subrange(5, contents.len() as int) =~= block);
    } else {
        assert(contents =~= block);
    }
}

/// A RST_STREAM frame says which stream it is for and why, whatever its flags are.
pub proof fn rst_stream_frames_are_read(flags: u8, id: StreamId, number: u32)
    requires
        id != 0,
    ensures
        decode_frame(frame_bytes(RST_STREAM, flags, id, octets32(number as int))) == Some(
            FrameModel::RstStream { id, code: Http2ErrorCode::numbered(number) },
        ),
{
    let payload = octets32(number as int);
    frame_round_trip(RST_STREAM, flags, id, payload, Seq::empty());
    number_round_trip(number, Seq::empty());
    assert(payload + Seq::<u8>::empty() =~= payload);
}

/// Settings on the wire: identifier and value of each, one after the other.
pub open spec fn settings_octets(settings: Seq<(u16, u32)>) -> Seq<u8>
    decreases settings.len(),
{
    if settings.len() == 0 {
        Seq::empty()
    } else {
        octets16(settings[0].0 as int) + octets32(settings[0].1 as int) + settings_octets(
            settings.drop_first(),
        )
    }
}

/// Settings are read in the order in which they were written, but for those that are not known.
proof fn settings_are_read(settings: Seq<(u16, u32)>)
    ensures
        settings_octets(settings).len() == 6 * settings.len(),
        settings_in(settings_octets(settings)) == settings.filter(
            |setting: (u16, u32)| 1 <= setting.0 <= 6,
        ),
    decreases settings.len(),
{
    let known = |setting: (u16, u32)| 1 <= setting.0 <= 6;
    reveal(Seq::filter);
    if settings.len() > 0 {
        let (id, value) = settings[0];
        let rest = settings.drop_first();
        settings_are_read(rest);
        let octets = settings_octets(settings);
        assert(octets[0] == (id / 256) % 256 && octets[1] == id % 256);
        assert(octets[2] == (value / 0x100_0000) % 256);
        assert(octets[3] == (value / 0x1_0000) % 256);
        assert(octets[4] == (value / 256) % 256 && octets[5] == value % 256);
        assert(be16(octets, 0) == id);
        assert(be32(octets, 2) == value);
        assert(octets.subrange(6, octets.len() as int) =~= settings_octets(rest));
        let first = seq![settings[0]];
        assert(settings =~= first + rest);
        Seq::filter_distributes_over_add(first, rest, known);
        assert(first.drop_last() =~= Seq::empty());
        assert(first.drop_last().filter(known) =~= Seq::empty());
        if known(settings[0]) {
            assert(first.filter(known) =~= first);
        } else {
            assert(first.filter(known) =~= Seq::empty());
            assert(Seq::empty() + rest.filter(known) =~= rest.filter(known));
        }
    }
}

/// A SETTINGS frame that is no acknowledgement says the settings that were written into it, in
/// their order, but for those that are not known.
pub proof fn settings_frames_are_read(flags: u8, settings: Seq<(u16, u32)>)
    requires
        flags % 2 == 0,
        6 * settings.len() < 0x100_0000,
    ensures
        decode_frame(frame_bytes(SETTINGS, flags, 0, settings_octets(settings))) == Some(
            FrameModel::Settings {
                ack: false,
                settings: settings.filter(|setting: (u16, u32)| 1 <= setting.0 <= 6),
            },
        ),
{
    settings_are_read(settings);
    frame_round_trip(SETTINGS, flags, 0, settings_octets(settings), Seq::empty());
}

/// An acknowledgement of settings is one, whatever its other flags are.
pub proof fn settings_acks_are_read(flags: u8)
    requires
        flags % 2 == 1,
    ensures
        decode_frame(frame_bytes(SETTINGS, flags, 0, Seq::empty())) == Some(
            FrameModel::Settings { ack: true, settings: Seq::empty() },
        ),
{
    frame_round_trip(SETTINGS, flags, 0, Seq::empty(), Seq::empty());
}

/// A PING frame says its data and whether it is an answer, whatever its other flags are.
pub proof fn ping_frames_are_read(flags: u8, data: Seq<u8>)
    requires
        data.len() == 8,
    ensures
        decode_frame(frame_bytes(PING, flags, 0, data)) == Some(
            FrameModel::Ping { ack: flags % 2 == 1, data },
        ),
{
    frame_round_trip(PING, flags, 0, data, Seq::empty());
}

/// A GOAWAY frame says the last stream, but for the bit that is reserved, the reason, and the debug
/// data, if there are any.
pub proof fn goaway_frames_are_read(flags: u8, last: u32, number: u32, debug_data: Seq<u8>)
    requires
        debug_data.len() + 8 < 0x100_0000,
    ensures
        decode_frame(
            frame_bytes(
                GOAWAY,
                flags,
                0,
                octets32(last as int) + octets32(number as int) + debug_data,
            ),
        ) == Some(
            FrameModel::GoAway {
                last_stream_id: if last < 0x8000_0000 {
                    last
                } else {
                    (last - 0x8000_0000) as u32
                },
                code: Http2ErrorCode::numbered(number),
                debug_data: if debug_data.len() == 0 {
                    None
                } else {
                    Some(debug_data)
                },
            },
        ),
{
    let payload = octets32(last as int) + octets32(number as int) + debug_data;
    frame_round_trip(GOAWAY, flags, 0, payload, Seq::empty());
    number_round_trip(last, octets32(number as int) + debug_data);
    assert(payload =~= octets32(last as int) + (octets32(number as int) + debug_data));
    number_round_trip(number, debug_data);
    let tail = octets32(number as int) + debug_data;
    assert(payload[4] == tail[0] && payload[5] == tail[1]);
    assert(payload[6] == tail[2] && payload[7] == tail[3]);
    assert(be32(payload, 4) == number);
    assert(payload.subrange(8, payload.len() as int) =~= debug_data);
}

/// A GOAWAY frame that names a stream, a code and debug data is read as it was meant.
pub proof fn goaway_round_trip(last: StreamId, code: Http2ErrorCode, debug_data: Seq<u8>)
    requires
        last < 0x8000_0000,
        debug_data.len() + 8 < 0x100_0000,
    ensures
        decode_frame(
            frame_bytes(
                GOAWAY,
                0,
                0,
                octets32(last as int) + octets32(code.number() as int) + debug_data,
            ),
        ) == Some(
            FrameModel::GoAway {
                last_stream_id: last,
                code,
                debug_data: if debug_data.len() == 0 {
                    None
                } else {
                    Some(debug_data)
                },
            },
        ),
{
    goaway_frames_are_read(0, last, code.number(), debug_data);
    crate::http::error_code_round_trip(code);
}

/// Frames of other kinds are never wrong, and say nothing.
pub proof fn other_frames_are_read(kind: u8, flags: u8, id: StreamId, payload: Seq<u8>)
    requires
        payload.len() < 0x100_0000,
        kind == 2 || kind == 5 || kind > 7,
    ensures
        decode_frame(frame_bytes(kind, flags, id, payload)) == Some(FrameModel::Other),
{
    frame_round_trip(kind, flags, id, payload, Seq::empty());
}

/// Whether a frame breaks a rule of its kind: it is for a stream where it should be for the
/// connection, or the other way round; its length is wrong; or its padding or priority do not fit.
pub open spec fn breaks_rules(kind: u8, flags: u8, id: StreamId, payload: Seq<u8>) -> bool {
    let padded = (flags / 8) % 2 == 1;
    let padding = if padded && payload.len() > 0 {
        payload[0] as int
    } else {
        0
    };
    let overhead = if padded {
        1 + padding
    } else {
        0
    };
    match kind {
        0 => id == 0 || overhead > payload.len(),
        1 => {
            ||| id == 0
            ||| overhead > payload.len()
            ||| (flags / 32) % 2 == 1 && overhead + 5 > payload.len()
        },
        3 => id == 0 || payload.len() != 4,
        4 => {
            ||| id != 0
            ||| flags % 2 == 1 && payload.len() != 0
            ||| payload.len() % 6 != 0
        },
        6 => id != 0 || payload.len() != 8,
        7 => id != 0 || payload.len() < 8,
        _ => false,
    }
}

/// A frame is refused if it breaks a rule of its kind, and only then.
pub proof fn broken_frames_are_refused(kind: u8, flags: u8, id: StreamId, payload: Seq<u8>)
    requires
        payload.len() < 0x100_0000,
    ensures
        decode_frame(frame_bytes(kind, flags, id, payload)) is None <==> breaks_rules(
            kind,
            flags,
            id,
            payload,
        ),
{
    frame_round_trip(kind, flags, id, payload, Seq::empty());
}

} // verus!
