//! The HTTP/2 state machine of a connection
use crate::client::{ClientSession, SessionModel, StreamResult};
use crate::compression::{Compression, CompressionModel};
use crate::connection::{ConnectionEvent, DispatchConnectionEvent, Ref, RefModel};
use crate::frame::{build_data, build_headers, build_ping, build_rst_stream, write_preface};
use crate::frame::{FrameModel, HttpFrame, WrappedReceive};
use crate::header::to_h2;
use crate::http::{Header, HeaderModel, Http2ErrorCode, HttpError, HttpErrorModel, HttpResult};
use crate::http::{HttpScheme, StreamId};
use crate::request::{Error, Event, Handler, Request, Response};
use crate::session::StreamState;
use vstd::prelude::*;
use vstd::slice::{slice_subrange, slice_to_vec};

pub use crate::client::{Http2Settings, Settings};

verus! {

/// Upon successfully reading from a stream, ReadInfo is provided in the StreamDataState
#[derive(Clone, Copy, Debug, PartialEq, Eq, Structural)]
pub enum ReadInfo {
    /// So many bytes, and there will be more
    Pending(usize),
    /// So many bytes, the last ones
    End(usize),
}

/// Result of reading stream outgoing data
#[derive(Clone, Copy, Debug, PartialEq, Eq, Structural)]
pub enum StreamDataState {
    /// Have bytes to send
    Read(ReadInfo),

    /// Will check back later for data
    Unavailable,

    /// Cannot continue due to error
    ///
    /// Returning this will terminate the stream immediately.
    Error,
}

impl StreamDataState {
    /// How many bytes are announced.
    pub open spec fn len(self) -> nat {
        match self {
            StreamDataState::Read(ReadInfo::Pending(bytes)) => bytes as nat,
            StreamDataState::Read(ReadInfo::End(bytes)) => bytes as nat,
            _ => 0,
        }
    }

    /// So many bytes, the last ones
    pub fn done(bytes: usize) -> (state: StreamDataState)
        ensures
            state == StreamDataState::Read(ReadInfo::End(bytes)),
    {
        StreamDataState::Read(ReadInfo::End(bytes))
    }

    /// So many bytes, and there will be more
    pub fn read(bytes: usize) -> (state: StreamDataState)
        ensures
            state == StreamDataState::Read(ReadInfo::Pending(bytes)),
    {
        StreamDataState::Read(ReadInfo::Pending(bytes))
    }

    /// No bytes for now
    pub fn unavailable() -> (state: StreamDataState)
        ensures
            state == StreamDataState::Unavailable,
    {
        StreamDataState::Unavailable
    }

    /// No bytes, ever
    pub fn error() -> (state: StreamDataState)
        ensures
            state == StreamDataState::Error,
    {
        StreamDataState::Error
    }
}

/// A stream of the connection, with the handler of its request
pub struct Stream<H: Handler> {
    pub state: StreamState,
    pub inner: H,
}

/// A `Stream` as contracts speak of it: its state, and what its handler has been told and asked.
#[verifier::ext_equal]
pub struct StreamModel {
    pub state: StreamState,
    pub log: Seq<Event>,
}

impl<H: Handler> View for Stream<H> {
    type V = StreamModel;

    open spec fn view(&self) -> StreamModel {
        StreamModel { state: self.state, log: self.inner.log() }
    }
}

impl StreamModel {
    /// After the handler was told something.
    pub open spec fn told(self, event: Event) -> StreamModel {
        StreamModel { log: self.log.push(event), ..self }
    }

    /// After a change of state; the handler hears of the closing.
    pub open spec fn moved(self, state: StreamState) -> StreamModel {
        let moved = StreamModel { state, ..self };
        if state == StreamState::Closed {
            moved.told(Event::Closed)
        } else {
            moved
        }
    }

    /// After the peer reset the stream.
    pub open spec fn reset(self, code: Http2ErrorCode) -> StreamModel {
        self.told(Event::Failed(Error::Reset(code))).moved(StreamState::Closed)
    }
}

impl<H: Handler> Stream<H> {
    /// A stream that is open in both directions
    pub fn new(handler: H) -> (stream: Stream<H>)
        ensures
            stream.state == StreamState::Open,
            stream.inner == handler,
    {
        Stream { state: StreamState::Open, inner: handler }
    }

    /// The response headers arrived
    pub fn on_response(&mut self, res: Response)
        ensures
            final(self)@ == old(self)@.told(
                (Event::Response { status: res.status, headers: res.headers@ }),
            ),
    {
        self.inner.on_response(res);
    }

    /// Asks for data of the request
    pub fn stream_data(&mut self, buf: &mut [u8]) -> (state: StreamDataState)
        ensures
            final(buf)@.len() == old(buf)@.len(),
            state.len() <= old(buf)@.len(),
            final(self)@ == old(self)@.told(
                (Event::Polled { room: old(buf)@.len(), filled: final(buf)@, answer: state }),
            ),
    {
        self.inner.stream_data(buf)
    }

    /// An error occurred
    pub fn on_error(&mut self, err: Error)
        ensures
            final(self)@ == old(self)@.told(Event::Failed(err)),
    {
        self.inner.on_error(err)
    }

    /// Data of the response arrived
    pub fn new_data_chunk(&mut self, data: &[u8])
        ensures
            final(self)@ == old(self)@.told(Event::Data(data@)),
    {
        self.inner.on_response_data(data)
    }

    /// Changes the state; the handler hears of the closing.
    pub fn set_state(&mut self, state: StreamState)
        ensures
            final(self)@ == old(self)@.moved(state),
    {
        self.state = state;
        if state == StreamState::Closed {
            self.inner.on_close();
        }
    }

    /// Closes the stream in both directions
    pub fn close(&mut self)
        ensures
            final(self)@ == old(self)@.moved(StreamState::Closed),
    {
        self.set_state(StreamState::Closed);
    }

    /// The peer reset the stream
    pub fn on_rst_stream(&mut self, code: Http2ErrorCode)
        ensures
            final(self)@ == old(self)@.reset(code),
    {
        self.on_error(Error::Reset(code));
        self.close();
    }

    /// The state of the stream
    pub fn state(&self) -> (state: StreamState)
        ensures
            state == self.state,
    {
        self.state
    }

    /// Whether nothing more can be sent on the stream
    pub fn is_closed_local(&self) -> (closed: bool)
        ensures
            closed == self.state.closed_local(),
    {
        self.state == StreamState::HalfClosedLocal || self.state == StreamState::Closed
    }
}

/// An `Http2` as contracts speak of it.
#[verifier::ext_equal]
pub struct Http2Model {
    /// Whether the peer has opened the connection with its settings
    pub got_settings: bool,
    pub scheme: HttpScheme,
    pub compression: CompressionModel,
    pub session: SessionModel,
}

/// The protocol together with the part of the connection that it touches.
#[verifier::ext_equal]
pub struct State {
    pub http2: Http2Model,
    pub out: RefModel,
}

impl State {
    /// After a change to the session.
    pub open spec fn with_session(self, session: SessionModel) -> State {
        State { http2: Http2Model { session, ..self.http2 }, ..self }
    }

    /// After a frame was queued.
    pub open spec fn sending(self, frame: Seq<u8>) -> State {
        State { out: self.out.queued(frame), ..self }
    }

    /// After data arrived for a stream, perhaps the last.
    pub open spec fn data(self, id: StreamId, data: Seq<u8>, end: bool) -> State {
        let session = self.http2.session.data_arrived(id, data);
        self.with_session(
            if end {
                session.ended(id)
            } else {
                session
            },
        )
    }

    /// After a block was received.
    pub open spec fn received(self, block: Seq<u8>) -> State {
        State {
            http2: Http2Model {
                compression: self.http2.compression.after_receiving(block),
                ..self.http2
            },
            ..self
        }
    }

    /// After a header list arrived for a stream, perhaps the last of it.
    pub open spec fn headers(self, id: StreamId, list: Seq<HeaderModel>, end: bool) -> State {
        let session = self.http2.session.headers_arrived(id, list);
        self.with_session(
            if end {
                session.ended(id)
            } else {
                session
            },
        )
    }

    /// After settings arrived. They are acknowledged.
    pub open spec fn settings(self, settings: Seq<(u16, u32)>) -> State {
        self.with_session(self.http2.session.settings_arrived(settings)).sending(
            crate::client::settings_ack(),
        )
    }

    /// After a frame was handled, and the error that it caused.
    pub open spec fn handled(self, frame: Seq<u8>) -> (State, Option<HttpErrorModel>) {
        match crate::frame::decode_frame(frame) {
            None => (self, Some(HttpErrorModel::InvalidFrame)),
            Some(FrameModel::Data { id, data, end }) => (self.data(id, data, end), None),
            Some(FrameModel::Headers { id, block, end }) => match self.http2.compression.headers(
                block,
            ) {
                Some(list) => (self.received(block).headers(id, list, end), None),
                None => (self.received(block), Some(HttpErrorModel::CompressionError)),
            },
            Some(FrameModel::RstStream { id, code }) => (
                self.with_session(self.http2.session.reset(id, code)),
                None,
            ),
            Some(FrameModel::Settings { ack, settings }) => (
                if ack {
                    self
                } else {
                    self.settings(settings)
                },
                None,
            ),
            Some(FrameModel::Ping { ack, data }) => (
                if ack {
                    self
                } else {
                    self.sending(crate::client::ping_ack(data))
                },
                None,
            ),
            Some(FrameModel::GoAway { last_stream_id, code, debug_data }) => (
                self.with_session(self.http2.session.went_away(last_stream_id, code)),
                Some(crate::client::goaway_error(code, debug_data)),
            ),
            Some(FrameModel::Other) => (self, None),
        }
    }

    /// After a frame was handled that has to hold the peer's settings, and the error that it
    /// caused.
    pub open spec fn opened_by(self, frame: Seq<u8>) -> (State, Option<HttpErrorModel>) {
        match crate::frame::decode_frame(frame) {
            None => (self, Some(HttpErrorModel::InvalidFrame)),
            Some(FrameModel::Settings { ack: false, settings }) => (self.settings(settings), None),
            Some(_) => (self, Some(HttpErrorModel::UnableToConnect)),
        }
    }

    /// After the connection was found ready.
    pub open spec fn ready(self) -> State {
        State {
            http2: Http2Model { got_settings: true, ..self.http2 },
            out: self.out.reporting(ConnectionEvent::Connected),
        }
    }

    /// After the next frame of the connection, and the error that it caused. The first frame has to
    /// hold the peer's settings.
    pub open spec fn after_frame(self, frame: Seq<u8>) -> (State, Option<HttpErrorModel>) {
        if self.http2.got_settings {
            self.handled(frame)
        } else {
            match self.opened_by(frame) {
                (state, None) => (state.ready(), None),
                failed => failed,
            }
        }
    }

    /// After all whole frames at the start of a buffer, up to one that causes an error: the state,
    /// the octets in the frames before it, and the error.
    pub open spec fn fed(self, buf: Seq<u8>) -> (State, int, Option<HttpErrorModel>)
        decreases buf.len(),
    {
        if !crate::frame::starts_with_frame(buf) {
            (self, 0, None)
        } else {
            let len = crate::frame::frame_len(buf);
            match self.after_frame(buf.subrange(0, len)) {
                (state, None) => {
                    let (last, octets, err) = state.fed(buf.subrange(len, buf.len() as int));
                    (last, len + octets, err)
                },
                (state, Some(err)) => (state, 0, Some(err)),
            }
        }
    }
}

/// A "maximum" chunk size of 8 KiB is set on all data frames.
pub const MAX_CHUNK_SIZE: usize = 8_192;

/// A stream with the header list of its request
pub struct RequestStream<H: Handler> {
    pub headers: Vec<Header>,
    pub stream: Stream<H>,
}

/// Messages for an HTTP/2 state machine
#[derive(Debug)]
pub enum Msg<H: Handler> {
    /// Create a new stream on the current connection
    CreateStream(Request, H),

    /// Send a PING to the other end of connection
    Ping,
}

/// Whether anything was queued
#[derive(Clone, Copy, Debug, PartialEq, Eq, Structural)]
pub enum SendStatus {
    Sent,
    Nothing,
}

/// A piece of data for a stream
#[derive(Clone, Copy, Debug)]
pub struct DataChunk<'a> {
    pub data: &'a [u8],
    pub stream_id: StreamId,
    pub end_stream: bool,
}

/// Prioritizer where the buffer is already provided and filled; it just needs to be returned from
/// the data chunk.
#[derive(Clone, Copy, Debug)]
pub struct BufferPrioritizer<'a> {
    pub buf: &'a [u8],
    pub end: bool,
    pub id: StreamId,
}

impl<'a> BufferPrioritizer<'a> {
    /// Create a BufferPrioritizer.
    pub fn new(id: StreamId, buf: &'a [u8], end: bool) -> (prioritizer: BufferPrioritizer<'a>)
        ensures
            prioritizer.id == id,
            prioritizer.buf@ == buf@,
            prioritizer.end == end,
    {
        BufferPrioritizer { buf, end, id }
    }

    /// Provide the wrapped buffer
    pub fn get_next_chunk(&self) -> (chunk: DataChunk<'a>)
        ensures
            chunk.data@ == self.buf@,
            chunk.stream_id == self.id,
            chunk.end_stream == self.end,
    {
        DataChunk { data: self.buf, stream_id: self.id, end_stream: self.end }
    }
}

/// Whether the headers of a request can be sent.
pub open spec fn sendable(request: Request) -> bool {
    crate::header::text_values(crate::header::with_user_agent(request.headers@))
}

/// The headers that say what a request is for.
pub open spec fn pseudo_headers(request: Request, scheme: HttpScheme) -> Seq<HeaderModel> {
    seq![
        (crate::text::utf8(":method"@), crate::text::utf8(request.method@)),
        (crate::text::utf8(":path"@), crate::text::utf8(request.path@)),
        (crate::text::utf8(":authority"@), crate::text::utf8("http2bin.org"@)),
        (crate::text::utf8(":scheme"@), crate::text::utf8(scheme.label())),
    ]
}

/// None of the headers that say what a request is for is a `Connection` header.
proof fn pseudo_headers_are_not_connection(request: Request, scheme: HttpScheme)
    ensures
        forall|i: int|
            0 <= i < pseudo_headers(request, scheme).len() ==> (#[trigger] pseudo_headers(
                request,
                scheme,
            )[i]).0 != crate::text::utf8("connection"@),
{
    reveal_strlit("connection");
    reveal_strlit(":method");
    reveal_strlit(":path");
    reveal_strlit(":authority");
    reveal_strlit(":scheme");
    vstd::utf8::encode_utf8_decode_utf8("connection"@);
    vstd::utf8::encode_utf8_decode_utf8(":method"@);
    vstd::utf8::encode_utf8_decode_utf8(":path"@);
    vstd::utf8::encode_utf8_decode_utf8(":authority"@);
    vstd::utf8::encode_utf8_decode_utf8(":scheme"@);
    assert("connection"@[0] == 'c');
    assert(":method"@[0] == ':' && ":path"@[0] == ':');
    assert(":authority"@[0] == ':' && ":scheme"@[0] == ':');
}

/// The header list of a request.
pub open spec fn request_headers(request: Request, scheme: HttpScheme) -> Seq<HeaderModel> {
    pseudo_headers(request, scheme) + crate::header::h2_headers(
        crate::header::with_user_agent(request.headers@),
    )
}

/// The stream of a request, with a handler that has been told and asked what is given.
pub open spec fn request_stream(request: Request, log: Seq<Event>) -> StreamModel {
    StreamModel {
        state: if request.headers_only {
            StreamState::HalfClosedLocal
        } else {
            StreamState::Open
        },
        log,
    }
}

/// A PING frame.
pub open spec fn ping() -> Seq<u8> {
    crate::frame::frame_bytes(crate::frame::PING, 0, 0, seq![0u8, 0, 0, 0, 0, 0, 0, 0])
}

impl State {
    /// After a request was started on a stream of its own.
    pub open spec fn started(self, headers: Seq<HeaderModel>, stream: StreamModel) -> State {
        let end = stream.state.closed_local();
        State {
            http2: Http2Model {
                compression: self.http2.compression.after_sending(headers),
                session: self.http2.session.opened(stream),
                ..self.http2
            },
            out: self.out.queued(
                crate::frame::frame_bytes(
                    crate::frame::HEADERS,
                    crate::frame::headers_flags(end),
                    self.http2.session.next_id,
                    self.http2.compression.block(headers),
                ),
            ),
        }
    }

    /// After a stream was given up on this side.
    pub open spec fn resetting(self, id: StreamId, code: Http2ErrorCode) -> State {
        self.with_session(self.http2.session.failed(id)).sending(
            crate::frame::frame_bytes(
                crate::frame::RST_STREAM,
                0,
                id,
                crate::frame::octets32(code.number() as int),
            ),
        )
    }

    /// After a piece of data was sent on a stream, unless it is empty.
    pub open spec fn chunk(self, id: StreamId, data: Seq<u8>, end: bool) -> (State, SendStatus) {
        if data.len() == 0 {
            (self, SendStatus::Nothing)
        } else {
            (
                self.sending(
                    crate::frame::frame_bytes(
                        crate::frame::DATA,
                        crate::frame::end_flags(end),
                        id,
                        data,
                    ),
                ),
                SendStatus::Sent,
            )
        }
    }

    /// After a stream answered when it was asked for data.
    pub open spec fn answered(self, answer: Option<StreamResult>, buf: Seq<u8>) -> (
        State,
        SendStatus,
    ) {
        match answer {
            None => (self, SendStatus::Nothing),
            Some(StreamResult { id, state }) => match state {
                StreamDataState::Read(ReadInfo::Pending(bytes)) => self.chunk(
                    id,
                    buf.take(bytes as int),
                    false,
                ),
                StreamDataState::Read(ReadInfo::End(bytes)) => self.with_session(
                    self.http2.session.sated(id),
                ).chunk(id, buf.take(bytes as int), true),
                StreamDataState::Unavailable => (self, SendStatus::Nothing),
                StreamDataState::Error => (
                    self.resetting(id, Http2ErrorCode::InternalError),
                    SendStatus::Nothing,
                ),
            },
        }
    }
}

/// Whether the streams were asked, with the given session and answer as the outcome, and the answer
/// was dealt with.
pub open spec fn data_step(
    before: State,
    session: SessionModel,
    answer: Option<StreamResult>,
    buf: Seq<u8>,
    after: State,
    status: SendStatus,
) -> bool {
    &&& buf.len() == MAX_CHUNK_SIZE
    &&& crate::client::asked(before.http2.session, session, answer, buf)
    &&& before.with_session(session).answered(answer, buf) == (after, status)
}

/// Whether the streams were asked for data and the answer was dealt with.
pub open spec fn sends_data(before: State, after: State, status: SendStatus) -> bool {
    exists|session: SessionModel, answer: Option<StreamResult>, buf: Seq<u8>| #[trigger]
        data_step(before, session, answer, buf, after, status)
}

/// Whether the protocol can do what a message asks for.
pub open spec fn acceptable<H: Handler>(http2: Http2Model, msg: Msg<H>) -> bool {
    match msg {
        Msg::CreateStream(request, _) => sendable(request) && http2.session.next_id <= u32::MAX - 2,
        Msg::Ping => true,
    }
}

/// After the protocol did what a message asks for.
pub open spec fn notified<H: Handler>(state: State, msg: Msg<H>) -> State {
    match msg {
        Msg::CreateStream(request, handler) => state.started(
            request_headers(request, state.http2.scheme),
            request_stream(request, handler.log()),
        ),
        Msg::Ping => state.sending(ping()),
    }
}

/// The HTTP/2 state machine
pub struct Http2<H: Handler> {
    got_settings: bool,
    scheme: HttpScheme,
    conn: Compression,
    session: ClientSession<H>,
}

impl<H: Handler> View for Http2<H> {
    type V = Http2Model;

    closed spec fn view(&self) -> Http2Model {
        Http2Model {
            got_settings: self.got_settings,
            scheme: self.scheme,
            compression: self.conn@,
            session: self.session@,
        }
    }
}

/// The protocol of a new connection.
pub open spec fn new_http2() -> Http2Model {
    Http2Model {
        got_settings: false,
        scheme: HttpScheme::Http,
        compression: CompressionModel { sent: Seq::empty(), received: Seq::empty() },
        session: SessionModel {
            streams: Map::empty(),
            next_id: 1,
            interest: Set::empty(),
            removed: Map::empty(),
            max_concurrent_streams: 10,
        },
    }
}

/// A state put together from its parts.
pub open spec fn joint(http2: Http2Model, out: RefModel) -> State {
    State { http2, out }
}

/// Whether a result stands for an error or its absence.
pub open spec fn is_outcome<T>(result: HttpResult<T>, err: Option<HttpErrorModel>) -> bool {
    match result {
        Ok(_) => err is None,
        Err(e) => err == Some(e@),
    }
}

impl<H: Handler> Http2<H> {
    /// The streams and identifiers of the connection fit together.
    pub closed spec fn well_formed(self) -> bool {
        self.session.well_formed()
    }

    /// The session of a well formed protocol is valid.
    pub proof fn sessions_are_valid(&self)
        requires
            self.well_formed(),
        ensures
            self@.session.valid(),
    {
        self.session.sessions_are_valid();
    }

    /// The scheme of the connection
    pub fn scheme(&self) -> (scheme: HttpScheme)
        ensures
            scheme == self@.scheme,
    {
        self.scheme
    }

    /// Whether a stream has data to send
    pub fn wants_write(&self) -> (wants: bool)
        ensures
            wants == self@.session.wants_write(),
    {
        self.session.wants_write()
    }

    /// The identifier of the next stream
    pub fn next_stream_id(&self) -> (id: StreamId)
        ensures
            id == self@.session.next_id,
    {
        self.session.next_stream_id()
    }

    /// The number of streams that the peer wants to handle at a time
    pub fn max_concurrent_streams(&self) -> (val: u32)
        ensures
            val == self@.session.max_concurrent_streams,
    {
        self.session.max_concurrent_streams()
    }

    /// Whether a stream is not closed yet
    pub fn has_active_streams(&mut self) -> (active: bool)
        requires
            old(self).well_formed(),
        ensures
            final(self).well_formed(),
            final(self)@ == old(self)@,
            active == old(self)@.session.is_active(),
    {
        self.session.has_active_streams()
    }

    /// The connection failed. Gives up the streams that are not closed; if they have not heard of
    /// the failure, tells their handlers.
    pub fn abandon(&mut self, heard: bool)
        requires
            old(self).well_formed(),
        ensures
            final(self).well_formed(),
            final(self)@ == (Http2Model {
                session: old(self)@.session.abandoned(heard),
                ..old(self)@
            }),
    {
        self.session.abandon(heard)
    }

    /// Opens the conversation with the preface.
    pub fn initialize(&mut self, conn: &mut Ref)
        ensures
            *final(self) == *old(self),
            final(conn)@ == old(conn)@.queued(crate::frame::preface()),
    {
        conn.queue_frame(write_preface());
    }

    /// Handles the frame of the given receiver and expects it to be a `SETTINGS` frame. If it is
    /// not, it returns an error.
    ///
    /// The method can be used during the initialization of the connection, as the first frame that
    /// any peer is allowed to send is an initial settings frame.
    pub fn expect_settings(&mut self, rx: &WrappedReceive, tx: &mut Ref) -> (result: HttpResult<()>)
        requires
            old(self).well_formed(),
        ensures
            final(self).well_formed(),
            joint(final(self)@, final(tx)@) == joint(old(self)@, old(tx)@).opened_by(rx.bytes()).0,
            is_outcome(result, joint(old(self)@, old(tx)@).opened_by(rx.bytes()).1),
    {
        match rx.recv_frame() {
            Ok(HttpFrame::Settings { ack: false, settings }) => {
                self.session.new_settings(settings, tx);
                Ok(())
            },
            Ok(_) => Err(HttpError::UnableToConnect),
            Err(err) => Err(err),
        }
    }

    /// Fully handles the frame of the given receiver. Handling a frame may cause changes to the
    /// session state.
    pub fn handle_next_frame(&mut self, rx: &WrappedReceive, tx: &mut Ref) -> (result: HttpResult<
        (),
    >)
        requires
            old(self).well_formed(),
        ensures
            final(self).well_formed(),
            joint(final(self)@, final(tx)@) == joint(old(self)@, old(tx)@).handled(rx.bytes()).0,
            is_outcome(result, joint(old(self)@, old(tx)@).handled(rx.bytes()).1),
    {
        let frame = match rx.recv_frame() {
            Ok(frame) => frame,
            Err(err) => {
                return Err(err);
            },
        };
        match frame {
            HttpFrame::Data { id, data, end } => {
                self.session.new_data_chunk(id, data.as_slice());
                if end {
                    self.session.end_of_stream(id);
                }
                Ok(())
            },
            HttpFrame::Headers { id, block, end } => {
                let headers = match self.conn.decode(block.as_slice()) {
                    Ok(headers) => headers,
                    Err(err) => {
                        return Err(err);
                    },
                };
                self.session.new_headers(id, headers);
                if end {
                    self.session.end_of_stream(id);
                }
                Ok(())
            },
            HttpFrame::RstStream { id, code } => {
                self.session.rst_stream(id, code);
                Ok(())
            },
            HttpFrame::Settings { ack, settings } => {
                if !ack {
                    self.session.new_settings(settings, tx);
                }
                Ok(())
            },
            HttpFrame::Ping { ack, data } => {
                if !ack {
                    self.session.on_ping(data, tx);
                }
                Ok(())
            },
            HttpFrame::GoAway { last_stream_id, code, debug_data } => Err(
                self.session.on_goaway(last_stream_id, code, debug_data),
            ),
            HttpFrame::Other => Ok(()),
        }
    }

    /// Create a RequestStream given a request and handler
    ///
    /// This is a convenience method for generating a RequestStream. It is not added to the
    /// protocol's active streams; that is up to the caller.
    pub fn new_stream(request: Request, handler: H, scheme: HttpScheme) -> (stream: RequestStream<H>)
        requires
            sendable(request),
        ensures
            crate::http::header_list(stream.headers@) == request_headers(request, scheme),
            forall|i: int|
                0 <= i < stream.headers@.len() ==> (#[trigger] crate::http::header_list(
                    stream.headers@,
                )[i]).0 != crate::text::utf8("connection"@),
            stream.stream@ == request_stream(request, handler.log()),
    {
        let Request { method, mut headers, path, headers_only } = request;
        headers.set_user_agent();
        let mut list: Vec<Header> = Vec::new();
        list.push((text(":method"), text(method.as_str())));
        list.push((text(":path"), text(path.as_str())));
        list.push((text(":authority"), text("http2bin.org")));
        list.push((text(":scheme"), text(scheme.as_str())));
        let mut rest = to_h2(headers);
        let ghost pseudo = list@;
        let ghost added = rest@;
        list.append(&mut rest);
        proof {
            assert(crate::http::header_list(list@) =~= crate::http::header_list(pseudo)
                + crate::http::header_list(added));
            assert(crate::http::header_list(pseudo) =~= pseudo_headers(request, scheme));
            pseudo_headers_are_not_connection(request, scheme);
        }
        let mut stream = Stream::new(handler);
        if headers_only {
            stream.set_state(StreamState::HalfClosedLocal);
        }
        RequestStream { headers: list, stream }
    }

    /// Starts a new request based on the given `RequestStream`.
    ///
    /// For now it does not perform any validation whether the given `RequestStream` is valid.
    pub fn start_request(&mut self, req: RequestStream<H>, sender: &mut Ref) -> (result: HttpResult<
        StreamId,
    >)
        requires
            old(self).well_formed(),
            old(self)@.session.next_id <= u32::MAX - 2,
        ensures
            final(self).well_formed(),
            result == Ok::<StreamId, HttpError>(old(self)@.session.next_id),
            joint(final(self)@, final(sender)@) == joint(old(self)@, old(sender)@).started(
                crate::http::header_list(req.headers@),
                req.stream@,
            ),
    {
        let RequestStream { headers, stream } = req;
        let end_stream = stream.is_closed_local();
        let stream_id = self.session.open_stream(stream);
        let block = self.conn.encode(&headers);
        sender.queue_frame(build_headers(stream_id, block, end_stream));
        Ok(stream_id)
    }

    /// Send a PING
    pub fn send_ping(&mut self, sender: &mut Ref) -> (result: HttpResult<()>)
        ensures
            *final(self) == *old(self),
            result is Ok,
            final(sender)@ == old(sender)@.queued(ping()),
    {
        let mut data: Vec<u8> = Vec::new();
        data.resize(8, 0);
        assert(data@ =~= seq![0u8, 0, 0, 0, 0, 0, 0, 0]);
        sender.queue_frame(build_ping(data));
        Ok(())
    }

    /// Initiate a stream reset
    ///
    /// Processing the stream identified by `id` has failed locally. Send a RST_STREAM frame to our
    /// peer, remove the stream from the state machine, and run the on_error callback for the
    /// stream.
    pub fn rst_stream(&mut self, id: StreamId, code: Http2ErrorCode, sender: &mut Ref) -> (result:
        HttpResult<()>)
        requires
            old(self).well_formed(),
        ensures
            final(self).well_formed(),
            result is Ok,
            joint(final(self)@, final(sender)@) == joint(old(self)@, old(sender)@).resetting(
                id,
                code,
            ),
    {
        // Send RST_STREAM frame
        sender.queue_frame(build_rst_stream(id, code));
        self.session.fail_stream(id);
        Ok(())
    }

    /// Queues what a stream answered when it was asked for data, which stands at the start of the
    /// buffer.
    pub fn send_answer(&mut self, answer: Option<StreamResult>, buf: &[u8], sender: &mut Ref)
        -> (result: HttpResult<SendStatus>)
        requires
            old(self).well_formed(),
            answer matches Some(result) ==> result.state.len() <= buf@.len(),
        ensures
            final(self).well_formed(),
            joint(final(self)@, final(sender)@) == joint(old(self)@, old(sender)@).answered(
                answer,
                buf@,
            ).0,
            result == Ok::<SendStatus, HttpError>(
                joint(old(self)@, old(sender)@).answered(answer, buf@).1,
            ),
    {
        let StreamResult { id, state } = match answer {
            Some(answer) => answer,
            None => {
                return Ok(SendStatus::Nothing);
            },
        };
        match state {
            StreamDataState::Read(info) => {
                // Remove stream from interest if it's done providing data
                let (bytes, end) = match info {
                    ReadInfo::Pending(bytes) => (bytes, false),
                    ReadInfo::End(bytes) => {
                        self.session.finish_sending(id);
                        (bytes, true)
                    },
                };
                if bytes == 0 {
                    return Ok(SendStatus::Nothing);
                }
                let prioritizer = BufferPrioritizer::new(id, slice_subrange(buf, 0, bytes), end);
                let chunk = prioritizer.get_next_chunk();
                sender.queue_frame(
                    build_data(chunk.stream_id, slice_to_vec(chunk.data), chunk.end_stream),
                );
                Ok(SendStatus::Sent)
            },
            StreamDataState::Unavailable => Ok(SendStatus::Nothing),
            StreamDataState::Error => {
                match self.rst_stream(id, Http2ErrorCode::InternalError, sender) {
                    Ok(()) => Ok(SendStatus::Nothing),
                    Err(err) => Err(err),
                }
            },
        }
    }

    /// Queues a new DATA frame.
    ///
    /// Currently, no prioritization of streams is taken into account and which stream's data is
    /// queued cannot be relied on.
    pub fn send_next_data(&mut self, sender: &mut Ref) -> (result: HttpResult<SendStatus>)
        requires
            old(self).well_formed(),
        ensures
            final(self).well_formed(),
            result matches Ok(status) && sends_data(
                joint(old(self)@, old(sender)@),
                joint(final(self)@, final(sender)@),
                status,
            ),
    {
        let mut buf: Vec<u8> = Vec::new();
        buf.resize(MAX_CHUNK_SIZE, 0);
        let ghost before = joint(self@, sender@);
        let answer = self.session.get_stream_data(buf.as_mut_slice());
        let ghost asked = self@.session;
        assert(before.with_session(asked) == joint(self@, sender@));
        let result = self.send_answer(answer, buf.as_slice(), sender);
        proof {
            assert(data_step(
                before,
                asked,
                answer,
                buf@,
                joint(self@, sender@),
                before.with_session(asked).answered(answer, buf@).1,
            ));
        }
        result
    }
}

/// A protocol that a connection can speak
pub trait Protocol<H: Handler>: Sized + 'static {
    /// The state of the protocol.
    spec fn model(&self) -> Http2Model;

    /// Whether the parts of the state fit together.
    spec fn consistent(&self) -> bool;

    /// The protocol of a new connection
    fn new() -> (protocol: Self)
        ensures
            protocol.consistent(),
            protocol.model() == new_http2(),
    ;

    /// Handles all whole frames at the start of the buffer and returns how many bytes they took.
    fn on_data(&mut self, buf: &[u8], conn: &mut Ref) -> (result: HttpResult<usize>)
        requires
            old(self).consistent(),
        ensures
            final(self).consistent(),
            joint(final(self).model(), final(conn)@) == joint(old(self).model(), old(conn)@).fed(
                buf@,
            ).0,
            is_outcome(result, joint(old(self).model(), old(conn)@).fed(buf@).2),
            result matches Ok(octets) ==> octets == joint(old(self).model(), old(conn)@).fed(buf@).1,
    ;

    /// The connection can take data. Gives a stream the chance to send some.
    fn ready_write(&mut self, conn: &mut Ref) -> (result: HttpResult<SendStatus>)
        requires
            old(self).consistent(),
        ensures
            final(self).consistent(),
            result matches Ok(status) && sends_data(
                joint(old(self).model(), old(conn)@),
                joint(final(self).model(), final(conn)@),
                status,
            ),
    ;

    /// Does what a message asks for.
    fn notify(&mut self, msg: Msg<H>, conn: &mut Ref) -> (result: HttpResult<()>)
        requires
            old(self).consistent(),
            acceptable(old(self).model(), msg),
        ensures
            final(self).consistent(),
            result is Ok,
            joint(final(self).model(), final(conn)@) == notified(
                joint(old(self).model(), old(conn)@),
                msg,
            ),
    ;
}

impl<H: Handler> Protocol<H> for Http2<H> {
    open spec fn model(&self) -> Http2Model {
        self@
    }

    open spec fn consistent(&self) -> bool {
        self.well_formed()
    }

    fn new() -> (http2: Http2<H>) {
        Http2 {
            got_settings: false,
            scheme: HttpScheme::Http,
            conn: Compression::new(),
            session: ClientSession::new(),
        }
    }

    fn on_data(&mut self, buf: &[u8], conn: &mut Ref) -> (result: HttpResult<usize>) {
        let ghost start = joint(self@, conn@);
        let mut total_consumed: usize = 0;
        proof {
            assert(buf@.subrange(0, buf@.len() as int) =~= buf@);
        }
        loop
            invariant
                self.well_formed(),
                total_consumed <= buf@.len(),
                start == joint(old(self)@, old(conn)@),
                ({
                    let rest = joint(self@, conn@).fed(
                        buf@.subrange(total_consumed as int, buf@.len() as int),
                    );
                    start.fed(buf@) == (rest.0, total_consumed + rest.1, rest.2)
                }),
            decreases buf@.len() - total_consumed,
        {
            let left = slice_subrange(buf, total_consumed, buf.len());
            let receiver = match WrappedReceive::parse(left) {
                Some(receiver) => receiver,
                None => {
                    return Ok(total_consumed);
                },
            };
            let len: usize = receiver.frame().len();
            if !self.got_settings {
                match self.expect_settings(&receiver, conn) {
                    Ok(()) => {},
                    Err(err) => {
                        return Err(err);
                    },
                }
                self.got_settings = true;
                conn.connection_ready();
            } else {
                match self.handle_next_frame(&receiver, conn) {
                    Ok(()) => {},
                    Err(err) => {
                        return Err(err);
                    },
                }
            }
            proof {
                assert(left@.subrange(len as int, left@.len() as int) =~= buf@.subrange(
                    total_consumed + len,
                    buf@.len() as int,
                ));
            }
            total_consumed = total_consumed + len;
        }
    }

    fn ready_write(&mut self, conn: &mut Ref) -> (result: HttpResult<SendStatus>) {
        self.send_next_data(conn)
    }

    fn notify(&mut self, msg: Msg<H>, conn: &mut Ref) -> (result: HttpResult<()>) {
        match msg {
            Msg::CreateStream(request, handler) => {
                let stream = Http2::new_stream(request, handler, self.scheme);
                match self.start_request(stream, conn) {
                    Ok(_) => Ok(()),
                    Err(err) => Err(err),
                }
            },
            Msg::Ping => self.send_ping(conn),
        }
    }
}

/// The octets of a text.
fn text(s: &str) -> (octets: Vec<u8>)
    ensures
        octets@ == crate::text::utf8(s@),
{
    slice_to_vec(s.as_bytes())
}

} // verus!
