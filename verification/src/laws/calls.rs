//! What holds of calls: what a session, a protocol and a connection are like after each
use crate::client::{ClientSession, SessionModel, StreamResult};
use crate::connection::{Action, Connection, ConnectionEvent, ConnectionModel, Error as Failure};
use crate::connection::{EventSet, Phase, Ref, RefModel, StreamStatus, WriteStatus};
use crate::frame::{HttpFrame, WrappedReceive};
use crate::header::{Field, Headers, ParseError, StatusCode};
use crate::http::{Header, Http2ErrorCode, HttpError, HttpErrorModel, HttpScheme, StreamId};
use crate::protocol::{Http2, Http2Model, Msg, Protocol, RequestStream, SendStatus, State, Stream};
use crate::protocol::{StreamDataState, StreamModel};
use crate::request::{Error, Event, Handler, Request};
use crate::session::StreamState;
use vstd::prelude::*;

verus! {

/// A stream of a session that has heard more and may be closed, with nothing else changed.
pub open spec fn with_stream_news(
    session: SessionModel,
    id: StreamId,
    news: Seq<Event>,
    closed: bool,
) -> SessionModel {
    SessionModel {
        streams: session.streams.insert(
            id,
            StreamModel {
                state: if closed {
                    StreamState::Closed
                } else {
                    session.streams[id].state
                },
                log: session.streams[id].log + news,
            },
        ),
        interest: if closed {
            session.interest.remove(id)
        } else {
            session.interest
        },
        ..session
    }
}

/// Data that arrive for a stream reach its handler, unless the stream is closed or not known.
pub proof fn data_are_delivered<H: Handler>(
    session: &mut ClientSession<H>,
    id: StreamId,
    data: &[u8],
)
    requires
        call_ensures(ClientSession::<H>::new_data_chunk, (session, id, data), ()),
    ensures
        ({
            let before = old(session)@;
            let known = before.streams.dom().contains(id);
            &&& known && before.streams[id].state != StreamState::Closed ==> final(session)@
                == with_stream_news(before, id, seq![Event::Data(data@)], false)
            &&& !known || before.streams[id].state == StreamState::Closed ==> final(session)@
                == before
        }),
{
    let before = old(session)@;
    let news = seq![Event::Data(data@)];
    if before.streams.dom().contains(id) {
        assert(before.streams[id].log.push(Event::Data(data@)) =~= before.streams[id].log + news);
    }
}

/// The end of a stream closes it, and its handler hears of that.
pub proof fn ends_are_delivered<H: Handler>(session: &mut ClientSession<H>, id: StreamId)
    requires
        call_ensures(ClientSession::<H>::end_of_stream, (session, id), ()),
    ensures
        final(session)@ == if old(session)@.streams.dom().contains(id) {
            with_stream_news(old(session)@, id, seq![Event::Closed], true)
        } else {
            old(session)@
        },
{
    let before = old(session)@;
    let news = seq![Event::Closed];
    assert(before.streams[id].log.push(Event::Closed) =~= before.streams[id].log + news);
}

/// A reset by the peer fails the stream with the peer's reason and closes it.
pub proof fn resets_are_delivered<H: Handler>(
    session: &mut ClientSession<H>,
    id: StreamId,
    code: Http2ErrorCode,
)
    requires
        call_ensures(ClientSession::<H>::rst_stream, (session, id, code), ()),
    ensures
        final(session)@ == if old(session)@.streams.dom().contains(id) {
            with_stream_news(
                old(session)@,
                id,
                seq![Event::Failed(Error::Reset(code)), Event::Closed],
                true,
            )
        } else {
            old(session)@
        },
{
    let log = old(session)@.streams[id].log;
    let news = seq![Event::Failed(Error::Reset(code)), Event::Closed];
    assert(log.push(Event::Failed(Error::Reset(code))).push(Event::Closed) =~= log + news);
}

/// Any header list with a status that is a number is a response, and reaches the handler of its
/// stream, which stays as it is otherwise.
pub proof fn responses_are_delivered<H: Handler>(
    session: &mut ClientSession<H>,
    id: StreamId,
    headers: Vec<Header>,
    values: Seq<Seq<u8>>,
    text: Seq<char>,
    number: u16,
)
    requires
        call_ensures(ClientSession::<H>::new_headers, (session, id, headers), ()),
        ({
            let list = crate::http::header_list(headers@);
            &&& crate::header::names_are_text(list)
            &&& crate::header::field_values(crate::header::fields_of(list), ":status"@) == Some(
                values,
            )
            &&& values[0] == crate::text::utf8(text)
            &&& crate::text::number16(text) == Some(number)
        }),
    ensures
        ({
            let response = Event::Response {
                status: StatusCode(number),
                headers: crate::header::fields_of(crate::http::header_list(headers@)),
            };
            final(session)@ == if old(session)@.streams.dom().contains(id) {
                with_stream_news(old(session)@, id, seq![response], false)
            } else {
                old(session)@
            }
        }),
{
    vstd::utf8::encode_utf8_decode_utf8(text);
    vstd::utf8::encode_utf8_valid_utf8(text);
    let log = old(session)@.streams[id].log;
    let response = Event::Response {
        status: StatusCode(number),
        headers: crate::header::fields_of(crate::http::header_list(headers@)),
    };
    assert(log.push(response) =~= log + seq![response]);
}

/// Settings are applied, the last word on each counts, and they are acknowledged.
pub proof fn settings_are_heeded<H: Handler>(
    session: &mut ClientSession<H>,
    settings: Vec<(u16, u32)>,
    sender: &mut Ref,
)
    requires
        call_ensures(ClientSession::<H>::new_settings, (session, settings, sender), ()),
    ensures
        final(session)@ == (SessionModel {
            max_concurrent_streams: crate::client::max_concurrent_after(
                old(session)@.max_concurrent_streams,
                settings@,
            ),
            ..old(session)@
        }),
        final(sender)@ == old(sender)@.queued(
            crate::frame::frame_bytes(crate::frame::SETTINGS, 1, 0, Seq::empty()),
        ),
{
}

/// A stream that is opened gets the next identifier. Unless it is complete, it is among the streams
/// that have data to send right away.
pub proof fn opened_streams_are_asked<H: Handler>(
    session: &mut ClientSession<H>,
    stream: Stream<H>,
    id: StreamId,
)
    requires
        call_ensures(ClientSession::<H>::open_stream, (session, stream), id),
        old(session)@.next_id <= u32::MAX - 2,
    ensures
        id == old(session)@.next_id,
        final(session)@.next_id == id + 2,
        final(session)@.streams == old(session)@.streams.insert(id, stream@),
        final(session)@.removed == old(session)@.removed,
        final(session)@.max_concurrent_streams == old(session)@.max_concurrent_streams,
        forall|other: StreamId| #[trigger]
            final(session)@.interest.contains(other) <==> old(session)@.interest.contains(other)
                || other == id && stream.state != StreamState::HalfClosedLocal && stream.state
                != StreamState::Closed,
{
}

/// A stream that has sent all is not asked any more.
pub proof fn finished_streams_are_not_asked<H: Handler>(
    session: &mut ClientSession<H>,
    id: StreamId,
)
    requires
        call_ensures(ClientSession::<H>::finish_sending, (session, id), ()),
    ensures
        final(session)@ == (SessionModel {
            interest: old(session)@.interest.remove(id),
            ..old(session)@
        }),
{
}

/// A stream that fails on this side leaves the session, and its handler hears of it once.
pub proof fn failures_are_delivered<H: Handler>(session: &mut ClientSession<H>, id: StreamId)
    requires
        call_ensures(ClientSession::<H>::fail_stream, (session, id), ()),
    ensures
        ({
            let before = old(session)@;
            let after = final(session)@;
            &&& after.streams == before.streams.remove(id)
            &&& after.interest == before.interest.remove(id)
            &&& after.next_id == before.next_id
            &&& after.max_concurrent_streams == before.max_concurrent_streams
            &&& after.removed == if before.streams.dom().contains(id) {
                before.removed.insert(
                    id,
                    StreamModel {
                        state: before.streams[id].state,
                        log: before.streams[id].log.push(Event::Failed(Error::User)),
                    },
                )
            } else {
                before.removed
            }
        }),
{
    let before = old(session)@;
    if !before.streams.dom().contains(id) {
        assert(before.streams.remove(id) =~= before.streams);
    }
}

/// When the peer goes away, every handler hears whether its request may have been processed, and
/// the streams above the last one leave.
pub proof fn departures_are_delivered<H: Handler>(
    session: &mut ClientSession<H>,
    last: StreamId,
    code: Http2ErrorCode,
    debug_data: Option<Vec<u8>>,
    err: HttpError,
    id: StreamId,
)
    requires
        call_ensures(ClientSession::<H>::on_goaway, (session, last, code, debug_data), err),
    ensures
        ({
            let before = old(session)@;
            let after = final(session)@;
            let known = before.streams.dom().contains(id);
            &&& err@ == HttpErrorModel::PeerConnectionError {
                code,
                debug_data: match debug_data {
                    Some(data) => Some(data@),
                    None => None,
                },
            }
            &&& after.next_id == before.next_id
            &&& after.max_concurrent_streams == before.max_concurrent_streams
            &&& after.streams.dom().contains(id) <==> known && id <= last
            &&& after.interest.contains(id) <==> before.interest.contains(id) && id <= last
            &&& known && id <= last ==> after.streams[id] == StreamModel {
                state: before.streams[id].state,
                log: before.streams[id].log.push(Event::Failed(Error::GoAwayMaybeProcessed(code))),
            }
            &&& known && id > last ==> after.removed[id] == StreamModel {
                state: before.streams[id].state,
                log: before.streams[id].log.push(Event::Failed(Error::GoAwayUnprocessed(code))),
            }
            &&& after.removed.dom().contains(id) <==> before.removed.dom().contains(id) || known
                && id > last
        }),
{
}

/// The streams that have data to send are asked for it, with the whole buffer, until one of them
/// answers.
pub proof fn streams_are_asked<H: Handler>(
    session: &mut ClientSession<H>,
    buf: &mut [u8],
    answer: Option<StreamResult>,
    id: StreamId,
)
    requires
        call_ensures(ClientSession::<H>::get_stream_data, (session, buf), answer),
        old(session)@.interest.contains(id),
    ensures
        ({
            let before = old(session)@.streams[id];
            let after = final(session)@.streams[id];
            let room = old(buf)@.len();
            &&& final(buf)@.len() == room
            &&& final(session)@ == SessionModel {
                streams: final(session)@.streams,
                ..old(session)@
            }
            &&& match answer {
                Some(result) => {
                    &&& old(session)@.interest.contains(result.id)
                    &&& result.state != StreamDataState::Unavailable
                    &&& id == result.id ==> after == StreamModel {
                        state: before.state,
                        log: before.log.push(
                            Event::Polled { room, filled: final(buf)@, answer: result.state },
                        ),
                    }
                },
                None => exists|filled: Seq<u8>|
                    filled.len() == room && after == #[trigger] before.told(
                        Event::Polled { room, filled, answer: StreamDataState::Unavailable },
                    ),
            }
        }),
{
}

/// What a session says of itself.
pub proof fn sessions_speak_true<H: Handler>(
    session: &ClientSession<H>,
    wants: bool,
    next: StreamId,
    most: u32,
)
    requires
        call_ensures(ClientSession::<H>::wants_write, (session,), wants),
        call_ensures(ClientSession::<H>::next_stream_id, (session,), next),
        call_ensures(ClientSession::<H>::max_concurrent_streams, (session,), most),
    ensures
        wants <==> exists|id: StreamId| #[trigger] session@.interest.contains(id),
        next == session@.next_id,
        most == session@.max_concurrent_streams,
{
}

/// A PING is answered with its own data.
pub proof fn pings_are_returned<H: Handler>(
    session: &ClientSession<H>,
    data: Vec<u8>,
    sender: &mut Ref,
)
    requires
        call_ensures(ClientSession::<H>::on_ping, (session, data, sender), ()),
    ensures
        final(sender)@ == old(sender)@.queued(
            crate::frame::frame_bytes(crate::frame::PING, 1, 0, data@),
        ),
{
}

/// Octets are a frame as soon as all of it is there, and they are the frame's octets and no others.
pub proof fn frames_are_found<'a>(buf: &'a [u8], receiver: Option<WrappedReceive<'a>>)
    requires
        call_ensures(WrappedReceive::<'a>::parse, (buf,), receiver),
    ensures
        receiver is Some <==> buf@.len() >= 9 && buf@.len() >= 9 + buf@[0] * 0x1_0000 + buf@[1]
            * 0x100 + buf@[2],
        receiver matches Some(r) ==> r.bytes() == buf@.subrange(
            0,
            9 + buf@[0] * 0x1_0000 + buf@[1] * 0x100 + buf@[2],
        ),
{
}

/// A frame is decoded as it is, or refused if it breaks a rule of its kind.
pub proof fn frames_are_decoded<'a>(
    receiver: &WrappedReceive<'a>,
    frame: Result<HttpFrame, HttpError>,
    kind: u8,
    flags: u8,
    id: StreamId,
    payload: Seq<u8>,
)
    requires
        call_ensures(WrappedReceive::<'a>::recv_frame, (receiver,), frame),
        receiver.bytes() == crate::frame::frame_bytes(kind, flags, id, payload),
        payload.len() < 0x100_0000,
    ensures
        frame is Err <==> crate::frame::breaks_rules(kind, flags, id, payload),
        frame matches Err(err) ==> err is InvalidFrame,
        frame matches Ok(f) ==> Some(f@) == crate::frame::decode_frame(
            crate::frame::frame_bytes(kind, flags, id, payload),
        ),
{
    crate::frame::broken_frames_are_refused(kind, flags, id, payload);
}

/// The state that a protocol and the connection's part that it touches make up.
pub open spec fn together(http2: Http2Model, out: RefModel) -> State {
    State { http2, out }
}

/// Whether an outcome is an error or its absence.
pub open spec fn comes_to<T>(result: Result<T, HttpError>, err: Option<HttpErrorModel>) -> bool {
    match result {
        Ok(_) => err is None,
        Err(e) => err == Some(e@),
    }
}

/// A connection that is ready handles a frame, and one that is not expects settings of it. Being
/// ready is noted elsewhere.
pub proof fn protocols_handle_frames<H: Handler>(
    http2: &mut Http2<H>,
    rx: &WrappedReceive,
    tx: &mut Ref,
    result: Result<(), HttpError>,
)
    ensures
        call_ensures(Http2::<H>::handle_next_frame, (http2, rx, tx), result)
            && old(http2)@.got_settings ==> {
            let (after, err) = together(old(http2)@, old(tx)@).after_frame(rx.bytes());
            together(final(http2)@, final(tx)@) == after && comes_to(result, err)
        },
        call_ensures(Http2::<H>::expect_settings, (http2, rx, tx), result)
            && !old(http2)@.got_settings ==> {
            let (after, err) = together(old(http2)@, old(tx)@).after_frame(rx.bytes());
            &&& comes_to(result, err)
            &&& together(final(http2)@, final(tx)@).http2.session == after.http2.session
            &&& final(tx)@.backlog == after.out.backlog
            &&& final(tx)@.events == old(tx)@.events
        },
{
}

/// All whole frames of a buffer are handled, one after the other, up to one that causes an error.
pub proof fn protocols_take_buffers<H: Handler>(
    http2: &mut Http2<H>,
    buf: &[u8],
    conn: &mut Ref,
    result: Result<usize, HttpError>,
)
    requires
        call_ensures(<Http2<H> as Protocol<H>>::on_data, (http2, buf, conn), result),
    ensures
        ({
            let (after, taken, err) = together(old(http2)@, old(conn)@).fed(buf@);
            &&& together(final(http2)@, final(conn)@) == after
            &&& comes_to(result, err)
            &&& result matches Ok(octets) ==> octets == taken
        }),
{
}

/// A request becomes a stream with the header list of the request; the stream is complete if the
/// request has no body.
pub proof fn requests_become_streams<H: Handler>(
    request: Request,
    handler: H,
    scheme: HttpScheme,
    stream: RequestStream<H>,
)
    requires
        call_ensures(Http2::<H>::new_stream, (request, handler, scheme), stream),
    ensures
        ({
            let list = crate::http::header_list(stream.headers@);
            let fields = crate::header::with_field(
                request.headers@,
                "User-Agent"@,
                seq![crate::text::utf8("hydra/0.0.1"@)],
            );
            &&& list.len() >= 4
            &&& list[0] == (crate::text::utf8(":method"@), crate::text::utf8(request.method@))
            &&& list[1] == (crate::text::utf8(":path"@), crate::text::utf8(request.path@))
            &&& list[2] == (crate::text::utf8(":authority"@), crate::text::utf8("http2bin.org"@))
            &&& list[3] == (crate::text::utf8(":scheme"@), crate::text::utf8(scheme.label()))
            &&& list.subrange(4, list.len() as int) == crate::header::h2_headers(fields)
        }),
        stream.stream.inner.log() == handler.log(),
        stream.stream.state == if request.headers_only {
            StreamState::HalfClosedLocal
        } else {
            StreamState::Open
        },
{
    crate::laws::headers::requests_are_sent_in_full(request, scheme);
}

/// A request goes out on the next stream, in one frame.
pub proof fn protocols_start_requests<H: Handler>(
    http2: &mut Http2<H>,
    req: RequestStream<H>,
    sender: &mut Ref,
    result: Result<StreamId, HttpError>,
)
    requires
        call_ensures(Http2::<H>::start_request, (http2, req, sender), result),
    ensures
        ({
            let list = crate::http::header_list(req.headers@);
            let complete = req.stream.state == StreamState::HalfClosedLocal || req.stream.state
                == StreamState::Closed;
            let frame = crate::frame::frame_bytes(
                crate::frame::HEADERS,
                if complete {
                    5
                } else {
                    4
                },
                old(http2)@.session.next_id,
                crate::compression::hpack_encoding(old(http2)@.compression.sent, list),
            );
            &&& result == Ok::<StreamId, HttpError>(old(http2)@.session.next_id)
            &&& final(sender)@ == old(sender)@.queued(frame)
            &&& final(http2)@.session == old(http2)@.session.opened(req.stream@)
            &&& final(http2)@.compression.sent == old(http2)@.compression.sent.push(list)
            &&& final(http2)@.compression.received == old(http2)@.compression.received
            &&& final(http2)@.got_settings == old(http2)@.got_settings
            &&& final(http2)@.scheme == old(http2)@.scheme
        }),
{
}

/// A message to the protocol starts a request or sends a PING.
pub proof fn protocols_heed_messages<H: Handler>(
    http2: &mut Http2<H>,
    msg: Msg<H>,
    conn: &mut Ref,
    result: Result<(), HttpError>,
)
    requires
        call_ensures(<Http2<H> as Protocol<H>>::notify, (http2, msg, conn), result),
    ensures
        result is Ok,
        together(final(http2)@, final(conn)@) == crate::protocol::notified(
            together(old(http2)@, old(conn)@),
            msg,
        ),
{
}

/// An answer of a stream is dealt with, and a chance to send is put to the streams.
pub proof fn protocols_send<H: Handler>(
    http2: &mut Http2<H>,
    answer: Option<StreamResult>,
    buf: &[u8],
    sender: &mut Ref,
    result: Result<SendStatus, HttpError>,
)
    ensures
        call_ensures(Http2::<H>::send_answer, (http2, answer, buf, sender), result) ==> {
            let (after, status) = together(old(http2)@, old(sender)@).answered(answer, buf@);
            &&& together(final(http2)@, final(sender)@) == after
            &&& result == Ok::<SendStatus, HttpError>(status)
        },
        call_ensures(Http2::<H>::send_next_data, (http2, sender), result) ==> {
            &&& result is Ok
            &&& crate::protocol::sends_data(
                together(old(http2)@, old(sender)@),
                together(final(http2)@, final(sender)@),
                result->Ok_0,
            )
        },
        call_ensures(<Http2<H> as Protocol<H>>::ready_write, (http2, sender), result) ==> {
            &&& result is Ok
            &&& crate::protocol::sends_data(
                together(old(http2)@, old(sender)@),
                together(final(http2)@, final(sender)@),
                result->Ok_0,
            )
        },
{
}

/// A stream is given up on this side, for whatever reason, and a PING and the preface are sent.
pub proof fn protocols_tell_the_peer<H: Handler>(
    http2: &mut Http2<H>,
    id: StreamId,
    code: Http2ErrorCode,
    sender: &mut Ref,
    result: Result<(), HttpError>,
)
    ensures
        call_ensures(Http2::<H>::rst_stream, (http2, id, code, sender), result) ==> {
            &&& result is Ok
            &&& together(final(http2)@, final(sender)@) == together(
                old(http2)@,
                old(sender)@,
            ).resetting(id, code)
        },
        call_ensures(Http2::<H>::send_ping, (http2, sender), result) ==> {
            &&& result is Ok
            &&& final(http2)@ == old(http2)@
            &&& final(sender)@ == old(sender)@.queued(
                crate::frame::frame_bytes(
                    crate::frame::PING,
                    0,
                    0,
                    seq![0u8, 0, 0, 0, 0, 0, 0, 0],
                ),
            )
        },
        call_ensures(Http2::<H>::initialize, (http2, sender), ()) ==> {
            &&& final(http2)@ == old(http2)@
            &&& final(sender)@ == old(sender)@.queued(crate::frame::preface())
        },
{
}

/// When the connection fails, the protocol gives up the streams that are not closed.
pub proof fn protocols_give_up<H: Handler>(http2: &mut Http2<H>, heard: bool)
    requires
        call_ensures(Http2::<H>::abandon, (http2, heard), ()),
    ensures
        final(http2)@ == (Http2Model {
            session: old(http2)@.session.abandoned(heard),
            ..old(http2)@
        }),
{
}

/// What a protocol says of itself.
pub proof fn protocols_speak_true<H: Handler>(
    http2: &Http2<H>,
    wants: bool,
    next: StreamId,
    most: u32,
    scheme: HttpScheme,
)
    requires
        call_ensures(Http2::<H>::wants_write, (http2,), wants),
        call_ensures(Http2::<H>::next_stream_id, (http2,), next),
        call_ensures(Http2::<H>::max_concurrent_streams, (http2,), most),
        call_ensures(Http2::<H>::scheme, (http2,), scheme),
    ensures
        wants <==> exists|id: StreamId| #[trigger] http2@.session.interest.contains(id),
        next == http2@.session.next_id,
        most == http2@.session.max_concurrent_streams,
        scheme == http2@.scheme,
{
}

/// What a protocol and a connection say of their streams: whether one of them is not closed. Asking
/// changes nothing.
pub proof fn activity_is_told<H: Handler>(
    http2: &mut Http2<H>,
    connection: &mut Connection<H>,
    active: bool,
)
    ensures
        call_ensures(Http2::<H>::has_active_streams, (http2,), active) ==> {
            &&& final(http2)@ == old(http2)@
            &&& active <==> exists|id: StreamId| #[trigger]
                old(http2)@.session.streams.dom().contains(id)
                    && old(http2)@.session.streams[id].state != StreamState::Closed
        },
        call_ensures(Connection::<H>::has_active_streams, (connection,), active) ==> {
            let streams = old(connection)@.state.http2.session.streams;
            &&& final(connection)@ == old(connection)@
            &&& active <==> exists|id: StreamId| #[trigger]
                streams.dom().contains(id) && streams[id].state != StreamState::Closed
        },
{
}

/// A new connection has nothing to send, to report or to read on, and its first stream is the one
/// with the number one.
pub proof fn connections_start_empty<H: Handler>(token: usize, connection: Connection<H>)
    requires
        call_ensures(Connection::<H>::new, (token,), connection),
    ensures
        ({
            let state = connection@.state;
            &&& connection@.token == token
            &&& !connection@.is_writable
            &&& connection@.read_buf.len() == 0
            &&& state.out.backlog.len() == 0
            &&& state.out.events.len() == 0
            &&& !state.http2.got_settings
            &&& state.http2.scheme == HttpScheme::Http
            &&& state.http2.compression.sent.len() == 0
            &&& state.http2.compression.received.len() == 0
            &&& state.http2.session.next_id == 1
            &&& state.http2.session.max_concurrent_streams == 10
            &&& forall|id: StreamId| !#[trigger] state.http2.session.streams.dom().contains(id)
            &&& forall|id: StreamId| !#[trigger] state.http2.session.removed.dom().contains(id)
            &&& forall|id: StreamId| !#[trigger] state.http2.session.interest.contains(id)
        }),
{
}

/// What was read is handled behind what waits for the rest of its frame; an error goes up. Without
/// an error, and when nothing could be read, the protocol gets a chance to send.
pub proof fn connections_read<H: Handler>(
    connection: &mut Connection<H>,
    status: StreamStatus,
    buf: &[u8],
    result: Result<(), Failure>,
)
    requires
        call_ensures(Connection::<H>::read, (connection, status, buf), result),
    ensures
        status matches StreamStatus::Bytes(bytes) ==> {
            let before = old(connection)@;
            let octets = buf@.take(bytes as int);
            match before.state.fed(before.read_buf + octets).2 {
                Some(err) => {
                    &&& result is Err
                    &&& result->Err_0 is Http
                    &&& result->Err_0->Http_0@ == err
                    &&& final(connection)@ == before.fed(octets)
                },
                None => result is Ok && before.fed(octets).sent(final(connection)@),
            }
        },
        !(status is Bytes) ==> result is Ok && old(connection)@.sent(final(connection)@),
{
}

/// What becomes of the octets that were offered to the transport is noted.
pub proof fn connections_write<H: Handler>(
    connection: &mut Connection<H>,
    status: StreamStatus,
    written: WriteStatus,
)
    requires
        call_ensures(Connection::<H>::write_backlog, (connection, status), written),
        old(connection)@.state.out.backlog.len() > 0,
        crate::connection::within_bounds(old(connection)@.state.out.backlog),
    ensures
        ({
            let frame = old(connection)@.state.out.backlog[0];
            &&& final(connection)@ == old(connection)@.wrote(status)
            &&& match status {
                StreamStatus::Bytes(bytes) => if frame.position + bytes == frame.bytes.len() {
                    written == WriteStatus::Full
                } else {
                    written == WriteStatus::Partial(bytes)
                },
                _ => written == WriteStatus::WouldBlock,
            }
        }),
{
}

/// The octets that are offered to the transport are those of the first frame that have not been
/// written.
pub proof fn connections_offer_the_rest<'a, H: Handler>(
    connection: &'a Connection<H>,
    octets: &'a [u8],
)
    requires
        call_ensures(Connection::<H>::unwritten, (connection,), octets),
        crate::connection::within_bounds(connection@.state.out.backlog),
        connection@.state.out.backlog.len() > 0,
    ensures
        ({
            let frame = connection@.state.out.backlog[0];
            &&& frame.position + octets@.len() == frame.bytes.len()
            &&& forall|i: int|
                0 <= i < octets@.len() ==> #[trigger] octets@[i] == frame.bytes[frame.position + i]
        }),
{
}

/// The steps that a connection asks for are in order.
pub proof fn connections_step<H: Handler>(
    connection: &mut Connection<H>,
    events: EventSet,
    phase: Phase,
    step: Result<(Action, Phase), Failure>,
)
    requires
        call_ensures(Connection::<H>::ready, (connection, events, phase), step),
    ensures
        step is Ok,
        old(connection)@.goes_on(
            events,
            phase,
            final(connection)@,
            step->Ok_0.0,
            step->Ok_0.1,
        ),
{
}

/// What a connection is told and asked leaves all else as it was.
pub proof fn connections_obey<H: Handler>(
    connection: &mut Connection<H>,
    msg: Msg<H>,
    result: Result<(), Failure>,
    frame: Vec<u8>,
    err: &Failure,
    events: Vec<ConnectionEvent>,
)
    ensures
        call_ensures(Connection::<H>::notify, (connection, msg), result) ==> {
            &&& result is Ok
            &&& final(connection)@ == ConnectionModel {
                state: crate::protocol::notified(old(connection)@.state, msg),
                ..old(connection)@
            }
        },
        call_ensures(Connection::<H>::queue_frame, (connection, frame), ()) ==> final(connection)@
            == (ConnectionModel {
            state: crate::laws::arrivals::with_frame(old(connection)@.state, frame@),
            ..old(connection)@
        }),
        call_ensures(Connection::<H>::initialize, (connection,), ()) ==> final(connection)@ == (
        ConnectionModel {
            state: crate::laws::arrivals::with_frame(
                old(connection)@.state,
                crate::frame::preface(),
            ),
            ..old(connection)@
        }),
        call_ensures(Connection::<H>::fail, (connection, err), ()) ==> {
            let heard = *err is Http && err->Http_0 is PeerConnectionError;
            &&& final(connection)@ == ConnectionModel {
                state: final(connection)@.state,
                ..old(connection)@
            }
            &&& final(connection)@.state.out == old(connection)@.state.out
            &&& final(connection)@.state.http2 == Http2Model {
                session: old(connection)@.state.http2.session.abandoned(heard),
                ..old(connection)@.state.http2
            }
        },
        call_ensures(Connection::<H>::take_events, (connection,), events) ==> {
            &&& events@ == old(connection)@.state.out.events
            &&& final(connection)@.state.out.events.len() == 0
            &&& final(connection)@.state.out.backlog == old(connection)@.state.out.backlog
            &&& final(connection)@.state.http2 == old(connection)@.state.http2
            &&& final(connection)@.read_buf == old(connection)@.read_buf
            &&& final(connection)@.is_writable == old(connection)@.is_writable
            &&& final(connection)@.token == old(connection)@.token
        },
{
}

/// What a connection says of itself.
pub proof fn connections_speak_true<H: Handler>(
    connection: &Connection<H>,
    wanted: EventSet,
    token: usize,
)
    requires
        call_ensures(Connection::<H>::interest, (connection,), wanted),
        call_ensures(Connection::<H>::token, (connection,), token),
    ensures
        wanted.readable,
        wanted.writable <==> connection@.state.out.backlog.len() > 0 || exists|id: StreamId|
            #[trigger] connection@.state.http2.session.interest.contains(id),
        token == connection@.token,
{
}

/// Outcomes of the transport are told apart: a read without octets is the end, but a write without
/// octets is not.
pub proof fn outcomes_are_told_apart(count: Option<usize>, read: StreamStatus, wrote: StreamStatus)
    requires
        call_ensures(StreamStatus::of_read, (count,), read),
        call_ensures(StreamStatus::of_write, (count,), wrote),
    ensures
        count is None ==> read == StreamStatus::WouldBlock && wrote == StreamStatus::WouldBlock,
        count == Some(0usize) ==> read == StreamStatus::End && wrote == StreamStatus::Bytes(0),
        count matches Some(n) ==> (n > 0 ==> read == StreamStatus::Bytes(n) && wrote
            == StreamStatus::Bytes(n)),
{
}

/// A header list is parsed into its headers, unless a name is not UTF-8.
pub proof fn lists_are_parsed(headers: Vec<Header>, parsed: Result<Headers, ParseError>)
    requires
        call_ensures(crate::header::to_hyper, (headers,), parsed),
    ensures
        parsed is Ok <==> crate::header::names_are_text(crate::http::header_list(headers@)),
        parsed matches Ok(h) ==> h@ == crate::header::fields_of(
            crate::http::header_list(headers@),
        ),
        parsed matches Err(err) ==> err is Utf8,
{
}

/// A header list is parsed into status and headers if it has a status that is a number; the status
/// is the first one. Otherwise the error says what is wrong.
pub proof fn responses_are_parsed(
    headers: Vec<Header>,
    parsed: Result<(StatusCode, Headers), ParseError>,
)
    requires
        call_ensures(crate::header::to_status_and_headers, (headers,), parsed),
        crate::header::names_are_text(crate::http::header_list(headers@)),
    ensures
        ({
            let fields = crate::header::fields_of(crate::http::header_list(headers@));
            match crate::header::field_values(fields, ":status"@) {
                None => parsed matches Err(ParseError::StatusMissing),
                Some(values) => if !vstd::utf8::valid_utf8(values[0]) {
                    parsed matches Err(ParseError::Utf8(_))
                } else {
                    match crate::text::number16(vstd::utf8::decode_utf8(values[0])) {
                        None => parsed matches Err(ParseError::StatusNotNumber(_)),
                        Some(number) => {
                            &&& parsed is Ok
                            &&& parsed->Ok_0.0 == StatusCode(number)
                            &&& parsed->Ok_0.1@ == fields
                        },
                    }
                },
            }
        }),
{
}

/// Headers are set, read and sent as they should be.
pub proof fn headers_behave(
    headers: &mut Headers,
    shared: &Headers,
    name: &str,
    values: Vec<Vec<u8>>,
    found: Option<Vec<Vec<u8>>>,
    owned: Headers,
    list: Vec<Header>,
)
    ensures
        call_ensures(Headers::new, (), owned) ==> owned@ == Seq::<Field>::empty(),
        call_ensures(Headers::set_raw, (headers, name, values), ()) ==> final(headers)@
            == crate::header::with_field(
            old(headers)@,
            name@,
            values@.map_values(|value: Vec<u8>| value@),
        ),
        call_ensures(Headers::set_user_agent, (headers,), ()) ==> final(headers)@
            == crate::header::with_field(
            old(headers)@,
            "User-Agent"@,
            seq![crate::text::utf8("hydra/0.0.1"@)],
        ),
        call_ensures(Headers::get_raw, (shared, name), found) ==> {
            &&& found is Some <==> crate::header::field_values(shared@, name@) is Some
            &&& found matches Some(v) ==> crate::header::field_values(shared@, name@) == Some(
                v@.map_values(|value: Vec<u8>| value@),
            )
        },
        call_ensures(crate::header::to_h2, (owned,), list) ==> crate::http::header_list(list@)
            == crate::header::h2_headers(owned@),
{
    assert(crate::header::raw_values(values@) =~= values@.map_values(|value: Vec<u8>| value@));
    if let Some(v) = found {
        assert(crate::header::raw_values(v@) =~= v@.map_values(|value: Vec<u8>| value@));
    }
}

/// A write goes on as the handling of events does: it flushes, drains, or ends.
pub proof fn connections_go_on_writing<H: Handler>(
    connection: &mut Connection<H>,
    events: EventSet,
    phase: Phase,
    step: Result<(Action, Phase), Failure>,
)
    requires
        call_ensures(Connection::<H>::try_write, (connection, phase), step),
        phase == Phase::Flushing || phase == Phase::Draining || phase == Phase::Registering,
    ensures
        step is Ok,
        old(connection)@.goes_on(
            events,
            phase,
            final(connection)@,
            step->Ok_0.0,
            step->Ok_0.1,
        ),
{
}

/// Headers say whether a request can be sent with them.
pub proof fn headers_know_whether_they_can_be_sent(request: Request, sendable: bool)
    requires
        call_ensures(Headers::is_sendable, (&request.headers,), sendable),
        crate::header::distinct_names(request.headers@),
    ensures
        sendable <==> forall|i: int|
            0 <= i < request.headers@.len() ==> {
                let (name, values) = #[trigger] request.headers@[i];
                ||| crate::text::same_name(name, "Connection"@)
                ||| crate::text::same_name(name, "Set-Cookie"@)
                ||| crate::text::same_name(name, "User-Agent"@)
                ||| forall|k: int|
                    0 <= k < values.len() ==> vstd::utf8::valid_utf8(#[trigger] values[k])
            },
{
    crate::laws::headers::text_can_be_sent(request);
}

/// Each cookie gets a header of its own, behind those that are there.
pub proof fn cookies_are_added(list: &mut Vec<Header>, cookies: &Vec<String>, i: int)
    requires
        call_ensures(crate::header::add_cookies, (list, cookies), ()),
        0 <= i < cookies@.len(),
    ensures
        ({
            let before = crate::http::header_list(old(list)@);
            let after = crate::http::header_list(final(list)@);
            &&& after.len() == before.len() + cookies@.len()
            &&& after.take(before.len() as int) == before
            &&& after[before.len() + i] == (
                crate::text::utf8("set-cookie"@),
                crate::text::utf8(cookies@[i]@),
            )
        }),
{
    let before = crate::http::header_list(old(list)@);
    let after = crate::http::header_list(final(list)@);
    assert(after.take(before.len() as int) =~= before);
}

/// A session starts without streams, and ends without those that are not closed.
pub proof fn sessions_start_and_end<H: Handler>(
    fresh: ClientSession<H>,
    session: &mut ClientSession<H>,
    heard: bool,
    active: bool,
)
    ensures
        call_ensures(ClientSession::<H>::new, (), fresh) ==> {
            &&& fresh@.next_id == 1
            &&& fresh@.max_concurrent_streams == 10
            &&& forall|id: StreamId| !#[trigger] fresh@.streams.dom().contains(id)
            &&& forall|id: StreamId| !#[trigger] fresh@.removed.dom().contains(id)
            &&& forall|id: StreamId| !#[trigger] fresh@.interest.contains(id)
        },
        call_ensures(ClientSession::<H>::abandon, (session, heard), ()) ==> final(session)@ == old(
            session,
        )@.abandoned(heard),
        call_ensures(ClientSession::<H>::has_active_streams, (session,), active) ==> {
            &&& final(session)@ == old(session)@
            &&& active <==> exists|id: StreamId| #[trigger]
                old(session)@.streams.dom().contains(id) && old(session)@.streams[id].state
                    != StreamState::Closed
        },
{
}

/// Names are compared and lowered as they should be.
pub proof fn names_are_handled(
    a: &str,
    b: &str,
    same: bool,
    bytes: &[u8],
    lower: Vec<u8>,
    i: int,
)
    ensures
        call_ensures(crate::text::is_same_name, (a, b), same) ==> same == crate::text::same_name(
            a@,
            b@,
        ),
        call_ensures(crate::text::to_lower, (bytes,), lower) ==> {
            &&& lower@.len() == bytes@.len()
            &&& 0 <= i < bytes@.len() ==> lower@[i] == if 65 <= bytes@[i] <= 90 {
                (bytes@[i] + 32) as u8
            } else {
                bytes@[i]
            }
        },
{
}

} // verus!
