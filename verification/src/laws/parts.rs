//! What holds of the parts that all else is made of
use crate::compression::{Compression, CompressionModel};
use crate::connection::{ConnectionEvent, DispatchConnectionEvent, Ref, RefModel};
use crate::header::Headers;
use crate::http::{Header, Http2ErrorCode, HttpError, StreamId};
use crate::protocol::{BufferPrioritizer, DataChunk, ReadInfo, Stream, StreamDataState};
use crate::request::{Error, Event, Handler, Method, Request, Response};
use crate::session::{Session, StreamState};
use vstd::prelude::*;

verus! {

/// The frames that are sent are read by the peer as they were meant.
pub proof fn frames_mean_what_was_meant(
    id: StreamId,
    data: Vec<u8>,
    end: bool,
    code: Http2ErrorCode,
    bytes: Vec<u8>,
)
    requires
        id != 0,
        data@.len() < 0x100_0000,
    ensures
        call_ensures(crate::frame::build_data, (id, data, end), bytes)
            ==> crate::frame::decode_frame(bytes@) == Some(
            crate::frame::FrameModel::Data { id, data: data@, end },
        ),
        call_ensures(crate::frame::build_headers, (id, data, end), bytes)
            ==> crate::frame::decode_frame(bytes@) == Some(
            crate::frame::FrameModel::Headers { id, block: data@, end },
        ) && (bytes@[4] / 4) % 2 == 1,
        call_ensures(crate::frame::build_rst_stream, (id, code), bytes)
            ==> crate::frame::decode_frame(bytes@) == Some(
            crate::frame::FrameModel::RstStream { id, code },
        ),
        call_ensures(crate::frame::build_settings_ack, (), bytes) ==> crate::frame::decode_frame(
            bytes@,
        ) == Some(crate::frame::FrameModel::Settings { ack: true, settings: Seq::empty() }),
        data@.len() == 8 && call_ensures(crate::frame::build_ping, (data,), bytes)
            ==> crate::frame::decode_frame(bytes@) == Some(
            crate::frame::FrameModel::Ping { ack: false, data: data@ },
        ),
        data@.len() == 8 && call_ensures(crate::frame::build_ping_ack, (data,), bytes)
            ==> crate::frame::decode_frame(bytes@) == Some(
            crate::frame::FrameModel::Ping { ack: true, data: data@ },
        ),
{
    crate::frame::data_round_trip(id, data@, end);
    crate::frame::headers_round_trip(id, data@, end);
    crate::frame::rst_stream_round_trip(id, code);
    crate::frame::settings_ack_round_trip();
    if data@.len() == 8 {
        crate::frame::ping_round_trip(data@);
    }
    let flags = crate::frame::headers_flags(end);
    crate::frame::frame_round_trip(crate::frame::HEADERS, flags, id, data@, Seq::empty());
    assert(crate::frame::frame_flags(
        crate::frame::frame_bytes(crate::frame::HEADERS, flags, id, data@),
    ) == flags);
}

/// Codes are written and read as their numbers.
pub proof fn codes_are_numbers(number: u32, code: Http2ErrorCode, written: u32)
    requires
        call_ensures(Http2ErrorCode::from_u32, (number,), code),
        call_ensures(Http2ErrorCode::as_u32, (&code,), written),
    ensures
        number < 14 ==> written == number,
        number >= 14 ==> code == Http2ErrorCode::InternalError,
{
    crate::http::error_numbers_are_read(number);
}

/// A header list is compressed with the history of those before it, and becomes part of the
/// history. Nothing else changes.
pub proof fn lists_are_compressed(
    compression: &mut Compression,
    headers: &Vec<Header>,
    block: Vec<u8>,
)
    requires
        call_ensures(Compression::encode, (compression, headers), block),
    ensures
        ({
            let list = crate::http::header_list(headers@);
            &&& block@ == crate::compression::hpack_encoding(old(compression)@.sent, list)
            &&& final(compression)@ == CompressionModel {
                sent: old(compression)@.sent.push(list),
                ..old(compression)@
            }
        }),
{
}

/// A block is decoded with the history of those before it, and becomes part of the history, as far
/// as it can be read. Nothing else changes.
pub proof fn blocks_are_decoded(
    compression: &mut Compression,
    block: &[u8],
    headers: Result<Vec<Header>, HttpError>,
)
    requires
        call_ensures(Compression::decode, (compression, block), headers),
    ensures
        ({
            let decoded = crate::compression::hpack_decoding(old(compression)@.received, block@);
            &&& crate::compression::size_updates_whole(block@) ==> {
                &&& headers is Ok <==> decoded is Some
                &&& headers matches Ok(list) ==> decoded == Some(crate::http::header_list(list@))
                &&& final(compression)@ == CompressionModel {
                    received: old(compression)@.received.push(block@),
                    ..old(compression)@
                }
            }
            &&& !crate::compression::size_updates_whole(block@) ==> {
                &&& headers is Err
                &&& final(compression)@ == CompressionModel {
                    received: old(compression)@.received.push(
                        crate::compression::readable_part(block@),
                    ),
                    ..old(compression)@
                }
            }
            &&& headers matches Err(err) ==> err is CompressionError
        }),
{
}

/// Frames are sent in the order in which they are queued, each whole, and events are reported in
/// the order in which they occur.
pub proof fn queues_keep_the_order(out: &mut Ref, frame: Vec<u8>)
    ensures
        call_ensures(Ref::queue_frame, (out, frame), ()) || call_ensures(
            Ref::write_frame,
            (out, frame),
            (),
        ) ==> {
            let backlog = final(out)@.backlog;
            &&& final(out)@.events == old(out)@.events
            &&& backlog.len() == old(out)@.backlog.len() + 1
            &&& backlog.drop_last() == old(out)@.backlog
            &&& backlog.last().bytes == frame@
            &&& backlog.last().position == 0
        },
        call_ensures(<Ref as DispatchConnectionEvent>::connection_ready, (out,), ())
            ==> final(out)@ == (RefModel {
            events: old(out)@.events.push(ConnectionEvent::Connected),
            ..old(out)@
        }),
        call_ensures(<Ref as DispatchConnectionEvent>::on_pong, (out,), ()) ==> final(out)@ == (
        RefModel { events: old(out)@.events.push(ConnectionEvent::Pong), ..old(out)@ }),
{
    let backlog = old(out)@.queued(frame@).backlog;
    assert(backlog.drop_last() =~= old(out)@.backlog);
}

/// A stream tells its handler what happens, once and as it is. Only a change of its own state
/// changes its state, and only the closing is told of those.
pub proof fn streams_tell_their_handlers<H: Handler>(
    stream: &mut Stream<H>,
    response: Response,
    err: Error,
    data: &[u8],
    state: StreamState,
    code: Http2ErrorCode,
)
    ensures
        call_ensures(Stream::<H>::on_response, (stream, response), ()) ==> {
            &&& final(stream).state == old(stream).state
            &&& final(stream).inner.log() == old(stream).inner.log().push(
                Event::Response { status: response.status, headers: response.headers@ },
            )
        },
        call_ensures(Stream::<H>::on_error, (stream, err), ()) ==> {
            &&& final(stream).state == old(stream).state
            &&& final(stream).inner.log() == old(stream).inner.log().push(Event::Failed(err))
        },
        call_ensures(Stream::<H>::new_data_chunk, (stream, data), ()) ==> {
            &&& final(stream).state == old(stream).state
            &&& final(stream).inner.log() == old(stream).inner.log().push(Event::Data(data@))
        },
        call_ensures(Stream::<H>::set_state, (stream, state), ()) ==> {
            &&& final(stream).state == state
            &&& final(stream).inner.log() == if state == StreamState::Closed {
                old(stream).inner.log().push(Event::Closed)
            } else {
                old(stream).inner.log()
            }
        },
        call_ensures(Stream::<H>::close, (stream,), ()) ==> {
            &&& final(stream).state == StreamState::Closed
            &&& final(stream).inner.log() == old(stream).inner.log().push(Event::Closed)
        },
        call_ensures(Stream::<H>::on_rst_stream, (stream, code), ()) ==> {
            &&& final(stream).state == StreamState::Closed
            &&& final(stream).inner.log() == old(stream).inner.log().push(
                Event::Failed(Error::Reset(code)),
            ).push(Event::Closed)
        },
{
}

/// What a stream says of itself, and what it is made of.
pub proof fn streams_speak_true<H: Handler>(
    handler: H,
    stream: Stream<H>,
    state: StreamState,
    closed: bool,
)
    ensures
        call_ensures(Stream::<H>::new, (handler,), stream) ==> stream.state == StreamState::Open
            && stream.inner == handler,
        call_ensures(Stream::<H>::state, (&stream,), state) ==> state == stream.state,
        call_ensures(Stream::<H>::is_closed_local, (&stream,), closed) ==> (closed <==> stream.state
            == StreamState::HalfClosedLocal || stream.state == StreamState::Closed),
{
}

/// A handler is asked with the buffer as it is, and its answer is handed on as it is.
pub proof fn handlers_are_asked<H: Handler>(
    stream: &mut Stream<H>,
    buf: &mut [u8],
    answer: StreamDataState,
)
    requires
        call_ensures(Stream::<H>::stream_data, (stream, buf), answer),
    ensures
        final(stream).state == old(stream).state,
        final(buf)@.len() == old(buf)@.len(),
        final(stream).inner.log() == old(stream).inner.log().push(
            (Event::Polled { room: old(buf)@.len(), filled: final(buf)@, answer }),
        ),
{
}

/// The answers of a handler are what their names say.
pub proof fn answers_are_what_they_say(bytes: usize, answer: StreamDataState)
    ensures
        call_ensures(StreamDataState::done, (bytes,), answer) ==> answer == StreamDataState::Read(
            ReadInfo::End(bytes),
        ),
        call_ensures(StreamDataState::read, (bytes,), answer) ==> answer == StreamDataState::Read(
            ReadInfo::Pending(bytes),
        ),
        call_ensures(StreamDataState::unavailable, (), answer) ==> answer
            == StreamDataState::Unavailable,
        call_ensures(StreamDataState::error, (), answer) ==> answer == StreamDataState::Error,
{
}

/// A piece of data is handed on as it is.
pub proof fn chunks_are_handed_on<'a>(
    id: StreamId,
    buf: &'a [u8],
    end: bool,
    prioritizer: BufferPrioritizer<'a>,
    chunk: DataChunk<'a>,
)
    requires
        call_ensures(BufferPrioritizer::<'a>::new, (id, buf, end), prioritizer),
        call_ensures(BufferPrioritizer::<'a>::get_next_chunk, (&prioritizer,), chunk),
    ensures
        chunk.data@ == buf@,
        chunk.stream_id == id,
        chunk.end_stream == end,
{
}

/// A session keeps each stream under its identifier, as it was put there.
pub proof fn sessions_keep_streams<H: Handler>(
    session: &mut Session<H>,
    id: StreamId,
    stream: Stream<H>,
    taken: Option<Stream<H>>,
)
    ensures
        call_ensures(Session::<H>::insert_outgoing, (session, stream), id) ==> {
            &&& id == old(session).next_id()
            &&& final(session).next_id() == id + 2
            &&& final(session)@ == old(session)@.insert(id, stream)
        },
        call_ensures(Session::<H>::insert_stream, (session, id, stream), ()) ==> {
            &&& final(session).next_id() == old(session).next_id()
            &&& final(session)@ == old(session)@.insert(id, stream)
        },
        call_ensures(Session::<H>::remove_stream, (session, id), taken) ==> {
            &&& final(session).next_id() == old(session).next_id()
            &&& final(session)@ == old(session)@.remove(id)
            &&& taken == if old(session)@.dom().contains(id) {
                Some(old(session)@[id])
            } else {
                None::<Stream<H>>
            }
        },
{
}

/// A request is what it was made of; it has a body unless it was made without one.
pub proof fn requests_are_what_they_were_made_of(
    method: Method,
    path: &str,
    headers: Headers,
    request: Request,
)
    ensures
        call_ensures(Request::new, (method, path, headers), request) ==> {
            &&& request.method == method
            &&& request.path@ == path@
            &&& request.headers == headers
            &&& !request.headers_only
        },
        call_ensures(Request::new_headers_only, (method, path, headers), request) ==> {
            &&& request.method == method
            &&& request.path@ == path@
            &&& request.headers == headers
            &&& request.headers_only
        },
{
}

} // verus!
