//! What holds of sending: requests, their bodies, and streams that are given up
use crate::client::{SessionModel, StreamResult};
use crate::compression::CompressionModel;
use crate::http::{HeaderModel, Http2ErrorCode, StreamId};
use crate::protocol::{Http2Model, Msg, ReadInfo, SendStatus, State, StreamDataState, StreamModel};
use crate::request::{Error, Event, Handler};
use crate::session::StreamState;
use vstd::prelude::*;

verus! {

/// A stream that this side opens gets the next identifier, and the next one goes up by two. Unless
/// nothing more can be sent on it, it is among the streams that have data to send at once, whatever
/// its identifier and the peer's settings are.
pub proof fn streams_are_opened(session: SessionModel, stream: StreamModel)
    requires
        session.next_id <= u32::MAX - 2,
    ensures
        ({
            let complete = stream.state == StreamState::HalfClosedLocal || stream.state
                == StreamState::Closed;
            session.opened(stream) == SessionModel {
                streams: session.streams.insert(session.next_id, stream),
                next_id: (session.next_id + 2) as StreamId,
                interest: if complete {
                    session.interest
                } else {
                    session.interest.insert(session.next_id)
                },
                ..session
            }
        }),
        stream.state == StreamState::Open ==> session.opened(stream).wants_write(),
        stream.state != StreamState::Closed ==> session.opened(stream).is_active(),
{
    let opened = session.opened(stream);
    assert(stream.state == StreamState::Open ==> opened.interest.contains(session.next_id));
    assert(opened.streams.dom().contains(session.next_id));
}

/// A request goes out as one HEADERS frame on a stream of its own, behind all other frames. The
/// frame holds the whole block, and ends the stream if nothing follows.
pub proof fn requests_are_started(state: State, headers: Seq<HeaderModel>, stream: StreamModel)
    ensures
        ({
            let complete = stream.state == StreamState::HalfClosedLocal || stream.state
                == StreamState::Closed;
            let block = crate::compression::hpack_encoding(state.http2.compression.sent, headers);
            let frame = crate::frame::frame_bytes(
                crate::frame::HEADERS,
                if complete {
                    5
                } else {
                    4
                },
                state.http2.session.next_id,
                block,
            );
            state.started(headers, stream) == crate::laws::arrivals::with_frame(
                State {
                    http2: Http2Model {
                        compression: CompressionModel {
                            sent: state.http2.compression.sent.push(headers),
                            ..state.http2.compression
                        },
                        session: state.http2.session.opened(stream),
                        ..state.http2
                    },
                    ..state
                },
                frame,
            )
        }),
{
}

/// A message to create a stream starts its request, with the handler that came with it; the stream
/// is complete at once if the request has no body. A message to send a PING sends one.
pub proof fn messages_are_heeded<H: Handler>(state: State, msg: Msg<H>)
    ensures
        crate::protocol::notified(state, msg) == match msg {
            Msg::CreateStream(request, handler) => state.started(
                crate::protocol::request_headers(request, state.http2.scheme),
                StreamModel {
                    state: if request.headers_only {
                        StreamState::HalfClosedLocal
                    } else {
                        StreamState::Open
                    },
                    log: handler.log(),
                },
            ),
            Msg::Ping => crate::laws::arrivals::with_frame(
                state,
                crate::frame::frame_bytes(
                    crate::frame::PING,
                    0,
                    0,
                    seq![0u8, 0, 0, 0, 0, 0, 0, 0],
                ),
            ),
        },
{
}

/// The bytes that a handler announced are sent in a DATA frame for its stream, which is the last
/// one if they are the last bytes; no bytes make no frame. After its last bytes a stream is not
/// asked again.
pub proof fn bytes_are_sent(state: State, id: StreamId, bytes: usize, last: bool, buf: Seq<u8>)
    requires
        bytes <= buf.len(),
    ensures
        ({
            let info = if last {
                ReadInfo::End(bytes)
            } else {
                ReadInfo::Pending(bytes)
            };
            let answer = StreamResult { id, state: StreamDataState::Read(info) };
            let session = state.http2.session;
            let asked = State {
                http2: Http2Model {
                    session: SessionModel {
                        interest: if last {
                            session.interest.remove(id)
                        } else {
                            session.interest
                        },
                        ..session
                    },
                    ..state.http2
                },
                ..state
            };
            let frame = crate::frame::frame_bytes(
                crate::frame::DATA,
                if last {
                    1
                } else {
                    0
                },
                id,
                buf.subrange(0, bytes as int),
            );
            state.answered(Some(answer), buf) == if bytes == 0 {
                (asked, SendStatus::Nothing)
            } else {
                (crate::laws::arrivals::with_frame(asked, frame), SendStatus::Sent)
            }
        }),
{
    assert(buf.take(bytes as int) =~= buf.subrange(0, bytes as int));
}

/// Without an answer nothing is sent and nothing changes.
pub proof fn silence_changes_nothing(state: State, id: StreamId, buf: Seq<u8>)
    ensures
        state.answered(None, buf) == (state, SendStatus::Nothing),
        state.answered(Some(StreamResult { id, state: StreamDataState::Unavailable }), buf) == (
            state,
            SendStatus::Nothing,
        ),
{
}

/// A stream that is given up on this side leaves the session and is not asked any more; its handler
/// hears that it failed, once, and the peer gets the reason. The other streams stay as they are.
pub proof fn streams_are_given_up(state: State, id: StreamId, code: Http2ErrorCode)
    ensures
        ({
            let session = state.http2.session;
            let frame = crate::frame::frame_bytes(
                crate::frame::RST_STREAM,
                0,
                id,
                crate::frame::octets32(code.number() as int),
            );
            let left = SessionModel {
                streams: session.streams.remove(id),
                interest: session.interest.remove(id),
                removed: if session.streams.dom().contains(id) {
                    session.removed.insert(
                        id,
                        StreamModel {
                            state: session.streams[id].state,
                            log: session.streams[id].log.push(Event::Failed(Error::User)),
                        },
                    )
                } else {
                    session.removed
                },
                ..session
            };
            state.resetting(id, code) == crate::laws::arrivals::with_frame(
                State { http2: Http2Model { session: left, ..state.http2 }, ..state },
                frame,
            )
        }),
{
    let session = state.http2.session;
    if !session.streams.dom().contains(id) {
        assert(session.streams.remove(id) =~= session.streams);
    }
}

/// A handler that fails gives up its stream; the peer hears of an internal error.
pub proof fn failures_give_up_the_stream(state: State, id: StreamId, buf: Seq<u8>)
    ensures
        state.answered(Some(StreamResult { id, state: StreamDataState::Error }), buf) == (
            state.resetting(id, Http2ErrorCode::InternalError),
            SendStatus::Nothing,
        ),
{
}

/// Whether a stream was asked for 8 KiB of data, and what it put there and answered.
pub open spec fn polled(
    before: StreamModel,
    after: StreamModel,
    filled: Seq<u8>,
    answer: StreamDataState,
) -> bool {
    &&& filled.len() == 8192
    &&& after.state == before.state
    &&& after.log == before.log.push(Event::Polled { room: 8192, filled, answer })
}

/// Whether each stream of a session but the given one is as it was, or has data to send and was
/// asked for it once, in vain.
pub open spec fn others_wait(
    before: SessionModel,
    after: SessionModel,
    answering: Option<StreamId>,
) -> bool {
    forall|id: StreamId| #[trigger]
        before.streams.dom().contains(id) && answering != Some(id) ==> {
            &&& after.streams.dom().contains(id)
            &&& after.streams[id] == before.streams[id] || (before.interest.contains(id) && exists|
                filled: Seq<u8>,
            | #[trigger]
                polled(
                    before.streams[id],
                    after.streams[id],
                    filled,
                    StreamDataState::Unavailable,
                ))
        }
}

/// Whether a chance to send went to the stream with the given identifier, which answered.
pub open spec fn has_answered(
    before: State,
    after: State,
    id: StreamId,
    filled: Seq<u8>,
    answer: StreamDataState,
    status: SendStatus,
) -> bool {
    let old_session = before.http2.session;
    let session = after.http2.session;
    let stream = if answer == StreamDataState::Error {
        session.removed[id]
    } else {
        session.streams[id]
    };
    &&& old_session.interest.contains(id)
    &&& answer != StreamDataState::Unavailable
    &&& others_wait(old_session, session, Some(id))
    &&& session.streams.dom().contains(id) == (answer != StreamDataState::Error)
    &&& stream.state == old_session.streams[id].state
    &&& filled.len() == 8192
    &&& stream.log == if answer == StreamDataState::Error {
        old_session.streams[id].log.push(
            Event::Polled { room: 8192, filled, answer },
        ).push(Event::Failed(Error::User))
    } else {
        old_session.streams[id].log.push(Event::Polled { room: 8192, filled, answer })
    }
    &&& match answer {
        StreamDataState::Read(ReadInfo::Pending(bytes)) => {
            &&& bytes <= 8192
            &&& status == SendStatus::Sent <==> bytes > 0
            &&& session.interest == old_session.interest
            &&& after.out == if bytes == 0 {
                before.out
            } else {
                crate::laws::arrivals::with_frame(
                    before,
                    crate::frame::frame_bytes(
                        crate::frame::DATA,
                        0,
                        id,
                        filled.subrange(0, bytes as int),
                    ),
                ).out
            }
        },
        StreamDataState::Read(ReadInfo::End(bytes)) => {
            &&& bytes <= 8192
            &&& status == SendStatus::Sent <==> bytes > 0
            &&& session.interest == old_session.interest.remove(id)
            &&& after.out == if bytes == 0 {
                before.out
            } else {
                crate::laws::arrivals::with_frame(
                    before,
                    crate::frame::frame_bytes(
                        crate::frame::DATA,
                        1,
                        id,
                        filled.subrange(0, bytes as int),
                    ),
                ).out
            }
        },
        _ => {
            &&& status == SendStatus::Nothing
            &&& session.interest == old_session.interest.remove(id)
            &&& after.out == crate::laws::arrivals::with_frame(
                before,
                crate::frame::frame_bytes(crate::frame::RST_STREAM, 0, id, seq![0u8, 0, 0, 2]),
            ).out
        },
    }
}

/// Whether a chance to send went to all streams that have data to send, and none had an answer.
pub open spec fn none_answered(before: State, after: State, status: SendStatus) -> bool {
    let session = after.http2.session;
    &&& status == SendStatus::Nothing
    &&& after.out == before.out
    &&& session.interest == before.http2.session.interest
    &&& others_wait(before.http2.session, session, None)
    &&& forall|id: StreamId| #[trigger]
        before.http2.session.interest.contains(id) ==> exists|filled: Seq<u8>| #[trigger]
            polled(
                before.http2.session.streams[id],
                session.streams[id],
                filled,
                StreamDataState::Unavailable,
            )
}

/// A chance to send is put to the streams that have data to send until one of them answers, or all
/// of them were asked. The bytes that go out are those that the handler put into the buffer, on its
/// own stream. Nothing else changes.
pub proof fn chances_to_send_are_used(before: State, after: State, status: SendStatus)
    requires
        crate::protocol::sends_data(before, after, status),
        before.http2.session.valid(),
    ensures
        none_answered(before, after, status) || exists|
            id: StreamId,
            filled: Seq<u8>,
            answer: StreamDataState,
        | #[trigger]
            has_answered(before, after, id, filled, answer, status),
        after.out.events == before.out.events,
        after.http2.compression == before.http2.compression,
        after.http2.got_settings == before.http2.got_settings,
        after.http2.scheme == before.http2.scheme,
        after.http2.session.next_id == before.http2.session.next_id,
        after.http2.session.max_concurrent_streams == before.http2.session.max_concurrent_streams,
        forall|id: StreamId| #[trigger]
            after.http2.session.streams.dom().contains(id)
                ==> before.http2.session.streams.dom().contains(id),
{
    let (asked, answer, buf) = choose|
        session: SessionModel,
        answer: Option<StreamResult>,
        buf: Seq<u8>,
    | #[trigger]
        crate::protocol::data_step(before, session, answer, buf, after, status);
    let old_session = before.http2.session;
    assert forall|id: StreamId| #[trigger]
        old_session.interest.contains(id) && crate::client::asked_in_vain(
            old_session.streams[id],
            asked.streams[id],
            8192,
        ) implies exists|filled: Seq<u8>| #[trigger]
        polled(
            old_session.streams[id],
            asked.streams[id],
            filled,
            StreamDataState::Unavailable,
        ) by {
        let filled = choose|filled: Seq<u8>|
            filled.len() == 8192 && asked.streams[id] == #[trigger] old_session.streams[id].told(
                Event::Polled { room: 8192, filled, answer: StreamDataState::Unavailable },
            );
        assert(polled(
            old_session.streams[id],
            asked.streams[id],
            filled,
            StreamDataState::Unavailable,
        ));
    }
    match answer {
        None => {
            assert(after.http2.session == asked);
            assert(none_answered(before, after, status));
        },
        Some(result) => {
            let id = result.id;
            let state = before.with_session(asked);
            assert(asked.interest == old_session.interest);
            if let StreamDataState::Read(info) = result.state {
                match info {
                    ReadInfo::Pending(bytes) => bytes_are_sent(state, id, bytes, false, buf),
                    ReadInfo::End(bytes) => bytes_are_sent(state, id, bytes, true, buf),
                }
            } else {
                failures_give_up_the_stream(state, id, buf);
                streams_are_given_up(state, id, Http2ErrorCode::InternalError);
                assert(crate::frame::octets32(2) =~= seq![0u8, 0, 0, 2]);
            }
            assert forall|other: StreamId| #[trigger]
                old_session.streams.dom().contains(other) && other
                    != id implies after.http2.session.streams.dom().contains(other)
                && after.http2.session.streams[other] == asked.streams[other] by {
                assert(asked.streams.dom().contains(other));
            }
            assert(others_wait(old_session, after.http2.session, Some(id)));
            assert(has_answered(before, after, id, buf, result.state, status));
        },
    }
}

} // verus!
