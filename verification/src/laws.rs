//! What holds of the protocol as a whole
pub mod arrivals;
pub mod blocks;
pub mod calls;
pub mod errors;
pub mod headers;
pub mod parts;
pub mod pool;
pub mod sending;
pub mod transport;

use crate::client::{SessionModel, StreamResult};
use crate::connection::{Action, ConnectionEvent, ConnectionModel, EventSet, Phase, RefModel};
use crate::connection::StreamStatus;
use crate::frame::FrameModel;
use crate::http::{HeaderModel, Http2ErrorCode, HttpErrorModel, StreamId};
use crate::protocol::{ReadInfo, SendStatus, State, StreamDataState, StreamModel};
use crate::request::{Error, Event};
use crate::session::StreamState;
use vstd::prelude::*;

verus! {

/// Handling a buffer takes whole frames only, and, unless there is an error, all of them.
pub proof fn fed_takes_whole_frames(state: State, buf: Seq<u8>)
    ensures
        0 <= state.fed(buf).1 <= buf.len(),
        state.fed(buf).2 is None ==> !crate::frame::starts_with_frame(
            buf.subrange(state.fed(buf).1, buf.len() as int),
        ),
    decreases buf.len(),
{
    if crate::frame::starts_with_frame(buf) {
        let len = crate::frame::frame_len(buf);
        let rest = buf.subrange(len, buf.len() as int);
        let (next, err) = state.after_frame(buf.subrange(0, len));
        if err is None {
            fed_takes_whole_frames(next, rest);
            let octets = next.fed(rest).1;
            assert(rest.subrange(octets, rest.len() as int) =~= buf.subrange(
                len + octets,
                buf.len() as int,
            ));
        }
    } else {
        assert(buf.subrange(0, buf.len() as int) =~= buf);
    }
}

/// It makes no difference how the octets from the peer are cut into pieces: what a first piece
/// leaves over is handled together with the next.
pub proof fn pieces_do_not_matter(state: State, first: Seq<u8>, second: Seq<u8>)
    requires
        state.fed(first).2 is None,
    ensures
        ({
            let (next, octets, _) = state.fed(first);
            let left = first.subrange(octets, first.len() as int);
            let (last, more, err) = next.fed(left + second);
            state.fed(first + second) == (last, octets + more, err)
        }),
    decreases first.len(),
{
    let all = first + second;
    if crate::frame::starts_with_frame(first) {
        let len = crate::frame::frame_len(first);
        assert(crate::frame::frame_len(all) == len);
        assert(all.subrange(0, len) =~= first.subrange(0, len));
        let rest = first.subrange(len, first.len() as int);
        let (next, err) = state.after_frame(first.subrange(0, len));
        assert(all.subrange(len, all.len() as int) =~= rest + second);
        pieces_do_not_matter(next, rest, second);
        fed_takes_whole_frames(next, rest);
        let octets = next.fed(rest).1;
        assert(rest.subrange(octets, rest.len() as int) =~= first.subrange(
            len + octets,
            first.len() as int,
        ));
    } else {
        assert(first.subrange(0, first.len() as int) =~= first);
    }
}

/// An error that the first piece causes is caused by the whole as well.
pub proof fn errors_come_early(state: State, first: Seq<u8>, second: Seq<u8>)
    requires
        state.fed(first).2 is Some,
    ensures
        state.fed(first + second) == state.fed(first),
    decreases first.len(),
{
    let all = first + second;
    let len = crate::frame::frame_len(first);
    assert(crate::frame::frame_len(all) == len);
    assert(all.subrange(0, len) =~= first.subrange(0, len));
    let rest = first.subrange(len, first.len() as int);
    let (next, err) = state.after_frame(first.subrange(0, len));
    assert(all.subrange(len, all.len() as int) =~= rest + second);
    if err is None {
        errors_come_early(next, rest, second);
    }
}

/// A frame leaves the session valid.
pub proof fn frame_keeps_validity(state: State, frame: Seq<u8>)
    requires
        state.http2.session.valid(),
    ensures
        state.after_frame(frame).0.http2.session.valid(),
{
}

/// Whatever arrives leaves the session valid: streams that are asked for data are known and can
/// still send.
pub proof fn fed_keeps_validity(state: State, buf: Seq<u8>)
    requires
        state.http2.session.valid(),
    ensures
        state.fed(buf).0.http2.session.valid(),
    decreases buf.len(),
{
    if crate::frame::starts_with_frame(buf) {
        let len = crate::frame::frame_len(buf);
        frame_keeps_validity(state, buf.subrange(0, len));
        let (next, err) = state.after_frame(buf.subrange(0, len));
        if err is None {
            fed_keeps_validity(next, buf.subrange(len, buf.len() as int));
        }
    }
}

/// A connection is reported ready once: with the first frame, if it holds the peer's settings.
pub proof fn ready_once(state: State, buf: Seq<u8>)
    ensures
        ({
            let after = state.fed(buf).0;
            &&& state.http2.got_settings ==> after.http2.got_settings
            &&& after.out.events == if after.http2.got_settings && !state.http2.got_settings {
                state.out.events.push(ConnectionEvent::Connected)
            } else {
                state.out.events
            }
        }),
    decreases buf.len(),
{
    if crate::frame::starts_with_frame(buf) {
        let len = crate::frame::frame_len(buf);
        let (next, err) = state.after_frame(buf.subrange(0, len));
        if err is None {
            ready_once(next, buf.subrange(len, buf.len() as int));
        }
    }
}

/// A connection that does not open with the peer's settings fails, with nothing done.
pub proof fn settings_come_first(state: State, frame: Seq<u8>)
    requires
        !state.http2.got_settings,
        !(crate::frame::decode_frame(frame) matches Some(FrameModel::Settings { ack: false, .. })),
    ensures
        state.after_frame(frame).0 == state,
        state.after_frame(frame).1 is Some,
{
}

/// Whether a log goes on where another ends.
pub open spec fn continues(before: Seq<Event>, after: Seq<Event>) -> bool {
    before.len() <= after.len() && after.take(before.len() as int) == before
}

/// Whether each stream of a session is still there or has left it, with all that its handler was
/// told before.
pub open spec fn keeps_track(before: SessionModel, after: SessionModel) -> bool {
    forall|id: StreamId| #[trigger]
        before.streams.dom().contains(id) ==> {
            ||| after.streams.dom().contains(id) && continues(
                before.streams[id].log,
                after.streams[id].log,
            )
            ||| after.removed.dom().contains(id) && continues(
                before.streams[id].log,
                after.removed[id].log,
            )
        }
}

/// No stream gets lost, and no handler is told less than before, by a frame.
pub proof fn frame_keeps_track(state: State, frame: Seq<u8>)
    ensures
        keeps_track(state.http2.session, state.after_frame(frame).0.http2.session),
{
    let before = state.http2.session;
    let after = state.after_frame(frame).0.http2.session;
    assert forall|id: StreamId| #[trigger] before.streams.dom().contains(id) implies {
        ||| after.streams.dom().contains(id) && continues(
            before.streams[id].log,
            after.streams[id].log,
        )
        ||| after.removed.dom().contains(id) && continues(
            before.streams[id].log,
            after.removed[id].log,
        )
    } by {
        let log = before.streams[id].log;
        if after.streams.dom().contains(id) {
            assert(after.streams[id].log.take(log.len() as int) =~= log);
        } else {
            assert(after.removed[id].log.take(log.len() as int) =~= log);
        }
    }
}

/// A stream that has left the session stays as it was.
pub proof fn removed_streams_rest(state: State, buf: Seq<u8>, id: StreamId)
    requires
        state.http2.session.valid(),
        state.http2.session.removed.dom().contains(id),
    ensures
        ({
            let after = state.fed(buf).0.http2.session;
            &&& after.removed.dom().contains(id)
            &&& after.removed[id] == state.http2.session.removed[id]
        }),
    decreases buf.len(),
{
    if crate::frame::starts_with_frame(buf) {
        let len = crate::frame::frame_len(buf);
        let frame = buf.subrange(0, len);
        frame_keeps_validity(state, frame);
        let (next, err) = state.after_frame(frame);
        assert(!state.http2.session.streams.dom().contains(id));
        assert(next.http2.session.removed.dom().contains(id));
        assert(next.http2.session.removed[id] == state.http2.session.removed[id]);
        if err is None {
            removed_streams_rest(next, buf.subrange(len, buf.len() as int), id);
        }
    }
}

/// No stream gets lost, and no handler is told less than before, by anything that arrives.
pub proof fn fed_keeps_track(state: State, buf: Seq<u8>)
    requires
        state.http2.session.valid(),
    ensures
        keeps_track(state.http2.session, state.fed(buf).0.http2.session),
    decreases buf.len(),
{
    let before = state.http2.session;
    let after = state.fed(buf).0.http2.session;
    if crate::frame::starts_with_frame(buf) {
        let len = crate::frame::frame_len(buf);
        let frame = buf.subrange(0, len);
        let rest = buf.subrange(len, buf.len() as int);
        frame_keeps_validity(state, frame);
        frame_keeps_track(state, frame);
        let (next, err) = state.after_frame(frame);
        let middle = next.http2.session;
        if err is None {
            fed_keeps_track(next, rest);
            assert forall|id: StreamId| #[trigger] before.streams.dom().contains(id) implies {
                ||| after.streams.dom().contains(id) && continues(
                    before.streams[id].log,
                    after.streams[id].log,
                )
                ||| after.removed.dom().contains(id) && continues(
                    before.streams[id].log,
                    after.removed[id].log,
                )
            } by {
                let log = before.streams[id].log;
                if middle.streams.dom().contains(id) && continues(log, middle.streams[id].log) {
                    if after.streams.dom().contains(id) && continues(
                        middle.streams[id].log,
                        after.streams[id].log,
                    ) {
                        continues_on(log, middle.streams[id].log, after.streams[id].log);
                    } else {
                        continues_on(log, middle.streams[id].log, after.removed[id].log);
                    }
                } else {
                    removed_streams_rest(next, rest, id);
                }
            }
        }
    } else {
        assert forall|id: StreamId| #[trigger] before.streams.dom().contains(id) implies continues(
            before.streams[id].log,
            after.streams[id].log,
        ) by {
            let log = before.streams[id].log;
            assert(log.take(log.len() as int) =~= log);
        }
    }
}

/// What goes on after what goes on after a log goes on after the log.
proof fn continues_on(first: Seq<Event>, second: Seq<Event>, third: Seq<Event>)
    requires
        continues(first, second),
        continues(second, third),
    ensures
        continues(first, third),
{
    let n = first.len() as int;
    assert(third.take(n) =~= third.take(second.len() as int).take(n));
}

/// No stream gets lost, and no handler is told less than before, by a chance to send.
pub proof fn sending_keeps_track(before: State, after: State, status: SendStatus)
    requires
        crate::protocol::sends_data(before, after, status),
        before.http2.session.valid(),
    ensures
        keeps_track(before.http2.session, after.http2.session),
{
    let (asked, answer, buf) = choose|
        session: SessionModel,
        answer: Option<StreamResult>,
        buf: Seq<u8>,
    | #[trigger]
        crate::protocol::data_step(before, session, answer, buf, after, status);
    let old_session = before.http2.session;
    let new_session = after.http2.session;
    assert forall|id: StreamId| #[trigger] old_session.streams.dom().contains(id) implies {
        ||| new_session.streams.dom().contains(id) && continues(
            old_session.streams[id].log,
            new_session.streams[id].log,
        )
        ||| new_session.removed.dom().contains(id) && continues(
            old_session.streams[id].log,
            new_session.removed[id].log,
        )
    } by {
        let log = old_session.streams[id].log;
        assert(asked.streams.dom().contains(id));
        assert(continues(log, asked.streams[id].log)) by {
            assert(asked.streams[id].log.take(log.len() as int) =~= log);
        }
        if new_session.streams.dom().contains(id) {
            assert(new_session.streams[id] == asked.streams[id]);
        } else {
            let last = asked.streams[id].log;
            assert(new_session.removed[id].log.take(last.len() as int) =~= last);
            continues_on(log, last, new_session.removed[id].log);
        }
    }
}

/// A frame for a stream that the session does not know changes nothing, but that its header block,
/// if it has one, takes part in the compression.
pub proof fn unknown_streams_are_ignored(state: State, frame: Seq<u8>, id: StreamId)
    requires
        state.http2.got_settings,
        !state.http2.session.streams.dom().contains(id),
        match crate::frame::decode_frame(frame) {
            Some(FrameModel::Data { id: other, .. }) => id == other,
            Some(FrameModel::Headers { id: other, .. }) => id == other,
            Some(FrameModel::RstStream { id: other, .. }) => id == other,
            _ => false,
        },
    ensures
        state.after_frame(frame).0.http2.session == state.http2.session,
        state.after_frame(frame).0.out == state.out,
{
}

/// A frame for one stream does nothing to the others.
pub proof fn streams_are_independent(state: State, frame: Seq<u8>, id: StreamId, other: StreamId)
    requires
        state.http2.got_settings,
        id != other,
        match crate::frame::decode_frame(frame) {
            Some(FrameModel::Data { id: of, .. }) => id == of,
            Some(FrameModel::Headers { id: of, .. }) => id == of,
            Some(FrameModel::RstStream { id: of, .. }) => id == of,
            _ => false,
        },
    ensures
        ({
            let before = state.http2.session;
            let after = state.after_frame(frame).0.http2.session;
            &&& after.streams.dom().contains(other) == before.streams.dom().contains(other)
            &&& before.streams.dom().contains(other) ==> after.streams[other]
                == before.streams[other]
            &&& after.interest.contains(other) == before.interest.contains(other)
            &&& after.removed == before.removed
        }),
{
}

/// After a GOAWAY frame every stream's handler knows of it. Streams that the peer will not process
/// have left the session; the error goes up to the connection.
pub proof fn going_away_is_told(
    state: State,
    frame: Seq<u8>,
    last_stream_id: StreamId,
    code: Http2ErrorCode,
    debug_data: Option<Seq<u8>>,
    id: StreamId,
)
    requires
        state.http2.got_settings,
        state.http2.session.streams.dom().contains(id),
        crate::frame::decode_frame(frame) == Some(
            FrameModel::GoAway { last_stream_id, code, debug_data },
        ),
    ensures
        ({
            let before = state.http2.session;
            let (after, err) = state.after_frame(frame);
            &&& err == Some(HttpErrorModel::PeerConnectionError { code, debug_data })
            &&& id > last_stream_id ==> {
                &&& !after.http2.session.streams.dom().contains(id)
                &&& !after.http2.session.interest.contains(id)
                &&& after.http2.session.removed[id].log == before.streams[id].log.push(
                    Event::Failed(Error::GoAwayUnprocessed(code)),
                )
            }
            &&& id <= last_stream_id ==> {
                &&& after.http2.session.streams.dom().contains(id)
                &&& after.http2.session.streams[id].log == before.streams[id].log.push(
                    Event::Failed(Error::GoAwayMaybeProcessed(code)),
                )
            }
        }),
{
}

/// The end of a stream, however it comes, ends the sending of the request, and the handler hears of
/// the closing last.
pub proof fn ended_streams_are_closed(state: State, frame: Seq<u8>, id: StreamId)
    requires
        state.http2.got_settings,
        state.http2.session.valid(),
        state.http2.session.streams.dom().contains(id),
        state.after_frame(frame).1 is None,
        match crate::frame::decode_frame(frame) {
            Some(FrameModel::Data { id: of, end, .. }) => id == of && end,
            Some(FrameModel::Headers { id: of, end, .. }) => id == of && end,
            Some(FrameModel::RstStream { id: of, .. }) => id == of,
            _ => false,
        },
    ensures
        ({
            let after = state.after_frame(frame).0.http2.session;
            &&& after.streams.dom().contains(id)
            &&& after.streams[id].state.closed_local()
            &&& after.streams[id].log.last() == Event::Closed
            &&& !after.interest.contains(id)
        }),
{
}

/// A stream that was reset is closed, and nothing that arrives opens it again.
pub proof fn closed_streams_stay_closed(state: State, frame: Seq<u8>, id: StreamId)
    requires
        state.http2.got_settings,
        state.http2.session.streams.dom().contains(id),
        ({
            ||| state.http2.session.streams[id].state == StreamState::Closed
            ||| crate::frame::decode_frame(frame) matches Some(FrameModel::RstStream { id: of, .. })
                && id == of
        }),
        state.after_frame(frame).0.http2.session.streams.dom().contains(id),
    ensures
        state.after_frame(frame).0.http2.session.streams[id].state == StreamState::Closed,
{
}

/// No more data arrives for a stream that was reset or is closed otherwise.
pub proof fn no_data_after_closing(
    state: State,
    frame: Seq<u8>,
    id: StreamId,
    data: Seq<u8>,
    end: bool,
)
    requires
        state.http2.got_settings,
        state.http2.session.streams.dom().contains(id),
        state.http2.session.streams[id].state == StreamState::Closed,
        crate::frame::decode_frame(frame) == Some(FrameModel::Data { id, data, end }),
    ensures
        ({
            let log = state.http2.session.streams[id].log;
            state.after_frame(frame).0.http2.session.streams[id].log == if end {
                log.push(Event::Closed)
            } else {
                log
            }
        }),
{
}

/// When a connection fails, every request that is not complete fails with it: its handler is told,
/// unless it has heard, and its stream leaves. Nothing is left to be sent or waited for.
pub proof fn failure_of_connection_is_told(session: SessionModel, heard: bool, id: StreamId)
    requires
        session.valid(),
        session.streams.dom().contains(id),
    ensures
        ({
            let after = session.abandoned(heard);
            &&& !after.is_active()
            &&& !after.wants_write()
            &&& if session.streams[id].state == StreamState::Closed {
                after.streams.dom().contains(id) && after.streams[id] == session.streams[id]
            } else {
                &&& !after.streams.dom().contains(id)
                &&& after.removed[id].log == if heard {
                    session.streams[id].log
                } else {
                    session.streams[id].log.push(Event::Failed(Error::Connection))
                }
            }
        }),
{
}

/// A new stream gets an odd identifier that no stream of the connection has had, above all of them.
pub proof fn identifiers_are_fresh(session: SessionModel, stream: StreamModel, id: StreamId)
    requires
        session.valid(),
        session.next_id <= u32::MAX - 2,
        session.streams.dom().contains(id) || session.removed.dom().contains(id),
    ensures
        id < session.next_id,
        session.next_id % 2 == 1,
        session.opened(stream).next_id > session.next_id,
        session.opened(stream).streams.dom().contains(session.next_id),
{
}

/// A request without a body is complete with its headers; its stream is never asked for data.
pub proof fn headers_only_is_never_asked(session: SessionModel, stream: StreamModel)
    requires
        session.valid(),
        session.next_id <= u32::MAX - 2,
        stream.state.closed_local(),
    ensures
        !session.opened(stream).interest.contains(session.next_id),
{
}

/// One chance to send makes at most one frame out of at most 8 KiB of data, behind all others.
pub proof fn one_frame_at_a_time(before: State, after: State, status: SendStatus)
    requires
        crate::protocol::sends_data(before, after, status),
    ensures
        after.out.events == before.out.events,
        ({
            ||| after.out == before.out
            ||| exists|frame: Seq<u8>|
                after.out == #[trigger] before.out.queued(frame) && frame.len() <= 9 + 8192
        }),
        status == SendStatus::Sent ==> after.out.backlog.len() == before.out.backlog.len() + 1,
{
    let (session, answer, buf) = choose|
        session: SessionModel,
        answer: Option<StreamResult>,
        buf: Seq<u8>,
    | #[trigger]
        crate::protocol::data_step(before, session, answer, buf, after, status);
    if let Some(StreamResult { id, state }) = answer {
        match state {
            StreamDataState::Read(ReadInfo::Pending(bytes)) => {
                if bytes > 0 {
                    let frame = crate::frame::frame_bytes(
                        crate::frame::DATA,
                        0,
                        id,
                        buf.take(bytes as int),
                    );
                    assert(after.out == before.out.queued(frame));
                }
            },
            StreamDataState::Read(ReadInfo::End(bytes)) => {
                if bytes > 0 {
                    let frame = crate::frame::frame_bytes(
                        crate::frame::DATA,
                        crate::frame::END_STREAM,
                        id,
                        buf.take(bytes as int),
                    );
                    assert(after.out == before.out.queued(frame));
                }
            },
            StreamDataState::Error => {
                let frame = crate::frame::frame_bytes(
                    crate::frame::RST_STREAM,
                    0,
                    id,
                    crate::frame::octets32(Http2ErrorCode::InternalError.number() as int),
                );
                assert(after.out == before.out.queued(frame));
            },
            StreamDataState::Unavailable => {},
        }
    }
}

/// Only streams that have data to send are asked for it.
pub proof fn others_are_not_asked(before: State, after: State, status: SendStatus, id: StreamId)
    requires
        crate::protocol::sends_data(before, after, status),
        before.http2.session.valid(),
        before.http2.session.streams.dom().contains(id),
        !before.http2.session.interest.contains(id),
    ensures
        after.http2.session.streams.dom().contains(id),
        after.http2.session.streams[id] == before.http2.session.streams[id],
        !after.http2.session.interest.contains(id),
{
}

/// A stream that has no data yet, or not all of it, is asked again.
pub proof fn others_are_asked_again(
    state: State,
    id: StreamId,
    answer: Option<StreamResult>,
    buf: Seq<u8>,
)
    requires
        state.http2.session.interest.contains(id),
        answer matches Some(result) ==> result.id != id || (result.state matches StreamDataState::Read(
            ReadInfo::Pending(_),
        )),
    ensures
        state.answered(answer, buf).0.http2.session.interest.contains(id),
{
}

/// A stream that has announced its last bytes is not asked again.
pub proof fn last_bytes_are_last(state: State, id: StreamId, bytes: usize, buf: Seq<u8>)
    ensures
        ({
            let answer = StreamResult { id, state: StreamDataState::Read(ReadInfo::End(bytes)) };
            !state.answered(Some(answer), buf).0.http2.session.interest.contains(id)
        }),
{
}

/// A stream whose handler fails is terminated immediately: the peer is told, the handler is told,
/// and the stream leaves the session.
pub proof fn failure_terminates(state: State, id: StreamId, buf: Seq<u8>)
    requires
        state.http2.session.valid(),
        state.http2.session.streams.dom().contains(id),
    ensures
        ({
            let answer = StreamResult { id, state: StreamDataState::Error };
            let after = state.answered(Some(answer), buf).0;
            &&& !after.http2.session.streams.dom().contains(id)
            &&& !after.http2.session.interest.contains(id)
            &&& after.http2.session.removed[id].log == state.http2.session.streams[id].log.push(
                Event::Failed(Error::User),
            )
            &&& after.out == state.out.queued(
                crate::frame::frame_bytes(
                    crate::frame::RST_STREAM,
                    0,
                    id,
                    crate::frame::octets32(Http2ErrorCode::InternalError.number() as int),
                ),
            )
        }),
{
}

/// Sending leaves the session valid.
pub proof fn sending_keeps_validity(
    state: State,
    answer: Option<StreamResult>,
    buf: Seq<u8>,
    headers: Seq<HeaderModel>,
    stream: StreamModel,
)
    requires
        state.http2.session.valid(),
    ensures
        state.answered(answer, buf).0.http2.session.valid(),
        state.http2.session.next_id <= u32::MAX - 2 ==> state.started(
            headers,
            stream,
        ).http2.session.valid(),
{
    let id = match answer {
        Some(result) => result.id,
        None => 0,
    };
    crate::client::departures_keep_validity(state.http2.session, stream, id);
    let after = state.answered(answer, buf).0.http2.session;
    assert(after == state.http2.session || after == state.http2.session.sated(id) || after
        == state.http2.session.failed(id));
}

/// Handling what arrives writes no frame beyond its end.
pub proof fn fed_stays_within_bounds(state: State, buf: Seq<u8>)
    requires
        crate::connection::within_bounds(state.out.backlog),
    ensures
        crate::connection::within_bounds(state.fed(buf).0.out.backlog),
    decreases buf.len(),
{
    if crate::frame::starts_with_frame(buf) {
        let len = crate::frame::frame_len(buf);
        let (next, err) = state.after_frame(buf.subrange(0, len));
        assert(crate::connection::within_bounds(next.out.backlog));
        if err is None {
            fed_stays_within_bounds(next, buf.subrange(len, buf.len() as int));
        }
    }
}

/// A chance to send writes no frame beyond its end.
pub proof fn sending_stays_within_bounds(before: State, after: State, status: SendStatus)
    requires
        crate::protocol::sends_data(before, after, status),
        crate::connection::within_bounds(before.out.backlog),
    ensures
        crate::connection::within_bounds(after.out.backlog),
{
    one_frame_at_a_time(before, after, status);
}

/// A frame that is queued goes out whole, behind all that was queued before.
pub proof fn queued_frames_go_last(out: RefModel, frame: Seq<u8>)
    requires
        crate::connection::within_bounds(out.backlog),
    ensures
        crate::connection::within_bounds(out.queued(frame).backlog),
        crate::connection::unwritten_octets(out.queued(frame).backlog)
            == crate::connection::unwritten_octets(out.backlog) + frame,
    decreases out.backlog.len(),
{
    let backlog = out.queued(frame).backlog;
    if out.backlog.len() == 0 {
        reveal_with_fuel(crate::connection::unwritten_octets, 2);
        assert(backlog[0].unwritten() =~= frame);
        assert(crate::connection::unwritten_octets(backlog) =~= frame);
    } else {
        let rest = RefModel { backlog: out.backlog.drop_first(), ..out };
        queued_frames_go_last(rest, frame);
        assert(backlog.drop_first() =~= rest.queued(frame).backlog);
        assert(crate::connection::unwritten_octets(backlog) =~= out.backlog[0].unwritten() + (
        crate::connection::unwritten_octets(rest.backlog) + frame));
    }
}

/// A write takes its octets from the front of those that wait and leaves the others as they are:
/// what the transport is given, write after write, is what was queued, frame after frame. A write
/// that fails takes none.
pub proof fn writes_keep_the_order(connection: ConnectionModel, status: StreamStatus)
    requires
        crate::connection::within_bounds(connection.state.out.backlog),
        connection.state.out.backlog.len() > 0,
        status matches StreamStatus::Bytes(bytes) ==> bytes
            <= connection.state.out.backlog[0].unwritten().len(),
    ensures
        ({
            let before = crate::connection::unwritten_octets(connection.state.out.backlog);
            let backlog = connection.wrote(status).state.out.backlog;
            let after = crate::connection::unwritten_octets(backlog);
            &&& crate::connection::within_bounds(backlog)
            &&& match status {
                StreamStatus::Bytes(bytes) => {
                    &&& bytes <= before.len()
                    &&& before.take(bytes as int)
                        == connection.state.out.backlog[0].unwritten().take(bytes as int)
                    &&& after == before.subrange(bytes as int, before.len() as int)
                },
                _ => after == before,
            }
        }),
{
    let old_backlog = connection.state.out.backlog;
    let first = old_backlog[0];
    let rest = old_backlog.drop_first();
    let before = crate::connection::unwritten_octets(old_backlog);
    let backlog = connection.wrote(status).state.out.backlog;
    let after = crate::connection::unwritten_octets(backlog);
    if let StreamStatus::Bytes(bytes) = status {
        assert(before.take(bytes as int) =~= first.unwritten().take(bytes as int));
        if bytes == first.unwritten().len() {
            assert(after =~= before.subrange(bytes as int, before.len() as int));
        } else {
            assert(backlog.drop_first() =~= rest);
            assert(backlog[0].unwritten() =~= first.unwritten().subrange(
                bytes as int,
                first.unwritten().len() as int,
            ));
            assert(after =~= before.subrange(bytes as int, before.len() as int));
        }
    }
}

/// A write is asked for only while the transport takes data and a frame waits.
pub proof fn writes_have_a_frame(
    before: ConnectionModel,
    events: EventSet,
    phase: Phase,
    after: ConnectionModel,
    next: Phase,
)
    requires
        before.goes_on(events, phase, after, Action::Write, next),
    ensures
        after.is_writable,
        after.state.out.backlog.len() > 0,
        next == Phase::Flushing || next == Phase::Draining,
{
}

/// When all is done, frames are left only if the transport takes no more data; then the connection
/// waits to write.
pub proof fn nothing_is_left_lying(
    before: ConnectionModel,
    events: EventSet,
    phase: Phase,
    after: ConnectionModel,
    wanted: EventSet,
    next: Phase,
)
    requires
        before.goes_on(events, phase, after, Action::Reregister(wanted), next),
        phase == Phase::Flushing || phase == Phase::Draining,
    ensures
        after.state.out.backlog.len() > 0 ==> !after.is_writable && wanted.writable,
        after.state.http2.session.wants_write() ==> wanted.writable,
        wanted.readable,
{
}

/// A connection that is given octets in two portions, neither of which breaks a rule, is left with
/// the same protocol state and the same rest as one that is given them at once, if no stream sends
/// in between.
pub proof fn portions_do_not_matter(connection: ConnectionModel, first: Seq<u8>, second: Seq<u8>)
    requires
        connection.state.fed(connection.read_buf + first).2 is None,
        connection.fed(first).state.fed(connection.fed(first).read_buf + second).2 is None,
    ensures
        connection.fed(first).fed(second) == connection.fed(first + second),
{
    let all = connection.read_buf + first;
    assert(connection.read_buf + (first + second) =~= all + second);
    pieces_do_not_matter(connection.state, all, second);
    fed_takes_whole_frames(connection.state, all);
    let (next, octets, _) = connection.state.fed(all);
    let left = all.subrange(octets, all.len() as int);
    fed_takes_whole_frames(next, left + second);
    let more = next.fed(left + second).1;
    assert((left + second).subrange(more, (left + second).len() as int) =~= (all
        + second).subrange(octets + more, (all + second).len() as int));
}

} // verus!
