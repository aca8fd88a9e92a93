//! What holds of arrivals: what each frame of the peer does, to the last octet
use crate::client::SessionModel;
use crate::compression::CompressionModel;
use crate::connection::{ConnectionEvent, PendingModel, RefModel};
use crate::frame::FrameModel;
use crate::header::StatusCode;
use crate::http::{HeaderModel, Http2ErrorCode, HttpErrorModel, StreamId};
use crate::protocol::{Http2Model, State, StreamModel};
use crate::request::{Error, Event};
use crate::session::StreamState;
use vstd::prelude::*;

verus! {

/// A state in which one stream has heard more and may be closed, and nothing else has changed.
pub open spec fn with_news(state: State, id: StreamId, news: Seq<Event>, closed: bool) -> State {
    let session = state.http2.session;
    let stream = StreamModel {
        state: if closed {
            StreamState::Closed
        } else {
            session.streams[id].state
        },
        log: session.streams[id].log + news,
    };
    State {
        http2: Http2Model {
            session: SessionModel {
                streams: session.streams.insert(id, stream),
                interest: if closed {
                    session.interest.remove(id)
                } else {
                    session.interest
                },
                ..session
            },
            ..state.http2
        },
        ..state
    }
}

/// A state in which one frame more waits to be sent, and nothing else has changed.
pub open spec fn with_frame(state: State, frame: Seq<u8>) -> State {
    State {
        out: RefModel {
            backlog: state.out.backlog.push(PendingModel { bytes: frame, position: 0 }),
            ..state.out
        },
        ..state
    }
}

/// A state in which a block more has been decoded, and nothing else has changed.
pub open spec fn with_block(state: State, block: Seq<u8>) -> State {
    State {
        http2: Http2Model {
            compression: CompressionModel {
                received: state.http2.compression.received.push(block),
                ..state.http2.compression
            },
            ..state.http2
        },
        ..state
    }
}

/// The data of a DATA frame reach the handler of the stream, whether or not it has more to send;
/// the last frame closes the stream, and the handler hears of that last. A stream that is closed
/// gets no data, and one that is not known nothing at all.
pub proof fn data_reach_the_handler(
    state: State,
    flags: u8,
    id: StreamId,
    data: Seq<u8>,
    padding: Seq<u8>,
)
    requires
        state.http2.got_settings,
        id != 0,
        padding.len() < 256,
        crate::frame::with_padding(flags, data, padding).len() < 0x100_0000,
    ensures
        ({
            let frame = crate::frame::frame_bytes(
                crate::frame::DATA,
                flags,
                id,
                crate::frame::with_padding(flags, data, padding),
            );
            let streams = state.http2.session.streams;
            let end = flags % 2 == 1;
            let told = if streams[id].state == StreamState::Closed {
                Seq::empty()
            } else {
                seq![Event::Data(data)]
            };
            let closing = if end {
                seq![Event::Closed]
            } else {
                Seq::empty()
            };
            state.after_frame(frame) == if streams.dom().contains(id) {
                (with_news(state, id, told + closing, end), None::<HttpErrorModel>)
            } else {
                (state, None::<HttpErrorModel>)
            }
        }),
{
    let frame = crate::frame::frame_bytes(
        crate::frame::DATA,
        flags,
        id,
        crate::frame::with_padding(flags, data, padding),
    );
    crate::frame::data_frames_are_read(flags, id, data, padding);
    let streams = state.http2.session.streams;
    let after = state.after_frame(frame).0;
    if streams.dom().contains(id) {
        let log = streams[id].log;
        let now = after.http2.session.streams[id].log;
        if streams[id].state == StreamState::Closed {
            if flags % 2 == 1 {
                assert(now =~= log + (Seq::empty() + seq![Event::Closed]));
            } else {
                assert(now =~= log + (Seq::<Event>::empty() + Seq::<Event>::empty()));
            }
        } else if flags % 2 == 1 {
            assert(now =~= log + (seq![Event::Data(data)] + seq![Event::Closed]));
        } else {
            assert(now =~= log + (seq![Event::Data(data)] + Seq::<Event>::empty()));
        }
        let told = if streams[id].state == StreamState::Closed {
            Seq::empty()
        } else {
            seq![Event::Data(data)]
        };
        let closing = if flags % 2 == 1 {
            seq![Event::Closed]
        } else {
            Seq::empty()
        };
        let wanted = with_news(state, id, told + closing, flags % 2 == 1);
        assert(after.http2.session.streams =~= wanted.http2.session.streams);
        assert(after =~= wanted);
    }
}

/// What a HEADERS frame comes to whose block can be decoded.
proof fn lists_arrive(
    state: State,
    frame: Seq<u8>,
    id: StreamId,
    block: Seq<u8>,
    end: bool,
    list: Seq<HeaderModel>,
)
    requires
        state.http2.got_settings,
        crate::frame::decode_frame(frame) == Some(FrameModel::Headers { id, block, end }),
        crate::compression::size_updates_whole(block),
        crate::compression::hpack_decoding(state.http2.compression.received, block) == Some(list),
    ensures
        state.after_frame(frame) == (
            with_block(state, block).headers(id, list, end),
            None::<HttpErrorModel>,
        ),
{
    assert(state.received(block) =~= with_block(state, block));
}

/// What a header list with the form of a response comes to.
proof fn responses_are_told(
    state: State,
    id: StreamId,
    list: Seq<HeaderModel>,
    end: bool,
    response: Event,
)
    requires
        crate::client::response_of(list) matches Some((status, headers)) && response
            == (Event::Response { status, headers }),
        state.http2.session.streams.dom().contains(id),
    ensures
        ({
            let news = if end {
                seq![response, Event::Closed]
            } else {
                seq![response]
            };
            state.headers(id, list, end) == with_news(state, id, news, end)
        }),
{
    let news = if end {
        seq![response, Event::Closed]
    } else {
        seq![response]
    };
    let after = state.headers(id, list, end);
    let wanted = with_news(state, id, news, end);
    let log = state.http2.session.streams[id].log;
    assert(after.http2.session.streams[id].log =~= log + news);
    assert(after.http2.session.streams =~= wanted.http2.session.streams);
    assert(after =~= wanted);
}

/// What a header list without the form of a response comes to.
proof fn malformed_lists_are_told(state: State, id: StreamId, list: Seq<HeaderModel>, end: bool)
    requires
        crate::client::response_of(list) is None,
        state.http2.session.streams.dom().contains(id),
    ensures
        ({
            let news = if end {
                seq![Event::Closed, Event::Closed]
            } else {
                seq![Event::Closed]
            };
            state.headers(id, list, end) == with_news(state, id, news, true)
        }),
{
    let news = if end {
        seq![Event::Closed, Event::Closed]
    } else {
        seq![Event::Closed]
    };
    let after = state.headers(id, list, end);
    let wanted = with_news(state, id, news, true);
    let log = state.http2.session.streams[id].log;
    assert(after.http2.session.streams[id].log =~= log + news);
    assert(after.http2.session.streams =~= wanted.http2.session.streams);
    assert(after.http2.session.interest =~= wanted.http2.session.interest);
    assert(after =~= wanted);
}

/// The header list of a response reaches the handler of the stream, whatever the status is; the
/// last frame closes the stream, and the handler hears of that last.
pub proof fn responses_reach_the_handler(
    state: State,
    flags: u8,
    id: StreamId,
    block: Seq<u8>,
    priority: Seq<u8>,
    padding: Seq<u8>,
    list: Seq<HeaderModel>,
    values: Seq<Seq<u8>>,
    text: Seq<char>,
    number: u16,
)
    requires
        state.http2.got_settings,
        id != 0,
        padding.len() < 256,
        crate::frame::with_padding(flags, priority + block, padding).len() < 0x100_0000,
        priority.len() == if (flags / 32) % 2 == 1 {
            5nat
        } else {
            0
        },
        crate::compression::size_updates_whole(block),
        crate::compression::hpack_decoding(state.http2.compression.received, block) == Some(list),
        crate::header::names_are_text(list),
        crate::header::field_values(crate::header::fields_of(list), ":status"@) == Some(values),
        values[0] == crate::text::utf8(text),
        crate::text::number16(text) == Some(number),
    ensures
        ({
            let frame = crate::frame::frame_bytes(
                crate::frame::HEADERS,
                flags,
                id,
                crate::frame::with_padding(flags, priority + block, padding),
            );
            let end = flags % 2 == 1;
            let response = Event::Response {
                status: StatusCode(number),
                headers: crate::header::fields_of(list),
            };
            let news = if end {
                seq![response, Event::Closed]
            } else {
                seq![response]
            };
            let read = with_block(state, block);
            state.after_frame(frame) == if state.http2.session.streams.dom().contains(id) {
                (with_news(read, id, news, end), None::<HttpErrorModel>)
            } else {
                (read, None::<HttpErrorModel>)
            }
        }),
{
    let frame = crate::frame::frame_bytes(
        crate::frame::HEADERS,
        flags,
        id,
        crate::frame::with_padding(flags, priority + block, padding),
    );
    crate::frame::headers_frames_are_read(flags, id, block, priority, padding);
    vstd::utf8::encode_utf8_decode_utf8(text);
    vstd::utf8::encode_utf8_valid_utf8(text);
    let end = flags % 2 == 1;
    let response = Event::Response {
        status: StatusCode(number),
        headers: crate::header::fields_of(list),
    };
    lists_arrive(state, frame, id, block, end, list);
    if state.http2.session.streams.dom().contains(id) {
        responses_are_told(with_block(state, block), id, list, end, response);
    }
}

/// A header list without a status that is a number is no response: it closes the stream, and that
/// is all that the handler hears, once more if the frame is the last one.
pub proof fn malformed_responses_close_the_stream(
    state: State,
    flags: u8,
    id: StreamId,
    block: Seq<u8>,
    priority: Seq<u8>,
    padding: Seq<u8>,
    list: Seq<HeaderModel>,
)
    requires
        state.http2.got_settings,
        id != 0,
        padding.len() < 256,
        crate::frame::with_padding(flags, priority + block, padding).len() < 0x100_0000,
        priority.len() == if (flags / 32) % 2 == 1 {
            5nat
        } else {
            0
        },
        crate::compression::size_updates_whole(block),
        crate::compression::hpack_decoding(state.http2.compression.received, block) == Some(list),
        !crate::header::names_are_text(list) || match crate::header::field_values(
            crate::header::fields_of(list),
            ":status"@,
        ) {
            Some(values) => !vstd::utf8::valid_utf8(values[0]) || crate::text::number16(
                vstd::utf8::decode_utf8(values[0]),
            ) is None,
            None => true,
        },
    ensures
        ({
            let frame = crate::frame::frame_bytes(
                crate::frame::HEADERS,
                flags,
                id,
                crate::frame::with_padding(flags, priority + block, padding),
            );
            let news = if flags % 2 == 1 {
                seq![Event::Closed, Event::Closed]
            } else {
                seq![Event::Closed]
            };
            let read = with_block(state, block);
            state.after_frame(frame) == if state.http2.session.streams.dom().contains(id) {
                (with_news(read, id, news, true), None::<HttpErrorModel>)
            } else {
                (read, None::<HttpErrorModel>)
            }
        }),
{
    let frame = crate::frame::frame_bytes(
        crate::frame::HEADERS,
        flags,
        id,
        crate::frame::with_padding(flags, priority + block, padding),
    );
    let end = flags % 2 == 1;
    crate::frame::headers_frames_are_read(flags, id, block, priority, padding);
    lists_arrive(state, frame, id, block, end, list);
    if state.http2.session.streams.dom().contains(id) {
        malformed_lists_are_told(with_block(state, block), id, list, end);
    }
}

/// A block that cannot be decoded fails the connection. No stream hears of it.
pub proof fn malformed_blocks_fail_the_connection(
    state: State,
    flags: u8,
    id: StreamId,
    block: Seq<u8>,
    priority: Seq<u8>,
    padding: Seq<u8>,
)
    requires
        state.http2.got_settings,
        id != 0,
        padding.len() < 256,
        crate::frame::with_padding(flags, priority + block, padding).len() < 0x100_0000,
        priority.len() == if (flags / 32) % 2 == 1 {
            5nat
        } else {
            0
        },
        !crate::compression::size_updates_whole(block) || crate::compression::hpack_decoding(
            state.http2.compression.received,
            block,
        ) is None,
    ensures
        ({
            let frame = crate::frame::frame_bytes(
                crate::frame::HEADERS,
                flags,
                id,
                crate::frame::with_padding(flags, priority + block, padding),
            );
            let (after, err) = state.after_frame(frame);
            &&& err == Some(HttpErrorModel::CompressionError)
            &&& after == with_block(state, crate::compression::readable_part(block))
            &&& crate::compression::size_updates_whole(block)
                ==> crate::compression::readable_part(block) == block
        }),
{
    crate::frame::headers_frames_are_read(flags, id, block, priority, padding);
}

/// A stream that the peer resets fails with the peer's reason and is closed.
pub proof fn resets_reach_the_handler(state: State, flags: u8, id: StreamId, number: u32)
    requires
        state.http2.got_settings,
        id != 0,
    ensures
        ({
            let frame = crate::frame::frame_bytes(
                crate::frame::RST_STREAM,
                flags,
                id,
                crate::frame::octets32(number as int),
            );
            let reason = Error::Reset(Http2ErrorCode::numbered(number));
            state.after_frame(frame) == if state.http2.session.streams.dom().contains(id) {
                (
                    with_news(state, id, seq![Event::Failed(reason), Event::Closed], true),
                    None::<HttpErrorModel>,
                )
            } else {
                (state, None::<HttpErrorModel>)
            }
        }),
{
    let frame = crate::frame::frame_bytes(
        crate::frame::RST_STREAM,
        flags,
        id,
        crate::frame::octets32(number as int),
    );
    crate::frame::rst_stream_frames_are_read(flags, id, number);
    let streams = state.http2.session.streams;
    if streams.dom().contains(id) {
        let after = state.after_frame(frame).0;
        let news = seq![
            Event::Failed(Error::Reset(Http2ErrorCode::numbered(number))),
            Event::Closed,
        ];
        let wanted = with_news(state, id, news, true);
        assert(after.http2.session.streams[id].log =~= streams[id].log + news);
        assert(after.http2.session.streams =~= wanted.http2.session.streams);
        assert(after =~= wanted);
    }
}

/// The last word on the number of concurrent streams counts; without one the number stays.
pub proof fn last_setting_counts(
    current: u32,
    first: Seq<(u16, u32)>,
    value: u32,
    rest: Seq<(u16, u32)>,
)
    requires
        forall|i: int| 0 <= i < rest.len() ==> (#[trigger] rest[i]).0 != 3,
    ensures
        crate::client::max_concurrent_after(current, rest) == current,
        crate::client::max_concurrent_after(current, first.push((3u16, value)) + rest) == value,
    decreases rest.len(),
{
    let all = first.push((3u16, value)) + rest;
    if rest.len() == 0 {
        assert(all.last() == (3u16, value));
    } else {
        assert(rest[rest.len() - 1].0 != 3);
        assert forall|i: int| 0 <= i < rest.len() - 1 implies (#[trigger] rest.drop_last()[i]).0
            != 3 by {
            assert(rest[i].0 != 3);
        }
        last_setting_counts(current, first, value, rest.drop_last());
        assert(all.drop_last() =~= first.push((3u16, value)) + rest.drop_last());
        assert(all.last() == rest.last());
    }
}

/// A state in which settings have been applied and acknowledged, and nothing else has changed.
pub open spec fn with_settings(state: State, settings: Seq<(u16, u32)>) -> State {
    with_frame(
        State {
            http2: Http2Model {
                session: SessionModel {
                    max_concurrent_streams: crate::client::max_concurrent_after(
                        state.http2.session.max_concurrent_streams,
                        settings,
                    ),
                    ..state.http2.session
                },
                ..state.http2
            },
            ..state
        },
        crate::frame::frame_bytes(crate::frame::SETTINGS, 1, 0, Seq::empty()),
    )
}

/// Settings that are not known say nothing about the number of concurrent streams.
proof fn unknown_settings_say_nothing(current: u32, settings: Seq<(u16, u32)>)
    ensures
        crate::client::max_concurrent_after(
            current,
            settings.filter(|setting: (u16, u32)| 1 <= setting.0 <= 6),
        ) == crate::client::max_concurrent_after(current, settings),
    decreases settings.len(),
{
    let known = |setting: (u16, u32)| 1 <= setting.0 <= 6;
    reveal(Seq::filter);
    if settings.len() > 0 {
        unknown_settings_say_nothing(current, settings.drop_last());
        if known(settings.last()) {
            let kept = settings.drop_last().filter(known);
            assert(settings.filter(known) == kept.push(settings.last()));
            assert(kept.push(settings.last()).drop_last() =~= kept);
        }
    }
}

/// Settings are applied and acknowledged, at once and each time; an acknowledgement changes
/// nothing. The first settings make the connection ready.
pub proof fn settings_are_applied(state: State, flags: u8, settings: Seq<(u16, u32)>)
    requires
        6 * settings.len() < 0x100_0000,
    ensures
        ({
            let frame = crate::frame::frame_bytes(
                crate::frame::SETTINGS,
                flags,
                0,
                crate::frame::settings_octets(settings),
            );
            let applied = with_settings(state, settings);
            let ready = State {
                http2: Http2Model { got_settings: true, ..applied.http2 },
                out: RefModel {
                    events: state.out.events.push(ConnectionEvent::Connected),
                    ..applied.out
                },
            };
            flags % 2 == 0 ==> state.after_frame(frame) == if state.http2.got_settings {
                (applied, None::<HttpErrorModel>)
            } else {
                (ready, None::<HttpErrorModel>)
            }
        }),
        ({
            let ack = crate::frame::frame_bytes(crate::frame::SETTINGS, flags, 0, Seq::empty());
            flags % 2 == 1 ==> state.after_frame(ack) == if state.http2.got_settings {
                (state, None::<HttpErrorModel>)
            } else {
                (state, Some(HttpErrorModel::UnableToConnect))
            }
        }),
{
    if flags % 2 == 0 {
        crate::frame::settings_frames_are_read(flags, settings);
        unknown_settings_say_nothing(state.http2.session.max_concurrent_streams, settings);
    } else {
        crate::frame::settings_acks_are_read(flags);
    }
}

/// A PING is answered with its own data; an answer changes nothing.
pub proof fn pings_are_answered(state: State, flags: u8, data: Seq<u8>)
    requires
        state.http2.got_settings,
        data.len() == 8,
    ensures
        ({
            let frame = crate::frame::frame_bytes(crate::frame::PING, flags, 0, data);
            let answer = crate::frame::frame_bytes(crate::frame::PING, 1, 0, data);
            state.after_frame(frame) == if flags % 2 == 1 {
                (state, None::<HttpErrorModel>)
            } else {
                (with_frame(state, answer), None::<HttpErrorModel>)
            }
        }),
{
    crate::frame::ping_frames_are_read(flags, data);
}

/// When the peer goes away, the streams up to the last one that it names hear that they may have
/// been processed, and stay; those above it hear that they were not, and leave. The connection
/// fails with the peer's reason.
pub proof fn going_away_reaches_the_handlers(
    state: State,
    flags: u8,
    last: StreamId,
    number: u32,
    debug_data: Seq<u8>,
)
    requires
        state.http2.got_settings,
        last < 0x8000_0000,
        debug_data.len() + 8 < 0x100_0000,
    ensures
        ({
            let frame = crate::frame::frame_bytes(
                crate::frame::GOAWAY,
                flags,
                0,
                crate::frame::octets32(last as int) + crate::frame::octets32(number as int)
                    + debug_data,
            );
            let code = Http2ErrorCode::numbered(number);
            let before = state.http2.session;
            let (after, err) = state.after_frame(frame);
            let session = after.http2.session;
            &&& err == Some(
                HttpErrorModel::PeerConnectionError {
                    code,
                    debug_data: if debug_data.len() == 0 {
                        None
                    } else {
                        Some(debug_data)
                    },
                },
            )
            &&& after == State { http2: Http2Model { session, ..state.http2 }, ..state }
            &&& session.next_id == before.next_id
            &&& session.max_concurrent_streams == before.max_concurrent_streams
            &&& forall|id: StreamId| #[trigger]
                session.interest.contains(id) <==> before.interest.contains(id) && id <= last
            &&& forall|id: StreamId| #[trigger]
                session.streams.dom().contains(id) <==> before.streams.dom().contains(id) && id
                    <= last
            &&& forall|id: StreamId| #[trigger]
                session.removed.dom().contains(id) <==> before.removed.dom().contains(id) || (
                before.streams.dom().contains(id) && id > last)
            &&& forall|id: StreamId| #[trigger]
                before.streams.dom().contains(id) && id <= last ==> session.streams[id]
                    == StreamModel {
                    state: before.streams[id].state,
                    log: before.streams[id].log.push(
                        Event::Failed(Error::GoAwayMaybeProcessed(code)),
                    ),
                }
            &&& forall|id: StreamId| #[trigger]
                before.streams.dom().contains(id) && id > last ==> session.removed[id]
                    == StreamModel {
                    state: before.streams[id].state,
                    log: before.streams[id].log.push(
                        Event::Failed(Error::GoAwayUnprocessed(code)),
                    ),
                }
            &&& forall|id: StreamId| #[trigger]
                before.removed.dom().contains(id) && !before.streams.dom().contains(id)
                    ==> session.removed[id] == before.removed[id]
        }),
{
    crate::frame::goaway_frames_are_read(flags, last, number, debug_data);
}

/// A frame of a kind that the client has no use for changes nothing, once the connection is ready.
pub proof fn other_frames_change_nothing(
    state: State,
    kind: u8,
    flags: u8,
    id: StreamId,
    payload: Seq<u8>,
)
    requires
        state.http2.got_settings,
        payload.len() < 0x100_0000,
        kind == 2 || kind == 5 || kind > 7,
    ensures
        state.after_frame(crate::frame::frame_bytes(kind, flags, id, payload)) == (
            state,
            None::<HttpErrorModel>,
        ),
{
    crate::frame::other_frames_are_read(kind, flags, id, payload);
}

/// A frame that breaks a rule of its kind fails the connection, and nothing else happens.
pub proof fn broken_frames_fail_the_connection(
    state: State,
    kind: u8,
    flags: u8,
    id: StreamId,
    payload: Seq<u8>,
)
    requires
        payload.len() < 0x100_0000,
        crate::frame::breaks_rules(kind, flags, id, payload),
    ensures
        state.after_frame(crate::frame::frame_bytes(kind, flags, id, payload)) == (
            state,
            Some(HttpErrorModel::InvalidFrame),
        ),
{
    crate::frame::broken_frames_are_refused(kind, flags, id, payload);
}

/// Before the peer's settings, every frame of another kind that breaks no rule fails the
/// connection, and nothing else happens.
pub proof fn others_do_not_come_first(
    state: State,
    kind: u8,
    flags: u8,
    id: StreamId,
    payload: Seq<u8>,
)
    requires
        !state.http2.got_settings,
        payload.len() < 0x100_0000,
        kind != 4,
        !crate::frame::breaks_rules(kind, flags, id, payload),
    ensures
        state.after_frame(crate::frame::frame_bytes(kind, flags, id, payload)) == (
            state,
            Some(HttpErrorModel::UnableToConnect),
        ),
{
    crate::frame::broken_frames_are_refused(kind, flags, id, payload);
    crate::frame::frame_round_trip(kind, flags, id, payload, Seq::empty());
}

/// A frame at the start of a buffer is handled first and alone; what follows is handled as if it
/// had come alone afterwards, unless there was an error, which ends it all.
pub proof fn frames_are_handled_in_turn(
    state: State,
    kind: u8,
    flags: u8,
    id: StreamId,
    payload: Seq<u8>,
    rest: Seq<u8>,
)
    requires
        payload.len() < 0x100_0000,
    ensures
        ({
            let frame = crate::frame::frame_bytes(kind, flags, id, payload);
            let (next, err) = state.after_frame(frame);
            let (last, octets, later) = next.fed(rest);
            state.fed(frame + rest) == if err is None {
                (last, 9 + payload.len() + octets, later)
            } else {
                (next, 0, err)
            }
        }),
{
    let frame = crate::frame::frame_bytes(kind, flags, id, payload);
    crate::frame::frame_round_trip(kind, flags, id, payload, rest);
    let buf = frame + rest;
    assert(crate::frame::frame_len(buf) == 9 + payload.len());
    assert(buf.subrange(9 + payload.len() as int, buf.len() as int) =~= rest);
}

/// As long as an octet of a frame is missing, nothing happens.
pub proof fn parts_of_frames_wait(
    state: State,
    kind: u8,
    flags: u8,
    id: StreamId,
    payload: Seq<u8>,
    k: int,
)
    requires
        payload.len() < 0x100_0000,
        0 <= k < 9 + payload.len(),
    ensures
        state.fed(crate::frame::frame_bytes(kind, flags, id, payload).take(k)) == (
            state,
            0int,
            None::<HttpErrorModel>,
        ),
{
    crate::frame::frames_are_not_cut(kind, flags, id, payload, k);
}

} // verus!
