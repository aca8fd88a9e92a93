//! The HTTP/2 state machine, the connection around it and the worker around that
use hydra::connection::{Action, Connection, ConnectionEvent, Error, EventSet, Phase, Ref};
use hydra::connection::{DispatchConnectionEvent, Source, StreamStatus, WriteStatus};
use hydra::http::{HttpError, HttpScheme};
use hydra::protocol::{BufferPrioritizer, Http2, Msg, Protocol, SendStatus, Stream};
use hydra::request::{Handler, Method, Request, Response};
use hydra::session::{Session, StreamState};
use hydra::util::each_addr;
use hydra::worker::{Info, Task, Timeout, Worker, WorkerError};
use hydra::{Cause, Config, ConnectionError, Headers, Http2ErrorCode, Hydra, HydraError};
use hydra::{unresolved, ErrorKind, RequestError, StatusCode, StreamDataState};
use std::sync::{Arc, Mutex};

/// A handler that notes what it is told, and answers from a list.
#[derive(Debug)]
struct Recorder {
    notes: Arc<Mutex<Vec<String>>>,
    answers: Vec<StreamDataState>,
}

impl Handler for Recorder {
    fn stream_data(&mut self, buf: &mut [u8]) -> StreamDataState {
        self.note(format!("asked for {}", buf.len()));
        for (i, byte) in buf.iter_mut().enumerate() {
            *byte = i as u8;
        }
        if self.answers.is_empty() {
            StreamDataState::unavailable()
        } else {
            self.answers.remove(0)
        }
    }

    fn on_response(&mut self, res: Response) {
        self.note(format!("response {}", res.status.0));
    }

    fn on_response_data(&mut self, data: &[u8]) {
        self.note(format!("data {:?}", data));
    }

    fn on_close(&mut self) {
        self.note("closed".to_string());
    }

    fn on_error(&mut self, err: RequestError) {
        self.note(err.message());
    }
}

impl Recorder {
    fn note(&self, text: String) {
        self.notes.lock().unwrap().push(text);
    }
}

struct Notes(Arc<Mutex<Vec<String>>>);

impl Notes {
    fn take(&self) -> Vec<String> {
        std::mem::take(&mut self.0.lock().unwrap())
    }
}

fn recorder(answers: Vec<StreamDataState>) -> (Recorder, Notes) {
    let notes = Arc::new(Mutex::new(Vec::new()));
    (Recorder { notes: notes.clone(), answers }, Notes(notes))
}

fn frame(kind: u8, flags: u8, id: u32, payload: &[u8]) -> Vec<u8> {
    let len = payload.len();
    let mut bytes = vec![(len >> 16) as u8, (len >> 8) as u8, len as u8, kind, flags];
    bytes.extend_from_slice(&id.to_be_bytes());
    bytes.extend_from_slice(payload);
    bytes
}

fn settings() -> Vec<u8> {
    frame(4, 0, 0, &[])
}

/// Everything that a connection has to send
fn drain(conn: &mut Connection<Recorder>) -> Vec<u8> {
    let mut sent = Vec::new();
    let mut phase = Phase::Reading;
    let events = EventSet { readable: false, writable: true };
    loop {
        let (action, next) = conn.ready(events, phase).unwrap();
        match action {
            Action::Read => unreachable!(),
            Action::Write => {
                let bytes = conn.unwritten().to_vec();
                sent.extend_from_slice(&bytes);
                conn.write_backlog(StreamStatus::Bytes(bytes.len()));
            }
            Action::Reregister(_) => return sent,
        }
        phase = next;
    }
}

fn feed(conn: &mut Connection<Recorder>, bytes: &[u8]) -> Result<(), Error> {
    conn.read(StreamStatus::Bytes(bytes.len()), bytes)
}

/// A connection that has exchanged settings, with its outgoing frames written
fn open_connection() -> Connection<Recorder> {
    let mut conn = Connection::new(4);
    conn.initialize();
    feed(&mut conn, &settings()).unwrap();
    drain(&mut conn);
    assert_eq!(conn.take_events(), vec![ConnectionEvent::Connected]);
    conn
}

fn get(handler: Recorder) -> Msg<Recorder> {
    Msg::CreateStream(Request::new_headers_only(Method::Get, "/", Headers::new()), handler)
}

fn post(handler: Recorder) -> Msg<Recorder> {
    Msg::CreateStream(Request::new(Method::Post, "/", Headers::new()), handler)
}

#[test]
fn preface_comes_first() {
    let mut conn: Connection<Recorder> = Connection::new(9);
    conn.initialize();
    assert_eq!(conn.token(), 9);
    assert_eq!(conn.protocol().scheme(), HttpScheme::Http);
    let mut expected = b"PRI * HTTP/2.0\r\n\r\nSM\r\n\r\n".to_vec();
    expected.extend(frame(4, 0, 0, &[0, 2, 0, 0, 0, 0]));
    assert_eq!(drain(&mut conn), expected);
    assert_eq!(conn.interest(), EventSet { readable: true, writable: false });
}

#[test]
fn connection_opens_with_settings() {
    let mut conn: Connection<Recorder> = Connection::new(0);
    assert_eq!(conn.protocol().max_concurrent_streams(), 10);
    let mut bytes = frame(4, 0, 0, &[0, 3, 0, 0, 0, 7, 0, 1, 0, 0, 0, 9, 0, 3, 0, 0, 0, 8]);
    bytes.extend(settings());
    feed(&mut conn, &bytes).unwrap();
    assert_eq!(conn.take_events(), vec![ConnectionEvent::Connected]);
    assert_eq!(conn.protocol().max_concurrent_streams(), 8);
    assert_eq!(drain(&mut conn), [frame(4, 1, 0, &[]), frame(4, 1, 0, &[])].concat());
    feed(&mut conn, &settings()).unwrap();
    assert_eq!(conn.take_events(), vec![]);
}

#[test]
fn connection_opens_with_something_else() {
    for (bytes, reason) in [
        (frame(6, 0, 0, &[0; 8]), "An error attempting to establish an HTTP/2 connection"),
        (frame(4, 1, 0, &[]), "An error attempting to establish an HTTP/2 connection"),
        (frame(4, 0, 0, &[1]), "Encountered an invalid HTTP/2 frame"),
    ] {
        let mut conn: Connection<Recorder> = Connection::new(0);
        let err = feed(&mut conn, &bytes).unwrap_err();
        assert_eq!(err.description(), reason);
        assert_eq!(err.message(), format!("HTTP/2 error on connection: HTTP/2 Error: {}", reason));
        assert_eq!(conn.take_events(), vec![]);
    }
}

#[test]
fn pieces_of_any_size() {
    let mut bytes = settings();
    bytes.extend(frame(6, 0, 0, &[1, 2, 3, 4, 5, 6, 7, 8]));
    bytes.extend(frame(1, 4, 1, &[0x88]));
    bytes.extend(frame(0, 0, 1, &[1, 2]));
    bytes.extend(frame(0, 1, 1, &[3]));
    for size in 1..bytes.len() {
        let (handler, notes) = recorder(vec![]);
        let mut conn = Connection::new(0);
        conn.notify(get(handler)).unwrap();
        for piece in bytes.chunks(size) {
            feed(&mut conn, piece).unwrap();
        }
        assert_eq!(notes.take(), vec!["response 200", "data [1, 2]", "data [3]", "closed"]);
        let sent = drain(&mut conn);
        assert!(sent.ends_with(&frame(6, 1, 0, &[1, 2, 3, 4, 5, 6, 7, 8])));
    }
}

#[test]
fn nothing_counts_after_an_error() {
    let (handler, notes) = recorder(vec![]);
    let mut conn = open_connection();
    conn.notify(get(handler)).unwrap();
    let mut bytes = frame(0, 0, 1, &[1]);
    bytes.extend(frame(6, 0, 7, &[0; 8]));
    bytes.extend(frame(0, 0, 1, &[2]));
    match feed(&mut conn, &bytes) {
        Err(Error::Http(HttpError::InvalidFrame)) => {}
        _ => unreachable!(),
    }
    assert_eq!(notes.take(), vec!["data [1]"]);
}

#[test]
fn requests_on_the_wire() {
    let mut conn = open_connection();
    let mut headers = Headers::new();
    headers.set_raw("Connection", vec![b"close".to_vec()]);
    headers.set_raw("X-Key", vec![b"v".to_vec()]);
    let method = Method::Extension("BREW".to_string());
    let (handler, _notes) = recorder(vec![]);
    let request = Request::new_headers_only(method, "/pot", headers);
    conn.notify(Msg::CreateStream(request, handler)).unwrap();
    let sent = drain(&mut conn);
    assert_eq!(&sent[3..9], &[1, 5, 0, 0, 0, 1]);
    let list = hpack::Decoder::new().decode(&sent[9..]).unwrap();
    let text = |h: &(Vec<u8>, Vec<u8>)| {
        (String::from_utf8(h.0.clone()).unwrap(), String::from_utf8(h.1.clone()).unwrap())
    };
    let list: Vec<(String, String)> = list.iter().map(text).collect();
    let expected = [
        (":method", "BREW"),
        (":path", "/pot"),
        (":authority", "http2bin.org"),
        (":scheme", "http"),
        ("x-key", "v"),
        ("user-agent", "hydra/0.0.1"),
    ];
    assert_eq!(list.len(), expected.len());
    for (sent, wanted) in list.iter().zip(expected.iter()) {
        assert_eq!((sent.0.as_str(), sent.1.as_str()), *wanted);
    }
    // The next stream gets the next odd number.
    let (handler, _notes) = recorder(vec![]);
    conn.notify(post(handler)).unwrap();
    let sent = drain(&mut conn);
    assert_eq!(&sent[3..9], &[1, 4, 0, 0, 0, 3]);
}

#[test]
fn pings() {
    let mut conn = open_connection();
    conn.notify(Msg::Ping).unwrap();
    assert_eq!(drain(&mut conn), frame(6, 0, 0, &[0; 8]));
    feed(&mut conn, &frame(6, 1, 0, &[0; 8])).unwrap();
    assert_eq!(drain(&mut conn), vec![]);
    assert_eq!(conn.take_events(), vec![]);
}

#[test]
fn frames_for_unknown_streams() {
    let mut conn = open_connection();
    feed(&mut conn, &frame(0, 1, 99, &[1])).unwrap();
    feed(&mut conn, &frame(1, 5, 99, &[0x88])).unwrap();
    feed(&mut conn, &frame(3, 0, 99, &[0, 0, 0, 8])).unwrap();
    feed(&mut conn, &frame(8, 0, 99, &[0, 0, 0, 8])).unwrap();
    assert_eq!(drain(&mut conn), vec![]);
}

#[test]
fn resets_by_the_peer() {
    let mut conn = open_connection();
    let (first, first_notes) = recorder(vec![]);
    let (second, second_notes) = recorder(vec![]);
    conn.notify(post(first)).unwrap();
    conn.notify(get(second)).unwrap();
    assert!(conn.protocol().wants_write());
    feed(&mut conn, &frame(3, 0, 1, &[0, 0, 0, 7])).unwrap();
    assert_eq!(
        first_notes.take(),
        vec!["Request failed because stream was reset by peer: RefusedStream", "closed"],
    );
    assert_eq!(second_notes.take(), Vec::<String>::new());
    // It is not asked for data any more, and gets none.
    assert!(!conn.protocol().wants_write());
    feed(&mut conn, &frame(0, 0, 1, &[1])).unwrap();
    feed(&mut conn, &frame(0, 0, 3, &[2])).unwrap();
    assert_eq!(first_notes.take(), Vec::<String>::new());
    assert_eq!(second_notes.take(), vec!["data [2]"]);
}

#[test]
fn failing_connections() {
    let mut conn = open_connection();
    let (first, first_notes) = recorder(vec![]);
    let (second, second_notes) = recorder(vec![]);
    let (third, third_notes) = recorder(vec![]);
    conn.notify(post(first)).unwrap();
    conn.notify(get(second)).unwrap();
    conn.notify(get(third)).unwrap();
    feed(&mut conn, &frame(1, 5, 5, &[0x88])).unwrap();
    assert_eq!(third_notes.take(), vec!["response 200", "closed"]);
    assert!(conn.has_active_streams());
    conn.fail(&Error::Io(cause("gone")));
    let failed = "Request failed because connection encountered an error";
    assert_eq!(first_notes.take(), vec!["asked for 8192", failed]);
    assert_eq!(second_notes.take(), vec![failed]);
    // The third request was complete.
    assert_eq!(third_notes.take(), Vec::<String>::new());
    assert!(!conn.has_active_streams());
    assert!(!conn.protocol().wants_write());
    conn.fail(&Error::Timeout);
    assert_eq!(first_notes.take(), Vec::<String>::new());
}

#[test]
fn announced_failures() {
    let mut conn = open_connection();
    let (handler, notes) = recorder(vec![]);
    conn.notify(get(handler)).unwrap();
    let err = feed(&mut conn, &frame(7, 0, 0, &[0, 0, 0, 1, 0, 0, 0, 2])).unwrap_err();
    assert_eq!(notes.take().len(), 1);
    assert!(conn.has_active_streams());
    conn.fail(&err);
    assert_eq!(notes.take(), Vec::<String>::new());
    assert!(!conn.has_active_streams());
}

#[test]
fn responses_without_status() {
    let mut conn = open_connection();
    let (handler, notes) = recorder(vec![]);
    conn.notify(get(handler)).unwrap();
    feed(&mut conn, &frame(1, 4, 1, &[0x40, 1, 120, 1, 121])).unwrap();
    assert_eq!(notes.take(), vec!["closed"]);
    // The stream is over.
    assert!(!conn.has_active_streams());
    feed(&mut conn, &frame(0, 0, 1, &[1])).unwrap();
    assert_eq!(notes.take(), Vec::<String>::new());
}

#[test]
fn malformed_blocks() {
    let mut conn = open_connection();
    let err = feed(&mut conn, &frame(1, 4, 1, &[0x3f])).unwrap_err();
    match err {
        Error::Http(HttpError::CompressionError) => {}
        _ => unreachable!(),
    }
}

#[test]
fn end_of_stream_ends_the_request() {
    let mut conn = open_connection();
    let (handler, notes) = recorder(vec![StreamDataState::read(2)]);
    conn.notify(post(handler)).unwrap();
    drain(&mut conn);
    assert_eq!(notes.take(), vec!["asked for 8192"]);
    assert!(conn.protocol().wants_write());
    feed(&mut conn, &frame(1, 5, 1, &[0x88])).unwrap();
    assert_eq!(notes.take(), vec!["response 200", "closed"]);
    assert!(!conn.protocol().wants_write());
    drain(&mut conn);
    assert_eq!(notes.take(), Vec::<String>::new());
}

#[test]
fn going_away() {
    let mut conn = open_connection();
    let (first, first_notes) = recorder(vec![]);
    let (second, second_notes) = recorder(vec![]);
    let (third, third_notes) = recorder(vec![]);
    conn.notify(get(first)).unwrap();
    conn.notify(get(second)).unwrap();
    conn.notify(post(third)).unwrap();
    let err =
        feed(&mut conn, &frame(7, 0, 0, &[0, 0, 0, 3, 0, 0, 0, 0, 98, 121, 101])).unwrap_err();
    match err {
        Error::Http(HttpError::PeerConnectionError(err)) => {
            assert_eq!(err.error_code, Http2ErrorCode::NoError);
            assert_eq!(err.debug_data, Some(b"bye".to_vec()));
        }
        _ => unreachable!(),
    }
    let maybe = "Request failed because Received a GOAWAY, stream maybe processed; code: NoError";
    assert_eq!(first_notes.take(), vec![maybe]);
    assert_eq!(second_notes.take(), vec![maybe]);
    assert_eq!(
        third_notes.take(),
        vec!["Request failed because Received a GOAWAY, stream unprocessed; code: NoError"],
    );
    // The third stream is gone, the others are not.
    assert!(!conn.protocol().wants_write());
    let mut http2 = Http2::new();
    let mut out = Ref::new();
    let (handler, notes) = recorder(vec![]);
    http2.notify(get(handler), &mut out).unwrap();
    let mut bytes = settings();
    bytes.extend(frame(7, 0, 0, &[0, 0, 0, 0, 0, 0, 0, 0]));
    assert!(http2.on_data(&bytes, &mut out).is_err());
    assert_eq!(notes.take().len(), 1);
    assert_eq!(http2.on_data(&frame(0, 1, 1, &[1]), &mut out).unwrap(), 10);
    assert_eq!(notes.take().len(), 0);
}

#[test]
fn chunks_of_a_body() {
    let mut conn = open_connection();
    let (handler, notes) =
        recorder(vec![StreamDataState::read(3), StreamDataState::read(0), StreamDataState::done(2)]);
    conn.notify(post(handler)).unwrap();
    let sent = drain(&mut conn);
    assert!(sent.ends_with(&frame(0, 0, 1, &[0, 1, 2])));
    assert_eq!(drain(&mut conn), vec![]);
    assert!(conn.protocol().wants_write());
    assert_eq!(drain(&mut conn), frame(0, 1, 1, &[0, 1]));
    assert!(!conn.protocol().wants_write());
    assert_eq!(notes.take(), vec!["asked for 8192"; 3]);
}

#[test]
fn full_chunks() {
    let mut conn = open_connection();
    let (handler, _notes) = recorder(vec![StreamDataState::done(8192)]);
    conn.notify(post(handler)).unwrap();
    let sent = drain(&mut conn);
    let payload: Vec<u8> = (0..8192).map(|i| i as u8).collect();
    assert!(sent.ends_with(&frame(0, 1, 1, &payload)));
}

#[test]
fn empty_bodies() {
    let mut conn = open_connection();
    let (handler, _notes) = recorder(vec![StreamDataState::done(0)]);
    conn.notify(post(handler)).unwrap();
    let sent = drain(&mut conn);
    assert_eq!(sent[3], 1);
    assert_eq!(sent.len(), 9 + sent[2] as usize);
    assert!(!conn.protocol().wants_write());
}

#[test]
fn unavailable_data() {
    let mut http2 = Http2::new();
    let mut out = Ref::new();
    let (first, first_notes) = recorder(vec![]);
    let (second, second_notes) = recorder(vec![]);
    http2.notify(post(first), &mut out).unwrap();
    http2.notify(post(second), &mut out).unwrap();
    assert_eq!(http2.ready_write(&mut out).unwrap(), SendStatus::Nothing);
    assert_eq!(first_notes.take().len(), 1);
    assert_eq!(second_notes.take().len(), 1);
    assert!(http2.wants_write());
}

#[test]
fn failing_handlers() {
    let mut http2 = Http2::new();
    let mut out = Ref::new();
    let (handler, notes) = recorder(vec![StreamDataState::error()]);
    http2.notify(post(handler), &mut out).unwrap();
    assert_eq!(http2.send_next_data(&mut out).unwrap(), SendStatus::Nothing);
    let user = "Request failed because an error was returned from a stream handler call";
    assert_eq!(notes.take(), vec!["asked for 8192", user]);
    assert!(!http2.wants_write());
    // What arrives for the stream afterwards is dropped.
    let mut bytes = settings();
    bytes.extend(frame(0, 1, 1, &[1]));
    assert_eq!(http2.on_data(&bytes, &mut out).unwrap(), 19);
    assert_eq!(notes.take(), Vec::<String>::new());
}

#[test]
fn answers_given_by_hand() {
    let mut conn = open_connection();
    let (handler, notes) = recorder(vec![StreamDataState::done(1)]);
    conn.notify(post(handler)).unwrap();
    drain(&mut conn);
    drop(notes);

    let mut http2: Http2<Recorder> = Http2::new();
    let mut out = Ref::new();
    let answer = |state| Some(hydra::client::StreamResult { id: 5, state });
    assert_eq!(http2.send_answer(None, &[], &mut out).unwrap(), SendStatus::Nothing);
    assert_eq!(
        http2.send_answer(answer(StreamDataState::read(2)), &[8, 9, 10], &mut out).unwrap(),
        SendStatus::Sent,
    );
    assert_eq!(
        http2.send_answer(answer(StreamDataState::error()), &[], &mut out).unwrap(),
        SendStatus::Nothing,
    );
    let chunk = BufferPrioritizer::new(5, &[8, 9], true).get_next_chunk();
    assert_eq!((chunk.data, chunk.stream_id, chunk.end_stream), (&[8, 9][..], 5, true));
}

#[test]
fn writes_in_portions() {
    let mut conn: Connection<Recorder> = Connection::new(0);
    conn.queue_frame(vec![1, 2, 3]);
    conn.queue_frame(vec![]);
    conn.queue_frame(vec![4, 5]);
    assert_eq!(conn.unwritten(), &[1, 2, 3]);
    assert_eq!(conn.write_backlog(StreamStatus::Bytes(2)), WriteStatus::Partial(2));
    assert_eq!(conn.unwritten(), &[3]);
    assert_eq!(conn.write_backlog(StreamStatus::Bytes(1)), WriteStatus::Full);
    assert_eq!(conn.unwritten(), &[]);
    assert_eq!(conn.write_backlog(StreamStatus::Bytes(0)), WriteStatus::Full);
    assert_eq!(conn.unwritten(), &[4, 5]);
    assert_eq!(conn.write_backlog(StreamStatus::WouldBlock), WriteStatus::WouldBlock);
    assert_eq!(conn.unwritten(), &[4, 5]);
    assert_eq!(drain(&mut conn), vec![4, 5]);
}

#[test]
fn frames_written_in_full() {
    let mut conn: Connection<Recorder> = Connection::new(0);
    conn.queue_frame(b"abc".to_vec());
    let writable = EventSet { readable: false, writable: true };
    assert_eq!(conn.ready(writable, Phase::Reading).unwrap(), (Action::Write, Phase::Flushing));
    assert_eq!(conn.write_backlog(StreamStatus::Bytes(3)), WriteStatus::Full);
    // The frame is done with, and nothing says that the transport would block.
    assert_eq!(conn.interest(), EventSet { readable: true, writable: false });
    conn.queue_frame(b"de".to_vec());
    assert_eq!(conn.ready(writable, Phase::Flushing).unwrap(), (Action::Write, Phase::Flushing));
    assert_eq!(conn.unwritten(), b"de");
}

#[test]
fn outcomes_of_the_transport() {
    assert_eq!(StreamStatus::of_read(Some(0)), StreamStatus::End);
    assert_eq!(StreamStatus::of_read(Some(5)), StreamStatus::Bytes(5));
    assert_eq!(StreamStatus::of_read(None), StreamStatus::WouldBlock);
    assert_eq!(StreamStatus::of_write(Some(0)), StreamStatus::Bytes(0));
    assert_eq!(StreamStatus::of_write(None), StreamStatus::WouldBlock);
}

#[test]
fn blocked_writes() {
    let mut conn: Connection<Recorder> = Connection::new(0);
    conn.queue_frame(vec![1]);
    let writable = EventSet { readable: false, writable: true };
    assert_eq!(conn.ready(writable, Phase::Reading).unwrap(), (Action::Write, Phase::Flushing));
    conn.write_backlog(StreamStatus::WantWrite);
    assert_eq!(
        conn.ready(writable, Phase::Flushing).unwrap(),
        (
            Action::Reregister(EventSet { readable: true, writable: true }),
            Phase::Registering,
        ),
    );
    // Without word that the transport is writable nothing is tried.
    let readable = EventSet { readable: true, writable: false };
    assert_eq!(conn.ready(readable, Phase::Reading).unwrap(), (Action::Read, Phase::Waking));
    conn.read(StreamStatus::WouldBlock, &[]).unwrap();
    match conn.ready(readable, Phase::Waking).unwrap() {
        (Action::Reregister(events), _) => assert!(events.readable && events.writable),
        _ => unreachable!(),
    }
}

#[test]
fn protocol_is_asked_after_flushing() {
    let mut conn = open_connection();
    let (handler, notes) = recorder(vec![StreamDataState::read(1), StreamDataState::done(1)]);
    conn.notify(post(handler)).unwrap();
    let writable = EventSet { readable: false, writable: true };
    let mut phase = Phase::Reading;
    let mut phases = Vec::new();
    loop {
        let (action, next) = conn.ready(writable, phase).unwrap();
        phases.push(next);
        match action {
            Action::Write => {
                let n = conn.unwritten().len();
                conn.write_backlog(StreamStatus::Bytes(n));
            }
            Action::Reregister(events) => {
                // There is more to come.
                assert!(events.writable);
                break;
            }
            Action::Read => unreachable!(),
        }
        phase = next;
    }
    assert_eq!(
        phases,
        vec![Phase::Flushing, Phase::Draining, Phase::Registering],
    );
    assert_eq!(notes.take().len(), 1);
}

#[test]
fn events_of_a_ref() {
    let mut out = Ref::new();
    out.connection_ready();
    out.on_pong();
    out.write_frame(vec![1]);
    assert_eq!(
        format!("{:?}", out),
        "Ref { backlog: [PendingFrame { bytes: [1], position: 0 }], events: [Connected, Pong] }",
    );
}

#[test]
fn sessions() {
    let mut session: Session<Recorder> = Session::new();
    let (first, notes) = recorder(vec![]);
    let (second, _notes) = recorder(vec![]);
    assert_eq!(session.insert_outgoing(Stream::new(first)), 1);
    let mut stream = Stream::new(second);
    stream.set_state(StreamState::HalfClosedLocal);
    assert_eq!(session.insert_outgoing(stream), 3);
    let mut ids = session.ids();
    ids.sort();
    assert_eq!(ids, vec![1, 3]);
    assert!(session.remove_stream(5).is_none());
    let stream = session.remove_stream(3).unwrap();
    assert_eq!(stream.state(), StreamState::HalfClosedLocal);
    assert!(stream.is_closed_local());
    let mut stream = session.remove_stream(1).unwrap();
    assert_eq!(stream.state(), StreamState::Open);
    assert!(!stream.is_closed_local());
    stream.close();
    assert!(stream.is_closed_local());
    assert_eq!(notes.take(), vec!["closed"]);
    for state in [
        StreamState::Idle,
        StreamState::ReservedLocal,
        StreamState::ReservedRemote,
        StreamState::Open,
        StreamState::HalfClosedRemote,
        StreamState::HalfClosedLocal,
        StreamState::Closed,
    ] {
        stream.state = state;
        session.insert_stream(1, stream);
        stream = session.remove_stream(1).unwrap();
        assert_eq!(stream.state(), state);
    }
    assert_eq!(session.ids(), vec![]);
    assert_eq!(session.next_stream_id(), 5);
}

fn config(conns: usize) -> Config {
    let mut config = Config::default();
    config.conns_per_thread = conns;
    config
}

#[test]
fn default_config() {
    let config = Config::default();
    assert_eq!(config.connect_timeout_ms, 60_000);
    assert_eq!(config.conns_per_thread, 1_024);
    assert_eq!(config.threads, 8);
}

fn ask(worker: &mut Worker) -> Result<usize, Error> {
    match worker.notify::<Recorder>(hydra::worker::Msg::CreatePlaintextConnection) {
        Task::Connect(token, events) => {
            assert_eq!(events, EventSet { readable: true, writable: true });
            Ok(token)
        }
        Task::Refuse(err) => Err(err),
        _ => unreachable!(),
    }
}

#[test]
fn full_workers() {
    assert_eq!(Info::new().active_connections(), 0);
    let mut worker = Worker::new(&config(2));
    assert_eq!(worker.connect_timeout(), 60_000);
    let first = ask(&mut worker).unwrap();
    let second = ask(&mut worker).unwrap();
    assert_ne!(first, second);
    assert_eq!(worker.info().active_connections(), 2);
    match ask(&mut worker) {
        Err(err) => assert_eq!(err.message(), "Worker at connection capacity"),
        Ok(_) => unreachable!(),
    }
    // A timeout makes room.
    match worker.timeout::<Recorder>(Timeout::Connect(first)) {
        Task::Drop(token, Error::Timeout) => assert_eq!(token, first),
        _ => unreachable!(),
    }
    assert!(!worker.has_connection(first));
    assert!(worker.has_connection(second));
    assert!(!worker.has_connection(77));
    assert_eq!(worker.info().active_connections(), 1);
    match worker.timeout::<Recorder>(Timeout::Connect(first)) {
        Task::Nothing => {}
        _ => unreachable!(),
    }
    assert_eq!(ask(&mut worker).unwrap(), first);
}

#[test]
fn closing_workers() {
    let mut worker = Worker::new(&config(4));
    let token = ask(&mut worker).unwrap();
    match worker.notify::<Recorder>(hydra::worker::Msg::Protocol(token, Msg::Ping)) {
        Task::Deliver(to, Msg::Ping) => assert_eq!(to, token),
        _ => unreachable!(),
    }
    match worker.notify::<Recorder>(hydra::worker::Msg::Terminate) {
        Task::Shutdown => {}
        _ => unreachable!(),
    }
    match worker.notify::<Recorder>(hydra::worker::Msg::Terminate) {
        Task::Nothing => {}
        _ => unreachable!(),
    }
    match ask(&mut worker) {
        Err(err) => assert_eq!(err.description(), "worker isn't accepting new connections"),
        Ok(_) => unreachable!(),
    }
    let mut worker = Worker::new(&config(4));
    worker.finish();
    assert!(ask(&mut worker).is_err());
}

fn is_shutdown(task: Task<Recorder>) -> bool {
    match task {
        Task::Shutdown => true,
        Task::Nothing => false,
        _ => unreachable!(),
    }
}

#[test]
fn workers_finish_their_streams() {
    let mut worker = Worker::new(&config(4));
    let first = ask(&mut worker).unwrap();
    let second = ask(&mut worker).unwrap();
    let (handler, notes) = recorder(vec![]);
    match worker.notify(hydra::worker::Msg::Protocol(first, get(handler))) {
        Task::Deliver(to, Msg::CreateStream(..)) => assert_eq!(to, first),
        _ => unreachable!(),
    }
    worker.activity(first, true);
    worker.activity(second, true);
    assert!(!is_shutdown(worker.settle()));
    assert!(!is_shutdown(worker.notify(hydra::worker::Msg::Terminate)));
    // No stream is made any more, but the others go on.
    assert_eq!(notes.take(), Vec::<String>::new());
    let (handler, notes) = recorder(vec![]);
    match worker.notify(hydra::worker::Msg::Protocol(first, get(handler))) {
        Task::RefuseStream(_) => {}
        _ => unreachable!(),
    }
    assert_eq!(notes.take(), vec!["Request failed because connection encountered an error"]);
    match worker.notify::<Recorder>(hydra::worker::Msg::Protocol(first, Msg::Ping)) {
        Task::Deliver(to, Msg::Ping) => assert_eq!(to, first),
        _ => unreachable!(),
    }
    worker.activity(first, false);
    assert!(!is_shutdown(worker.settle()));
    // A connection that is given up has no active streams.
    match worker.close::<Recorder>(second, Error::Io(cause("gone"))) {
        Task::Drop(token, Error::Io(cause)) => {
            assert_eq!((token, cause.message.as_str()), (second, "gone"));
        }
        _ => unreachable!(),
    }
    assert_eq!(worker.info().active_connections(), 1);
    assert!(is_shutdown(worker.settle()));
    assert!(!is_shutdown(worker.close(second, Error::Timeout)));
}

#[test]
fn workers_in_turn() {
    let mut config = Config::default();
    config.threads = 3;
    let (count, hydra) = Hydra::new(&config, 0, |count: i32, _| (count + 1, Ok(count + 1)));
    assert_eq!(count, 3);
    let mut hydra = hydra.unwrap();
    let mut turns = Vec::new();
    for _ in 0..7 {
        let (seen, result) = hydra.connect(
            &vec![()],
            turns,
            |turns, _| (turns, Ok(())),
            |mut turns: Vec<i32>, worker: &i32, ()| {
                turns.push(*worker);
                (turns, Ok(()))
            },
        );
        result.unwrap();
        turns = seen;
    }
    assert_eq!(turns, vec![1, 2, 3, 1, 2, 3, 1]);
}

/// Without a worker, the addresses are tried all the same.
#[test]
fn pools_without_workers() {
    let mut config = Config::default();
    config.threads = 0;
    let (count, hydra) = Hydra::<()>::new(&config, 0, |count: i32, _| (count + 1, Ok(())));
    assert_eq!(count, 0);
    let (tried, result) = hydra.unwrap().connect(
        &vec!["a", "b"],
        0,
        |tried: i32, addr| -> (i32, Result<(), Cause>) { (tried + 1, Err(cause(addr))) },
        |_, _, ()| unreachable!(),
    );
    assert_eq!(tried, 2);
    match result.unwrap_err() {
        HydraError::Io(cause) => assert_eq!(cause.message, "b"),
        HydraError::Worker(_) => unreachable!(),
    }
}

/// What handing over a transport comes to is the outcome, and the worker has had its turn.
#[test]
fn workers_that_refuse() {
    let (_, hydra) = Hydra::new(&Config::default(), 0, |count: i32, _| (count + 1, Ok(count)));
    let mut hydra = hydra.unwrap();
    let mut hand = |answer: bool| {
        hydra.connect(
            &vec![()],
            -1,
            |seen, _| (seen, Ok(())),
            |_, worker: &i32, ()| {
                let refused = Err(HydraError::from(WorkerError(cause("full"))));
                (*worker, if answer { Ok(()) } else { refused })
            },
        )
    };
    match hand(false) {
        (0, Err(HydraError::Worker(WorkerError(cause)))) => assert_eq!(cause.message, "full"),
        _ => unreachable!(),
    }
    match hand(true) {
        (1, Ok(())) => {}
        _ => unreachable!(),
    }
}

fn cause(text: &str) -> Cause {
    Cause {
        kind: None,
        description: format!("{}!", text),
        message: text.to_string(),
        cause: None,
    }
}

#[test]
fn pools_that_do_not_start() {
    let (count, result) = Hydra::<()>::new(&Config::default(), 0, |count: i32, _| {
        if count == 2 {
            (3, Err(HydraError::from(WorkerError(cause("no thread")))))
        } else {
            (count + 1, Ok(()))
        }
    });
    let err = result.err().unwrap();
    assert_eq!(count, 3);
    assert_eq!(err.description(), "no thread!");
    assert_eq!(err.message(), "Hydra worker encountered error: no thread");
    assert_eq!(err.cause().unwrap().message, "no thread");
    let err = HydraError::Io(cause("no memory"));
    assert_eq!(err.description(), "encountered an I/O error");
}

#[test]
fn addresses_in_order() {
    let (tried, result) = each_addr(
        &vec![1, 2, 3, 4],
        Vec::new(),
        |mut tried, addr: &i32| {
            tried.push(*addr);
            if *addr == 3 {
                (tried, Ok("three"))
            } else {
                (tried, Err(*addr))
            }
        },
        0,
    );
    assert_eq!(result, Ok("three"));
    assert_eq!(tried, vec![1, 2, 3]);
    let fail = |calls: i32, addr: &i32| -> (i32, Result<(), i32>) { (calls + 1, Err(*addr)) };
    assert_eq!(each_addr(&vec![1, 2], 0, fail, 7), (2, Err(2)));
    assert_eq!(each_addr(&vec![], 0, fail, 7), (0, Err(7)));
    let cause = unresolved();
    assert_eq!(cause.kind, Some(ErrorKind::InvalidInput));
    assert_eq!(cause.message, "could not resolve to any addresses");
    assert!(cause.cause.is_none());
}

#[test]
fn connection_errors() {
    let http = || HttpError::InvalidFrame;
    let cases = [
        (Error::Io(cause("x")), "x!", "I/O error on connection: x"),
        (
            Error::Http(http()),
            "Encountered an invalid HTTP/2 frame",
            "HTTP/2 error on connection: HTTP/2 Error: Encountered an invalid HTTP/2 frame",
        ),
        (Error::Timeout, "timeout when attempting to connect", "Timeout during connect"),
        (
            Error::WorkerClosing,
            "worker isn't accepting new connections",
            "Worker not accepting new connections",
        ),
        (
            Error::WorkerFull,
            "worker cannot manage more connections",
            "Worker at connection capacity",
        ),
        (Error::Stream(cause("y")), "y!", "y"),
    ];
    for (err, description, message) in &cases {
        assert_eq!(err.description(), *description);
        assert_eq!(err.message(), *message);
    }
    match cases[0].0.cause() {
        Some(Source::Cause(inner)) => assert_eq!(inner.message, "x"),
        _ => unreachable!(),
    }
    match cases[1].0.cause() {
        Some(Source::Http(HttpError::InvalidFrame)) => {}
        _ => unreachable!(),
    }
    assert!(cases[2].0.cause().is_none());
    assert!(cases[5].0.cause().is_none());
    let mut outer = cause("outer");
    outer.cause = Some(Box::new(cause("inner")));
    match Error::Stream(outer).cause() {
        Some(Source::Cause(inner)) => assert_eq!(inner.message, "inner"),
        _ => unreachable!(),
    }

    let cases = [
        (ConnectionError::Io(cause("x")), "x!", "I/O error on connection: x"),
        (
            ConnectionError::from(http()),
            "Encountered an invalid HTTP/2 frame",
            "HTTP/2 error on connection: HTTP/2 Error: Encountered an invalid HTTP/2 frame",
        ),
        (ConnectionError::Timeout, "timeout when attempting to connect", "Timeout during connect"),
        (
            ConnectionError::WorkerClosing,
            "worker isn't accepting new connections",
            "Worker not accepting new connections",
        ),
        (
            ConnectionError::WorkerFull,
            "worker cannot manage more connections",
            "Worker at connection capacity",
        ),
    ];
    for (err, description, message) in &cases {
        assert_eq!(err.description(), *description);
        assert_eq!(err.message(), *message);
    }
    assert!(cases[0].0.cause().is_some() && cases[1].0.cause().is_some());
    assert!(cases[4].0.cause().is_none());
}

#[test]
fn request_errors() {
    let code = Http2ErrorCode::Cancel;
    let cases = [
        (
            RequestError::Reset(code),
            "stream reset by peer",
            "Request failed because stream was reset by peer: Cancel",
        ),
        (
            RequestError::Connection,
            "connection encountered error",
            "Request failed because connection encountered an error",
        ),
        (
            RequestError::User,
            "error during stream handler call",
            "Request failed because an error was returned from a stream handler call",
        ),
        (
            RequestError::GoAwayUnprocessed(code),
            "GOAWAY frame received; stream not processed",
            "Request failed because Received a GOAWAY, stream unprocessed; code: Cancel",
        ),
        (
            RequestError::GoAwayMaybeProcessed(code),
            "GOAWAY frame received; stream maybe processed",
            "Request failed because Received a GOAWAY, stream maybe processed; code: Cancel",
        ),
    ];
    for (err, description, message) in &cases {
        assert_eq!(err.description(), *description);
        assert_eq!(err.message(), *message);
    }
}

#[test]
fn methods() {
    let names = [
        (Method::Options, "OPTIONS"),
        (Method::Get, "GET"),
        (Method::Post, "POST"),
        (Method::Put, "PUT"),
        (Method::Delete, "DELETE"),
        (Method::Head, "HEAD"),
        (Method::Trace, "TRACE"),
        (Method::Connect, "CONNECT"),
        (Method::Patch, "PATCH"),
        (Method::Extension("X".to_string()), "X"),
    ];
    for (method, name) in &names {
        assert_eq!(method.as_str(), *name);
    }
    let request = Request::new(Method::Get, "/p", Headers::new());
    assert_eq!((request.path.as_str(), request.headers_only), ("/p", false));
    assert_eq!(StatusCode(200), StatusCode(200));
    assert_eq!(HttpScheme::Https.as_str(), "https");
}
