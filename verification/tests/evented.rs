//! Whole conversations, with a server on the other end of every connection
use hydra::connection::{self, Action, Connection, ConnectionEvent, EventSet, Phase, StreamStatus};
use hydra::header::Headers;
use hydra::protocol::{self, StreamDataState};
use hydra::request::{self, Method, Request, Response};
use hydra::worker::{self, Task, Worker};
use hydra::{Cause, Config, ErrorKind, Hydra, HydraError, StatusCode};
use std::cell::RefCell;
use std::collections::HashMap;
use std::sync::mpsc;

/// A server in memory: it answers requests and keeps what it has been sent.
struct Server {
    received: Vec<u8>,
    outgoing: Vec<u8>,
    preface_seen: bool,
    decoder: hpack::Decoder<'static>,
    encoder: hpack::Encoder<'static>,
    bodies: HashMap<u32, Vec<u8>>,
    requests: Vec<Vec<(Vec<u8>, Vec<u8>)>>,
    resets: Vec<(u32, Vec<u8>)>,
}

fn frame(kind: u8, flags: u8, id: u32, payload: &[u8]) -> Vec<u8> {
    let len = payload.len();
    let mut bytes = vec![(len >> 16) as u8, (len >> 8) as u8, len as u8, kind, flags];
    bytes.extend_from_slice(&id.to_be_bytes());
    bytes.extend_from_slice(payload);
    bytes
}

impl Server {
    fn new() -> Server {
        Server {
            received: Vec::new(),
            outgoing: Vec::new(),
            preface_seen: false,
            decoder: hpack::Decoder::new(),
            encoder: hpack::Encoder::new(),
            bodies: HashMap::new(),
            requests: Vec::new(),
            resets: Vec::new(),
        }
    }

    /// Takes at most seven octets at a time.
    fn write(&mut self, bytes: &[u8]) -> StreamStatus {
        let n = bytes.len().min(7);
        self.received.extend_from_slice(&bytes[..n]);
        StreamStatus::Bytes(n)
    }

    /// Hands out at most eleven octets at a time.
    fn read(&mut self, buf: &mut [u8]) -> StreamStatus {
        if self.outgoing.is_empty() {
            return StreamStatus::WouldBlock;
        }
        let n = self.outgoing.len().min(11);
        let rest = self.outgoing.split_off(n);
        buf[..n].copy_from_slice(&self.outgoing);
        self.outgoing = rest;
        StreamStatus::Bytes(n)
    }

    fn serve(&mut self) {
        let preface = b"PRI * HTTP/2.0\r\n\r\nSM\r\n\r\n";
        if !self.preface_seen {
            if self.received.len() < preface.len() {
                return;
            }
            assert_eq!(&self.received[..preface.len()], &preface[..]);
            self.received.drain(..preface.len());
            self.preface_seen = true;
            self.outgoing.extend(frame(4, 0, 0, &[0, 3, 0, 0, 0, 100]));
        }
        while self.received.len() >= 9 {
            let len = ((self.received[0] as usize) << 16) | ((self.received[1] as usize) << 8)
                | self.received[2] as usize;
            if self.received.len() < 9 + len {
                return;
            }
            let bytes: Vec<u8> = self.received.drain(..9 + len).collect();
            let id = u32::from_be_bytes([bytes[5], bytes[6], bytes[7], bytes[8]]);
            self.serve_frame(bytes[3], bytes[4], id, &bytes[9..]);
        }
    }

    fn serve_frame(&mut self, kind: u8, flags: u8, id: u32, payload: &[u8]) {
        match kind {
            0 => {
                self.bodies.get_mut(&id).expect("open stream").extend_from_slice(payload);
                if flags & 1 == 1 {
                    self.respond(id);
                }
            }
            1 => {
                assert_eq!(flags & 4, 4);
                let headers = self.decoder.decode(payload).expect("headers");
                self.requests.push(headers);
                self.bodies.insert(id, Vec::new());
                if flags & 1 == 1 {
                    self.respond(id);
                }
            }
            3 => self.resets.push((id, payload.to_vec())),
            4 => assert_eq!(id, 0),
            _ => unreachable!(),
        }
    }

    fn respond(&mut self, id: u32) {
        let body = self.bodies.remove(&id).expect("request");
        let headers = vec![
            (b":status".to_vec(), b"200".to_vec()),
            (b"server".to_vec(), b"h2o/1.7.0".to_vec()),
        ];
        let block = self.encoder.encode(&headers);
        self.outgoing.extend(frame(1, 4, id, &block));
        self.outgoing.extend(frame(0, 1, id, &body));
    }
}

/// A connection of the event loop
struct Conn<H: request::Handler> {
    inner: Connection<H>,
    server: Server,
    registered: EventSet,
}

/// An event loop in memory, with its worker
struct Loop<H: request::Handler> {
    number: usize,
    worker: Worker,
    conns: HashMap<usize, Conn<H>>,
    established: Vec<usize>,
    refused: Vec<connection::Error>,
}

impl<H: request::Handler> Loop<H> {
    fn new(number: usize, config: &Config) -> Loop<H> {
        Loop {
            number,
            worker: Worker::new(config),
            conns: HashMap::new(),
            established: Vec::new(),
            refused: Vec::new(),
        }
    }

    fn connect(&mut self, server: Server) {
        match self.worker.notify::<H>(worker::Msg::CreatePlaintextConnection) {
            Task::Connect(token, events) => {
                let mut inner = Connection::new(token);
                inner.initialize();
                self.conns.insert(token, Conn { inner, server, registered: events });
            }
            Task::Refuse(err) => self.refused.push(err),
            _ => unreachable!(),
        }
    }

    fn send(&mut self, token: usize, msg: protocol::Msg<H>) {
        assert!(self.worker.has_connection(token));
        match self.worker.notify(worker::Msg::Protocol(token, msg)) {
            Task::Deliver(token, msg) => {
                let conn = self.conns.get_mut(&token).unwrap();
                conn.inner.notify(msg).unwrap();
                conn.registered = conn.inner.interest();
            }
            _ => unreachable!(),
        }
    }

    /// Lets every connection do what it waits for, once.
    fn turn(&mut self) {
        for (token, conn) in self.conns.iter_mut() {
            let events = EventSet {
                readable: !conn.server.outgoing.is_empty(),
                writable: conn.registered.writable,
            };
            let mut phase = Phase::Reading;
            loop {
                let (action, next) = conn.inner.ready(events, phase).unwrap();
                match action {
                    Action::Read => {
                        let mut buf = [0; 4096];
                        let status = conn.server.read(&mut buf);
                        conn.inner.read(status, &buf).unwrap();
                    }
                    Action::Write => {
                        let status = conn.server.write(conn.inner.unwritten());
                        conn.inner.write_backlog(status);
                    }
                    Action::Reregister(events) => {
                        conn.registered = events;
                        break;
                    }
                }
                phase = next;
            }
            for event in conn.inner.take_events() {
                assert_eq!(event, ConnectionEvent::Connected);
                self.established.push(*token);
            }
            conn.server.serve();
        }
    }

    fn is_idle(&self) -> bool {
        self.conns.values().all(|c| !c.registered.writable && c.server.outgoing.is_empty())
    }

    fn run(&mut self) {
        for _ in 0..100_000 {
            self.turn();
            if self.is_idle() {
                return;
            }
        }
        panic!("the loop does not come to rest");
    }
}

fn pool<H: request::Handler>(threads: u8) -> Hydra<RefCell<Loop<H>>> {
    let mut config = Config::default();
    config.threads = threads;
    let spawn = |number: usize, config: &Config| {
        (number + 1, Ok(RefCell::new(Loop::new(number, config))))
    };
    match Hydra::new(&config, 0, spawn) {
        (started, Ok(hydra)) => {
            assert_eq!(started, threads as usize);
            hydra
        }
        (_, Err(err)) => panic!("{}", err.message()),
    }
}

fn connect<H: request::Handler>(hydra: &mut Hydra<RefCell<Loop<H>>>, loops: &mut Vec<usize>) {
    let (seen, result) = hydra.connect(
        &vec!["http2bin.org:80"],
        Vec::new(),
        |seen, _| (seen, Ok(())),
        |mut seen, worker: &RefCell<Loop<H>>, ()| {
            worker.borrow_mut().connect(Server::new());
            seen.push(worker.borrow().number);
            (seen, Ok(()))
        },
    );
    result.unwrap();
    loops.extend(seen);
}

/// Does something with the worker that is next.
fn with_worker<H: request::Handler, F: Fn(&mut Loop<H>)>(
    hydra: &mut Hydra<RefCell<Loop<H>>>,
    f: F,
) {
    let (_, result) = hydra.connect(
        &vec![()],
        (),
        |(), _| ((), Ok(())),
        |(), worker: &RefCell<Loop<H>>, ()| ((), Ok(f(&mut worker.borrow_mut()))),
    );
    result.unwrap();
}

#[derive(Debug)]
enum StreamMsg {
    Error(request::Error),
    Response(Response, Vec<u8>),
}

fn check_responses(rx: &mpsc::Receiver<StreamMsg>, expected: usize, body: &str, server: Option<&str>) {
    let messages: Vec<StreamMsg> = rx.try_iter().collect();
    assert_eq!(messages.len(), expected);
    for message in messages {
        match message {
            StreamMsg::Error(err) => panic!("got error response: {}", err.message()),
            StreamMsg::Response(response, bytes) => {
                assert_eq!(response.status, StatusCode(200));
                assert!(std::str::from_utf8(&bytes).unwrap().contains(body));
                if let Some(name) = server {
                    let raw = response.headers.get_raw("Server").unwrap();
                    assert!(std::str::from_utf8(&raw[0]).unwrap().contains(name));
                }
            }
        }
    }
}

#[derive(Debug)]
struct HeadersOnlyHandler {
    tx: mpsc::Sender<StreamMsg>,
    body: Vec<u8>,
    response: Option<Response>,
}

impl HeadersOnlyHandler {
    fn new(tx: mpsc::Sender<StreamMsg>) -> HeadersOnlyHandler {
        HeadersOnlyHandler { tx, body: Vec::new(), response: None }
    }
}

impl request::Handler for HeadersOnlyHandler {
    fn on_error(&mut self, err: request::Error) {
        self.tx.send(StreamMsg::Error(err)).unwrap();
    }

    fn on_response_data(&mut self, bytes: &[u8]) {
        self.body.extend_from_slice(bytes);
    }

    fn stream_data(&mut self, _buf: &mut [u8]) -> StreamDataState {
        panic!("a request without a body was asked for one");
    }

    fn on_response(&mut self, res: Response) {
        self.response = Some(res);
    }

    fn on_close(&mut self) {
        let body = std::mem::take(&mut self.body);
        let response = self.response.take().unwrap();
        self.tx.send(StreamMsg::Response(response, body)).unwrap();
    }
}

#[derive(Debug)]
struct BodyWriter {
    tx: mpsc::Sender<StreamMsg>,
    outgoing: Vec<u8>,
    position: usize,
    body: Vec<u8>,
    response: Option<Response>,
}

impl BodyWriter {
    fn new(tx: mpsc::Sender<StreamMsg>, outgoing: Vec<u8>) -> BodyWriter {
        BodyWriter { tx, outgoing, position: 0, body: Vec::new(), response: None }
    }
}

impl request::Handler for BodyWriter {
    fn on_error(&mut self, err: request::Error) {
        self.tx.send(StreamMsg::Error(err)).unwrap();
    }

    fn on_response_data(&mut self, bytes: &[u8]) {
        self.body.extend_from_slice(bytes);
    }

    fn stream_data(&mut self, buf: &mut [u8]) -> StreamDataState {
        let n = (self.outgoing.len() - self.position).min(buf.len());
        buf[..n].copy_from_slice(&self.outgoing[self.position..self.position + n]);
        self.position += n;
        if self.position == self.outgoing.len() {
            StreamDataState::done(n)
        } else {
            StreamDataState::read(n)
        }
    }

    fn on_response(&mut self, res: Response) {
        self.response = Some(res);
    }

    fn on_close(&mut self) {
        let body = std::mem::take(&mut self.body);
        let response = self.response.take().unwrap();
        self.tx.send(StreamMsg::Response(response, body)).unwrap();
    }
}

#[derive(Debug)]
struct HandlerStreamError {
    tx: mpsc::Sender<StreamMsg>,
    generated_error: bool,
}

impl request::Handler for HandlerStreamError {
    fn on_error(&mut self, err: request::Error) {
        self.tx.send(StreamMsg::Error(err)).unwrap();
    }

    fn on_response_data(&mut self, _bytes: &[u8]) {
        unreachable!();
    }

    fn stream_data(&mut self, _buf: &mut [u8]) -> StreamDataState {
        assert!(!self.generated_error);
        self.generated_error = true;
        StreamDataState::error()
    }

    fn on_response(&mut self, _res: Response) {
        unreachable!();
    }

    fn on_close(&mut self) {
        unreachable!();
    }
}

/// Test that several GET requests can run in parallel on a single thread.
#[test]
fn three_get_streams_one_worker() {
    let mut cluster = pool(1);
    let mut loops = Vec::new();
    connect(&mut cluster, &mut loops);
    let (tx, rx) = mpsc::channel();

    with_worker(&mut cluster, |event_loop| {
        event_loop.run();
        assert_eq!(event_loop.established, vec![0]);
        for _ in 0..3 {
            let req = Request::new_headers_only(Method::Get, "/get", Headers::new());
            let handler = HeadersOnlyHandler::new(tx.clone());
            event_loop.send(0, protocol::Msg::CreateStream(req, handler));
        }
        event_loop.run();

        let server = &event_loop.conns[&0].server;
        assert_eq!(server.requests.len(), 3);
        for headers in &server.requests {
            assert_eq!(
                headers,
                &vec![
                    (b":method".to_vec(), b"GET".to_vec()),
                    (b":path".to_vec(), b"/get".to_vec()),
                    (b":authority".to_vec(), b"http2bin.org".to_vec()),
                    (b":scheme".to_vec(), b"http".to_vec()),
                    (b"user-agent".to_vec(), b"hydra/0.0.1".to_vec()),
                ],
            );
        }
    });
    check_responses(&rx, 3, "", Some("h2o"));
}

/// Test that several GET request can run in parallel on separate threads
#[test]
fn three_workers_three_get_each() {
    let mut cluster = pool(3);
    let mut loops = Vec::new();
    connect(&mut cluster, &mut loops);
    connect(&mut cluster, &mut loops);
    connect(&mut cluster, &mut loops);
    // Each worker got one of the connections.
    assert_eq!(loops, vec![0, 1, 2]);
    let (tx, rx) = mpsc::channel();

    for _ in 0..3 {
        with_worker(&mut cluster, |event_loop| {
            event_loop.run();
            assert_eq!(event_loop.established, vec![0]);
            for _ in 0..3 {
                let req = Request::new_headers_only(Method::Get, "/get", Headers::new());
                let handler = HeadersOnlyHandler::new(tx.clone());
                event_loop.send(0, protocol::Msg::CreateStream(req, handler));
            }
            event_loop.run();
        });
        check_responses(&rx, 3, "", Some("h2o"));
    }
}

#[test]
fn make_some_post_requests() {
    let mut cluster = pool(1);
    let mut loops = Vec::new();
    connect(&mut cluster, &mut loops);
    let (tx, rx) = mpsc::channel();

    with_worker(&mut cluster, |event_loop| {
        event_loop.run();
        for _ in 0..3 {
            let req = Request::new(Method::Post, "/post", Headers::new());
            let handler = BodyWriter::new(tx.clone(), b"Hello, world!".to_vec());
            event_loop.send(0, protocol::Msg::CreateStream(req, handler));
        }
        event_loop.run();
    });
    check_responses(&rx, 3, "Hello, world!", None);
}

#[test]
fn concurrent_requests_greater_than_inflight_limit() {
    let mut cluster = pool(1);
    let mut loops = Vec::new();
    connect(&mut cluster, &mut loops);
    let (tx, rx) = mpsc::channel();

    with_worker(&mut cluster, |event_loop| {
        event_loop.run();
        // the server wants 100 in flight at most
        assert_eq!(event_loop.conns[&0].inner.protocol().max_concurrent_streams(), 100);
        for _ in 0..150 {
            let req = Request::new_headers_only(Method::Get, "/get", Headers::new());
            let handler = HeadersOnlyHandler::new(tx.clone());
            event_loop.send(0, protocol::Msg::CreateStream(req, handler));
        }
        event_loop.run();
        assert_eq!(event_loop.conns[&0].inner.protocol().next_stream_id(), 301);
    });
    // just checking here that responses are received for all of them.
    assert_eq!(rx.try_iter().count(), 150);
}

#[test]
fn error_during_data_stream() {
    let mut cluster = pool(1);
    let mut loops = Vec::new();
    connect(&mut cluster, &mut loops);
    let (tx, rx) = mpsc::channel();

    with_worker(&mut cluster, |event_loop| {
        event_loop.run();
        let req = Request::new(Method::Post, "/post", Headers::new());
        let handler = HandlerStreamError { tx: tx.clone(), generated_error: false };
        event_loop.send(0, protocol::Msg::CreateStream(req, handler));
        event_loop.run();
        // The peer hears of it too, as an internal error.
        assert_eq!(event_loop.conns[&0].server.resets, vec![(1, vec![0, 0, 0, 2])]);
    });
    let messages: Vec<StreamMsg> = rx.try_iter().collect();
    assert_eq!(messages.len(), 1);
    for message in messages {
        match message {
            StreamMsg::Error(err) => match err {
                request::Error::User => (),
                _ => panic!("unexpected stream error: {:?}", err),
            },
            _ => panic!("did not expect valid response: {:?}", message),
        }
    }
}

/// A body of several chunks arrives whole and in order.
#[test]
fn long_body() {
    let mut cluster = pool(1);
    let mut loops = Vec::new();
    connect(&mut cluster, &mut loops);
    let (tx, rx) = mpsc::channel();
    let body: Vec<u8> = (0..20_000u32).map(|i| b'a' + (i % 26) as u8).collect();

    with_worker(&mut cluster, |event_loop| {
        event_loop.run();
        let req = Request::new(Method::Put, "/put", Headers::new());
        let handler = BodyWriter::new(tx.clone(), body.clone());
        event_loop.send(0, protocol::Msg::CreateStream(req, handler));
        event_loop.run();
    });
    match rx.try_recv().unwrap() {
        StreamMsg::Response(_, bytes) => assert_eq!(bytes, body),
        StreamMsg::Error(err) => panic!("{}", err.message()),
    }
}

/// A host without addresses, and one on which no transport can be opened
#[test]
fn unreachable_hosts() {
    let mut cluster = pool::<HeadersOnlyHandler>(2);
    let none: Vec<u8> = Vec::new();
    let (_, result) = cluster.connect(
        &none,
        (),
        |(), _| unreachable!(),
        |(), _: &RefCell<Loop<HeadersOnlyHandler>>, ()| unreachable!(),
    );
    let err = result.unwrap_err();
    assert_eq!(
        err.message(),
        "Hydra encountered an I/O error: could not resolve to any addresses",
    );
    match err {
        HydraError::Io(cause) => assert_eq!(cause.kind, Some(ErrorKind::InvalidInput)),
        HydraError::Worker(_) => unreachable!(),
    }

    let cause = |text: &str| Cause {
        kind: Some(ErrorKind::ConnectionRefused),
        description: text.to_string(),
        message: text.to_string(),
        cause: None,
    };
    let (tried, result) = cluster.connect(
        &vec!["first", "second"],
        Vec::new(),
        |mut tried: Vec<String>, addr| -> (Vec<String>, Result<(), Cause>) {
            tried.push(addr.to_string());
            (tried, Err(cause(addr)))
        },
        |_, _: &RefCell<Loop<HeadersOnlyHandler>>, ()| unreachable!(),
    );
    assert_eq!(tried, vec!["first", "second"]);
    match result.unwrap_err() {
        HydraError::Io(cause) => {
            assert_eq!(cause.message, "second");
            assert_eq!(cause.kind, Some(ErrorKind::ConnectionRefused));
        }
        HydraError::Worker(_) => unreachable!(),
    }
}
