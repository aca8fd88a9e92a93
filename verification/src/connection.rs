//! Interactions with the I/O layer and the HTTP/2 state machine
use crate::http::HttpError;
use crate::protocol::{Http2, Msg, Protocol, SendStatus, State};
use crate::request::Handler;
use crate::Cause;
use vstd::prelude::*;
use vstd::slice::{slice_subrange, slice_to_vec};
use vstd::string::*;

verus! {

/// A frame on its way out, and how much of it has been written
#[derive(Debug)]
pub struct PendingFrame {
    bytes: Vec<u8>,
    position: usize,
}

/// A `PendingFrame` as contracts speak of it.
#[verifier::ext_equal]
pub struct PendingModel {
    pub bytes: Seq<u8>,
    pub position: nat,
}

impl View for PendingFrame {
    type V = PendingModel;

    closed spec fn view(&self) -> PendingModel {
        PendingModel { bytes: self.bytes@, position: self.position as nat }
    }
}

impl PendingModel {
    /// The octets that have not been written yet.
    pub open spec fn unwritten(self) -> Seq<u8> {
        self.bytes.subrange(self.position as int, self.bytes.len() as int)
    }
}

/// Whether no frame has been written beyond its end.
pub open spec fn within_bounds(backlog: Seq<PendingModel>) -> bool {
    forall|i: int|
        0 <= i < backlog.len() ==> (#[trigger] backlog[i]).position <= backlog[i].bytes.len()
}

/// The octets that have not been written yet, of all frames.
pub open spec fn unwritten_octets(backlog: Seq<PendingModel>) -> Seq<u8>
    decreases backlog.len(),
{
    if backlog.len() == 0 {
        Seq::empty()
    } else {
        backlog[0].unwritten() + unwritten_octets(backlog.drop_first())
    }
}

/// What the handler of the connection has to hear
#[derive(Clone, Copy, Debug, PartialEq, Eq, Structural)]
pub enum ConnectionEvent {
    /// The connection is established.
    Connected,
    /// A PING has been answered.
    Pong,
}

/// The part of a connection that its protocol can touch: the frames to send and the events to
/// report
#[derive(Debug)]
pub struct Ref {
    backlog: Vec<PendingFrame>,
    events: Vec<ConnectionEvent>,
}

/// A `Ref` as contracts speak of it.
#[verifier::ext_equal]
pub struct RefModel {
    /// The frames to send, first to last
    pub backlog: Seq<PendingModel>,
    /// The events to report, oldest first
    pub events: Seq<ConnectionEvent>,
}

impl View for Ref {
    type V = RefModel;

    closed spec fn view(&self) -> RefModel {
        RefModel {
            backlog: self.backlog@.map_values(|frame: PendingFrame| frame@),
            events: self.events@,
        }
    }
}

impl RefModel {
    /// After a frame was queued.
    pub open spec fn queued(self, frame: Seq<u8>) -> RefModel {
        RefModel {
            backlog: self.backlog.push(PendingModel { bytes: frame, position: 0 }),
            ..self
        }
    }

    /// After an event was noted.
    pub open spec fn reporting(self, event: ConnectionEvent) -> RefModel {
        RefModel { events: self.events.push(event), ..self }
    }
}

impl Ref {
    /// Nothing to send or report
    pub fn new() -> (out: Ref)
        ensures
            out@ == (RefModel { backlog: Seq::empty(), events: Seq::empty() }),
    {
        let out = Ref { backlog: Vec::new(), events: Vec::new() };
        assert(out@.backlog =~= Seq::empty());
        out
    }

    /// Adds a frame to those that wait to be sent.
    pub fn queue_frame(&mut self, frame: Vec<u8>)
        ensures
            final(self)@ == old(self)@.queued(frame@),
    {
        self.backlog.push(PendingFrame { bytes: frame, position: 0 });
        proof {
            assert(self@.backlog =~= old(self)@.queued(frame@).backlog);
        }
    }

    /// Sends a frame as soon as the connection is writable.
    pub fn write_frame(&mut self, frame: Vec<u8>)
        ensures
            final(self)@ == old(self)@.queued(frame@),
    {
        self.queue_frame(frame);
    }
}

/// Reports events to the handler of a connection
pub trait DispatchConnectionEvent {
    /// The events reported so far, oldest first.
    spec fn reported(&self) -> Seq<ConnectionEvent>;

    /// The connection is established.
    fn connection_ready(&mut self)
        ensures
            final(self).reported() == old(self).reported().push(ConnectionEvent::Connected),
    ;

    /// A PING has been answered.
    fn on_pong(&mut self)
        ensures
            final(self).reported() == old(self).reported().push(ConnectionEvent::Pong),
    ;
}

impl DispatchConnectionEvent for Ref {
    open spec fn reported(&self) -> Seq<ConnectionEvent> {
        self@.events
    }

    fn connection_ready(&mut self)
        ensures
            final(self)@ == old(self)@.reporting(ConnectionEvent::Connected),
    {
        self.events.push(ConnectionEvent::Connected);
    }

    fn on_pong(&mut self)
        ensures
            final(self)@ == old(self)@.reporting(ConnectionEvent::Pong),
    {
        self.events.push(ConnectionEvent::Pong);
    }
}

/// Outcome of an operation on the transport
#[derive(Clone, Copy, Debug, PartialEq, Eq, Structural)]
pub enum StreamStatus {
    /// So many bytes were read or written
    Bytes(usize),
    WantRead,
    WantWrite,
    WouldBlock,
    /// The peer closed the transport
    End,
}

impl StreamStatus {
    /// The outcome of a read of at least one byte, from the number of bytes that came, if any could
    /// be had without waiting
    pub fn of_read(count: Option<usize>) -> (status: StreamStatus)
        ensures
            status == match count {
                Some(0) => StreamStatus::End,
                Some(n) => StreamStatus::Bytes(n),
                None => StreamStatus::WouldBlock,
            },
    {
        match count {
            Some(0) => StreamStatus::End,
            Some(n) => StreamStatus::Bytes(n),
            None => StreamStatus::WouldBlock,
        }
    }

    /// The outcome of a write, from the number of bytes that were taken, if any could be without
    /// waiting
    pub fn of_write(count: Option<usize>) -> (status: StreamStatus)
        ensures
            status == match count {
                Some(n) => StreamStatus::Bytes(n),
                None => StreamStatus::WouldBlock,
            },
    {
        match count {
            Some(n) => StreamStatus::Bytes(n),
            None => StreamStatus::WouldBlock,
        }
    }
}

/// Status of last write
#[derive(Clone, Copy, Debug, PartialEq, Eq, Structural)]
pub enum WriteStatus {
    /// Wrote all the bytes
    Full,

    /// Wrote some of the bytes
    Partial(usize),

    /// Can't write, write would block
    WouldBlock,
}

/// Errors occurring in or when interacting with a connection
#[derive(Debug)]
pub enum Error {
    /// IO layer encountered an error.
    Io(Cause),

    /// Error from the HTTP/2 state machine; the connection cannot be used for sending further
    /// requests.
    Http(HttpError),

    /// Timeout while connecting
    Timeout,

    /// The worker is closing and a connection can not be created.
    WorkerClosing,

    /// The worker has reached its capacity for connections
    WorkerFull,

    /// Network error
    Stream(Cause),
}

impl From<HttpError> for Error {
    fn from(val: HttpError) -> (err: Error) {
        Error::Http(val)
    }
}

impl vstd::std_specs::convert::FromSpecImpl<HttpError> for Error {
    open spec fn obeys_from_spec() -> bool {
        true
    }

    open spec fn from_spec(val: HttpError) -> Error {
        Error::Http(val)
    }
}

/// The error behind another one
#[derive(Debug)]
pub enum Source<'a> {
    Cause(&'a Cause),
    Http(&'a HttpError),
}

impl Error {
    /// Whether the peer announced the error, with a frame that the streams were told of.
    pub open spec fn is_announced(self) -> bool {
        self matches Error::Http(HttpError::PeerConnectionError(_))
    }

    /// What happened, in a few words.
    pub open spec fn described(self) -> Seq<char> {
        match self {
            Error::Io(err) => err.description@,
            Error::Http(err) => crate::http::http_error_description(err@),
            Error::Timeout => "timeout when attempting to connect"@,
            Error::WorkerClosing => "worker isn't accepting new connections"@,
            Error::WorkerFull => "worker cannot manage more connections"@,
            Error::Stream(err) => err.description@,
        }
    }

    /// The message that reports the error.
    pub open spec fn reported(self) -> Seq<char> {
        match self {
            Error::Io(err) => "I/O error on connection: "@ + err.message@,
            Error::Http(err) => "HTTP/2 error on connection: "@ + crate::http::http_error_message(
                err@,
            ),
            Error::Timeout => "Timeout during connect"@,
            Error::WorkerClosing => "Worker not accepting new connections"@,
            Error::WorkerFull => "Worker at connection capacity"@,
            Error::Stream(err) => err.message@,
        }
    }

    /// What happened, in a few words.
    pub fn description(&self) -> (text: &str)
        ensures
            text@ == self.described(),
    {
        match self {
            Error::Io(err) => err.description.as_str(),
            Error::Http(err) => err.description(),
            Error::Timeout => "timeout when attempting to connect",
            Error::WorkerClosing => "worker isn't accepting new connections",
            Error::WorkerFull => "worker cannot manage more connections",
            Error::Stream(err) => err.description.as_str(),
        }
    }

    /// The error behind this one, if there is one.
    pub fn cause(&self) -> (cause: Option<Source<'_>>)
        ensures
            match *self {
                Error::Io(err) => cause == Some(Source::Cause(&err)),
                Error::Http(err) => cause == Some(Source::Http(&err)),
                Error::Stream(err) => match err.cause {
                    Some(inner) => cause == Some(Source::Cause(&*inner)),
                    None => cause is None,
                },
                _ => cause is None,
            },
    {
        match self {
            Error::Io(err) => Some(Source::Cause(err)),
            Error::Http(err) => Some(Source::Http(err)),
            Error::Stream(err) => match &err.cause {
                Some(inner) => Some(Source::Cause(&**inner)),
                None => None,
            },
            _ => None,
        }
    }

    /// The message that reports the error.
    pub fn message(&self) -> (text: String)
        ensures
            text@ == self.reported(),
    {
        match self {
            Error::Io(err) => "I/O error on connection: ".to_owned().concat(err.message.as_str()),
            Error::Http(err) => "HTTP/2 error on connection: ".to_owned().concat(
                err.message().as_str(),
            ),
            Error::Timeout => "Timeout during connect".to_owned(),
            Error::WorkerClosing => "Worker not accepting new connections".to_owned(),
            Error::WorkerFull => "Worker at connection capacity".to_owned(),
            Error::Stream(err) => err.message.clone(),
        }
    }
}

/// What a connection wants to be told about its transport
#[derive(Clone, Copy, Debug, PartialEq, Eq, Structural)]
pub struct EventSet {
    pub readable: bool,
    pub writable: bool,
}

/// How far the handling of an event on the transport has come
#[derive(Clone, Copy, Debug, PartialEq, Eq, Structural)]
pub enum Phase {
    /// Nothing has been done.
    Reading,
    /// What could be read has been read.
    Waking,
    /// Writing what was queued before the event
    Flushing,
    /// Writing what the protocol added
    Draining,
    /// Nothing is left to be done.
    Registering,
}

/// What is to be done with the transport next
#[derive(Clone, Copy, Debug, PartialEq, Eq, Structural)]
pub enum Action {
    /// Read from the transport, and hand the outcome to `read`.
    Read,
    /// Write the octets that `unwritten` returns, and hand the outcome to `write_backlog`.
    Write,
    /// Register the transport for the given events. There is nothing else to do.
    Reregister(EventSet),
}

/// A `Connection` as contracts speak of it.
#[verifier::ext_equal]
pub struct ConnectionModel {
    /// What the connection is called in the event loop
    pub token: usize,
    /// The protocol, and the frames and events that wait
    pub state: State,
    pub is_writable: bool,
    /// The start of a frame whose rest has not been received yet
    pub read_buf: Seq<u8>,
}

impl ConnectionModel {
    /// The events that the connection waits for: it is always ready to read, and it waits to write
    /// if it has frames or a stream has data.
    pub open spec fn interest(self) -> EventSet {
        EventSet {
            readable: true,
            writable: self.state.out.backlog.len() > 0 || self.state.http2.session.wants_write(),
        }
    }

    /// After the protocol had the chance to send.
    pub open spec fn sent(self, after: ConnectionModel) -> bool {
        &&& after == ConnectionModel { state: after.state, ..self }
        &&& exists|status: SendStatus| #[trigger]
            crate::protocol::sends_data(self.state, after.state, status)
    }

    /// What is left over when octets have arrived, before the protocol gets the chance to send.
    pub open spec fn fed(self, octets: Seq<u8>) -> ConnectionModel {
        let all = self.read_buf + octets;
        let (state, taken, err) = self.state.fed(all);
        ConnectionModel {
            state,
            read_buf: if err is None {
                all.subrange(taken, all.len() as int)
            } else {
                all
            },
            ..self
        }
    }

    /// After the first frame was written, in part or in full, or could not be written. A frame that
    /// has been written in full is done with.
    pub open spec fn wrote(self, status: StreamStatus) -> ConnectionModel {
        let backlog = self.state.out.backlog;
        match status {
            StreamStatus::Bytes(bytes) => {
                let frame = backlog[0];
                let backlog = if bytes == frame.unwritten().len() {
                    backlog.drop_first()
                } else {
                    backlog.update(
                        0,
                        PendingModel { position: frame.position + bytes as nat, ..frame },
                    )
                };
                ConnectionModel {
                    state: State { out: RefModel { backlog, ..self.state.out }, ..self.state },
                    ..self
                }
            },
            _ => ConnectionModel { is_writable: false, ..self },
        }
    }

    /// Nothing is left to be done.
    pub open spec fn registers(self, after: ConnectionModel, action: Action, phase: Phase) -> bool {
        after == self && action == Action::Reregister(self.interest()) && phase
            == Phase::Registering
    }

    /// What the protocol added is written as far as possible.
    pub open spec fn drains(self, after: ConnectionModel, action: Action, phase: Phase) -> bool {
        if self.is_writable && self.state.out.backlog.len() > 0 {
            after == self && action == Action::Write && phase == Phase::Draining
        } else {
            self.registers(after, action, phase)
        }
    }

    /// What was queued is written as far as possible. If all of it was written, the protocol gets
    /// the chance to send.
    pub open spec fn flushes(self, after: ConnectionModel, action: Action, phase: Phase) -> bool {
        if !self.is_writable {
            self.registers(after, action, phase)
        } else if self.state.out.backlog.len() > 0 {
            after == self && action == Action::Write && phase == Phase::Flushing
        } else {
            self.sent(after) && after.drains(after, action, phase)
        }
    }

    /// If the transport is writable, a write is tried.
    pub open spec fn wakes(
        self,
        events: EventSet,
        after: ConnectionModel,
        action: Action,
        phase: Phase,
    ) -> bool {
        if events.writable {
            (ConnectionModel { is_writable: true, ..self }).flushes(after, action, phase)
        } else {
            self.registers(after, action, phase)
        }
    }

    /// What is done next, at a given phase of the handling of an event.
    pub open spec fn goes_on(
        self,
        events: EventSet,
        phase: Phase,
        after: ConnectionModel,
        action: Action,
        next: Phase,
    ) -> bool {
        match phase {
            Phase::Reading => if events.readable {
                after == self && action == Action::Read && next == Phase::Waking
            } else {
                self.wakes(events, after, action, next)
            },
            Phase::Waking => self.wakes(events, after, action, next),
            Phase::Flushing => self.flushes(after, action, next),
            Phase::Draining => self.drains(after, action, next),
            Phase::Registering => self.registers(after, action, next),
        }
    }
}

/// An HTTP/2 connection
///
/// Contains the HTTP/2 state machine. I/O is buffered within this type. Incoming bytes are stored in
/// a `read_buf` when there are not enough available to create an entire HTTP/2 frame. The backlog is
/// a series of pending outgoing frames. The transport itself is in other hands: the connection says
/// what is to be done with it and is told the outcome.
pub struct Connection<H: Handler> {
    token: usize,
    out: Ref,
    is_writable: bool,
    protocol: Http2<H>,
    read_buf: Vec<u8>,
}

impl<H: Handler> View for Connection<H> {
    type V = ConnectionModel;

    closed spec fn view(&self) -> ConnectionModel {
        ConnectionModel {
            token: self.token,
            state: State { http2: self.protocol@, out: self.out@ },
            is_writable: self.is_writable,
            read_buf: self.read_buf@,
        }
    }
}

impl<H: Handler> Connection<H> {
    /// The protocol is well formed, and no frame has been written beyond its end.
    pub closed spec fn well_formed(self) -> bool {
        self.protocol.well_formed() && within_bounds(self.out@.backlog)
    }

    /// The session of a connection is valid.
    pub proof fn sessions_are_valid(&self)
        requires
            self.well_formed(),
        ensures
            self@.state.http2.session.valid(),
    {
        self.protocol.sessions_are_valid();
    }

    /// In a connection no frame has been written beyond its end.
    pub proof fn frames_are_within_bounds(&self)
        requires
            self.well_formed(),
        ensures
            within_bounds(self@.state.out.backlog),
    {
    }

    /// A new connection
    pub fn new(token: usize) -> (connection: Connection<H>)
        ensures
            connection.well_formed(),
            connection@.token == token,
            connection@.state.out == (RefModel { backlog: Seq::empty(), events: Seq::empty() }),
            connection@.state.http2 == crate::protocol::new_http2(),
            !connection@.is_writable,
            connection@.read_buf == Seq::<u8>::empty(),
    {
        Connection {
            token,
            out: Ref::new(),
            is_writable: false,
            protocol: Http2::new(),
            read_buf: Vec::new(),
        }
    }

    /// What the connection is called in the event loop
    pub fn token(&self) -> (token: usize)
        ensures
            token == self@.token,
    {
        self.token
    }

    /// The protocol of the connection
    pub fn protocol(&self) -> (protocol: &Http2<H>)
        ensures
            protocol@ == self@.state.http2,
    {
        &self.protocol
    }

    /// Opens the conversation.
    pub fn initialize(&mut self)
        requires
            old(self).well_formed(),
        ensures
            final(self).well_formed(),
            final(self)@ == (ConnectionModel {
                state: old(self)@.state.sending(crate::frame::preface()),
                ..old(self)@
            }),
    {
        self.protocol.initialize(&mut self.out);
    }

    /// The events that the connection waits for
    pub fn interest(&self) -> (events: EventSet)
        ensures
            events == self@.interest(),
    {
        EventSet {
            readable: true,
            writable: self.out.backlog.len() > 0 || self.protocol.wants_write(),
        }
    }

    /// Whether a stream is not closed yet
    pub fn has_active_streams(&mut self) -> (active: bool)
        requires
            old(self).well_formed(),
        ensures
            final(self).well_formed(),
            final(self)@ == old(self)@,
            active == old(self)@.state.http2.session.is_active(),
    {
        self.protocol.has_active_streams()
    }

    /// The connection entered an error state. Requests that are not complete cannot be completed:
    /// their streams leave, and their handlers are told, unless the error is one that the peer
    /// announced, of which they have heard.
    pub fn fail(&mut self, err: &Error)
        requires
            old(self).well_formed(),
        ensures
            final(self).well_formed(),
            final(self)@ == (ConnectionModel {
                state: old(self)@.state.with_session(
                    old(self)@.state.http2.session.abandoned(err.is_announced()),
                ),
                ..old(self)@
            }),
    {
        let heard = match err {
            Error::Http(HttpError::PeerConnectionError(_)) => true,
            _ => false,
        };
        self.protocol.abandon(heard);
    }

    /// Takes the events that are to be reported, oldest first.
    pub fn take_events(&mut self) -> (events: Vec<ConnectionEvent>)
        requires
            old(self).well_formed(),
        ensures
            final(self).well_formed(),
            events@ == old(self)@.state.out.events,
            final(self)@ == (ConnectionModel {
                state: State {
                    out: RefModel { events: Seq::empty(), ..old(self)@.state.out },
                    ..old(self)@.state
                },
                ..old(self)@
            }),
    {
        let mut events: Vec<ConnectionEvent> = Vec::new();
        events.append(&mut self.out.events);
        proof {
            assert(events@ =~= old(self)@.state.out.events);
            assert(self.out.events@ =~= Seq::empty());
        }
        events
    }

    /// Adds a frame to those that wait to be sent.
    pub fn queue_frame(&mut self, frame: Vec<u8>)
        requires
            old(self).well_formed(),
        ensures
            final(self).well_formed(),
            final(self)@ == (ConnectionModel {
                state: old(self)@.state.sending(frame@),
                ..old(self)@
            }),
    {
        self.out.queue_frame(frame);
    }

    /// Does what a message asks for.
    pub fn notify(&mut self, msg: Msg<H>) -> (result: Result<(), Error>)
        requires
            old(self).well_formed(),
            crate::protocol::acceptable(old(self)@.state.http2, msg),
        ensures
            final(self).well_formed(),
            result is Ok,
            final(self)@ == (ConnectionModel {
                state: crate::protocol::notified(old(self)@.state, msg),
                ..old(self)@
            }),
    {
        match self.protocol.notify(msg, &mut self.out) {
            Ok(()) => Ok(()),
            Err(err) => Err(Error::from(err)),
        }
    }

    /// Takes what was read from the transport.
    ///
    /// Reading data may allow for new streams to start. The protocol gets a chance to write.
    pub fn read(&mut self, status: StreamStatus, buf: &[u8]) -> (result: Result<(), Error>)
        requires
            old(self).well_formed(),
            status != StreamStatus::End,
            status matches StreamStatus::Bytes(bytes) ==> bytes <= buf@.len(),
        ensures
            final(self).well_formed(),
            match status {
                StreamStatus::Bytes(bytes) => {
                    let octets = buf@.take(bytes as int);
                    let all = old(self)@.read_buf + octets;
                    match old(self)@.state.fed(all).2 {
                        None => result is Ok && old(self)@.fed(octets).sent(final(self)@),
                        Some(err) => (result matches Err(Error::Http(e)) && e@ == err)
                            && final(self)@ == old(self)@.fed(octets),
                    }
                },
                _ => result is Ok && old(self)@.sent(final(self)@),
            },
    {
        if let StreamStatus::Bytes(bytes) = status {
            let ghost octets = buf@.take(bytes as int);
            let mut received = slice_to_vec(slice_subrange(buf, 0, bytes));
            self.read_buf.append(&mut received);
            proof {
                assert(self.read_buf@ =~= old(self)@.read_buf + octets);
                crate::laws::fed_takes_whole_frames(self@.state, self.read_buf@);
                crate::laws::fed_stays_within_bounds(self@.state, self.read_buf@);
            }
            match self.protocol.on_data(self.read_buf.as_slice(), &mut self.out) {
                Ok(consumed) => {
                    let left = self.read_buf.split_off(consumed);
                    self.read_buf = left;
                },
                Err(err) => {
                    return Err(Error::from(err));
                },
            }
            assert(self@ == old(self)@.fed(octets));
        }
        let ghost before = self@.state;
        match self.protocol.ready_write(&mut self.out) {
            Ok(status) => {
                proof {
                    crate::laws::sending_stays_within_bounds(before, self@.state, status);
                }
                Ok(())
            },
            Err(err) => Err(Error::from(err)),
        }
    }

    /// The octets of the first frame that have not been written yet
    pub fn unwritten(&self) -> (octets: &[u8])
        requires
            self.well_formed(),
            self@.state.out.backlog.len() > 0,
        ensures
            octets@ == self@.state.out.backlog[0].unwritten(),
    {
        let frame = &self.out.backlog[0];
        assert(self@.state.out.backlog[0] == frame@);
        slice_subrange(frame.bytes.as_slice(), frame.position, frame.bytes.len())
    }

    /// Takes note of the outcome of a write of the octets that `unwritten` returned.
    pub fn write_backlog(&mut self, status: StreamStatus) -> (written: WriteStatus)
        requires
            old(self).well_formed(),
            old(self)@.state.out.backlog.len() > 0,
            status matches StreamStatus::Bytes(bytes) ==> bytes
                <= old(self)@.state.out.backlog[0].unwritten().len(),
        ensures
            final(self).well_formed(),
            final(self)@ == old(self)@.wrote(status),
            written == match status {
                StreamStatus::Bytes(bytes) => if bytes
                    == old(self)@.state.out.backlog[0].unwritten().len() {
                    WriteStatus::Full
                } else {
                    WriteStatus::Partial(bytes)
                },
                _ => WriteStatus::WouldBlock,
            },
    {
        match status {
            StreamStatus::Bytes(bytes) => {
                let frame = self.out.backlog.remove(0);
                assert(old(self)@.state.out.backlog[0] == frame@);
                let PendingFrame { bytes: octets, position } = frame;
                if octets.len() - position == bytes {
                    assert(self@.state.out.backlog =~= old(self)@.state.out.backlog.drop_first());
                    WriteStatus::Full
                } else {
                    self.out.backlog.insert(
                        0,
                        PendingFrame { bytes: octets, position: position + bytes },
                    );
                    assert(self@.state.out.backlog =~= old(self)@.wrote(status).state.out.backlog);
                    WriteStatus::Partial(bytes)
                }
            },
            _ => {
                self.set_writable(false);
                WriteStatus::WouldBlock
            },
        }
    }

    /// Notes whether the transport takes data.
    fn set_writable(&mut self, w: bool)
        ensures
            final(self).protocol == old(self).protocol,
            final(self)@ == (ConnectionModel { is_writable: w, ..old(self)@ }),
    {
        self.is_writable = w;
    }

    /// Goes on with the handling of events on the transport: says what to do next, and at which
    /// phase to go on afterwards.
    pub fn ready(&mut self, events: EventSet, phase: Phase) -> (step: Result<(Action, Phase), Error>)
        requires
            old(self).well_formed(),
        ensures
            final(self).well_formed(),
            step matches Ok((action, next)) && old(self)@.goes_on(
                events,
                phase,
                final(self)@,
                action,
                next,
            ),
    {
        let mut phase = phase;
        if phase == Phase::Reading {
            if events.readable {
                return Ok((Action::Read, Phase::Waking));
            }
            phase = Phase::Waking;
        }
        if phase == Phase::Waking {
            if events.writable {
                self.set_writable(true);
                // Whenever the connection becomes writable, we try a write.
                phase = Phase::Flushing;
            } else {
                phase = Phase::Registering;
            }
        }
        self.try_write(phase)
    }

    /// Goes on with a write.
    ///
    /// Anything that's already been queued is considered the first priority to push out to the
    /// peer. As much of this as possible is written. If the connection is still writable then, the
    /// protocol is told so that it can react to that and potentially provide more, which is flushed
    /// in turn.
    pub fn try_write(&mut self, phase: Phase) -> (step: Result<(Action, Phase), Error>)
        requires
            old(self).well_formed(),
            phase == Phase::Flushing || phase == Phase::Draining || phase == Phase::Registering,
        ensures
            final(self).well_formed(),
            step matches Ok((action, next)) && match phase {
                Phase::Flushing => old(self)@.flushes(final(self)@, action, next),
                Phase::Draining => old(self)@.drains(final(self)@, action, next),
                _ => old(self)@.registers(final(self)@, action, next),
            },
    {
        if self.is_writable && phase == Phase::Flushing {
            if self.out.backlog.len() > 0 {
                return Ok((Action::Write, Phase::Flushing));
            }
            let ghost before = self@.state;
            match self.protocol.ready_write(&mut self.out) {
                Ok(status) => {
                    proof {
                        crate::laws::sending_stays_within_bounds(before, self@.state, status);
                    }
                },
                Err(err) => {
                    return Err(Error::from(err));
                },
            }
            // Flush whatever the protocol might have added...
            if self.out.backlog.len() > 0 {
                return Ok((Action::Write, Phase::Draining));
            }
        }
        if self.is_writable && phase == Phase::Draining && self.out.backlog.len() > 0 {
            return Ok((Action::Write, Phase::Draining));
        }
        Ok((Action::Reregister(self.interest()), Phase::Registering))
    }
}

} // verus!
