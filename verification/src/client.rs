//! Handling of what the peer sends: the changes that each frame makes to the streams
use crate::connection::Ref;
use crate::frame::{build_ping_ack, build_settings_ack, MAX_CONCURRENT_STREAMS};
use crate::header::{Field, StatusCode, to_status_and_headers};
use crate::http::{Header, HeaderModel, Http2ErrorCode, HttpError, HttpErrorModel, PeerError};
use crate::http::StreamId;
use crate::protocol::{Stream, StreamDataState, StreamModel};
use crate::removed::Removed;
use crate::request::{Error, Event, Handler, Response};
use crate::session::{Session, StreamState};
use std::collections::HashSet;
use vstd::prelude::*;

verus! {

/// Defines interactions with an object holding connection settings.
///
/// Methods on the Settings type are used only when a SETTINGS frame is received for the associated
/// connection.
pub trait Settings {
    /// The maximum number of concurrent streams.
    spec fn max_concurrent(&self) -> u32;

    /// Set the maximum number of concurrent streams
    fn set_max_concurrent_streams(&mut self, val: u32)
        ensures
            final(self).max_concurrent() == val,
    ;
}

/// Settings type that exposes some properties via Send/Sync types
#[derive(Debug)]
pub struct Http2Settings {
    /// Max concurrent streams for local use
    max_concurrent_streams: u32,
}

impl Http2Settings {
    /// The maximum number of concurrent streams
    pub fn max_concurrent_streams(&self) -> (val: u32)
        ensures
            val == self.max_concurrent(),
    {
        self.max_concurrent_streams
    }
}

impl Default for Http2Settings {
    fn default() -> (settings: Self)
        ensures
            settings.max_concurrent() == 10,
    {
        Http2Settings { max_concurrent_streams: 10 }
    }
}

impl Settings for Http2Settings {
    closed spec fn max_concurrent(&self) -> u32 {
        self.max_concurrent_streams
    }

    fn set_max_concurrent_streams(&mut self, val: u32) {
        self.max_concurrent_streams = val;
    }
}

/// A `ClientSession` as contracts speak of it.
#[verifier::ext_equal]
pub struct SessionModel {
    /// The streams of the connection
    pub streams: Map<StreamId, StreamModel>,
    /// The identifier of the next stream
    pub next_id: StreamId,
    /// The streams that have data to send
    pub interest: Set<StreamId>,
    /// The streams that are no longer part of the session, as they were when they left it
    pub removed: Map<StreamId, StreamModel>,
    /// The number of streams that the peer wants to handle at a time
    pub max_concurrent_streams: u32,
}

/// Status and headers of a response, if a header list has the form of one.
pub open spec fn response_of(list: Seq<HeaderModel>) -> Option<(StatusCode, Seq<Field>)> {
    if !crate::header::names_are_text(list) {
        None
    } else {
        match crate::header::status_octets(list) {
            Some(octets) => if !vstd::utf8::valid_utf8(octets) {
                None
            } else {
                match crate::text::number16(vstd::utf8::decode_utf8(octets)) {
                    Some(number) => Some((StatusCode(number), crate::header::fields_of(list))),
                    None => None,
                }
            },
            None => None,
        }
    }
}

/// The number of concurrent streams after the settings of a frame were applied.
pub open spec fn max_concurrent_after(current: u32, settings: Seq<(u16, u32)>) -> u32
    decreases settings.len(),
{
    if settings.len() == 0 {
        current
    } else if settings.last().0 == MAX_CONCURRENT_STREAMS {
        settings.last().1
    } else {
        max_concurrent_after(current, settings.drop_last())
    }
}

impl SessionModel {
    /// Data arrived for a stream. A stream that is closed gets no more data.
    pub open spec fn data_arrived(self, id: StreamId, data: Seq<u8>) -> SessionModel {
        if self.streams.dom().contains(id) && self.streams[id].state != StreamState::Closed {
            SessionModel {
                streams: self.streams.insert(id, self.streams[id].told(Event::Data(data))),
                ..self
            }
        } else {
            self
        }
    }

    /// The peer ended a stream. There is no need to go on with the request.
    pub open spec fn ended(self, id: StreamId) -> SessionModel {
        if self.streams.dom().contains(id) {
            SessionModel {
                streams: self.streams.insert(id, self.streams[id].moved(StreamState::Closed)),
                interest: self.interest.remove(id),
                ..self
            }
        } else {
            self
        }
    }

    /// A stream was reset.
    pub open spec fn reset(self, id: StreamId, code: Http2ErrorCode) -> SessionModel {
        if self.streams.dom().contains(id) {
            SessionModel {
                streams: self.streams.insert(id, self.streams[id].reset(code)),
                interest: self.interest.remove(id),
                ..self
            }
        } else {
            self
        }
    }

    /// A header list arrived for a stream. If it has not the form of a response, the stream is
    /// closed.
    pub open spec fn headers_arrived(self, id: StreamId, list: Seq<HeaderModel>) -> SessionModel {
        match response_of(list) {
            Some((status, headers)) => if self.streams.dom().contains(id) {
                SessionModel {
                    streams: self.streams.insert(
                        id,
                        self.streams[id].told(Event::Response { status, headers }),
                    ),
                    ..self
                }
            } else {
                self
            },
            None => self.ended(id),
        }
    }

    /// Settings arrived.
    pub open spec fn settings_arrived(self, settings: Seq<(u16, u32)>) -> SessionModel {
        SessionModel {
            max_concurrent_streams: max_concurrent_after(self.max_concurrent_streams, settings),
            ..self
        }
    }

    /// The peer goes away, and will not look at streams after the given one. Those leave the
    /// session.
    pub open spec fn went_away(self, last_stream_id: StreamId, code: Http2ErrorCode) -> SessionModel {
        SessionModel {
            streams: Map::new(
                |id: StreamId| self.streams.dom().contains(id) && id <= last_stream_id,
                |id: StreamId|
                    self.streams[id].told(Event::Failed(Error::GoAwayMaybeProcessed(code))),
            ),
            interest: self.interest.filter(|id: StreamId| id <= last_stream_id),
            removed: self.removed.union_prefer_right(
                Map::new(
                    |id: StreamId| self.streams.dom().contains(id) && id > last_stream_id,
                    |id: StreamId|
                        self.streams[id].told(Event::Failed(Error::GoAwayUnprocessed(code))),
                ),
            ),
            ..self
        }
    }

    /// `went_away`, as far as the given streams are concerned.
    spec fn going_away(
        self,
        told: Set<StreamId>,
        last_stream_id: StreamId,
        code: Http2ErrorCode,
    ) -> SessionModel {
        SessionModel {
            streams: Map::new(
                |id: StreamId|
                    self.streams.dom().contains(id) && !(told.contains(id) && id > last_stream_id),
                |id: StreamId|
                    if told.contains(id) {
                        self.streams[id].told(Event::Failed(Error::GoAwayMaybeProcessed(code)))
                    } else {
                        self.streams[id]
                    },
            ),
            interest: self.interest.filter(
                |id: StreamId| !(told.contains(id) && id > last_stream_id),
            ),
            removed: self.removed.union_prefer_right(
                Map::new(
                    |id: StreamId|
                        self.streams.dom().contains(id) && told.contains(id) && id > last_stream_id,
                    |id: StreamId|
                        self.streams[id].told(Event::Failed(Error::GoAwayUnprocessed(code))),
                ),
            ),
            ..self
        }
    }

    /// A stream failed on this side. It leaves the session.
    pub open spec fn failed(self, id: StreamId) -> SessionModel {
        if self.streams.dom().contains(id) {
            SessionModel {
                streams: self.streams.remove(id),
                interest: self.interest.remove(id),
                removed: self.removed.insert(
                    id,
                    self.streams[id].told(Event::Failed(Error::User)),
                ),
                ..self
            }
        } else {
            SessionModel { interest: self.interest.remove(id), ..self }
        }
    }

    /// A stream was opened from this side. It gets the next identifier, and is asked for data if it
    /// can send any.
    pub open spec fn opened(self, stream: StreamModel) -> SessionModel {
        SessionModel {
            streams: self.streams.insert(self.next_id, stream),
            interest: if stream.state.closed_local() {
                self.interest
            } else {
                self.interest.insert(self.next_id)
            },
            next_id: (self.next_id + 2) as StreamId,
            ..self
        }
    }

    /// A stream has no more data to send.
    pub open spec fn sated(self, id: StreamId) -> SessionModel {
        SessionModel { interest: self.interest.remove(id), ..self }
    }

    /// Whether a stream is not closed yet.
    pub open spec fn is_active(self) -> bool {
        exists|id: StreamId| #[trigger]
            self.streams.dom().contains(id) && self.streams[id].state != StreamState::Closed
    }

    /// The connection failed. The streams that are not closed leave the session; if they have not
    /// heard of the failure, their handlers are told.
    pub open spec fn abandoned(self, heard: bool) -> SessionModel {
        SessionModel { interest: Set::empty(), ..self.abandoning(Set::full(), heard) }
    }

    /// `abandoned`, as far as the given streams are concerned, and but for the interest.
    pub open spec fn abandoning(self, done: Set<StreamId>, heard: bool) -> SessionModel {
        SessionModel {
            streams: Map::new(
                |id: StreamId|
                    self.streams.dom().contains(id) && !(done.contains(id) && self.streams[id].state
                        != StreamState::Closed),
                |id: StreamId| self.streams[id],
            ),
            removed: self.removed.union_prefer_right(
                Map::new(
                    |id: StreamId|
                        self.streams.dom().contains(id) && done.contains(id)
                            && self.streams[id].state != StreamState::Closed,
                    |id: StreamId|
                        if heard {
                            self.streams[id]
                        } else {
                            self.streams[id].told(Event::Failed(Error::Connection))
                        },
                ),
            ),
            ..self
        }
    }

    /// Whether a stream has data to send.
    pub open spec fn wants_write(self) -> bool {
        exists|id: StreamId| #[trigger] self.interest.contains(id)
    }

    /// Streams have odd identifiers below that of the next one. Streams that have data to send are
    /// part of the session and open for sending.
    pub open spec fn valid(self) -> bool {
        &&& self.next_id % 2 == 1
        &&& forall|id: StreamId| #[trigger]
            self.streams.dom().contains(id) ==> id % 2 == 1 && id < self.next_id
        &&& forall|id: StreamId| #[trigger]
            self.removed.dom().contains(id) ==> id % 2 == 1 && id < self.next_id
                && !self.streams.dom().contains(id)
        &&& forall|id: StreamId| #[trigger]
            self.interest.contains(id) ==> self.streams.dom().contains(id)
                && !self.streams[id].state.closed_local()
    }
}

/// What arrives from the peer leaves a session valid.
pub proof fn arrivals_keep_validity(
    session: SessionModel,
    id: StreamId,
    data: Seq<u8>,
    list: Seq<HeaderModel>,
    code: Http2ErrorCode,
    settings: Seq<(u16, u32)>,
)
    requires
        session.valid(),
    ensures
        session.data_arrived(id, data).valid(),
        session.ended(id).valid(),
        session.reset(id, code).valid(),
        session.headers_arrived(id, list).valid(),
        session.settings_arrived(settings).valid(),
        session.went_away(id, code).valid(),
{
}

/// What happens on this side leaves a session valid.
pub proof fn departures_keep_validity(session: SessionModel, stream: StreamModel, id: StreamId)
    requires
        session.valid(),
    ensures
        session.failed(id).valid(),
        session.sated(id).valid(),
        session.abandoned(true).valid(),
        session.abandoned(false).valid(),
        session.next_id <= u32::MAX - 2 ==> session.opened(stream).valid(),
{
}

/// Type returned from stream_data
///
/// Contains a stream_id and its state.
#[derive(Clone, Copy, Debug, PartialEq, Eq, Structural)]
pub struct StreamResult {
    pub id: StreamId,
    pub state: StreamDataState,
}

/// Whether a stream was asked for data, with a buffer of the given length, and had none.
pub open spec fn asked_in_vain(before: StreamModel, after: StreamModel, room: nat) -> bool {
    exists|filled: Seq<u8>|
        filled.len() == room && after == #[trigger] before.told(
            Event::Polled { room, filled, answer: StreamDataState::Unavailable },
        )
}

/// Whether streams that have data to send were asked for it, each once at most, up to the first
/// that had an answer, which is the given one.
pub open spec fn asked(
    before: SessionModel,
    after: SessionModel,
    answer: Option<StreamResult>,
    filled: Seq<u8>,
) -> bool {
    &&& after == SessionModel { streams: after.streams, ..before }
    &&& after.streams.dom() == before.streams.dom()
    &&& forall|id: StreamId| #[trigger]
        before.streams.dom().contains(id) && !before.interest.contains(id) ==> after.streams[id]
            == before.streams[id]
    &&& match answer {
        Some(result) => {
            &&& before.interest.contains(result.id)
            &&& result.state != StreamDataState::Unavailable
            &&& result.state.len() <= filled.len()
            &&& after.streams[result.id] == before.streams[result.id].told(
                Event::Polled { room: filled.len(), filled, answer: result.state },
            )
            &&& forall|id: StreamId| #[trigger]
                before.interest.contains(id) && id != result.id ==> after.streams[id]
                    == before.streams[id] || asked_in_vain(
                    before.streams[id],
                    after.streams[id],
                    filled.len(),
                )
        },
        None => forall|id: StreamId| #[trigger]
            before.interest.contains(id) ==> asked_in_vain(
                before.streams[id],
                after.streams[id],
                filled.len(),
            ),
    }
}

/// The session state and settings of a client
///
/// While handling the events signaled by the peer, it modifies the session state appropriately.
pub struct ClientSession<H: Handler> {
    state: Session<H>,
    /// Dynamic protocol configuration
    settings: Http2Settings,
    /// Streams with active interest in writing data
    interest: HashSet<StreamId>,
    /// Streams that are no longer part of the session
    removed: Removed,
}

impl<H: Handler> View for ClientSession<H> {
    type V = SessionModel;

    closed spec fn view(&self) -> SessionModel {
        SessionModel {
            streams: self.state@.map_values(|stream: Stream<H>| stream@),
            next_id: self.state.next_id(),
            interest: self.interest@,
            removed: self.removed@,
            max_concurrent_streams: self.settings.max_concurrent(),
        }
    }
}

impl<H: Handler> ClientSession<H> {
    /// The session's streams and identifiers fit together.
    pub closed spec fn well_formed(self) -> bool {
        self.state.well_formed() && self@.valid()
    }

    /// A well formed session is valid.
    pub proof fn sessions_are_valid(&self)
        requires
            self.well_formed(),
        ensures
            self@.valid(),
    {
    }

    /// The session of a new connection
    pub fn new() -> (session: ClientSession<H>)
        ensures
            session.well_formed(),
            session@ == (SessionModel {
                streams: Map::empty(),
                next_id: 1,
                interest: Set::empty(),
                removed: Map::empty(),
                max_concurrent_streams: 10,
            }),
    {
        broadcast use vstd::std_specs::hash::group_hash_axioms;

        let session = ClientSession {
            state: Session::new(),
            settings: Default::default(),
            interest: HashSet::new(),
            removed: Removed::new(),
        };
        assert(session@.streams =~= Map::empty());
        session
    }

    /// Data arrived for a stream. That of an unknown or closed stream is dropped.
    pub fn new_data_chunk(&mut self, id: StreamId, data: &[u8])
        requires
            old(self).well_formed(),
        ensures
            final(self).well_formed(),
            final(self)@ == old(self)@.data_arrived(id, data@),
    {
        if let Some(mut stream) = self.state.remove_stream(id) {
            proof {
                old(self).state.known_are_issued(id);
            }
            if stream.state() != StreamState::Closed {
                stream.new_data_chunk(data);
            }
            self.state.insert_stream(id, stream);
        }
        assert(self@.streams =~= old(self)@.data_arrived(id, data@).streams);
    }

    /// The peer ended a stream
    ///
    /// Since this implies that the server has closed the stream (i.e. provided a response), we
    /// close the local end of the stream, as well as the remote one; there's no need to keep
    /// sending out the request body if the server's decided that it doesn't want to see it.
    pub fn end_of_stream(&mut self, id: StreamId)
        requires
            old(self).well_formed(),
        ensures
            final(self).well_formed(),
            final(self)@ == old(self)@.ended(id),
    {
        broadcast use vstd::std_specs::hash::group_hash_axioms;

        if let Some(mut stream) = self.state.remove_stream(id) {
            proof {
                old(self).state.known_are_issued(id);
            }
            stream.close();
            self.state.insert_stream(id, stream);
            self.interest.remove(&id);
        }
        assert(self@.streams =~= old(self)@.ended(id).streams);
    }

    /// A stream was reset
    pub fn rst_stream(&mut self, id: StreamId, code: Http2ErrorCode)
        requires
            old(self).well_formed(),
        ensures
            final(self).well_formed(),
            final(self)@ == old(self)@.reset(id, code),
    {
        broadcast use vstd::std_specs::hash::group_hash_axioms;

        if let Some(mut stream) = self.state.remove_stream(id) {
            proof {
                old(self).state.known_are_issued(id);
            }
            stream.on_rst_stream(code);
            self.state.insert_stream(id, stream);
            self.interest.remove(&id);
        }
        assert(self@.streams =~= old(self)@.reset(id, code).streams);
    }

    /// A header list arrived for a stream
    pub fn new_headers(&mut self, id: StreamId, headers: Vec<Header>)
        requires
            old(self).well_formed(),
        ensures
            final(self).well_formed(),
            final(self)@ == old(self)@.headers_arrived(id, crate::http::header_list(headers@)),
    {
        let ghost list = crate::http::header_list(headers@);
        let (status, headers) = match to_status_and_headers(headers) {
            Ok(parsed) => parsed,
            Err(_) => {
                // Headers not provided according to HTTP protocol; close the stream.
                self.end_of_stream(id);
                return ;
            },
        };
        // Handle stream not being available
        if let Some(mut stream) = self.state.remove_stream(id) {
            proof {
                old(self).state.known_are_issued(id);
            }
            stream.on_response(Response { status, headers });
            self.state.insert_stream(id, stream);
        }
        proof {
            let event = Event::Response { status, headers: headers@ };
            if old(self)@.streams.dom().contains(id) {
                assert(self@.streams =~= old(self)@.streams.insert(
                    id,
                    old(self)@.streams[id].told(event),
                ));
            } else {
                assert(self@.streams =~= old(self)@.streams);
            }
            assert(self@ == old(self)@.headers_arrived(id, list));
            arrivals_keep_validity(
                old(self)@,
                id,
                Seq::empty(),
                list,
                Http2ErrorCode::NoError,
                Seq::empty(),
            );
        }
    }

    /// Settings arrived. They are acknowledged.
    pub fn new_settings(&mut self, settings: Vec<(u16, u32)>, sender: &mut Ref)
        requires
            old(self).well_formed(),
        ensures
            final(self).well_formed(),
            final(self)@ == old(self)@.settings_arrived(settings@),
            final(sender)@ == old(sender)@.queued(settings_ack()),
    {
        let mut i: usize = 0;
        while i < settings.len()
            invariant
                i <= settings@.len(),
                self@ == old(self)@.settings_arrived(settings@.take(i as int)),
                self.state == old(self).state,
            decreases settings@.len() - i,
        {
            assert(settings@.take(i + 1).drop_last() =~= settings@.take(i as int));
            if settings[i].0 == MAX_CONCURRENT_STREAMS {
                self.settings.set_max_concurrent_streams(settings[i].1);
            }
            i = i + 1;
        }
        assert(settings@.take(i as int) =~= settings@);
        sender.queue_frame(build_settings_ack());
    }

    /// Whether a stream has data to send
    pub fn wants_write(&self) -> (wants: bool)
        ensures
            wants == self@.wants_write(),
    {
        broadcast use vstd::std_specs::hash::group_hash_axioms;

        let wants = !self.interest.is_empty();
        proof {
            if wants {
                if !exists|id: StreamId| #[trigger] self@.interest.contains(id) {
                    assert forall|id: StreamId| !#[trigger] self.interest@.contains(id) by {
                        assert(!self@.interest.contains(id));
                    }
                    assert(self.interest@ =~= Set::empty());
                }
            } else {
                assert forall|id: StreamId| !#[trigger] self@.interest.contains(id) by {
                    assert(!Set::<StreamId>::empty().contains(id));
                }
            }
        }
        wants
    }

    /// The identifier of the next stream
    pub fn next_stream_id(&self) -> (id: StreamId)
        ensures
            id == self@.next_id,
    {
        self.state.next_stream_id()
    }

    /// The number of streams that the peer wants to handle at a time
    pub fn max_concurrent_streams(&self) -> (val: u32)
        ensures
            val == self@.max_concurrent_streams,
    {
        self.settings.max_concurrent_streams()
    }

    /// Opens a stream from this side.
    pub fn open_stream(&mut self, stream: Stream<H>) -> (id: StreamId)
        requires
            old(self).well_formed(),
            old(self)@.next_id <= u32::MAX - 2,
        ensures
            final(self).well_formed(),
            id == old(self)@.next_id,
            final(self)@ == old(self)@.opened(stream@),
    {
        broadcast use vstd::std_specs::hash::group_hash_axioms;

        let ghost opened = stream@;
        let closed_local = stream.is_closed_local();
        let id = self.state.insert_outgoing(stream);
        if !closed_local {
            // mark stream as interested in writing
            self.interest.insert(id);
        }
        proof {
            assert(self@.streams =~= old(self)@.opened(opened).streams);
            departures_keep_validity(old(self)@, opened, id);
        }
        id
    }

    /// Stops asking a stream for data.
    pub fn finish_sending(&mut self, id: StreamId)
        requires
            old(self).well_formed(),
        ensures
            final(self).well_formed(),
            final(self)@ == old(self)@.sated(id),
    {
        broadcast use vstd::std_specs::hash::group_hash_axioms;

        self.interest.remove(&id);
    }

    /// Gives up a stream because its handler failed. It leaves the session, and the handler hears
    /// of it.
    pub fn fail_stream(&mut self, id: StreamId)
        requires
            old(self).well_formed(),
        ensures
            final(self).well_formed(),
            final(self)@ == old(self)@.failed(id),
    {
        broadcast use vstd::std_specs::hash::group_hash_axioms;

        // Don't try and stream data
        self.interest.remove(&id);
        // Remove stream from the session state
        if let Some(mut stream) = self.state.remove_stream(id) {
            // Run the on_error callback saying that is closed due to error returned from the
            // handler.
            stream.on_error(Error::User);
            self.removed.add(id, stream);
        }
        assert(self@.streams =~= old(self)@.failed(id).streams);
    }

    /// Whether a stream is not closed yet
    pub fn has_active_streams(&mut self) -> (active: bool)
        requires
            old(self).well_formed(),
        ensures
            final(self).well_formed(),
            final(self)@ == old(self)@,
            active == old(self)@.is_active(),
    {
        let ghost before = self@;
        let active = self.state.has_active_streams();
        proof {
            assert(self@.streams =~= before.streams);
            let streams = old(self).state@;
            if active {
                let id = choose|id: StreamId| #[trigger]
                    streams.dom().contains(id) && streams[id].state != StreamState::Closed;
                assert(before.streams.dom().contains(id));
                assert(before.streams[id] == streams[id]@);
            } else {
                assert forall|id: StreamId| #[trigger]
                    before.streams.dom().contains(id) implies before.streams[id].state
                    == StreamState::Closed by {
                    assert(streams.dom().contains(id));
                    assert(before.streams[id] == streams[id]@);
                }
            }
        }
        active
    }

    /// The connection failed. Gives up the streams that are not closed; if they have not heard of
    /// the failure, tells their handlers.
    pub fn abandon(&mut self, heard: bool)
        requires
            old(self).well_formed(),
        ensures
            final(self).well_formed(),
            final(self)@ == old(self)@.abandoned(heard),
    {
        broadcast use vstd::std_specs::hash::group_hash_axioms;

        let ghost before = SessionModel { interest: Set::empty(), ..self@ };
        let ghost mut done: Set<StreamId> = Set::empty();
        self.interest.clear();
        let ids = self.state.ids();
        assert(self@.streams =~= before.abandoning(done, heard).streams);
        assert(self@ =~= before.abandoning(done, heard));
        let mut i: usize = 0;
        while i < ids.len()
            invariant
                i <= ids@.len(),
                ids@.no_duplicates(),
                ids@.to_set() == before.streams.dom(),
                done == ids@.take(i as int).to_set(),
                before.valid(),
                self.state.well_formed(),
                self@ == before.abandoning(done, heard),
            decreases ids@.len() - i,
        {
            let ghost now = self@;
            let ghost streams = self.state@;
            let id: StreamId = ids[i];
            proof {
                assert(ids@.to_set().contains(id));
                assert(!done.contains(id)) by {
                    if done.contains(id) {
                        let k = choose|k: int|
                            0 <= k < i && #[trigger] ids@.take(i as int)[k] == id;
                        assert(ids@[k] == ids@[i as int]);
                    }
                }
                assert(now.streams.dom().contains(id));
                assert(now.streams[id] == streams[id]@);
            }
            if let Some(mut stream) = self.state.remove_stream(id) {
                proof {
                    assert(stream@ == before.streams[id]);
                    assert(id % 2 == 1 && id < self.state.next_id());
                }
                if stream.state() == StreamState::Closed {
                    self.state.insert_stream(id, stream);
                } else {
                    if !heard {
                        stream.on_error(Error::Connection);
                    }
                    self.removed.add(id, stream);
                }
            }
            proof {
                done = done.insert(id);
                assert(ids@.take(i + 1) =~= ids@.take(i as int).push(id));
                ids@.take(i as int).lemma_push_to_set_commute(id);
                let next = before.abandoning(done, heard);
                assert forall|other: StreamId| #[trigger]
                    next.streams.dom().contains(other) implies self@.streams[other]
                    == next.streams[other] by {
                    if other != id {
                        assert(now.streams.dom().contains(other));
                        assert(now.streams[other] == streams[other]@);
                    }
                }
                assert(now.streams.dom() =~= streams.dom());
                assert(self@.streams.dom() =~= self.state@.dom());
                assert(self@.streams.dom() =~= next.streams.dom());
                assert(self@.streams =~= next.streams);
                assert(self@.removed =~= next.removed);
            }
            i = i + 1;
        }
        proof {
            assert(ids@.take(i as int) =~= ids@);
            let after = old(self)@.abandoned(heard);
            assert(self@.streams =~= after.streams);
            assert(self@.removed =~= after.removed);
        }
    }

    /// Asks the streams that have data to send, one after the other, until one has an answer.
    pub fn get_stream_data(&mut self, buf: &mut [u8]) -> (result: Option<StreamResult>)
        requires
            old(self).well_formed(),
        ensures
            final(self).well_formed(),
            final(buf)@.len() == old(buf)@.len(),
            asked(old(self)@, final(self)@, result, final(buf)@),
    {
        broadcast use vstd::std_specs::hash::group_hash_axioms;

        let ghost before = self@;
        let ghost room = buf@.len();
        let ghost mut done: Set<StreamId> = Set::empty();
        let ids = self.interested();
        assert(done =~= ids@.take(0).to_set());
        let mut i: usize = 0;
        while i < ids.len()
            invariant
                i <= ids@.len(),
                ids@.no_duplicates(),
                ids@.to_set() == before.interest,
                before == old(self)@,
                before.valid(),
                self.state.well_formed(),
                buf@.len() == room == old(buf)@.len(),
                self@ == (SessionModel { streams: self@.streams, ..before }),
                self@.streams.dom() == before.streams.dom(),
                forall|id: StreamId| #[trigger]
                    before.streams.dom().contains(id) ==> self@.streams[id].state
                        == before.streams[id].state,
                done == ids@.take(i as int).to_set(),
                forall|id: StreamId| #[trigger]
                    before.streams.dom().contains(id) && !done.contains(id) ==> self@.streams[id]
                        == before.streams[id],
                forall|id: StreamId| #[trigger]
                    done.contains(id) ==> before.interest.contains(id) && asked_in_vain(
                        before.streams[id],
                        self@.streams[id],
                        room,
                    ),
            decreases ids@.len() - i,
        {
            let ghost now = self@;
            let ghost streams = self.state@;
            let id: StreamId = ids[i];
            proof {
                assert(ids@.to_set().contains(id));
                assert(before.interest.contains(id));
                assert(now.streams.dom().contains(id));
                assert(!done.contains(id)) by {
                    if done.contains(id) {
                        let k = choose|k: int| 0 <= k < i && #[trigger] ids@.take(i as int)[k] == id;
                        assert(ids@[k] == ids@[i as int]);
                    }
                }
                assert(now.streams[id] == streams[id]@);
            }
            if let Some(mut stream) = self.state.remove_stream(id) {
                let state = stream.stream_data(buf);
                self.state.insert_stream(id, stream);
                proof {
                    assert(self@.streams.dom() =~= before.streams.dom());
                    assert forall|other: StreamId| #[trigger]
                        before.streams.dom().contains(other) && other
                            != id implies self@.streams[other] == now.streams[other] by {
                        assert(now.streams[other] == streams[other]@);
                    }
                    assert(ids@.take(i + 1) =~= ids@.take(i as int).push(id));
                    ids@.take(i as int).lemma_push_to_set_commute(id);
                }
                if state != StreamDataState::Unavailable {
                    return Some(StreamResult { id, state });
                }
            }
            proof {
                done = done.insert(id);
            }
            i = i + 1;
        }
        assert(ids@.take(i as int) =~= ids@);
        None
    }

    /// The streams that have data to send, each once, in an order that is not fixed.
    fn interested(&self) -> (ids: Vec<StreamId>)
        ensures
            ids@.no_duplicates(),
            ids@.to_set() == self@.interest,
    {
        broadcast use vstd::std_specs::hash::group_hash_axioms;

        let mut ids: Vec<StreamId> = Vec::new();
        let ghost all = vstd::std_specs::iter::IteratorSpec::remaining(&self.interest.iter());
        for id in it: self.interest.iter()
            invariant
                it.seq() == all,
                ids@ == all.unref().take(it.index() as int),
        {
            ids.push(*id);
            assert(all.unref().take(it.index() + 1) =~= all.unref().take(it.index() as int).push(
                *id,
            ));
        }
        assert(ids@ =~= all.unref());
        ids
    }

    /// A PING arrived. It is answered.
    pub fn on_ping(&self, data: Vec<u8>, sender: &mut Ref)
        ensures
            final(sender)@ == old(sender)@.queued(ping_ack(data@)),
    {
        sender.queue_frame(build_ping_ack(data));
    }

    /// Handle a GOAWAY frame sent from the server
    ///
    /// The `last_stream_id` indicates the last stream which the client initiated that has been or
    /// may yet be processed by the server. Streams with an ID greater than this will immediately be
    /// removed from the state object and have their on_error handler called with
    /// Error::GoAwayUnprocessed(code). The other streams will have their on_error handler called
    /// with Error::GoAwayMaybeProcessed(code). Finally, an HttpError is returned from this handler
    /// which should bubble up all the way to the connection level.
    pub fn on_goaway(
        &mut self,
        last_stream_id: StreamId,
        code: Http2ErrorCode,
        debug_data: Option<Vec<u8>>,
    ) -> (err: HttpError)
        requires
            old(self).well_formed(),
        ensures
            final(self).well_formed(),
            final(self)@ == old(self)@.went_away(last_stream_id, code),
            err@ == goaway_error(code, octets_of(debug_data)),
    {
        broadcast use vstd::std_specs::hash::group_hash_axioms;

        let ghost before = self@;
        let ghost mut told: Set<StreamId> = Set::empty();
        let ids = self.state.ids();
        assert(self@.streams =~= before.streams);
        assert(self@ =~= before.going_away(told, last_stream_id, code));
        let mut i: usize = 0;
        while i < ids.len()
            invariant
                i <= ids@.len(),
                ids@.no_duplicates(),
                ids@.to_set() == before.streams.dom(),
                told == ids@.take(i as int).to_set(),
                before.valid(),
                self.state.well_formed(),
                self@ == before.going_away(told, last_stream_id, code),
            decreases ids@.len() - i,
        {
            let ghost now = self@;
            let ghost streams = self.state@;
            let id: StreamId = ids[i];
            proof {
                assert(ids@.to_set().contains(id));
                assert(!told.contains(id)) by {
                    if told.contains(id) {
                        let k = choose|k: int| 0 <= k < i && #[trigger] ids@.take(i as int)[k] == id;
                        assert(ids@[k] == ids@[i as int]);
                    }
                }
                assert(now.streams.dom().contains(id));
                assert(now.streams[id] == streams[id]@);
            }
            if let Some(mut stream) = self.state.remove_stream(id) {
                proof {
                    assert(stream@ == before.streams[id]);
                    assert(id % 2 == 1 && id < self.state.next_id());
                }
                if id > last_stream_id {
                    // Definitely unprocessed
                    stream.on_error(Error::GoAwayUnprocessed(code));
                    self.interest.remove(&id);
                    self.removed.add(id, stream);
                } else {
                    // Maybe processed
                    stream.on_error(Error::GoAwayMaybeProcessed(code));
                    self.state.insert_stream(id, stream);
                }
            }
            proof {
                told = told.insert(id);
                assert(ids@.take(i + 1) =~= ids@.take(i as int).push(id));
                ids@.take(i as int).lemma_push_to_set_commute(id);
                assert(told =~= ids@.take(i + 1).to_set());
                let next = before.going_away(told, last_stream_id, code);
                assert forall|other: StreamId| #[trigger]
                    next.streams.dom().contains(other) implies self@.streams[other]
                    == next.streams[other] by {
                    if other != id {
                        assert(now.streams.dom().contains(other));
                        assert(now.streams[other] == streams[other]@);
                    }
                }
                assert(now.streams.dom() =~= streams.dom());
                assert(self@.streams.dom() =~= self.state@.dom());
                assert(self@.streams.dom() =~= next.streams.dom());
                assert(self@.streams =~= next.streams);
                assert(self@.interest =~= next.interest);
                assert(self@.removed =~= next.removed);
            }
            i = i + 1;
        }
        proof {
            assert(ids@.take(i as int) =~= ids@);
            let after = before.went_away(last_stream_id, code);
            assert(self@.streams =~= after.streams);
            assert(self@.interest =~= after.interest);
            assert(self@.removed =~= after.removed);
        }
        match debug_data {
            Some(data) => HttpError::PeerConnectionError(
                PeerError { error_code: code, debug_data: Some(data) },
            ),
            None => HttpError::PeerConnectionError(PeerError { error_code: code, debug_data: None }),
        }
    }
}

/// Optional octets.
pub open spec fn octets_of(data: Option<Vec<u8>>) -> Option<Seq<u8>> {
    match data {
        Some(data) => Some(data@),
        None => None,
    }
}

/// The error that a GOAWAY frame amounts to.
pub open spec fn goaway_error(code: Http2ErrorCode, debug_data: Option<Seq<u8>>) -> HttpErrorModel {
    HttpErrorModel::PeerConnectionError { code, debug_data }
}

/// The frame that acknowledges settings.
pub open spec fn settings_ack() -> Seq<u8> {
    crate::frame::frame_bytes(crate::frame::SETTINGS, crate::frame::ACK, 0, Seq::empty())
}

/// The frame that answers a PING.
pub open spec fn ping_ack(data: Seq<u8>) -> Seq<u8> {
    crate::frame::frame_bytes(crate::frame::PING, crate::frame::ACK, 0, data)
}

} // verus!
