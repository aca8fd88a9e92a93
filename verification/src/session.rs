//! The streams of a connection
use crate::http::StreamId;
use crate::protocol::Stream;
use crate::request::Handler;
use solicit::http::session::{DefaultSessionState, DefaultStream, SessionState};
use solicit::http::session::Stream as SessionStream;
use solicit::http::session::StreamState as SessionStreamState;
use std::collections::HashMap;
use vstd::prelude::*;

verus! {

/// The states that an HTTP/2 stream can be found in.
#[derive(Clone, Copy, Debug, PartialEq, Eq, Structural)]
pub enum StreamState {
    Idle,
    ReservedLocal,
    ReservedRemote,
    Open,
    HalfClosedRemote,
    HalfClosedLocal,
    Closed,
}

impl StreamState {
    /// Whether nothing more can be sent on the stream.
    pub open spec fn closed_local(self) -> bool {
        self == StreamState::HalfClosedLocal || self == StreamState::Closed
    }
}

/// The streams that the session knows of, by their states.
#[verifier::external_body]
pub struct KnownStreams {
    state: DefaultSessionState<DefaultStream>,
}

/// The state of each stream in the collection.
pub uninterp spec fn known_streams(streams: KnownStreams) -> Map<StreamId, StreamState>;

/// `solicit::http::session::DefaultSessionState::new`: no streams.
#[verifier::external_body]
fn new_known() -> (streams: KnownStreams)
    ensures
        (known_streams(streams) == Map::<StreamId, StreamState>::empty()),
{
    KnownStreams { state: DefaultSessionState::new() }
}

/// `solicit::http::session::DefaultSessionState::insert_stream`: the stream replaces one with the
/// same identifier.
#[verifier::external_body]
fn insert_known(streams: &mut KnownStreams, id: StreamId, state: StreamState)
    ensures
        known_streams(*final(streams)) == known_streams(*old(streams)).insert(id, state),
{
    let mut stream = DefaultStream::new(id);
    stream.set_state(match state {
        StreamState::Idle => SessionStreamState::Idle,
        StreamState::ReservedLocal => SessionStreamState::ReservedLocal,
        StreamState::ReservedRemote => SessionStreamState::ReservedRemote,
        StreamState::Open => SessionStreamState::Open,
        StreamState::HalfClosedRemote => SessionStreamState::HalfClosedRemote,
        StreamState::HalfClosedLocal => SessionStreamState::HalfClosedLocal,
        StreamState::Closed => SessionStreamState::Closed,
    });
    streams.state.insert_stream(stream);
}

/// `solicit::http::session::DefaultSessionState::remove_stream`: takes a stream out, if it is
/// there.
#[verifier::external_body]
fn remove_known(streams: &mut KnownStreams, id: StreamId) -> (state: Option<StreamState>)
    ensures
        known_streams(*final(streams)) == known_streams(*old(streams)).remove(id),
        match state {
            Some(s) => known_streams(*old(streams)).dom().contains(id) && known_streams(
                *old(streams),
            )[id] == s,
            None => !known_streams(*old(streams)).dom().contains(id),
        },
{
    streams.state.remove_stream(id).map(|stream| match stream.state() {
        SessionStreamState::Idle => StreamState::Idle,
        SessionStreamState::ReservedLocal => StreamState::ReservedLocal,
        SessionStreamState::ReservedRemote => StreamState::ReservedRemote,
        SessionStreamState::Open => StreamState::Open,
        SessionStreamState::HalfClosedRemote => StreamState::HalfClosedRemote,
        SessionStreamState::HalfClosedLocal => StreamState::HalfClosedLocal,
        SessionStreamState::Closed => StreamState::Closed,
    })
}

/// `solicit::http::session::DefaultSessionState::get_stream_ref`: the state of a stream, if it is
/// there.
#[verifier::external_body]
fn state_known(streams: &KnownStreams, id: StreamId) -> (state: Option<StreamState>)
    ensures
        match state {
            Some(s) => known_streams(*streams).dom().contains(id) && known_streams(*streams)[id]
                == s,
            None => !known_streams(*streams).dom().contains(id),
        },
{
    streams.state.get_stream_ref(id).map(|stream| match stream.state() {
        SessionStreamState::Idle => StreamState::Idle,
        SessionStreamState::ReservedLocal => StreamState::ReservedLocal,
        SessionStreamState::ReservedRemote => StreamState::ReservedRemote,
        SessionStreamState::Open => StreamState::Open,
        SessionStreamState::HalfClosedRemote => StreamState::HalfClosedRemote,
        SessionStreamState::HalfClosedLocal => StreamState::HalfClosedLocal,
        SessionStreamState::Closed => StreamState::Closed,
    })
}

/// `solicit::http::session::DefaultSessionState::iter`: the identifiers of the streams, each once,
/// in an order that is not fixed.
#[verifier::external_body]
fn list_known(streams: &mut KnownStreams) -> (ids: Vec<StreamId>)
    ensures
        known_streams(*final(streams)) == known_streams(*old(streams)),
        ids@.no_duplicates(),
        ids@.to_set() == known_streams(*old(streams)).dom(),
{
    streams.state.iter().map(|stream| stream.id()).collect()
}

/// The streams of a connection and the identifier of the next one
pub struct Session<H: Handler> {
    known: KnownStreams,
    handlers: HashMap<StreamId, H>,
    next: StreamId,
}

impl<H: Handler> View for Session<H> {
    type V = Map<StreamId, Stream<H>>;

    closed spec fn view(&self) -> Map<StreamId, Stream<H>> {
        Map::new(
            |id: StreamId| known_streams(self.known).dom().contains(id),
            |id: StreamId|
                Stream { state: known_streams(self.known)[id], inner: self.handlers@[id] },
        )
    }
}

impl<H: Handler> Session<H> {
    /// The identifier of the next stream.
    pub closed spec fn next_id(self) -> StreamId {
        self.next
    }

    /// Each stream has a handler. The identifiers of the streams are odd and below that of the next
    /// stream.
    pub closed spec fn well_formed(self) -> bool {
        &&& known_streams(self.known).dom() == self.handlers@.dom()
        &&& self.next % 2 == 1
        &&& forall|id: StreamId| #[trigger]
            known_streams(self.known).dom().contains(id) ==> id % 2 == 1 && id < self.next
    }

    /// A session without streams
    pub fn new() -> (session: Session<H>)
        ensures
            session.well_formed(),
            session.next_id() == 1,
            (session@ == Map::<StreamId, Stream<H>>::empty()),
    {
        broadcast use vstd::std_specs::hash::group_hash_axioms;

        Session { known: new_known(), handlers: HashMap::new(), next: 1 }
    }

    /// The identifier of the next stream
    pub fn next_stream_id(&self) -> (id: StreamId)
        ensures
            id == self.next_id(),
    {
        self.next
    }

    /// Adds a stream that this side opens. It gets the next identifier.
    pub fn insert_outgoing(&mut self, stream: Stream<H>) -> (id: StreamId)
        requires
            old(self).well_formed(),
            old(self).next_id() <= u32::MAX - 2,
        ensures
            final(self).well_formed(),
            id == old(self).next_id(),
            !old(self)@.dom().contains(id),
            final(self)@ == old(self)@.insert(id, stream),
            final(self).next_id() == id + 2,
    {
        broadcast use vstd::std_specs::hash::group_hash_axioms;

        let id: StreamId = self.next;
        let Stream { state, inner } = stream;
        insert_known(&mut self.known, id, state);
        self.handlers.insert(id, inner);
        self.next = id + 2;
        proof {
            assert(self@ =~= old(self)@.insert(id, stream));
        }
        id
    }

    /// Takes a stream out, if the session knows it.
    pub fn remove_stream(&mut self, id: StreamId) -> (stream: Option<Stream<H>>)
        requires
            old(self).well_formed(),
        ensures
            final(self).well_formed(),
            final(self)@ == old(self)@.remove(id),
            final(self).next_id() == old(self).next_id(),
            match stream {
                Some(s) => old(self)@.dom().contains(id) && s == old(self)@[id],
                None => !old(self)@.dom().contains(id),
            },
    {
        broadcast use vstd::std_specs::hash::group_hash_axioms;

        match remove_known(&mut self.known, id) {
            Some(state) => {
                let inner = self.handlers.remove(&id);
                proof {
                    assert(self@ =~= old(self)@.remove(id));
                    assert(known_streams(self.known).dom() =~= self.handlers@.dom());
                }
                match inner {
                    Some(inner) => Some(Stream { state, inner }),
                    None => None,
                }
            },
            None => {
                proof {
                    assert(self@ =~= old(self)@.remove(id));
                    assert(known_streams(self.known).dom() =~= self.handlers@.dom());
                }
                None
            },
        }
    }

    /// Whether an identifier has been given to a stream of this session.
    pub open spec fn issued(self, id: StreamId) -> bool {
        id % 2 == 1 && id < self.next_id()
    }

    /// The streams of the session have identifiers that the session gave them.
    pub proof fn known_are_issued(&self, id: StreamId)
        requires
            self.well_formed(),
            self@.dom().contains(id),
        ensures
            self.issued(id),
    {
    }

    /// Puts back a stream that was taken out.
    pub fn insert_stream(&mut self, id: StreamId, stream: Stream<H>)
        requires
            old(self).well_formed(),
            old(self).issued(id),
        ensures
            final(self).well_formed(),
            final(self)@ == old(self)@.insert(id, stream),
            final(self).next_id() == old(self).next_id(),
    {
        broadcast use vstd::std_specs::hash::group_hash_axioms;

        let Stream { state, inner } = stream;
        insert_known(&mut self.known, id, state);
        self.handlers.insert(id, inner);
        proof {
            assert(self@ =~= old(self)@.insert(id, stream));
        }
    }

    /// The identifiers of the streams, each once
    pub fn ids(&mut self) -> (ids: Vec<StreamId>)
        requires
            old(self).well_formed(),
        ensures
            final(self).well_formed(),
            final(self)@ == old(self)@,
            final(self).next_id() == old(self).next_id(),
            ids@.no_duplicates(),
            ids@.to_set() == old(self)@.dom(),
    {
        let ids = list_known(&mut self.known);
        proof {
            assert(self@ =~= old(self)@);
            assert(known_streams(old(self).known).dom() =~= old(self)@.dom());
        }
        ids
    }

    /// Whether a stream is not closed yet
    pub fn has_active_streams(&mut self) -> (active: bool)
        requires
            old(self).well_formed(),
        ensures
            final(self).well_formed(),
            final(self)@ == old(self)@,
            final(self).next_id() == old(self).next_id(),
            active == exists|id: StreamId| #[trigger]
                old(self)@.dom().contains(id) && old(self)@[id].state != StreamState::Closed,
    {
        let ids = self.ids();
        let ghost streams = self@;
        let mut i: usize = 0;
        while i < ids.len()
            invariant
                i <= ids@.len(),
                ids@.to_set() == streams.dom(),
                streams == old(self)@,
                self@ == streams,
                self.well_formed(),
                self.next_id() == old(self).next_id(),
                forall|k: int|
                    0 <= k < i ==> streams[#[trigger] ids@[k]].state == StreamState::Closed,
            decreases ids@.len() - i,
        {
            let id: StreamId = ids[i];
            assert(ids@.to_set().contains(id));
            assert(streams.dom().contains(id));
            if let Some(state) = state_known(&self.known, id) {
                if state != StreamState::Closed {
                    return true;
                }
            }
            i = i + 1;
        }
        proof {
            assert forall|id: StreamId| #[trigger]
                streams.dom().contains(id) implies streams[id].state == StreamState::Closed by {
                assert(ids@.to_set().contains(id));
                let k = choose|k: int| 0 <= k < ids@.len() && #[trigger] ids@[k] == id;
            }
        }
        false
    }
}

} // verus!
