//! The streams that have left a session
use crate::http::StreamId;
use crate::protocol::{Stream, StreamModel};
use crate::request::Handler;
use vstd::prelude::*;

verus! {

/// What is known of the streams that have left a session. It is given the streams themselves, so
/// that it cannot but know what their handlers were told.
pub struct Removed {
    streams: Ghost<Map<StreamId, StreamModel>>,
}

impl View for Removed {
    type V = Map<StreamId, StreamModel>;

    closed spec fn view(&self) -> Map<StreamId, StreamModel> {
        self.streams@
    }
}

impl Removed {
    /// No stream has left.
    pub fn new() -> (removed: Removed)
        ensures
            (removed@ == Map::<StreamId, StreamModel>::empty()),
    {
        Removed { streams: Ghost(Map::empty()) }
    }

    /// Takes a stream that leaves, as it is then.
    pub fn add<H: Handler>(&mut self, id: StreamId, stream: Stream<H>)
        ensures
            final(self)@ == old(self)@.insert(id, stream@),
    {
        self.streams = Ghost(self.streams@.insert(id, stream@));
    }
}

} // verus!
