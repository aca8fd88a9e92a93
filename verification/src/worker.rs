//! Evented HTTP/2 client threads supporting multiple connections
//!
//! A worker decides what happens with the connections of its event loop; the loop does it.
use crate::connection::{Error, EventSet};
use crate::protocol;
use crate::request::{self, Handler};
use crate::{Cause, Config};
use mio::util::Slab;
use mio::Token;
use std::collections::HashSet;
use vstd::prelude::*;

verus! {

/// The places for connections, each with the token that names it.
#[verifier::external_body]
pub struct Connections {
    slab: Slab<()>,
}

/// The tokens of the places that are taken.
pub uninterp spec fn taken(connections: Connections) -> Set<usize>;

/// The number of places.
pub uninterp spec fn places(connections: Connections) -> nat;

/// `mio::util::Slab::new`: so many places, none of them taken.
#[verifier::external_body]
fn new_connections(capacity: usize) -> (connections: Connections)
    requires
        capacity * 16 <= isize::MAX,
    ensures
        taken(connections) == Set::<usize>::empty(),
        places(connections) == capacity,
{
    Connections { slab: Slab::new(capacity) }
}

/// `mio::util::Slab::insert`: takes a free place, if there is one.
#[verifier::external_body]
fn insert_connection(connections: &mut Connections) -> (token: Option<usize>)
    ensures
        places(*final(connections)) == places(*old(connections)),
        match token {
            Some(t) => {
                &&& t < places(*old(connections))
                &&& !taken(*old(connections)).contains(t)
                &&& taken(*old(connections)).len() < places(*old(connections))
                &&& taken(*final(connections)) == taken(*old(connections)).insert(t)
            },
            None => taken(*final(connections)) == taken(*old(connections)) && taken(
                *old(connections),
            ).len() >= places(*old(connections)),
        },
{
    connections.slab.insert(()).ok().map(|token| token.as_usize())
}

/// `mio::util::Slab::contains`: whether a place is taken.
#[verifier::external_body]
fn contains_connection(connections: &Connections, token: usize) -> (found: bool)
    requires
        token < places(*connections),
    ensures
        found == taken(*connections).contains(token),
{
    connections.slab.contains(Token(token))
}

/// `mio::util::Slab::remove`: frees a place that is taken.
#[verifier::external_body]
fn remove_connection(connections: &mut Connections, token: usize) -> (removed: Option<()>)
    requires
        taken(*old(connections)).contains(token),
    ensures
        removed is Some,
        places(*final(connections)) == places(*old(connections)),
        taken(*final(connections)) == taken(*old(connections)).remove(token),
{
    connections.slab.remove(Token(token))
}

/// `mio::util::Slab::count`: how many places are taken.
#[verifier::external_body]
fn count_connections(connections: &Connections) -> (count: usize)
    ensures
        count == taken(*connections).len(),
{
    connections.slab.count()
}

/// An error of a worker thread
#[derive(Debug)]
pub struct WorkerError(pub Cause);

/// Contains state relevant for managing a worker.
#[derive(Clone, Copy, Debug, PartialEq, Eq, Structural)]
pub struct Info {
    /// Number of active worker connections
    ///
    /// Workers have a maximum number of connections they can handle. Tracking active_connections is
    /// necessary so that higher level code can avoid requesting a new connection when the pool is
    /// full.
    active_connections: usize,
}

impl Info {
    /// The number of active connections.
    pub closed spec fn active(self) -> usize {
        self.active_connections
    }

    /// Create a new Info struct.
    pub fn new() -> (info: Info)
        ensures
            info.active() == 0,
    {
        Default::default()
    }

    /// Number of active connections for the worker
    pub fn active_connections(&self) -> (count: usize)
        ensures
            count == self.active(),
    {
        self.active_connections
    }
}

impl Default for Info {
    fn default() -> (info: Info)
        ensures
            info.active() == 0,
    {
        Info { active_connections: 0 }
    }
}

/// Messages sent to the worker
#[derive(Debug)]
pub enum Msg<H: Handler> {
    /// Request to establish a new connection.
    CreatePlaintextConnection,

    /// Send a message to a client on this thread
    Protocol(usize, protocol::Msg<H>),

    /// Worker should stop creating new streams, finish processing active streams, and terminate.
    Terminate,
}

/// Timeouts of the worker
#[derive(Clone, Copy, Debug, PartialEq, Eq, Structural)]
pub enum Timeout {
    /// Connect timed out
    Connect(usize),
}

/// What the event loop is to do
#[derive(Debug)]
pub enum Task<H: Handler> {
    /// Register the new transport with the given token and events, and start a connection on it.
    Connect(usize, EventSet),

    /// Report the error to the handler of the connection that was asked for.
    Refuse(Error),

    /// Hand the message to the connection with the given token.
    Deliver(usize, protocol::Msg<H>),

    /// No stream is made for the handler, which has been told so.
    RefuseStream(H),

    /// Deregister the connection with the given token, and report the error to its handler.
    Drop(usize, Error),

    /// Stop.
    Shutdown,

    /// Go on.
    Nothing,
}

/// A `Worker` as contracts speak of it.
#[verifier::ext_equal]
pub struct WorkerModel {
    /// Time for establishing a connection, in milliseconds
    pub connect_timeout: u64,
    /// The tokens of the connections
    pub connections: Set<usize>,
    /// The number of connections that there is room for
    pub capacity: nat,
    /// The tokens of the connections that have active streams
    pub busy: Set<usize>,
    /// Whether no more connections and streams are made
    pub closing: bool,
    /// The number of connections that is told to others
    pub active: nat,
}

impl WorkerModel {
    /// The tokens of the connections are within the capacity, and their number is told right.
    pub open spec fn valid(self) -> bool {
        &&& self.connections.finite()
        &&& forall|token: usize| #[trigger]
            self.connections.contains(token) ==> token < self.capacity
        &&& self.busy.subset_of(self.connections)
        &&& self.active == self.connections.len()
    }

    /// With a connection more.
    pub open spec fn with_connection(self, token: usize) -> WorkerModel {
        WorkerModel {
            connections: self.connections.insert(token),
            active: self.connections.insert(token).len(),
            ..self
        }
    }

    /// With a connection less.
    pub open spec fn without_connection(self, token: usize) -> WorkerModel {
        WorkerModel {
            connections: self.connections.remove(token),
            active: self.connections.remove(token).len(),
            busy: self.busy.remove(token),
            ..self
        }
    }

    /// With a connection that has active streams, or none.
    pub open spec fn with_activity(self, token: usize, busy: bool) -> WorkerModel {
        WorkerModel {
            busy: if busy {
                self.busy.insert(token)
            } else {
                self.busy.remove(token)
            },
            ..self
        }
    }

    /// Shutting down, with its active streams finished.
    pub open spec fn is_done(self) -> bool {
        self.closing && self.busy == Set::<usize>::empty()
    }
}

/// A worker never has more connections than it has room for.
pub proof fn never_over_capacity(worker: WorkerModel)
    requires
        worker.valid(),
    ensures
        worker.connections.len() <= worker.capacity,
        worker.active <= worker.capacity,
{
    bounded_tokens(worker.connections, worker.capacity);
}

/// There are no more tokens below a number than the number says.
proof fn bounded_tokens(tokens: Set<usize>, bound: nat)
    requires
        tokens.finite(),
        forall|token: usize| #[trigger] tokens.contains(token) ==> token < bound,
    ensures
        tokens.len() <= bound,
    decreases bound,
{
    if bound == 0 {
        if tokens.len() > 0 {
            assert(tokens.contains(tokens.choose()));
        }
    } else if bound - 1 <= usize::MAX {
        bounded_tokens(tokens.remove((bound - 1) as usize), (bound - 1) as nat);
    } else {
        bounded_tokens(tokens, (bound - 1) as nat);
    }
}

/// Decides what happens with the connections of an event loop
///
/// The worker resides on its own thread, with the event loop that does what it says.
pub struct Worker {
    /// Info about this worker
    info: Info,

    /// Connect timeout
    connect_timeout: u64,

    /// Connections
    connections: Connections,

    /// The number of connections that there is room for
    capacity: usize,

    /// The tokens of the connections that have active streams
    busy: HashSet<usize>,

    /// True when the worker is cleaning up and shutting down
    closing: bool,
}

impl View for Worker {
    type V = WorkerModel;

    closed spec fn view(&self) -> WorkerModel {
        WorkerModel {
            connect_timeout: self.connect_timeout,
            connections: taken(self.connections),
            capacity: places(self.connections),
            busy: self.busy@,
            closing: self.closing,
            active: self.info.active() as nat,
        }
    }
}

impl Worker {
    /// The worker's connections and numbers fit together.
    pub closed spec fn well_formed(self) -> bool {
        self@.valid() && places(self.connections) == self.capacity
    }

    /// A well formed worker is valid.
    pub proof fn workers_are_valid(&self)
        requires
            self.well_formed(),
        ensures
            self@.valid(),
    {
    }

    /// Create a new worker
    pub fn new(config: &Config) -> (worker: Worker)
        requires
            config.conns_per_thread * 16 <= isize::MAX,
        ensures
            worker.well_formed(),
            worker@ == (WorkerModel {
                connect_timeout: config.connect_timeout_ms,
                connections: Set::empty(),
                capacity: config.conns_per_thread as nat,
                busy: Set::empty(),
                closing: false,
                active: 0,
            }),
    {
        broadcast use vstd::std_specs::hash::group_hash_axioms;

        Worker {
            info: Info::new(),
            connect_timeout: config.connect_timeout_ms,
            connections: new_connections(config.conns_per_thread),
            capacity: config.conns_per_thread,
            busy: HashSet::new(),
            closing: false,
        }
    }

    /// Info about this worker
    pub fn info(&self) -> (info: &Info)
        ensures
            info.active() == self@.active,
    {
        &self.info
    }

    /// Time for establishing a connection, in milliseconds
    pub fn connect_timeout(&self) -> (timeout: u64)
        ensures
            timeout == self@.connect_timeout,
    {
        self.connect_timeout
    }

    /// Whether there is a connection with the given token
    pub fn has_connection(&self, token: usize) -> (found: bool)
        requires
            self.well_formed(),
        ensures
            found == self@.connections.contains(token),
    {
        token < self.capacity && contains_connection(&self.connections, token)
    }

    /// Makes a connection, or refuses to.
    fn add_connection<H: Handler>(&mut self) -> (task: Task<H>)
        requires
            old(self).well_formed(),
        ensures
            final(self).well_formed(),
            match task {
                Task::Connect(token, events) => {
                    &&& old(self)@.connections.len() < old(self)@.capacity
                    &&& token < old(self)@.capacity
                    &&& !old(self)@.connections.contains(token)
                    &&& events == EventSet { readable: true, writable: true }
                    &&& final(self)@ == old(self)@.with_connection(token)
                },
                Task::Refuse(Error::WorkerFull) => {
                    &&& old(self)@.connections.len() >= old(self)@.capacity
                    &&& final(self)@ == old(self)@
                },
                _ => false,
            },
    {
        match insert_connection(&mut self.connections) {
            Some(token) => {
                self.info.active_connections = count_connections(&self.connections);
                Task::Connect(token, EventSet { readable: true, writable: true })
            },
            None => Task::Refuse(Error::WorkerFull),
        }
    }

    /// Decides what to do about a message.
    ///
    /// A worker that is to terminate makes no more connections and streams. It stops at once if no
    /// stream is active, else when the last is finished.
    pub fn notify<H: Handler>(&mut self, msg: Msg<H>) -> (task: Task<H>)
        requires
            old(self).well_formed(),
            msg matches Msg::Protocol(token, _) ==> old(self)@.connections.contains(token),
        ensures
            final(self).well_formed(),
            match msg {
                Msg::CreatePlaintextConnection => if old(self)@.closing {
                    task == Task::<H>::Refuse(Error::WorkerClosing) && final(self)@ == old(self)@
                } else if old(self)@.connections.len() >= old(self)@.capacity {
                    task == Task::<H>::Refuse(Error::WorkerFull) && final(self)@ == old(self)@
                } else {
                    &&& task matches Task::Connect(token, events)
                    &&& token < old(self)@.capacity
                    &&& !old(self)@.connections.contains(token)
                    &&& events == EventSet { readable: true, writable: true }
                    &&& final(self)@ == old(self)@.with_connection(token)
                },
                Msg::Protocol(token, msg) => {
                    &&& final(self)@ == old(self)@
                    &&& match msg {
                        protocol::Msg::CreateStream(_, handler) if old(self)@.closing => {
                            &&& task matches Task::RefuseStream(told)
                            &&& told.log() == handler.log().push(
                                request::Event::Failed(request::Error::Connection),
                            )
                        },
                        _ => task == Task::Deliver(token, msg),
                    }
                },
                Msg::Terminate => {
                    &&& final(self)@ == (WorkerModel { closing: true, ..old(self)@ })
                    &&& task == if !old(self)@.closing && final(self)@.is_done() {
                        Task::<H>::Shutdown
                    } else {
                        Task::<H>::Nothing
                    }
                },
            },
    {
        match msg {
            Msg::CreatePlaintextConnection => if self.closing {
                Task::Refuse(Error::WorkerClosing)
            } else {
                self.add_connection()
            },
            Msg::Protocol(token, protocol_msg) => match protocol_msg {
                protocol::Msg::CreateStream(request, handler) => if self.closing {
                    let mut handler = handler;
                    handler.on_error(request::Error::Connection);
                    Task::RefuseStream(handler)
                } else {
                    Task::Deliver(token, protocol::Msg::CreateStream(request, handler))
                },
                protocol::Msg::Ping => Task::Deliver(token, protocol::Msg::Ping),
            },
            Msg::Terminate => if !self.closing {
                self.closing = true;
                self.settle()
            } else {
                Task::Nothing
            },
        }
    }

    /// Takes note of whether a connection has active streams.
    pub fn activity(&mut self, token: usize, busy: bool)
        requires
            old(self).well_formed(),
            old(self)@.connections.contains(token),
        ensures
            final(self).well_formed(),
            final(self)@ == old(self)@.with_activity(token, busy),
    {
        broadcast use vstd::std_specs::hash::group_hash_axioms;

        if busy {
            self.busy.insert(token);
        } else {
            self.busy.remove(&token);
        }
    }

    /// Whether it is time to stop
    pub fn settle<H: Handler>(&self) -> (task: Task<H>)
        ensures
            task == if self@.is_done() {
                Task::<H>::Shutdown
            } else {
                Task::<H>::Nothing
            },
    {
        broadcast use vstd::std_specs::hash::group_hash_axioms;

        if self.closing && self.busy.is_empty() {
            Task::Shutdown
        } else {
            Task::Nothing
        }
    }

    /// Gives up a connection because of an error.
    pub fn close<H: Handler>(&mut self, token: usize, err: Error) -> (task: Task<H>)
        requires
            old(self).well_formed(),
        ensures
            final(self).well_formed(),
            if old(self)@.connections.contains(token) {
                &&& task == Task::<H>::Drop(token, err)
                &&& final(self)@ == old(self)@.without_connection(token)
            } else {
                task == Task::<H>::Nothing && final(self)@ == old(self)@
            },
    {
        broadcast use vstd::std_specs::hash::group_hash_axioms;

        if self.has_connection(token) {
            remove_connection(&mut self.connections, token);
            self.busy.remove(&token);
            self.info.active_connections = count_connections(&self.connections);
            Task::Drop(token, err)
        } else {
            Task::Nothing
        }
    }

    /// Decides what to do about a timeout.
    ///
    /// If a connect timeout arrives, that means the connection has not been established. Remove the
    /// connection and run the timeout handler.
    pub fn timeout<H: Handler>(&mut self, timeout: Timeout) -> (task: Task<H>)
        requires
            old(self).well_formed(),
        ensures
            final(self).well_formed(),
            match timeout {
                Timeout::Connect(token) => if old(self)@.connections.contains(token) {
                    &&& task == Task::<H>::Drop(token, Error::Timeout)
                    &&& final(self)@ == old(self)@.without_connection(token)
                } else {
                    task == Task::<H>::Nothing && final(self)@ == old(self)@
                },
            },
    {
        match timeout {
            Timeout::Connect(token) => self.close(token, Error::Timeout),
        }
    }

    /// The event loop has come to its end. No more connections are made.
    pub fn finish(&mut self)
        requires
            old(self).well_formed(),
        ensures
            final(self).well_formed(),
            final(self)@ == (WorkerModel { closing: true, ..old(self)@ }),
    {
        self.closing = true;
    }
}

} // verus!
