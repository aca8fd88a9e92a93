//! Hydra - An evented HTTP/2 client library
use vstd::prelude::*;
use vstd::string::*;

pub mod client;
pub mod compression;
pub mod connection;
pub mod frame;
pub mod header;
pub mod http;
pub mod laws;
pub mod protocol;
pub mod removed;
pub mod request;
pub mod session;
pub mod text;
pub mod util;
pub mod worker;

pub use header::{Headers, StatusCode};
pub use http::Http2ErrorCode;
pub use protocol::StreamDataState;
pub use request::{Error as RequestError, Handler as StreamHandler, Method, Request, Response};

use http::HttpError;
use util::{each_addr, Calls};
use worker::WorkerError;

verus! {

/// The kinds of I/O errors
#[derive(Clone, Copy, Debug, PartialEq, Eq, Structural)]
pub enum ErrorKind {
    NotFound,
    PermissionDenied,
    ConnectionRefused,
    ConnectionReset,
    ConnectionAborted,
    NotConnected,
    AddrInUse,
    AddrNotAvailable,
    BrokenPipe,
    AlreadyExists,
    WouldBlock,
    InvalidInput,
    InvalidData,
    TimedOut,
    WriteZero,
    Interrupted,
    UnexpectedEof,
    Other,
}

/// What an error that arose elsewhere says of itself.
#[derive(Debug)]
pub struct Cause {
    /// The kind of an I/O error
    pub kind: Option<ErrorKind>,
    /// What happened, in a few words
    pub description: String,
    /// The message that reports the error
    pub message: String,
    /// The error behind it, if there is one
    pub cause: Option<Box<Cause>>,
}

/// Configuration of a worker pool
pub struct Config {
    /// Time for establishing a connection, in milliseconds
    pub connect_timeout_ms: u64,
    /// How many connections a worker can have
    pub conns_per_thread: usize,
    /// How many workers there are
    pub threads: u8,
}

impl Default for Config {
    fn default() -> (config: Config)
        ensures
            config.connect_timeout_ms == 60_000,
            config.conns_per_thread == 1_024,
            config.threads == 8,
    {
        Config { connect_timeout_ms: 60_000, conns_per_thread: 1_024, threads: 8 }
    }
}

/// Establishes connections of one kind
pub trait Connector: Send + 'static {

}

/// Establishes connections without encryption
pub struct PlaintextConnector;

impl Connector for PlaintextConnector {

}

/// Errors of a worker pool
#[derive(Debug)]
pub enum HydraError {
    Io(Cause),
    Worker(WorkerError),
}

impl HydraError {
    /// What happened, in a few words.
    pub open spec fn described(self) -> Seq<char> {
        match self {
            HydraError::Io(_) => "encountered an I/O error"@,
            HydraError::Worker(err) => err.0.description@,
        }
    }

    /// The message that reports the error.
    pub open spec fn reported(self) -> Seq<char> {
        match self {
            HydraError::Io(err) => "Hydra encountered an I/O error: "@ + err.message@,
            HydraError::Worker(err) => "Hydra worker encountered error: "@ + err.0.message@,
        }
    }

    /// What happened, in a few words.
    pub fn description(&self) -> (text: &str)
        ensures
            text@ == self.described(),
    {
        match self {
            HydraError::Io(_) => "encountered an I/O error",
            HydraError::Worker(err) => err.0.description.as_str(),
        }
    }

    /// The error behind this one.
    pub fn cause(&self) -> (cause: Option<&Cause>)
        ensures
            match *self {
                HydraError::Io(err) => cause == Some(&err),
                HydraError::Worker(err) => cause == Some(&err.0),
            },
    {
        match self {
            HydraError::Io(err) => Some(err),
            HydraError::Worker(err) => Some(&err.0),
        }
    }

    /// The message that reports the error.
    pub fn message(&self) -> (text: String)
        ensures
            text@ == self.reported(),
    {
        match self {
            HydraError::Io(err) => "Hydra encountered an I/O error: ".to_owned().concat(
                err.message.as_str(),
            ),
            HydraError::Worker(err) => "Hydra worker encountered error: ".to_owned().concat(
                err.0.message.as_str(),
            ),
        }
    }
}

impl From<WorkerError> for HydraError {
    fn from(val: WorkerError) -> (err: HydraError) {
        HydraError::Worker(val)
    }
}

impl vstd::std_specs::convert::FromSpecImpl<WorkerError> for HydraError {
    open spec fn obeys_from_spec() -> bool {
        true
    }

    open spec fn from_spec(val: WorkerError) -> HydraError {
        HydraError::Worker(val)
    }
}

/// Interface to evented HTTP/2 client worker pool
pub struct Hydra<W> {
    workers: Vec<W>,
    next: usize,
}

/// The error for a host without addresses.
pub open spec fn is_unresolved(cause: Cause) -> bool {
    &&& cause.kind == Some(ErrorKind::InvalidInput)
    &&& cause.description@ == "could not resolve to any addresses"@
    &&& cause.message@ == "could not resolve to any addresses"@
    &&& cause.cause is None
}

/// Which of so many workers is next.
pub open spec fn worker_at(next: usize, workers: nat) -> int {
    next as int % workers as int
}

/// What the count of connections is after one more.
pub open spec fn one_more(next: usize) -> usize {
    if next == usize::MAX {
        0
    } else {
        (next + 1) as usize
    }
}

impl<W> Hydra<W> {
    /// The workers of the pool.
    pub closed spec fn workers(self) -> Seq<W> {
        self.workers@
    }

    /// The number of connections so far, as far as a machine word holds it.
    pub closed spec fn next(self) -> usize {
        self.next
    }

    /// Starts the workers of a pool, one after the other. If one cannot be started, neither can the
    /// pool, and the rest is not tried.
    ///
    /// What starts a worker is handed what it returned the last time, which starts as `state` and
    /// is returned in the end.
    pub fn new<C, F>(config: &Config, state: C, spawn: F) -> (outcome: (
        C,
        Result<Hydra<W>, HydraError>,
    )) where F: Fn(C, &Config) -> (C, Result<W, HydraError>)

        requires
            forall|c: C| call_requires(spawn, (c, config)),
        ensures
            exists|calls: Calls<C, Result<W, HydraError>>| #[trigger]
                started(*config, spawn, state, calls, outcome.0, outcome.1),
    {
        let ghost mut calls: Calls<C, Result<W, HydraError>> = Calls {
            states: Seq::empty(),
            results: Seq::empty(),
        };
        let mut current = state;
        let mut workers: Vec<W> = Vec::new();
        let mut i: u8 = 0;
        while i < config.threads
            invariant
                i <= config.threads,
                workers@.len() == i,
                forall|c: C| call_requires(spawn, (c, config)),
                start_calls(*config, spawn, state, calls),
                calls.len() == i,
                current == calls.before(state, i as int),
                forall|k: int|
                    0 <= k < i ==> #[trigger] calls.results[k] == Ok::<W, HydraError>(workers@[k]),
            decreases config.threads - i,
        {
            let ghost so_far = calls;
            let (next, result) = spawn(current, config);
            proof {
                calls = Calls {
                    states: so_far.states.push(next),
                    results: so_far.results.push(result),
                };
                assert forall|k: int| 0 <= k < calls.results.len() implies call_ensures(
                    spawn,
                    (calls.before(state, k), config),
                    (calls.states[k], #[trigger] calls.results[k]),
                ) by {
                    if k < i {
                        assert(calls.results[k] == so_far.results[k]);
                        assert(calls.before(state, k) == so_far.before(state, k));
                    } else {
                        assert(calls.before(state, k) == so_far.before(state, i as int));
                    }
                }
            }
            current = next;
            match result {
                Ok(worker) => workers.push(worker),
                Err(err) => {
                    assert(started(
                        *config,
                        spawn,
                        state,
                        calls,
                        current,
                        Err::<Hydra<W>, HydraError>(err),
                    ));
                    return (current, Err(err));
                },
            }
            i = i + 1;
        }
        let outcome = (current, Ok(Hydra { workers, next: 0 }));
        assert(started(*config, spawn, state, calls, outcome.0, outcome.1));
        outcome
    }

    /// Connect to a host on plaintext transport
    ///
    /// The first address on which a transport can be opened counts. The transport is handed to the
    /// workers in turn.
    ///
    /// What opens and hands over transports is handed what it returned the last time, which starts
    /// as `state` and is returned in the end.
    pub fn connect<A, C, S, F, G>(
        &mut self,
        addrs: &Vec<A>,
        state: C,
        open: F,
        hand_over: G,
    ) -> (outcome: (C, Result<(), HydraError>)) where
        F: Fn(C, &A) -> (C, Result<S, Cause>),
        G: Fn(C, &W, S) -> (C, Result<(), HydraError>),

        requires
            forall|c: C, i: int|
                0 <= i < addrs@.len() ==> call_requires(open, (c, &#[trigger] addrs@[i])),
            old(self).workers().len() == 0 ==> opens_nothing(open, addrs@),
            forall|c: C, w: &W, s: S| call_requires(hand_over, (c, w, s)),
        ensures
            final(self).workers() == old(self).workers(),
            exists|
                calls: Calls<C, Result<S, Cause>>,
                unresolved: Cause,
                opened: C,
                found: Result<S, Cause>,
            |
                {
                    &&& #[trigger] util::searched(
                        open,
                        addrs@,
                        state,
                        unresolved,
                        calls,
                        opened,
                        found,
                    )
                    &&& is_unresolved(unresolved)
                    &&& match found {
                        Ok(stream) => {
                            &&& final(self).next() == one_more(old(self).next())
                            &&& call_ensures(
                                hand_over,
                                (
                                    opened,
                                    &old(self).workers()[worker_at(
                                        old(self).next(),
                                        old(self).workers().len(),
                                    )],
                                    stream,
                                ),
                                outcome,
                            )
                        },
                        Err(cause) => {
                            &&& final(self).next() == old(self).next()
                            &&& outcome == (opened, Err::<(), HydraError>(HydraError::Io(cause)))
                        },
                    }
                },
    {
        let (state, found) = each_addr(addrs, state, open, unresolved());
        match found {
            Ok(stream) => {
                let worker: usize = self.next % self.workers.len();
                self.next = self.next.wrapping_add(1);
                hand_over(state, &self.workers[worker], stream)
            },
            Err(cause) => (state, Err(HydraError::Io(cause))),
        }
    }
}

/// The error for a host without addresses
pub fn unresolved() -> (cause: Cause)
    ensures
        is_unresolved(cause),
{
    Cause {
        kind: Some(ErrorKind::InvalidInput),
        description: "could not resolve to any addresses".to_owned(),
        message: "could not resolve to any addresses".to_owned(),
        cause: None,
    }
}

/// Whether no transport can be opened on any of the addresses.
pub open spec fn opens_nothing<A, C, S, F: Fn(C, &A) -> (C, Result<S, Cause>)>(
    open: F,
    addrs: Seq<A>,
) -> bool {
    forall|c: C, i: int, opened: (C, Result<S, Cause>)|
        0 <= i < addrs.len() && #[trigger] call_ensures(open, (c, &addrs[i]), opened)
            ==> opened.1 is Err
}

/// Whether the calls are calls of a function that starts workers, one after the other.
pub open spec fn start_calls<W, C, F: Fn(C, &Config) -> (C, Result<W, HydraError>)>(
    config: Config,
    spawn: F,
    start: C,
    calls: Calls<C, Result<W, HydraError>>,
) -> bool {
    &&& calls.states.len() == calls.results.len() <= config.threads
    &&& forall|i: int|
        0 <= i < calls.results.len() ==> call_ensures(
            spawn,
            (calls.before(start, i), &config),
            (calls.states[i], #[trigger] calls.results[i]),
        )
}

/// Whether the start of a pool made the given calls: as many as the pool has workers, which are the
/// pool's; or up to the first that failed, with its error.
pub open spec fn started<W, C, F: Fn(C, &Config) -> (C, Result<W, HydraError>)>(
    config: Config,
    spawn: F,
    start: C,
    calls: Calls<C, Result<W, HydraError>>,
    last: C,
    hydra: Result<Hydra<W>, HydraError>,
) -> bool {
    &&& start_calls(config, spawn, start, calls)
    &&& last == calls.before(start, calls.len() as int)
    &&& match hydra {
        Ok(h) => {
            &&& h.next() == 0
            &&& h.workers().len() == calls.len() == config.threads
            &&& forall|i: int|
                0 <= i < calls.len() ==> #[trigger] calls.results[i] == Ok::<W, HydraError>(
                    h.workers()[i],
                )
        },
        Err(err) => {
            &&& calls.len() > 0
            &&& calls.results.last() == Err::<W, HydraError>(err)
            &&& forall|i: int| 0 <= i < calls.len() - 1 ==> (#[trigger] calls.results[i]) is Ok
        },
    }
}

/// As long as the count of connections does not start anew, as many connections in a row as there
/// are workers go to as many different workers.
pub proof fn workers_take_turns(next: usize, workers: nat, a: nat, b: nat)
    requires
        workers > 0,
        a < b < workers,
        next + b <= usize::MAX,
    ensures
        worker_at((next + a) as usize, workers) != worker_at((next + b) as usize, workers),
        worker_at((next + a) as usize, workers) < workers,
{
    let n = workers as int;
    let x = next + a;
    let y = next + b;
    if x % n == y % n {
        vstd::arithmetic::div_mod::lemma_fundamental_div_mod(x, n);
        vstd::arithmetic::div_mod::lemma_fundamental_div_mod(y, n);
        assert(y - x == n * (y / n) - n * (x / n));
        assert(n * (y / n) - n * (x / n) == n * (y / n - x / n)) by (nonlinear_arith);
        let q = y / n - x / n;
        assert(0 < n * q < n);
        assert(false) by (nonlinear_arith)
            requires
                0 < n * q < n,
                n > 0,
        ;
    }
}

/// Errors occurring when a connection is asked for
#[derive(Debug)]
pub enum ConnectionError {
    /// IO layer encountered an error.
    Io(Cause),

    /// Error from the HTTP/2 state machine; the connection cannot be used for sending further
    /// requests.
    Http(HttpError),

    /// Timeout while connecting
    Timeout,

    /// The worker is closing and a connection can not be created.
    WorkerClosing,

    /// The worker has reached its capacity for connections
    WorkerFull,
}

impl From<HttpError> for ConnectionError {
    fn from(val: HttpError) -> (err: ConnectionError) {
        ConnectionError::Http(val)
    }
}

impl vstd::std_specs::convert::FromSpecImpl<HttpError> for ConnectionError {
    open spec fn obeys_from_spec() -> bool {
        true
    }

    open spec fn from_spec(val: HttpError) -> ConnectionError {
        ConnectionError::Http(val)
    }
}

impl ConnectionError {
    /// The same error as one of a connection.
    pub open spec fn of_connection(self) -> connection::Error {
        match self {
            ConnectionError::Io(err) => connection::Error::Io(err),
            ConnectionError::Http(err) => connection::Error::Http(err),
            ConnectionError::Timeout => connection::Error::Timeout,
            ConnectionError::WorkerClosing => connection::Error::WorkerClosing,
            ConnectionError::WorkerFull => connection::Error::WorkerFull,
        }
    }

    /// What happened, in a few words.
    pub fn description(&self) -> (text: &str)
        ensures
            text@ == self.of_connection().described(),
    {
        match self {
            ConnectionError::Io(err) => err.description.as_str(),
            ConnectionError::Http(err) => err.description(),
            ConnectionError::Timeout => "timeout when attempting to connect",
            ConnectionError::WorkerClosing => "worker isn't accepting new connections",
            ConnectionError::WorkerFull => "worker cannot manage more connections",
        }
    }

    /// The error behind this one, if there is one.
    pub fn cause(&self) -> (cause: Option<connection::Source<'_>>)
        ensures
            match *self {
                ConnectionError::Io(err) => cause == Some(connection::Source::Cause(&err)),
                ConnectionError::Http(err) => cause == Some(connection::Source::Http(&err)),
                _ => cause is None,
            },
    {
        match self {
            ConnectionError::Io(err) => Some(connection::Source::Cause(err)),
            ConnectionError::Http(err) => Some(connection::Source::Http(err)),
            _ => None,
        }
    }

    /// The message that reports the error.
    pub fn message(&self) -> (text: String)
        ensures
            text@ == self.of_connection().reported(),
    {
        match self {
            ConnectionError::Io(err) => "I/O error on connection: ".to_owned().concat(
                err.message.as_str(),
            ),
            ConnectionError::Http(err) => "HTTP/2 error on connection: ".to_owned().concat(
                err.message().as_str(),
            ),
            ConnectionError::Timeout => "Timeout during connect".to_owned(),
            ConnectionError::WorkerClosing => "Worker not accepting new connections".to_owned(),
            ConnectionError::WorkerFull => "Worker at connection capacity".to_owned(),
        }
    }
}

} // verus!
