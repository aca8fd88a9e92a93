//! What holds of workers and pools of them
use crate::connection::{Error, EventSet};
use crate::protocol;
use crate::request::{self, Handler, Request};
use crate::util::Calls;
use crate::worker::{Info, Msg, Task, Timeout, Worker, WorkerModel};
use crate::{Cause, Config, ErrorKind, Hydra, HydraError};
use vstd::prelude::*;

verus! {

/// A new worker has no connections and as much room as the configuration says.
pub proof fn workers_start_empty(config: &Config, worker: Worker)
    requires
        call_ensures(Worker::new, (config,), worker),
    ensures
        worker@.connect_timeout == config.connect_timeout_ms,
        worker@.capacity == config.conns_per_thread,
        worker@.active == 0,
        !worker@.closing,
        forall|token: usize| !#[trigger] worker@.connections.contains(token),
        forall|token: usize| !#[trigger] worker@.busy.contains(token),
{
}

/// A connection is made if there is room, with a token that no other has, unless the worker is
/// closing. The transport is watched in both directions.
pub proof fn connections_are_made<H: Handler>(worker: &mut Worker, task: Task<H>)
    requires
        call_ensures(Worker::notify::<H>, (worker, Msg::CreatePlaintextConnection), task),
        old(worker)@.connections.finite(),
    ensures
        old(worker)@.closing ==> task == Task::<H>::Refuse(Error::WorkerClosing)
            && final(worker)@ == old(worker)@,
        !old(worker)@.closing && old(worker)@.connections.len() >= old(worker)@.capacity ==> task
            == Task::<H>::Refuse(Error::WorkerFull) && final(worker)@ == old(worker)@,
        !old(worker)@.closing && old(worker)@.connections.len() < old(worker)@.capacity ==> {
            &&& task is Connect
            &&& task->Connect_0 < old(worker)@.capacity
            &&& task->Connect_1 == EventSet { readable: true, writable: true }
            &&& !old(worker)@.connections.contains(task->Connect_0)
            &&& final(worker)@ == WorkerModel {
                connections: old(worker)@.connections.insert(task->Connect_0),
                active: old(worker)@.connections.len() + 1,
                ..old(worker)@
            }
        },
{
}

/// Messages for a connection are handed to it, but a closing worker makes no more streams: the
/// handler of such a request hears that it failed.
pub proof fn messages_are_delivered<H: Handler>(
    worker: &mut Worker,
    token: usize,
    request: Request,
    handler: H,
    task: Task<H>,
)
    ensures
        call_ensures(Worker::notify::<H>, (worker, Msg::Protocol(token, protocol::Msg::Ping)), task)
            ==> task == Task::<H>::Deliver(token, protocol::Msg::Ping) && final(worker)@ == old(
            worker,
        )@,
        call_ensures(
            Worker::notify::<H>,
            (worker, Msg::Protocol(token, protocol::Msg::CreateStream(request, handler))),
            task,
        ) ==> {
            &&& final(worker)@ == old(worker)@
            &&& if old(worker)@.closing {
                &&& task is RefuseStream
                &&& task->RefuseStream_0.log() == handler.log().push(
                    request::Event::Failed(request::Error::Connection),
                )
            } else {
                task == Task::Deliver(token, protocol::Msg::CreateStream(request, handler))
            }
        },
{
}

/// A worker that is to terminate makes no more connections. It stops at once if no connection has
/// active streams. To be told again makes no difference.
pub proof fn workers_terminate<H: Handler>(worker: &mut Worker, task: Task<H>)
    requires
        call_ensures(Worker::notify::<H>, (worker, Msg::Terminate), task),
    ensures
        final(worker)@ == (WorkerModel { closing: true, ..old(worker)@ }),
        old(worker)@.closing ==> task is Nothing,
        !old(worker)@.closing ==> (task is Shutdown <==> forall|token: usize| !#[trigger]
            old(worker)@.busy.contains(token)),
        task is Shutdown || task is Nothing,
{
    let busy = old(worker)@.busy;
    if forall|token: usize| !#[trigger] busy.contains(token) {
        assert(busy =~= Set::empty());
    }
}

/// A closing worker stops as soon as no connection has active streams, and not before; one that is
/// not closing never does.
pub proof fn workers_stop_when_done<H: Handler>(worker: &Worker, task: Task<H>)
    requires
        call_ensures(Worker::settle::<H>, (worker,), task),
    ensures
        task is Shutdown <==> worker@.closing && forall|token: usize| !#[trigger]
            worker@.busy.contains(token),
        task is Shutdown || task is Nothing,
{
    if forall|token: usize| !#[trigger] worker@.busy.contains(token) {
        assert(worker@.busy =~= Set::empty());
    }
}

/// A connection is given up with all that belongs to it, and its handler is to hear why; one that
/// there is not makes no difference. A connection that is not established in time is given up.
pub proof fn connections_are_given_up<H: Handler>(
    worker: &mut Worker,
    token: usize,
    err: Error,
    task: Task<H>,
)
    requires
        old(worker)@.connections.finite(),
    ensures
        ({
            let gone = WorkerModel {
                connections: old(worker)@.connections.remove(token),
                busy: old(worker)@.busy.remove(token),
                active: (old(worker)@.connections.len() - 1) as nat,
                ..old(worker)@
            };
            let known = old(worker)@.connections.contains(token);
            &&& call_ensures(Worker::close::<H>, (worker, token, err), task) ==> if known {
                task == Task::<H>::Drop(token, err) && final(worker)@ == gone
            } else {
                task == Task::<H>::Nothing && final(worker)@ == old(worker)@
            }
            &&& call_ensures(Worker::timeout::<H>, (worker, Timeout::Connect(token)), task)
                ==> if known {
                task == Task::<H>::Drop(token, Error::Timeout) && final(worker)@ == gone
            } else {
                task == Task::<H>::Nothing && final(worker)@ == old(worker)@
            }
        }),
{
}

/// What is said of the streams of a connection is noted, and nothing else.
pub proof fn activity_is_noted(worker: &mut Worker, token: usize, busy: bool)
    ensures
        call_ensures(Worker::activity, (worker, token, busy), ()) ==> {
            &&& final(worker)@ == WorkerModel { busy: final(worker)@.busy, ..old(worker)@ }
            &&& forall|other: usize| #[trigger]
                final(worker)@.busy.contains(other) <==> if other == token {
                    busy
                } else {
                    old(worker)@.busy.contains(other)
                }
        },
        call_ensures(Worker::finish, (worker,), ()) ==> final(worker)@ == (WorkerModel {
            closing: true,
            ..old(worker)@
        }),
{
}

/// What a worker says of itself.
pub proof fn workers_speak_true(
    worker: &Worker,
    info: &Info,
    active: usize,
    timeout: u64,
    token: usize,
    found: bool,
)
    requires
        call_ensures(Worker::info, (worker,), info),
        call_ensures(Info::active_connections, (info,), active),
        call_ensures(Worker::connect_timeout, (worker,), timeout),
        call_ensures(Worker::has_connection, (worker, token), found),
    ensures
        active == worker@.active,
        timeout == worker@.connect_timeout,
        found <==> worker@.connections.contains(token),
{
}

/// A search calls its function on the items in order, each time with what came back the time
/// before, up to the first success, which is the outcome; without a success it calls it on all of
/// them, and the last failure is the outcome, or the one given for the case that there is no item.
pub proof fn searches_end_with_the_first_success<A, C, T, E, F: Fn(C, &A) -> (C, Result<T, E>)>(
    f: F,
    items: Seq<A>,
    start: C,
    unresolved: E,
    calls: Calls<C, Result<T, E>>,
    last: C,
    result: Result<T, E>,
)
    requires
        crate::util::searched(f, items, start, unresolved, calls, last, result),
    ensures
        ({
            let n = calls.results.len();
            &&& calls.states.len() == n
            &&& n <= items.len()
            &&& forall|i: int|
                0 <= i < n ==> call_ensures(
                    f,
                    (
                        if i == 0 {
                            start
                        } else {
                            calls.states[i - 1]
                        },
                        &items[i],
                    ),
                    (calls.states[i], #[trigger] calls.results[i]),
                )
            &&& last == if n == 0 {
                start
            } else {
                calls.states[n - 1]
            }
            &&& match result {
                Ok(_) => {
                    &&& n > 0
                    &&& calls.results[n - 1] == result
                    &&& forall|i: int| 0 <= i < n - 1 ==> (#[trigger] calls.results[i]) is Err
                },
                Err(err) => {
                    &&& n == items.len()
                    &&& forall|i: int| 0 <= i < n ==> (#[trigger] calls.results[i]) is Err
                    &&& n == 0 ==> err == unresolved
                    &&& n > 0 ==> calls.results[n - 1] == result
                },
            }
        }),
{
    let n = calls.results.len();
    if n > 0 && result is Err {
        assert forall|i: int| 0 <= i < n implies (#[trigger] calls.results[i]) is Err by {
            if i == n - 1 {
                assert(calls.results[i] == calls.results.last());
            }
        }
    }
}

/// The search is the one that `each_addr` makes.
pub proof fn addresses_are_searched<A, C, T, E, F: Fn(C, &A) -> (C, Result<T, E>)>(
    addrs: &Vec<A>,
    state: C,
    f: F,
    unresolved: E,
    outcome: (C, Result<T, E>),
)
    requires
        call_ensures(
            crate::util::each_addr::<A, C, T, E, F>,
            (addrs, state, f, unresolved),
            outcome,
        ),
    ensures
        exists|calls: Calls<C, Result<T, E>>| #[trigger]
            crate::util::searched(f, addrs@, state, unresolved, calls, outcome.0, outcome.1),
{
}

/// The workers of a pool are started one after the other, as many as the configuration says. The
/// first that cannot be started ends it, with its error.
pub proof fn pools_start_their_workers<W, C, F: Fn(C, &Config) -> (C, Result<W, HydraError>)>(
    config: &Config,
    state: C,
    spawn: F,
    outcome: (C, Result<Hydra<W>, HydraError>),
)
    requires
        call_ensures(Hydra::<W>::new::<C, F>, (config, state, spawn), outcome),
    ensures
        exists|calls: Calls<C, Result<W, HydraError>>|
            {
                let n = calls.results.len();
                &&& #[trigger] crate::start_calls(*config, spawn, state, calls)
                &&& forall|i: int|
                    0 <= i < n ==> call_ensures(
                        spawn,
                        (
                            if i == 0 {
                                state
                            } else {
                                calls.states[i - 1]
                            },
                            config,
                        ),
                        (calls.states[i], #[trigger] calls.results[i]),
                    )
                &&& outcome.0 == if n == 0 {
                    state
                } else {
                    calls.states[n - 1]
                }
                &&& match outcome.1 {
                    Ok(hydra) => {
                        &&& n == config.threads
                        &&& hydra.next() == 0
                        &&& hydra.workers().len() == n
                        &&& forall|i: int|
                            0 <= i < n ==> #[trigger] calls.results[i] == Ok::<W, HydraError>(
                                hydra.workers()[i],
                            )
                    },
                    Err(err) => {
                        &&& 0 < n <= config.threads
                        &&& calls.results[n - 1] == Err::<W, HydraError>(err)
                        &&& forall|i: int| 0 <= i < n - 1 ==> (#[trigger] calls.results[i]) is Ok
                    },
                }
            },
{
    let calls = choose|calls: Calls<C, Result<W, HydraError>>| #[trigger]
        crate::started(*config, spawn, state, calls, outcome.0, outcome.1);
    assert(crate::start_calls(*config, spawn, state, calls));
}

/// Each connection goes to the worker after the one that the connection before it went to, and from
/// the last to the first, as long as the count of connections does not start anew.
pub proof fn turns_go_round(next: usize, workers: nat)
    requires
        0 < workers <= usize::MAX,
    ensures
        0 <= crate::worker_at(next, workers) < workers,
        crate::worker_at(0, workers) == 0,
        next < usize::MAX ==> crate::one_more(next) == next + 1,
        next == usize::MAX ==> crate::one_more(next) == 0,
        next < usize::MAX ==> crate::worker_at(crate::one_more(next), workers) == (
        crate::worker_at(next, workers) + 1) % workers as int,
{
    let n = next as int;
    let w = workers as int;
    vstd::arithmetic::div_mod::lemma_mod_bound(n, w);
    vstd::arithmetic::div_mod::lemma_small_mod(0, workers);
    vstd::arithmetic::div_mod::lemma_add_mod_noop(n, 1, w);
    if w == 1 {
        vstd::arithmetic::div_mod::lemma_mod_bound(n + 1, w);
    } else {
        vstd::arithmetic::div_mod::lemma_small_mod(1, workers);
        if n % w == w - 1 {
            vstd::arithmetic::div_mod::lemma_mod_self_0(w);
        } else {
            vstd::arithmetic::div_mod::lemma_small_mod((n % w + 1) as nat, workers);
        }
    }
}

/// The error for a host without addresses says so.
pub proof fn hosts_without_addresses_are_named(cause: Cause)
    requires
        call_ensures(crate::unresolved, (), cause),
    ensures
        cause.kind == Some(ErrorKind::InvalidInput),
        cause.message@ == "could not resolve to any addresses"@,
        cause.description@ == "could not resolve to any addresses"@,
        cause.cause is None,
{
}

/// A pool opens a transport on the first address on which it can, and hands it to the worker whose
/// turn it is. If it can open none, no worker has its turn, and the error is the outcome.
pub proof fn pools_connect<
    W,
    A,
    C,
    S,
    F: Fn(C, &A) -> (C, Result<S, Cause>),
    G: Fn(C, &W, S) -> (C, Result<(), HydraError>),
>(
    hydra: &mut Hydra<W>,
    addrs: &Vec<A>,
    state: C,
    open: F,
    hand_over: G,
    outcome: (C, Result<(), HydraError>),
)
    requires
        call_ensures(
            Hydra::<W>::connect::<A, C, S, F, G>,
            (hydra, addrs, state, open, hand_over),
            outcome,
        ),
    ensures
        final(hydra).workers() == old(hydra).workers(),
        exists|
            calls: Calls<C, Result<S, Cause>>,
            unresolved: Cause,
            opened: C,
            found: Result<S, Cause>,
        |
            {
                &&& #[trigger] crate::util::searched(
                    open,
                    addrs@,
                    state,
                    unresolved,
                    calls,
                    opened,
                    found,
                )
                &&& unresolved.kind == Some(ErrorKind::InvalidInput)
                &&& unresolved.message@ == "could not resolve to any addresses"@
                &&& match found {
                    Ok(stream) => {
                        let turn = old(hydra).next() as int % old(hydra).workers().len() as int;
                        &&& call_ensures(
                            hand_over,
                            (opened, &old(hydra).workers()[turn], stream),
                            outcome,
                        )
                        &&& final(hydra).next() == crate::one_more(old(hydra).next())
                    },
                    Err(cause) => {
                        &&& outcome.0 == opened
                        &&& outcome.1 == Err::<(), HydraError>(HydraError::Io(cause))
                        &&& final(hydra).next() == old(hydra).next()
                    },
                }
            },
{
}

} // verus!
