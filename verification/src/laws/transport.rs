//! What holds of a connection and its transport: reading, writing, waiting and failing
use crate::client::SessionModel;
use crate::connection::{Action, ConnectionModel, Error, EventSet, PendingModel, Phase, RefModel};
use crate::connection::StreamStatus;
use crate::http::StreamId;
use crate::protocol::{SendStatus, State, StreamModel};
use crate::request::{Error as RequestError, Event};
use crate::session::StreamState;
use vstd::prelude::*;

verus! {

/// A connection always waits to read. It waits to write if and only if a frame waits or a stream
/// has data to send.
pub proof fn connections_wait(connection: ConnectionModel)
    ensures
        connection.interest().readable,
        connection.interest().writable <==> connection.state.out.backlog.len() > 0 || exists|
            id: StreamId,
        | #[trigger]
            connection.state.http2.session.interest.contains(id),
{
}

/// Octets that arrive are handled behind those that wait for the rest of their frame. Those that
/// belong to whole frames are done with, the others wait; nothing is lost and nothing is changed.
pub proof fn octets_are_kept(connection: ConnectionModel, octets: Seq<u8>)
    ensures
        ({
            let all = connection.read_buf + octets;
            let (state, taken, err) = connection.state.fed(all);
            let after = connection.fed(octets);
            &&& 0 <= taken <= all.len()
            &&& after == ConnectionModel { state, read_buf: after.read_buf, ..connection }
            &&& err is None ==> all == all.take(taken) + after.read_buf
            &&& err is None ==> !crate::frame::starts_with_frame(after.read_buf)
            &&& err is Some ==> after.read_buf == all
        }),
{
    let all = connection.read_buf + octets;
    crate::laws::fed_takes_whole_frames(connection.state, all);
    let taken = connection.state.fed(all).1;
    assert(all =~= all.take(taken) + all.subrange(taken, all.len() as int));
}

/// A chance to send changes nothing of a connection but the state of its protocol, and the frames
/// that wait.
pub proof fn chances_to_send_are_given(before: ConnectionModel, after: ConnectionModel)
    requires
        before.sent(after),
    ensures
        after == (ConnectionModel { state: after.state, ..before }),
        exists|status: SendStatus| #[trigger]
            crate::protocol::sends_data(before.state, after.state, status),
{
}

/// A frame that is written in full is done with; of one that is written in part the rest waits, in
/// its place. A transport that takes nothing is not tried again until it says that it is writable.
pub proof fn writes_are_noted(connection: ConnectionModel, status: StreamStatus)
    requires
        crate::connection::within_bounds(connection.state.out.backlog),
        connection.state.out.backlog.len() > 0,
        status matches StreamStatus::Bytes(bytes) ==> bytes
            <= connection.state.out.backlog[0].unwritten().len(),
    ensures
        ({
            let backlog = connection.state.out.backlog;
            let after = connection.wrote(status);
            let left = after.state.out.backlog;
            &&& after == ConnectionModel {
                state: State {
                    out: RefModel { backlog: left, ..connection.state.out },
                    ..connection.state
                },
                is_writable: after.is_writable,
                ..connection
            }
            &&& match status {
                StreamStatus::Bytes(bytes) => {
                    &&& after.is_writable == connection.is_writable
                    &&& backlog[0].position + bytes == backlog[0].bytes.len() ==> left
                        == backlog.subrange(1, backlog.len() as int)
                    &&& backlog[0].position + bytes < backlog[0].bytes.len() ==> {
                        &&& left.len() == backlog.len()
                        &&& left[0] == PendingModel {
                            bytes: backlog[0].bytes,
                            position: (backlog[0].position + bytes) as nat,
                        }
                        &&& forall|i: int|
                            1 <= i < backlog.len() ==> #[trigger] left[i] == backlog[i]
                    }
                },
                _ => !after.is_writable && left == backlog,
            }
        }),
{
    let backlog = connection.state.out.backlog;
    assert(backlog.drop_first() =~= backlog.subrange(1, backlog.len() as int));
}

/// What is to be done after events on the transport, and in which order: first a read, if the
/// transport is readable; then, if it is writable, writes until no frame waits; then the protocol
/// gets a chance to send, and what it adds is written. In the end the connection waits.
pub proof fn work_is_done_in_order(
    before: ConnectionModel,
    events: EventSet,
    phase: Phase,
    after: ConnectionModel,
    action: Action,
    next: Phase,
)
    requires
        before.goes_on(events, phase, after, action, next),
    ensures
        phase == Phase::Reading && events.readable ==> {
            &&& action == Action::Read
            &&& next == Phase::Waking
            &&& after == before
        },
        action == Action::Read ==> phase == Phase::Reading && events.readable,
        (phase == Phase::Waking || phase == Phase::Reading && !events.readable) && !events.writable
            ==> action == Action::Reregister(before.interest()) && after == before,
        (phase == Phase::Waking || phase == Phase::Reading && !events.readable) && events.writable
            ==> (ConnectionModel { is_writable: true, ..before }).goes_on(
            events,
            Phase::Flushing,
            after,
            action,
            next,
        ),
        phase == Phase::Flushing && before.is_writable && before.state.out.backlog.len() > 0 ==> {
            &&& action == Action::Write
            &&& next == Phase::Flushing
            &&& after == before
        },
        phase == Phase::Flushing && before.is_writable && before.state.out.backlog.len() == 0 ==> {
            &&& after == ConnectionModel { state: after.state, ..before }
            &&& exists|status: SendStatus| #[trigger]
                crate::protocol::sends_data(before.state, after.state, status)
            &&& if after.state.out.backlog.len() > 0 {
                action == Action::Write && next == Phase::Draining
            } else {
                action == Action::Reregister(after.interest())
            }
        },
        phase == Phase::Draining && before.is_writable && before.state.out.backlog.len() > 0 ==> {
            &&& action == Action::Write
            &&& next == Phase::Draining
            &&& after == before
        },
        phase == Phase::Draining && (!before.is_writable || before.state.out.backlog.len() == 0)
            ==> action == Action::Reregister(before.interest()) && after == before,
        phase == Phase::Flushing && !before.is_writable ==> action == Action::Reregister(
            before.interest(),
        ) && after == before,
        phase == Phase::Registering ==> action == Action::Reregister(before.interest()) && after
            == before,
{
}

/// When a connection fails, the streams that are not closed leave, each as it was but for the word
/// of the failure, unless it has heard of it. The others stay as they are, and nothing else
/// changes.
pub proof fn failing_connections_give_up(session: SessionModel, heard: bool)
    requires
        session.valid(),
    ensures
        ({
            let after = session.abandoned(heard);
            &&& after.next_id == session.next_id
            &&& after.max_concurrent_streams == session.max_concurrent_streams
            &&& forall|id: StreamId| !#[trigger] after.interest.contains(id)
            &&& forall|id: StreamId| #[trigger]
                after.streams.dom().contains(id) <==> session.streams.dom().contains(id)
                    && session.streams[id].state == StreamState::Closed
            &&& forall|id: StreamId| #[trigger]
                after.streams.dom().contains(id) ==> after.streams[id] == session.streams[id]
            &&& forall|id: StreamId| #[trigger]
                after.removed.dom().contains(id) <==> session.removed.dom().contains(id) || (
                session.streams.dom().contains(id) && session.streams[id].state
                    != StreamState::Closed)
            &&& forall|id: StreamId| #[trigger]
                session.removed.dom().contains(id) ==> after.removed[id] == session.removed[id]
            &&& forall|id: StreamId| #[trigger]
                session.streams.dom().contains(id) && session.streams[id].state
                    != StreamState::Closed ==> after.removed[id] == StreamModel {
                    state: session.streams[id].state,
                    log: if heard {
                        session.streams[id].log
                    } else {
                        session.streams[id].log.push(Event::Failed(RequestError::Connection))
                    },
                }
        }),
{
}

/// The handlers of streams have heard of a failure before the connection fails only if the peer
/// announced it.
pub proof fn only_peers_announce_failures(err: Error)
    ensures
        err.is_announced() <==> err is Http && err->Http_0 is PeerConnectionError,
{
}

/// Whether a session has a stream that is not closed: the streams that this says there are none of
/// are all closed.
pub proof fn activity_is_seen(session: SessionModel, id: StreamId)
    requires
        session.streams.dom().contains(id),
    ensures
        session.streams[id].state != StreamState::Closed ==> session.is_active(),
        !session.is_active() ==> session.streams[id].state == StreamState::Closed,
        session.streams.dom() == Set::<StreamId>::empty().insert(id) && session.is_active()
            ==> session.streams[id].state != StreamState::Closed,
{
}

/// A stream that has data to send is seen.
pub proof fn wishes_are_seen(session: SessionModel, id: StreamId)
    ensures
        session.interest.contains(id) ==> session.wants_write(),
        session.interest == Set::<StreamId>::empty() ==> !session.wants_write(),
{
}

} // verus!
