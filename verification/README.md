# Hydra

An evented HTTP/2 client library, verified with Verus.

`src/` is the verified library. It does no I/O: it is told what arrived and which events occurred,
and it says what to send and what to do next.

* `frame`: frames on the wire
* `compression`: compression of header lists
* `text`, `header`: headers of requests and responses, and the header lists they are sent as
* `request`: requests, responses, and the handler that follows a request
* `session`, `client`, `removed`: the streams of a connection, and what the peer's frames do to them
* `protocol`: the HTTP/2 state machine
* `connection`: a connection with its buffers
* `worker`: the connections of one event loop
* `util` and the crate root: the pool of workers
* `laws`: what holds of the protocol and the connection as a whole

`app/` puts sockets, event loops and threads around it.

The contracts speak of models: `State` is the state of the protocol together with the frames and
events that wait, and `State::fed` says what a buffer from the peer does to it. What handlers are
told and asked is part of the model, as a log.
