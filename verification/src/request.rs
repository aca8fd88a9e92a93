//! Requests, responses, and the handler that follows a request
use crate::header::{Field, Headers, StatusCode};
use crate::http::Http2ErrorCode;
use crate::protocol::StreamDataState;
use vstd::prelude::*;
use vstd::string::*;

verus! {

/// What a request asks for
#[derive(Debug)]
pub enum Method {
    Options,
    Get,
    Post,
    Put,
    Delete,
    Head,
    Trace,
    Connect,
    Patch,
    /// A method beyond the usual ones
    Extension(String),
}

impl View for Method {
    type V = Seq<char>;

    /// The method's name.
    open spec fn view(&self) -> Seq<char> {
        match *self {
            Method::Options => "OPTIONS"@,
            Method::Get => "GET"@,
            Method::Post => "POST"@,
            Method::Put => "PUT"@,
            Method::Delete => "DELETE"@,
            Method::Head => "HEAD"@,
            Method::Trace => "TRACE"@,
            Method::Connect => "CONNECT"@,
            Method::Patch => "PATCH"@,
            Method::Extension(name) => name@,
        }
    }
}

impl Method {
    /// The method's name
    pub fn as_str(&self) -> (name: &str)
        ensures
            name@ == self@,
    {
        match self {
            Method::Options => "OPTIONS",
            Method::Get => "GET",
            Method::Post => "POST",
            Method::Put => "PUT",
            Method::Delete => "DELETE",
            Method::Head => "HEAD",
            Method::Trace => "TRACE",
            Method::Connect => "CONNECT",
            Method::Patch => "PATCH",
            Method::Extension(name) => name.as_str(),
        }
    }
}

/// What a handler has been told and asked.
#[verifier::ext_equal]
pub enum Event {
    /// It was asked for data, with a buffer of the given length; what it put there and answered
    Polled { room: nat, filled: Seq<u8>, answer: StreamDataState },
    /// The response headers arrived
    Response { status: StatusCode, headers: Seq<Field> },
    /// Data of the response arrived
    Data(Seq<u8>),
    /// The stream is closed
    Closed,
    /// An error occurred
    Failed(Error),
}

/// Stream events and Request/Response bytes are delivered to/from the handler.
///
/// Functions of the Handler are called on the event loop's thread. Any work done here should
/// be as short as possible to not delay network I/O and processing of other streams.
pub trait Handler: Send + std::fmt::Debug + 'static {
    /// What the handler has been told and asked so far, oldest first. A handler that is verified
    /// says where it keeps this.
    closed spec fn log(&self) -> Seq<Event> {
        arbitrary()
    }

    /// Provide data from the request body
    ///
    /// This will be called repeatedly until the last bytes or an error are returned. The bytes that
    /// the answer announces stand at the start of the buffer.
    fn stream_data(&mut self, buf: &mut [u8]) -> (state: StreamDataState)
        ensures
            final(buf)@.len() == old(buf)@.len(),
            state.len() <= old(buf)@.len(),
            final(self).log() == old(self).log().push(
                (Event::Polled { room: old(buf)@.len(), filled: final(buf)@, answer: state }),
            ),
    ;

    /// Response headers are available
    fn on_response(&mut self, res: Response)
        ensures
            final(self).log() == old(self).log().push(
                (Event::Response { status: res.status, headers: res.headers@ }),
            ),
    ;

    /// Data from the response is available
    fn on_response_data(&mut self, data: &[u8])
        ensures
            final(self).log() == old(self).log().push(Event::Data(data@)),
    ;

    /// Called when the stream is closed (complete)
    fn on_close(&mut self)
        ensures
            final(self).log() == old(self).log().push(Event::Closed),
    ;

    /// Error occurred
    fn on_error(&mut self, err: Error)
        ensures
            final(self).log() == old(self).log().push(Event::Failed(err)),
    ;
}

/// Response for a given request
#[derive(Debug)]
pub struct Response {
    pub status: StatusCode,
    pub headers: Headers,
}

/// Errors that may occur during an HTTP/2 request
#[derive(Clone, Copy, Debug, PartialEq, Eq, Structural)]
pub enum Error {
    /// The remote end terminated this stream. No more data will arrive.
    Reset(Http2ErrorCode),

    /// request cannot be completed because the connection entered an error state
    Connection,

    /// Request cannot be completed because an error was returned from a stream handler method
    User,

    /// Received a GOAWAY frame on the connection where this request was being processed. This
    /// stream was not handled by the server.
    GoAwayUnprocessed(Http2ErrorCode),

    /// Received a GOAWAY frame on the connection handling this request; this stream was potentially
    /// processed by the server.
    GoAwayMaybeProcessed(Http2ErrorCode),
}

impl Error {
    /// What happened, in a few words.
    pub open spec fn described(self) -> Seq<char> {
        match self {
            Error::Reset(_) => "stream reset by peer"@,
            Error::Connection => "connection encountered error"@,
            Error::User => "error during stream handler call"@,
            Error::GoAwayUnprocessed(_) => "GOAWAY frame received; stream not processed"@,
            Error::GoAwayMaybeProcessed(_) => "GOAWAY frame received; stream maybe processed"@,
        }
    }

    /// The message that reports the error.
    pub open spec fn reported(self) -> Seq<char> {
        "Request failed because "@ + match self {
            Error::Reset(code) => "stream was reset by peer: "@ + code.label(),
            Error::Connection => "connection encountered an error"@,
            Error::User => "an error was returned from a stream handler call"@,
            Error::GoAwayUnprocessed(code) => "Received a GOAWAY, stream unprocessed; code: "@
                + code.label(),
            Error::GoAwayMaybeProcessed(code) =>
                "Received a GOAWAY, stream maybe processed; code: "@ + code.label(),
        }
    }

    /// What happened, in a few words.
    pub fn description(&self) -> (text: &'static str)
        ensures
            text@ == self.described(),
    {
        match self {
            Error::Reset(_) => "stream reset by peer",
            Error::Connection => "connection encountered error",
            Error::User => "error during stream handler call",
            Error::GoAwayUnprocessed(_) => "GOAWAY frame received; stream not processed",
            Error::GoAwayMaybeProcessed(_) => "GOAWAY frame received; stream maybe processed",
        }
    }

    /// The message that reports the error.
    pub fn message(&self) -> (text: String)
        ensures
            text@ == self.reported(),
    {
        let reason = match self {
            Error::Reset(code) => "stream was reset by peer: ".to_owned().concat(code.name()),
            Error::Connection => "connection encountered an error".to_owned(),
            Error::User => "an error was returned from a stream handler call".to_owned(),
            Error::GoAwayUnprocessed(code) =>
                "Received a GOAWAY, stream unprocessed; code: ".to_owned().concat(code.name()),
            Error::GoAwayMaybeProcessed(code) =>
                "Received a GOAWAY, stream maybe processed; code: ".to_owned().concat(code.name()),
        };
        "Request failed because ".to_owned().concat(reason.as_str())
    }
}

/// A request to send
#[derive(Debug)]
pub struct Request {
    pub method: Method,
    pub headers: Headers,
    pub path: String,
    pub headers_only: bool,
}

impl Request {
    /// A request with a body
    pub fn new(method: Method, path: &str, headers: Headers) -> (request: Request)
        ensures
            request.method == method,
            request.path@ == path@,
            request.headers == headers,
            !request.headers_only,
    {
        Request { method, path: path.to_owned(), headers_only: false, headers }
    }

    /// A request without a body
    pub fn new_headers_only(method: Method, path: &str, headers: Headers) -> (request: Request)
        ensures
            request.method == method,
            request.path@ == path@,
            request.headers == headers,
            request.headers_only,
    {
        Request { method, path: path.to_owned(), headers_only: true, headers }
    }
}

} // verus!
