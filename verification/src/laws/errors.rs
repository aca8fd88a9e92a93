//! What holds of errors: what they say of themselves, and what is behind them
use crate::connection::{Error as Failure, Source};
use crate::header::ParseError;
use crate::request::Error;
use crate::{Cause, ConnectionError, HydraError};
use vstd::prelude::*;

verus! {

/// Errors of a pool hand on what is behind them.
pub proof fn pool_errors_speak_true(
    err: &HydraError,
    description: &str,
    message: String,
    cause: Option<&Cause>,
)
    requires
        call_ensures(HydraError::description, (err,), description),
        call_ensures(HydraError::message, (err,), message),
        call_ensures(HydraError::cause, (err,), cause),
    ensures
        *err matches HydraError::Io(inner) ==> {
            &&& description@ == "encountered an I/O error"@
            &&& message@ == "Hydra encountered an I/O error: "@ + inner.message@
            &&& cause == Some(&inner)
        },
        *err matches HydraError::Worker(inner) ==> {
            &&& description@ == inner.0.description@
            &&& message@ == "Hydra worker encountered error: "@ + inner.0.message@
            &&& cause == Some(&inner.0)
        },
{
}

/// Errors of a connection hand on what is behind them.
pub proof fn failures_speak_true<'a>(
    err: &'a Failure,
    description: &'a str,
    message: String,
    cause: Option<Source<'a>>,
)
    requires
        call_ensures(Failure::description, (err,), description),
        call_ensures(Failure::message, (err,), message),
        call_ensures(Failure::cause, (err,), cause),
    ensures
        *err matches Failure::Io(inner) ==> {
            &&& description@ == inner.description@
            &&& message@ == "I/O error on connection: "@ + inner.message@
            &&& cause == Some(Source::Cause(&inner))
        },
        *err matches Failure::Http(inner) ==> {
            &&& description@ == crate::http::http_error_description(inner@)
            &&& message@ == "HTTP/2 error on connection: "@ + crate::http::http_error_message(
                inner@,
            )
            &&& cause == Some(Source::Http(&inner))
        },
        *err matches Failure::Stream(inner) ==> {
            &&& description@ == inner.description@
            &&& message@ == inner.message@
            &&& inner.cause is None ==> cause is None
            &&& inner.cause matches Some(deeper) ==> cause == Some(Source::Cause(&*deeper))
        },
        *err is Timeout ==> {
            &&& description@ == "timeout when attempting to connect"@
            &&& message@ == "Timeout during connect"@
            &&& cause is None
        },
        *err is WorkerClosing ==> {
            &&& description@ == "worker isn't accepting new connections"@
            &&& message@ == "Worker not accepting new connections"@
            &&& cause is None
        },
        *err is WorkerFull ==> {
            &&& description@ == "worker cannot manage more connections"@
            &&& message@ == "Worker at connection capacity"@
            &&& cause is None
        },
{
}

/// The errors that are told when a connection is asked for say what those of a connection say.
pub proof fn connection_errors_speak_true<'a>(
    err: &'a ConnectionError,
    description: &'a str,
    message: String,
    cause: Option<Source<'a>>,
)
    requires
        call_ensures(ConnectionError::description, (err,), description),
        call_ensures(ConnectionError::message, (err,), message),
        call_ensures(ConnectionError::cause, (err,), cause),
    ensures
        *err matches ConnectionError::Io(inner) ==> {
            &&& description@ == inner.description@
            &&& message@ == "I/O error on connection: "@ + inner.message@
            &&& cause == Some(Source::Cause(&inner))
        },
        *err matches ConnectionError::Http(inner) ==> {
            &&& description@ == crate::http::http_error_description(inner@)
            &&& message@ == "HTTP/2 error on connection: "@ + crate::http::http_error_message(
                inner@,
            )
            &&& cause == Some(Source::Http(&inner))
        },
        *err is Timeout ==> {
            &&& description@ == "timeout when attempting to connect"@
            &&& message@ == "Timeout during connect"@
            &&& cause is None
        },
        *err is WorkerClosing ==> {
            &&& description@ == "worker isn't accepting new connections"@
            &&& message@ == "Worker not accepting new connections"@
            &&& cause is None
        },
        *err is WorkerFull ==> {
            &&& description@ == "worker cannot manage more connections"@
            &&& message@ == "Worker at connection capacity"@
            &&& cause is None
        },
{
}

/// Errors of a request name the reason that the peer gave, if it gave one.
pub proof fn request_errors_speak_true(err: &Error, description: &'static str, message: String)
    requires
        call_ensures(Error::description, (err,), description),
        call_ensures(Error::message, (err,), message),
    ensures
        *err matches Error::Reset(code) ==> {
            &&& description@ == "stream reset by peer"@
            &&& message@ == "Request failed because "@ + ("stream was reset by peer: "@
                + code.label())
        },
        *err is Connection ==> {
            &&& description@ == "connection encountered error"@
            &&& message@ == "Request failed because "@ + "connection encountered an error"@
        },
        *err is User ==> {
            &&& description@ == "error during stream handler call"@
            &&& message@ == "Request failed because "@
                + "an error was returned from a stream handler call"@
        },
        *err matches Error::GoAwayUnprocessed(code) ==> {
            &&& description@ == "GOAWAY frame received; stream not processed"@
            &&& message@ == "Request failed because "@ + (
            "Received a GOAWAY, stream unprocessed; code: "@ + code.label())
        },
        *err matches Error::GoAwayMaybeProcessed(code) ==> {
            &&& description@ == "GOAWAY frame received; stream maybe processed"@
            &&& message@ == "Request failed because "@ + (
            "Received a GOAWAY, stream maybe processed; code: "@ + code.label())
        },
{
}

/// Errors of parsing hand on what is behind them, if there is anything.
pub proof fn parse_errors_speak_true(
    err: &ParseError,
    description: &str,
    message: String,
    cause: Option<&Cause>,
)
    requires
        call_ensures(ParseError::description, (err,), description),
        call_ensures(ParseError::message, (err,), message),
        call_ensures(ParseError::cause, (err,), cause),
    ensures
        *err matches ParseError::Utf8(inner) ==> {
            &&& description@ == inner.description@
            &&& message@ == "Failed parsing header name as utf8: "@ + inner.message@
            &&& cause == Some(&inner)
        },
        *err matches ParseError::HyperFromRaw(inner) ==> {
            &&& description@ == inner.description@
            &&& message@ == "Failed to build hyper headers from raw headers: "@ + inner.message@
            &&& cause == Some(&inner)
        },
        *err matches ParseError::StatusNotNumber(inner) ==> {
            &&& description@ == ":status pseudo header not a number"@
            &&& message@ == "Failed to parse :status pseudo header as integer: "@ + inner.message@
            &&& cause == Some(&inner)
        },
        *err is StatusMissing ==> {
            &&& description@ == ":status pseudo header missing"@
            &&& message@ == ":status pseudo header was not included"@
            &&& cause is None
        },
{
}

} // verus!
