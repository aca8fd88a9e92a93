//! Vocabulary of the HTTP/2 layer: stream identifiers, error codes, schemes and errors.
use vstd::prelude::*;
use vstd::string::*;

verus! {

/// Identifies a stream on its connection.
pub type StreamId = u32;

/// A header as it stands in a header list: name and value, both raw bytes.
pub type Header = (Vec<u8>, Vec<u8>);

/// A header as contracts speak of it.
pub type HeaderModel = (Seq<u8>, Seq<u8>);

/// The header list that a vector of headers stands for.
pub open spec fn header_list(headers: Seq<Header>) -> Seq<HeaderModel> {
    headers.map_values(|h: Header| (h.0@, h.1@))
}

/// The reasons that RST_STREAM and GOAWAY frames give.
#[derive(Clone, Copy, Debug, PartialEq, Eq, Structural)]
pub enum Http2ErrorCode {
    NoError,
    ProtocolError,
    InternalError,
    FlowControlError,
    SettingsTimeout,
    StreamClosed,
    FrameSizeError,
    RefusedStream,
    Cancel,
    CompressionError,
    ConnectError,
    EnhanceYourCalm,
    InadequateSecurity,
    Http11Required,
}

impl Http2ErrorCode {
    /// The number that stands for the code on the wire.
    pub open spec fn number(self) -> u32 {
        match self {
            Http2ErrorCode::NoError => 0,
            Http2ErrorCode::ProtocolError => 1,
            Http2ErrorCode::InternalError => 2,
            Http2ErrorCode::FlowControlError => 3,
            Http2ErrorCode::SettingsTimeout => 4,
            Http2ErrorCode::StreamClosed => 5,
            Http2ErrorCode::FrameSizeError => 6,
            Http2ErrorCode::RefusedStream => 7,
            Http2ErrorCode::Cancel => 8,
            Http2ErrorCode::CompressionError => 9,
            Http2ErrorCode::ConnectError => 10,
            Http2ErrorCode::EnhanceYourCalm => 11,
            Http2ErrorCode::InadequateSecurity => 12,
            Http2ErrorCode::Http11Required => 13,
        }
    }

    /// What the code is called in messages.
    pub open spec fn label(self) -> Seq<char> {
        match self {
            Http2ErrorCode::NoError => "NoError"@,
            Http2ErrorCode::ProtocolError => "ProtocolError"@,
            Http2ErrorCode::InternalError => "InternalError"@,
            Http2ErrorCode::FlowControlError => "FlowControlError"@,
            Http2ErrorCode::SettingsTimeout => "SettingsTimeout"@,
            Http2ErrorCode::StreamClosed => "StreamClosed"@,
            Http2ErrorCode::FrameSizeError => "FrameSizeError"@,
            Http2ErrorCode::RefusedStream => "RefusedStream"@,
            Http2ErrorCode::Cancel => "Cancel"@,
            Http2ErrorCode::CompressionError => "CompressionError"@,
            Http2ErrorCode::ConnectError => "ConnectError"@,
            Http2ErrorCode::EnhanceYourCalm => "EnhanceYourCalm"@,
            Http2ErrorCode::InadequateSecurity => "InadequateSecurity"@,
            Http2ErrorCode::Http11Required => "Http11Required"@,
        }
    }

    /// The code with the given number; a number that no code has counts as an internal error.
    pub open spec fn numbered(number: u32) -> Http2ErrorCode {
        if number == 0 {
            Http2ErrorCode::NoError
        } else if number == 1 {
            Http2ErrorCode::ProtocolError
        } else if number == 3 {
            Http2ErrorCode::FlowControlError
        } else if number == 4 {
            Http2ErrorCode::SettingsTimeout
        } else if number == 5 {
            Http2ErrorCode::StreamClosed
        } else if number == 6 {
            Http2ErrorCode::FrameSizeError
        } else if number == 7 {
            Http2ErrorCode::RefusedStream
        } else if number == 8 {
            Http2ErrorCode::Cancel
        } else if number == 9 {
            Http2ErrorCode::CompressionError
        } else if number == 10 {
            Http2ErrorCode::ConnectError
        } else if number == 11 {
            Http2ErrorCode::EnhanceYourCalm
        } else if number == 12 {
            Http2ErrorCode::InadequateSecurity
        } else if number == 13 {
            Http2ErrorCode::Http11Required
        } else {
            Http2ErrorCode::InternalError
        }
    }

    /// Interprets the number found in a frame.
    pub fn from_u32(number: u32) -> (code: Http2ErrorCode)
        ensures
            code == Http2ErrorCode::numbered(number),
    {
        match number {
            0 => Http2ErrorCode::NoError,
            1 => Http2ErrorCode::ProtocolError,
            3 => Http2ErrorCode::FlowControlError,
            4 => Http2ErrorCode::SettingsTimeout,
            5 => Http2ErrorCode::StreamClosed,
            6 => Http2ErrorCode::FrameSizeError,
            7 => Http2ErrorCode::RefusedStream,
            8 => Http2ErrorCode::Cancel,
            9 => Http2ErrorCode::CompressionError,
            10 => Http2ErrorCode::ConnectError,
            11 => Http2ErrorCode::EnhanceYourCalm,
            12 => Http2ErrorCode::InadequateSecurity,
            13 => Http2ErrorCode::Http11Required,
            _ => Http2ErrorCode::InternalError,
        }
    }

    /// The number to put into a frame.
    pub fn as_u32(&self) -> (number: u32)
        ensures
            number == self.number(),
    {
        match *self {
            Http2ErrorCode::NoError => 0,
            Http2ErrorCode::ProtocolError => 1,
            Http2ErrorCode::InternalError => 2,
            Http2ErrorCode::FlowControlError => 3,
            Http2ErrorCode::SettingsTimeout => 4,
            Http2ErrorCode::StreamClosed => 5,
            Http2ErrorCode::FrameSizeError => 6,
            Http2ErrorCode::RefusedStream => 7,
            Http2ErrorCode::Cancel => 8,
            Http2ErrorCode::CompressionError => 9,
            Http2ErrorCode::ConnectError => 10,
            Http2ErrorCode::EnhanceYourCalm => 11,
            Http2ErrorCode::InadequateSecurity => 12,
            Http2ErrorCode::Http11Required => 13,
        }
    }

    /// The code's name.
    pub fn name(&self) -> (name: &'static str)
        ensures
            name@ == self.label(),
    {
        match *self {
            Http2ErrorCode::NoError => "NoError",
            Http2ErrorCode::ProtocolError => "ProtocolError",
            Http2ErrorCode::InternalError => "InternalError",
            Http2ErrorCode::FlowControlError => "FlowControlError",
            Http2ErrorCode::SettingsTimeout => "SettingsTimeout",
            Http2ErrorCode::StreamClosed => "StreamClosed",
            Http2ErrorCode::FrameSizeError => "FrameSizeError",
            Http2ErrorCode::RefusedStream => "RefusedStream",
            Http2ErrorCode::Cancel => "Cancel",
            Http2ErrorCode::CompressionError => "CompressionError",
            Http2ErrorCode::ConnectError => "ConnectError",
            Http2ErrorCode::EnhanceYourCalm => "EnhanceYourCalm",
            Http2ErrorCode::InadequateSecurity => "InadequateSecurity",
            Http2ErrorCode::Http11Required => "Http11Required",
        }
    }
}

/// A code survives the trip over the wire.
pub proof fn error_code_round_trip(code: Http2ErrorCode)
    ensures
        Http2ErrorCode::numbered(code.number()) == code,
{
}

/// A number that stands for a code is read as the code; any other counts as an internal error.
pub proof fn error_numbers_are_read(number: u32)
    ensures
        if number < 14 {
            Http2ErrorCode::numbered(number).number() == number
        } else {
            Http2ErrorCode::numbered(number) == Http2ErrorCode::InternalError
        },
{
}

/// The two schemes a request can name.
#[derive(Clone, Copy, Debug, PartialEq, Eq, Structural)]
pub enum HttpScheme {
    /// `http://`
    Http,
    /// `https://`
    Https,
}

impl HttpScheme {
    /// The scheme's name.
    pub open spec fn label(self) -> Seq<char> {
        match self {
            HttpScheme::Http => "http"@,
            HttpScheme::Https => "https"@,
        }
    }

    /// The scheme's name as a string.
    pub fn as_str(&self) -> (name: &'static str)
        ensures
            name@ == self.label(),
    {
        match *self {
            HttpScheme::Http => "http",
            HttpScheme::Https => "https",
        }
    }
}

/// The error that the peer announced for the connection with a GOAWAY frame.
#[derive(Debug)]
pub struct PeerError {
    pub error_code: Http2ErrorCode,
    pub debug_data: Option<Vec<u8>>,
}

/// Errors that end the use of an HTTP/2 connection.
#[derive(Debug)]
pub enum HttpError {
    /// A frame that cannot be decoded
    InvalidFrame,

    /// A header block that cannot be decoded
    CompressionError,

    /// The peer did not open the connection with its settings
    UnableToConnect,

    /// The peer announced that it closes the connection
    PeerConnectionError(PeerError),
}

/// An `HttpError` as contracts speak of it.
#[verifier::ext_equal]
pub enum HttpErrorModel {
    InvalidFrame,
    CompressionError,
    UnableToConnect,
    PeerConnectionError { code: Http2ErrorCode, debug_data: Option<Seq<u8>> },
}

impl View for HttpError {
    type V = HttpErrorModel;

    open spec fn view(&self) -> HttpErrorModel {
        match *self {
            HttpError::InvalidFrame => HttpErrorModel::InvalidFrame,
            HttpError::CompressionError => HttpErrorModel::CompressionError,
            HttpError::UnableToConnect => HttpErrorModel::UnableToConnect,
            HttpError::PeerConnectionError(err) => HttpErrorModel::PeerConnectionError {
                code: err.error_code,
                debug_data: match err.debug_data {
                    Some(data) => Some(data@),
                    None => None,
                },
            },
        }
    }
}

/// What happened, in a few words.
pub open spec fn http_error_description(err: HttpErrorModel) -> Seq<char> {
    match err {
        HttpErrorModel::InvalidFrame => "Encountered an invalid HTTP/2 frame"@,
        HttpErrorModel::CompressionError => "Encountered an error with HPACK compression"@,
        HttpErrorModel::UnableToConnect => "An error attempting to establish an HTTP/2 connection"@,
        HttpErrorModel::PeerConnectionError { .. } => "The peer announced a connection error"@,
    }
}

/// The message that reports the error.
pub open spec fn http_error_message(err: HttpErrorModel) -> Seq<char> {
    "HTTP/2 Error: "@ + http_error_description(err)
}

impl HttpError {
    /// What happened, in a few words.
    pub fn description(&self) -> (text: &'static str)
        ensures
            text@ == http_error_description(self@),
    {
        match self {
            HttpError::InvalidFrame => "Encountered an invalid HTTP/2 frame",
            HttpError::CompressionError => "Encountered an error with HPACK compression",
            HttpError::UnableToConnect => "An error attempting to establish an HTTP/2 connection",
            HttpError::PeerConnectionError(_) => "The peer announced a connection error",
        }
    }

    /// The message that reports the error.
    pub fn message(&self) -> (text: String)
        ensures
            text@ == http_error_message(self@),
    {
        let mut text = "HTTP/2 Error: ".to_owned();
        text.append(self.description());
        text
    }
}

/// Result of operations on the HTTP/2 state.
pub type HttpResult<T> = Result<T, HttpError>;

/// What errors say of themselves.
pub proof fn errors_say_what_happened(err: &HttpError, description: &'static str, message: String)
    requires
        call_ensures(HttpError::description, (err,), description),
        call_ensures(HttpError::message, (err,), message),
    ensures
        message@ == "HTTP/2 Error: "@ + description@,
        err is InvalidFrame ==> description@ == "Encountered an invalid HTTP/2 frame"@,
        err is CompressionError ==> description@ == "Encountered an error with HPACK compression"@,
        err is UnableToConnect ==> description@
            == "An error attempting to establish an HTTP/2 connection"@,
        err is PeerConnectionError ==> description@ == "The peer announced a connection error"@,
{
}

} // verus!
