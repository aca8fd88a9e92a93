//! Header types and utilities
use crate::http::{Header, HeaderModel};
use crate::text::{from_utf8, is_same_name, parse_u16, to_lower};
use crate::Cause;
use hyper::header::Headers as HyperHeaders;
use hyper::Error as HyperError;
use vstd::prelude::*;
use vstd::slice::slice_to_vec;
use vstd::string::*;

verus! {

/// The type `hyper::header::Headers`.
#[verifier::external_type_specification]
#[verifier::external_body]
pub struct ExHeaders(HyperHeaders);

/// The type `hyper::Error`.
#[verifier::external_type_specification]
#[verifier::external_body]
pub struct ExHyperError(HyperError);

/// A header with all its values.
pub type Field = (Seq<char>, Seq<Seq<u8>>);

/// The headers in the order in which they were first set, each with its name as it was given and
/// its raw values.
pub uninterp spec fn header_fields(headers: HyperHeaders) -> Seq<Field>;

/// Whether the headers hold raw values only, but for a `User-Agent`.
pub uninterp spec fn held_raw(headers: HyperHeaders) -> bool;

/// The cookies that can be read from the raw values of a `Set-Cookie` header, each as a line.
pub uninterp spec fn cookie_lines(values: Seq<Seq<u8>>) -> Seq<Seq<char>>;

/// The octets of each value.
pub open spec fn raw_values(values: Seq<Vec<u8>>) -> Seq<Seq<u8>> {
    values.map_values(|v: Vec<u8>| v@)
}

/// Where the header with the given name stands; the number of headers if there is none.
pub open spec fn field_index(fields: Seq<Field>, name: Seq<char>) -> int
    decreases fields.len(),
{
    if fields.len() == 0 {
        0
    } else if crate::text::same_name(fields[0].0, name) {
        0
    } else {
        1 + field_index(fields.drop_first(), name)
    }
}

/// The values of the header with the given name.
pub open spec fn field_values(fields: Seq<Field>, name: Seq<char>) -> Option<Seq<Seq<u8>>> {
    let i = field_index(fields, name);
    if i < fields.len() {
        Some(fields[i].1)
    } else {
        None
    }
}

/// The headers after one was set. It takes the place of one with the same name.
pub open spec fn with_field(fields: Seq<Field>, name: Seq<char>, values: Seq<Seq<u8>>) -> Seq<
    Field,
> {
    let i = field_index(fields, name);
    if i < fields.len() {
        fields.update(i, (name, values))
    } else {
        fields.push((name, values))
    }
}

/// The headers without the one with the given name.
pub open spec fn without_field(fields: Seq<Field>, name: Seq<char>) -> Seq<Field> {
    let i = field_index(fields, name);
    if i < fields.len() {
        fields.remove(i)
    } else {
        fields
    }
}

/// A value without the spaces at its end.
pub open spec fn trim_end(value: Seq<u8>) -> Seq<u8>
    decreases value.len(),
{
    if value.len() > 0 && value.last() == 32 {
        trim_end(value.drop_last())
    } else {
        value
    }
}

/// The headers after a line was read: its value joins those of a header with the same name.
pub open spec fn with_line(fields: Seq<Field>, name: Seq<char>, value: Seq<u8>) -> Seq<Field> {
    let i = field_index(fields, name);
    if i < fields.len() {
        fields.update(i, (fields[i].0, fields[i].1.push(trim_end(value))))
    } else {
        fields.push((name, seq![trim_end(value)]))
    }
}

/// The headers that lines amount to.
pub open spec fn fields_of_lines(lines: Seq<(Seq<char>, Seq<u8>)>) -> Seq<Field>
    decreases lines.len(),
{
    if lines.len() == 0 {
        Seq::empty()
    } else {
        with_line(fields_of_lines(lines.drop_last()), lines.last().0, lines.last().1)
    }
}

/// Lines as contracts speak of them.
pub open spec fn line_list(lines: Seq<(String, Vec<u8>)>) -> Seq<(Seq<char>, Seq<u8>)> {
    lines.map_values(|line: (String, Vec<u8>)| (line.0@, line.1@))
}

/// Whether a text has no line breaks.
pub open spec fn one_line(text: Seq<char>) -> bool {
    forall|i: int| 0 <= i < text.len() ==> #[trigger] text[i] != '\r' && text[i] != '\n'
}

/// `hyper::header::Headers::new`: no headers.
#[verifier::external_body]
fn new_headers() -> (headers: HyperHeaders)
    ensures
        held_raw(headers),
        header_fields(headers) == Seq::<Field>::empty(),
{
    HyperHeaders::new()
}

/// `hyper::header::Headers::from_raw`: the headers that the lines amount to. It never fails.
#[verifier::external_body]
fn headers_from_raw(lines: &Vec<(String, Vec<u8>)>) -> (headers: Result<
    HyperHeaders,
    HyperError,
>)
    ensures
        match headers {
            Ok(h) => held_raw(h) && header_fields(h) == fields_of_lines(line_list(lines@)),
            Err(_) => false,
        },
{
    let raw: Vec<httparse::Header> = lines.iter().map(
        |line| httparse::Header { name: &line.0, value: &line.1 },
    ).collect();
    HyperHeaders::from_raw(&raw[..])
}

/// What a `hyper::Error` says of itself. Nothing is stated of the texts.
#[allow(deprecated)]
#[verifier::external_body]
fn cause_of(err: HyperError) -> (cause: Cause)
{
    let description = std::error::Error::description(&err).to_string();
    Cause { kind: None, description, message: err.to_string(), cause: None }
}

/// `hyper::header::Headers::set_raw`: sets a header to raw values.
#[verifier::external_body]
fn set_raw_header(headers: &mut HyperHeaders, name: &str, values: Vec<Vec<u8>>)
    requires
        held_raw(*old(headers)),
    ensures
        held_raw(*final(headers)),
        header_fields(*final(headers)) == with_field(
            header_fields(*old(headers)),
            name@,
            raw_values(values@),
        ),
{
    headers.set_raw(name.to_string(), values)
}

/// `hyper::header::Headers::set` of a `UserAgent`: sets the header `User-Agent`.
#[verifier::external_body]
fn set_user_agent(headers: &mut HyperHeaders, agent: &str)
    requires
        held_raw(*old(headers)),
        one_line(agent@),
    ensures
        held_raw(*final(headers)),
        header_fields(*final(headers)) == with_field(
            header_fields(*old(headers)),
            "User-Agent"@,
            seq![crate::text::utf8(agent@)],
        ),
{
    headers.set(hyper::header::UserAgent(agent.to_string()))
}

/// `hyper::header::Headers::remove` of a `Connection`: removes the header `Connection` and says
/// whether there was one.
#[verifier::external_body]
fn remove_connection(headers: &mut HyperHeaders) -> (removed: bool)
    requires
        held_raw(*old(headers)),
    ensures
        held_raw(*final(headers)),
        header_fields(*final(headers)) == without_field(
            header_fields(*old(headers)),
            "Connection"@,
        ),
        removed == (field_values(header_fields(*old(headers)), "Connection"@) is Some),
{
    headers.remove::<hyper::header::Connection>()
}

/// `hyper::header::Headers::get_raw`: the values of the header with the given name.
#[verifier::external_body]
fn get_raw_header(headers: &HyperHeaders, name: &str) -> (values: Option<Vec<Vec<u8>>>)
    requires
        held_raw(*headers),
    ensures
        match values {
            Some(v) => field_values(header_fields(*headers), name@) == Some(raw_values(v@)),
            None => field_values(header_fields(*headers), name@) is None,
        },
{
    headers.get_raw(name).map(|values| values.to_vec())
}

/// `hyper::header::Headers::iter`: name and values of each header, and whether it is a
/// `Set-Cookie`.
#[verifier::external_body]
fn list_headers(headers: &HyperHeaders) -> (list: Vec<(String, bool, Vec<Vec<u8>>)>)
    requires
        held_raw(*headers),
    ensures
        list@.len() == header_fields(*headers).len(),
        forall|i: int|
            0 <= i < list@.len() ==> {
                &&& (#[trigger] list@[i]).0@ == header_fields(*headers)[i].0
                &&& list@[i].1 == crate::text::same_name(header_fields(*headers)[i].0, "Set-Cookie"@)
                &&& raw_values(list@[i].2@) == header_fields(*headers)[i].1
            },
{
    headers.iter().map(
        |h|
            {
                let values = headers.get_raw(h.name()).unwrap().to_vec();
                (h.name().to_string(), h.is::<hyper::header::SetCookie>(), values)
            },
    ).collect()
}

/// `hyper::header::Headers::get` of a `SetCookie`: the cookies in the header `Set-Cookie`, each
/// written out as a line.
#[verifier::external_body]
fn list_cookies(headers: &HyperHeaders) -> (lines: Vec<String>)
    requires
        held_raw(*headers),
    ensures
        text_list(lines@) == match field_values(
            header_fields(*headers),
            "Set-Cookie"@,
        ) {
            Some(values) => cookie_lines(values),
            None => Seq::empty(),
        },
{
    match headers.get::<hyper::header::SetCookie>() {
        Some(cookies) => cookies.iter().map(|cookie| cookie.to_string()).collect(),
        None => Vec::new(),
    }
}

/// Whether no two headers have the same name.
pub open spec fn distinct_names(fields: Seq<Field>) -> bool {
    forall|i: int, j: int|
        0 <= i < j < fields.len() ==> !crate::text::same_name(
            #[trigger] fields[i].0,
            #[trigger] fields[j].0,
        )
}

/// `field_index` finds the first header with the name, if there is one.
pub proof fn field_index_finds(fields: Seq<Field>, name: Seq<char>)
    ensures
        0 <= field_index(fields, name) <= fields.len(),
        field_index(fields, name) < fields.len() ==> crate::text::same_name(
            fields[field_index(fields, name)].0,
            name,
        ),
        forall|i: int|
            0 <= i < field_index(fields, name) ==> !crate::text::same_name(
                #[trigger] fields[i].0,
                name,
            ),
    decreases fields.len(),
{
    if fields.len() > 0 && !crate::text::same_name(fields[0].0, name) {
        field_index_finds(fields.drop_first(), name);
        let rest = fields.drop_first();
        assert forall|i: int| 0 <= i < field_index(fields, name) implies !crate::text::same_name(
            #[trigger] fields[i].0,
            name,
        ) by {
            if i > 0 {
                assert(fields[i] == rest[i - 1]);
            }
        }
    }
}

/// A header reads as it was set last, and setting it leaves the others alone.
pub proof fn set_then_get(
    fields: Seq<Field>,
    name: Seq<char>,
    values: Seq<Seq<u8>>,
    other: Seq<char>,
)
    ensures
        field_values(with_field(fields, name, values), other) == if crate::text::same_name(
            name,
            other,
        ) {
            Some(values)
        } else {
            field_values(fields, other)
        },
{
    let set = with_field(fields, name, values);
    field_index_finds(fields, name);
    field_index_finds(fields, other);
    field_index_finds(set, other);
    let i = field_index(fields, name);
    let was = field_index(fields, other);
    let is = field_index(set, other);
    if crate::text::same_name(name, other) {
        assert(crate::text::same_name(set[i].0, other));
        if is < i {
            assert(crate::text::same_name(fields[is].0, name));
        }
        assert(is == i);
    } else {
        if was < fields.len() {
            assert(was != i);
            assert(crate::text::same_name(set[was].0, other));
        }
        if is < set.len() {
            assert(is != i);
            assert(crate::text::same_name(fields[is].0, other));
        }
    }
}

/// Setting a header, reading a line and removing a header leave no name twice.
pub proof fn names_stay_distinct(
    fields: Seq<Field>,
    name: Seq<char>,
    values: Seq<Seq<u8>>,
    value: Seq<u8>,
)
    requires
        distinct_names(fields),
    ensures
        distinct_names(with_field(fields, name, values)),
        distinct_names(with_line(fields, name, value)),
        distinct_names(without_field(fields, name)),
{
    field_index_finds(fields, name);
    let i = field_index(fields, name);
    if i < fields.len() {
        let set = with_field(fields, name, values);
        assert forall|a: int, b: int| 0 <= a < b < set.len() implies !crate::text::same_name(
            #[trigger] set[a].0,
            #[trigger] set[b].0,
        ) by {
            assert(!crate::text::same_name(fields[a].0, fields[b].0));
        }
        let read = with_line(fields, name, value);
        assert forall|a: int, b: int| 0 <= a < b < read.len() implies !crate::text::same_name(
            #[trigger] read[a].0,
            #[trigger] read[b].0,
        ) by {
            assert(!crate::text::same_name(fields[a].0, fields[b].0));
        }
    }
}

/// A header that is read, after any number of lines, is never listed twice.
pub proof fn lines_give_distinct_names(lines: Seq<(Seq<char>, Seq<u8>)>)
    ensures
        distinct_names(fields_of_lines(lines)),
    decreases lines.len(),
{
    if lines.len() > 0 {
        lines_give_distinct_names(lines.drop_last());
        names_stay_distinct(
            fields_of_lines(lines.drop_last()),
            lines.last().0,
            Seq::empty(),
            lines.last().1,
        );
    }
}

/// Every header that was read has a value.
pub proof fn lines_give_values(lines: Seq<(Seq<char>, Seq<u8>)>, i: int)
    requires
        0 <= i < fields_of_lines(lines).len(),
    ensures
        fields_of_lines(lines)[i].1.len() > 0,
    decreases lines.len(),
{
    if lines.len() > 0 {
        let before = fields_of_lines(lines.drop_last());
        field_index_finds(before, lines.last().0);
        if i < before.len() {
            lines_give_values(lines.drop_last(), i);
        }
    }
}

/// The headers with this client named in `User-Agent`.
pub open spec fn with_user_agent(fields: Seq<Field>) -> Seq<Field> {
    with_field(fields, "User-Agent"@, seq![crate::text::utf8("hydra/0.0.1"@)])
}

/// Whether all values are UTF-8.
pub open spec fn octets_are_text(values: Seq<Seq<u8>>) -> bool {
    forall|i: int| 0 <= i < values.len() ==> vstd::utf8::valid_utf8(#[trigger] values[i])
}

/// Whether a header is not sent as it stands, or has UTF-8 values.
pub open spec fn text_field(field: Field) -> bool {
    ||| crate::text::same_name(field.0, "Connection"@)
    ||| crate::text::same_name(field.0, "Set-Cookie"@)
    ||| octets_are_text(field.1)
}

/// Whether the values of the headers that are sent as they stand are UTF-8.
pub open spec fn text_values(fields: Seq<Field>) -> bool {
    forall|i: int| 0 <= i < fields.len() ==> #[trigger] text_field(fields[i])
}

/// The headers of a request or a response
///
/// Names are compared without regard to the case of ASCII letters. Headers keep the order in which
/// they were first set.
#[derive(Debug)]
pub struct Headers {
    inner: HyperHeaders,
}

impl View for Headers {
    type V = Seq<Field>;

    closed spec fn view(&self) -> Seq<Field> {
        header_fields(self.inner)
    }
}

impl Headers {
    #[verifier::type_invariant]
    spec fn well_formed(self) -> bool {
        held_raw(self.inner) && distinct_names(header_fields(self.inner))
    }

    /// No headers
    pub fn new() -> (headers: Headers)
        ensures
            headers@ == Seq::<Field>::empty(),
    {
        Headers { inner: new_headers() }
    }

    /// Sets a header to the given values, in place of a header with the same name.
    pub fn set_raw(&mut self, name: &str, values: Vec<Vec<u8>>)
        ensures
            final(self)@ == with_field(old(self)@, name@, raw_values(values@)),
    {
        proof {
            use_type_invariant(&*self);
            names_stay_distinct(
                header_fields(self.inner),
                name@,
                raw_values(values@),
                Seq::empty(),
            );
        }
        let mut inner = new_headers();
        std::mem::swap(&mut inner, &mut self.inner);
        set_raw_header(&mut inner, name, values);
        self.inner = inner;
    }

    /// The values of the header with the given name
    pub fn get_raw(&self, name: &str) -> (values: Option<Vec<Vec<u8>>>)
        ensures
            match values {
                Some(v) => field_values(self@, name@) == Some(raw_values(v@)),
                None => field_values(self@, name@) is None,
            },
    {
        proof {
            use_type_invariant(self);
        }
        get_raw_header(&self.inner, name)
    }

    /// Names this client in the header `User-Agent`.
    pub fn set_user_agent(&mut self)
        ensures
            final(self)@ == with_user_agent(old(self)@),
    {
        let agent = "hydra/0.0.1";
        proof {
            use_type_invariant(&*self);
            names_stay_distinct(
                header_fields(self.inner),
                "User-Agent"@,
                seq![crate::text::utf8(agent@)],
                Seq::empty(),
            );
            reveal_strlit("hydra/0.0.1");
        }
        let mut inner = new_headers();
        std::mem::swap(&mut inner, &mut self.inner);
        set_user_agent(&mut inner, agent);
        self.inner = inner;
    }

    /// Whether the headers can be sent in a request: their values are UTF-8.
    pub fn is_sendable(&self) -> (sendable: bool)
        ensures
            sendable == text_values(with_user_agent(self@)),
    {
        proof {
            use_type_invariant(self);
        }
        let ghost fields = header_fields(self.inner);
        let ghost sent = with_user_agent(fields);
        let ghost agent = field_index(fields, "User-Agent"@);
        proof {
            field_index_finds(fields, "User-Agent"@);
            vstd::utf8::encode_utf8_valid_utf8("hydra/0.0.1"@);
        }
        let list = list_headers(&self.inner);
        let mut i: usize = 0;
        while i < list.len()
            invariant
                i <= list@.len() == fields.len(),
                fields == header_fields(self.inner),
                fields == self@,
                sent == with_user_agent(fields),
                agent == field_index(fields, "User-Agent"@),
                0 <= agent <= fields.len(),
                agent < fields.len() ==> crate::text::same_name(fields[agent].0, "User-Agent"@),
                distinct_names(fields),
                forall|k: int|
                    0 <= k < list@.len() ==> {
                        &&& (#[trigger] list@[k]).0@ == fields[k].0
                        &&& list@[k].1 == crate::text::same_name(fields[k].0, "Set-Cookie"@)
                        &&& raw_values(list@[k].2@) == fields[k].1
                    },
                forall|k: int| 0 <= k < i && k != agent ==> #[trigger] text_field(fields[k]),
            decreases list@.len() - i,
        {
            let ghost field = fields[i as int];
            assert(list@[i as int].0@ == field.0);
            let name = list[i].0.as_str();
            if !list[i].1 && !is_same_name(name, "Connection") && !is_same_name(name, "User-Agent")
                && !all_text(&list[i].2) {
                proof {
                    assert(!text_field(field));
                    assert(i != agent);
                    assert(sent[i as int] == field);
                }
                return false;
            }
            proof {
                if crate::text::same_name(field.0, "User-Agent"@) {
                    if agent < fields.len() {
                        assert(crate::text::same_name(fields[agent].0, field.0));
                    } else {
                        field_index_finds(fields, "User-Agent"@);
                    }
                    assert(i == agent);
                } else if i != agent {
                    assert(text_field(fields[i as int]));
                }
            }
            i = i + 1;
        }
        proof {
            assert forall|k: int| 0 <= k < sent.len() implies #[trigger] text_field(sent[k]) by {
                if k != agent {
                    assert(sent[k] == fields[k]);
                    assert(text_field(fields[k]));
                }
            }
        }
        true
    }
}

/// Whether all values are UTF-8.
fn all_text(values: &Vec<Vec<u8>>) -> (text: bool)
    ensures
        text == octets_are_text(raw_values(values@)),
{
    let mut i: usize = 0;
    while i < values.len()
        invariant
            i <= values@.len(),
            forall|k: int| 0 <= k < i ==> vstd::utf8::valid_utf8(#[trigger] raw_values(values@)[k]),
        decreases values@.len() - i,
    {
        assert(raw_values(values@)[i as int] == values@[i as int]@);
        match from_utf8(values[i].as_slice()) {
            Ok(_) => {},
            Err(_) => {
                return false;
            },
        }
        i = i + 1;
    }
    true
}

/// The status of a response
#[derive(Clone, Copy, Debug, PartialEq, Eq, Structural)]
pub struct StatusCode(pub u16);

/// Error resulting from parsing raw headers
#[derive(Debug)]
pub enum ParseError {
    /// A header's name or the status is not UTF-8
    Utf8(Cause),
    /// The headers were refused as a whole
    HyperFromRaw(Cause),
    /// The status is not a number
    StatusNotNumber(Cause),
    /// There is no status
    StatusMissing,
}

impl ParseError {
    /// What happened, in a few words.
    pub open spec fn described(self) -> Seq<char> {
        match self {
            ParseError::Utf8(err) => err.description@,
            ParseError::HyperFromRaw(err) => err.description@,
            ParseError::StatusNotNumber(_) => ":status pseudo header not a number"@,
            ParseError::StatusMissing => ":status pseudo header missing"@,
        }
    }

    /// The message that reports the error.
    pub open spec fn reported(self) -> Seq<char> {
        match self {
            ParseError::Utf8(err) => "Failed parsing header name as utf8: "@ + err.message@,
            ParseError::HyperFromRaw(err) => "Failed to build hyper headers from raw headers: "@
                + err.message@,
            ParseError::StatusNotNumber(err) =>
                "Failed to parse :status pseudo header as integer: "@ + err.message@,
            ParseError::StatusMissing => ":status pseudo header was not included"@,
        }
    }

    /// What happened, in a few words.
    pub fn description(&self) -> (text: &str)
        ensures
            text@ == self.described(),
    {
        match self {
            ParseError::Utf8(err) => err.description.as_str(),
            ParseError::HyperFromRaw(err) => err.description.as_str(),
            ParseError::StatusNotNumber(_) => ":status pseudo header not a number",
            ParseError::StatusMissing => ":status pseudo header missing",
        }
    }

    /// The error behind this one, if there is one.
    pub fn cause(&self) -> (cause: Option<&Cause>)
        ensures
            match *self {
                ParseError::Utf8(err) => cause == Some(&err),
                ParseError::HyperFromRaw(err) => cause == Some(&err),
                ParseError::StatusNotNumber(err) => cause == Some(&err),
                ParseError::StatusMissing => cause is None,
            },
    {
        match self {
            ParseError::Utf8(err) => Some(err),
            ParseError::HyperFromRaw(err) => Some(err),
            ParseError::StatusNotNumber(err) => Some(err),
            ParseError::StatusMissing => None,
        }
    }

    /// The message that reports the error.
    pub fn message(&self) -> (text: String)
        ensures
            text@ == self.reported(),
    {
        match self {
            ParseError::Utf8(err) => "Failed parsing header name as utf8: ".to_owned().concat(
                err.message.as_str(),
            ),
            ParseError::HyperFromRaw(err) =>
                "Failed to build hyper headers from raw headers: ".to_owned().concat(
                err.message.as_str(),
            ),
            ParseError::StatusNotNumber(err) =>
                "Failed to parse :status pseudo header as integer: ".to_owned().concat(
                err.message.as_str(),
            ),
            ParseError::StatusMissing => ":status pseudo header was not included".to_owned(),
        }
    }
}

/// Result of parsing raw headers
pub type ParseResult<T> = Result<T, ParseError>;

/// Whether the names of all headers are UTF-8.
pub open spec fn names_are_text(headers: Seq<HeaderModel>) -> bool {
    forall|i: int| 0 <= i < headers.len() ==> vstd::utf8::valid_utf8(#[trigger] headers[i].0)
}

/// A header list as lines.
pub open spec fn lines_of(headers: Seq<HeaderModel>) -> Seq<(Seq<char>, Seq<u8>)> {
    headers.map_values(|h: HeaderModel| (vstd::utf8::decode_utf8(h.0), h.1))
}

/// The headers that a header list amounts to.
pub open spec fn fields_of(headers: Seq<HeaderModel>) -> Seq<Field> {
    fields_of_lines(lines_of(headers))
}

/// The octets of the `:status` pseudo header.
pub open spec fn status_octets(headers: Seq<HeaderModel>) -> Option<Seq<u8>> {
    match field_values(fields_of(headers), ":status"@) {
        Some(values) => Some(values[0]),
        None => None,
    }
}

/// Parses a header list into headers.
pub fn to_hyper(headers: Vec<Header>) -> (parsed: ParseResult<Headers>)
    ensures
        match parsed {
            Ok(h) => names_are_text(crate::http::header_list(headers@)) && h@ == fields_of(
                crate::http::header_list(headers@),
            ),
            Err(err) => !names_are_text(crate::http::header_list(headers@)) && err is Utf8,
        },
{
    let ghost list = crate::http::header_list(headers@);
    let mut lines: Vec<(String, Vec<u8>)> = Vec::new();
    let mut i: usize = 0;
    while i < headers.len()
        invariant
            i <= headers@.len(),
            list == crate::http::header_list(headers@),
            names_are_text(list.take(i as int)),
            line_list(lines@) == lines_of(list.take(i as int)),
        decreases headers@.len() - i,
    {
        assert(list[i as int].0 == headers@[i as int].0@);
        match from_utf8(headers[i].0.as_slice()) {
            Ok(name) => {
                let ghost before = lines@;
                lines.push((name, slice_to_vec(headers[i].1.as_slice())));
                assert(line_list(lines@) =~= line_list(before).push(lines_of(list)[i as int]));
            },
            Err(err) => {
                return Err(ParseError::Utf8(err));
            },
        }
        proof {
            assert(list.take(i + 1) =~= list.take(i as int).push(list[i as int]));
            assert(lines_of(list.take(i + 1)) =~= lines_of(list.take(i as int)).push(
                lines_of(list)[i as int],
            ));
            assert(names_are_text(list.take(i + 1)));
        }
        i = i + 1;
    }
    assert(list.take(i as int) =~= list);
    match headers_from_raw(&lines) {
        Ok(inner) => {
            proof {
                lines_give_distinct_names(lines_of(list));
            }
            Ok(Headers { inner })
        },
        Err(err) => Err(ParseError::HyperFromRaw(cause_of(err))),
    }
}

/// Parses the header list of a response into its status and its headers, the status among them.
pub fn to_status_and_headers(headers: Vec<Header>) -> (parsed: ParseResult<(StatusCode, Headers)>)
    ensures
        ({
            let list = crate::http::header_list(headers@);
            match parsed {
                Ok((status, h)) => {
                    &&& names_are_text(list)
                    &&& h@ == fields_of(list)
                    &&& status_octets(list) matches Some(octets)
                    &&& vstd::utf8::valid_utf8(octets)
                    &&& crate::text::number16(vstd::utf8::decode_utf8(octets)) == Some(status.0)
                },
                Err(ParseError::Utf8(_)) => names_are_text(list) ==> (status_octets(
                    list,
                ) matches Some(octets) && !vstd::utf8::valid_utf8(octets)),
                Err(ParseError::HyperFromRaw(_)) => false,
                Err(ParseError::StatusNotNumber(_)) => {
                    &&& names_are_text(list)
                    &&& status_octets(list) matches Some(octets)
                    &&& vstd::utf8::valid_utf8(octets)
                    &&& crate::text::number16(vstd::utf8::decode_utf8(octets)) is None
                },
                Err(ParseError::StatusMissing) => names_are_text(list) && status_octets(
                    list,
                ) is None,
            }
        }),
{
    let ghost list = crate::http::header_list(headers@);
    let parsed = match to_hyper(headers) {
        Ok(parsed) => parsed,
        Err(err) => {
            return Err(err);
        },
    };
    let statuses = match parsed.get_raw(":status") {
        Some(statuses) => statuses,
        None => {
            return Err(ParseError::StatusMissing);
        },
    };
    proof {
        field_index_finds(fields_of(list), ":status"@);
        lines_give_values(lines_of(list), field_index(fields_of(list), ":status"@));
        assert(raw_values(statuses@).len() == statuses@.len());
        assert(raw_values(statuses@)[0] == statuses@[0]@);
    }
    let text = match from_utf8(statuses[0].as_slice()) {
        Ok(text) => text,
        Err(err) => {
            return Err(ParseError::Utf8(err));
        },
    };
    match parse_u16(text.as_str()) {
        Ok(number) => Ok((StatusCode(number), parsed)),
        Err(err) => Err(ParseError::StatusNotNumber(err)),
    }
}

/// A value with a space for each line break.
pub open spec fn unbroken(value: Seq<u8>) -> Seq<u8> {
    value.map_values(
        |b: u8|
            if b == 13 || b == 10 {
                32u8
            } else {
                b
            },
    )
}

/// The values of a header as one, joined by a comma and a space.
pub open spec fn joined(values: Seq<Seq<u8>>) -> Seq<u8>
    decreases values.len(),
{
    if values.len() == 0 {
        Seq::empty()
    } else if values.len() == 1 {
        unbroken(values[0])
    } else {
        joined(values.drop_last()) + seq![44u8, 32u8] + unbroken(values.last())
    }
}

/// A header's name as it is sent.
pub open spec fn sent_name(name: Seq<char>) -> Seq<u8> {
    crate::text::utf8(name).map_values(|b: u8| crate::text::lower_byte(b))
}

/// The headers that are sent as they stand.
pub open spec fn plain_headers(fields: Seq<Field>) -> Seq<HeaderModel>
    decreases fields.len(),
{
    if fields.len() == 0 {
        Seq::empty()
    } else {
        let before = plain_headers(fields.drop_last());
        if crate::text::same_name(fields.last().0, "Set-Cookie"@) {
            before
        } else {
            before.push((sent_name(fields.last().0), joined(fields.last().1)))
        }
    }
}

/// One header for each cookie.
pub open spec fn cookie_headers(fields: Seq<Field>) -> Seq<HeaderModel> {
    match field_values(fields, "Set-Cookie"@) {
        Some(values) => cookie_list(cookie_lines(values)),
        None => Seq::empty(),
    }
}

/// The header list that is sent for headers.
pub open spec fn h2_headers(fields: Seq<Field>) -> Seq<HeaderModel> {
    let rest = without_field(fields, "Connection"@);
    plain_headers(rest) + cookie_headers(rest)
}

/// Joins the values of a header.
fn join_values(values: &Vec<Vec<u8>>) -> (line: Vec<u8>)
    ensures
        line@ == joined(raw_values(values@)),
{
    let ghost raw = raw_values(values@);
    let mut line: Vec<u8> = Vec::new();
    let mut i: usize = 0;
    while i < values.len()
        invariant
            i <= values@.len() == raw.len(),
            raw == raw_values(values@),
            line@ == joined(raw.take(i as int)),
        decreases values@.len() - i,
    {
        let ghost before = line@;
        if i > 0 {
            line.push(44);
            line.push(32);
        }
        let ghost start = line@;
        let value = &values[i];
        let mut j: usize = 0;
        while j < value.len()
            invariant
                j <= value@.len(),
                line@ == start + unbroken(value@.take(j as int)),
            decreases value@.len() - j,
        {
            let b: u8 = value[j];
            line.push(
                if b == 13 || b == 10 {
                    32
                } else {
                    b
                },
            );
            assert(unbroken(value@.take(j + 1)) =~= unbroken(value@.take(j as int)).push(
                unbroken(value@)[j as int],
            ));
            j = j + 1;
        }
        proof {
            assert(value@.take(j as int) =~= value@);
            assert(raw[i as int] == value@);
            let now = raw.take(i + 1);
            assert(now.drop_last() =~= raw.take(i as int));
            assert(now.last() == value@);
            if i == 0 {
                assert(line@ =~= unbroken(value@));
            } else {
                assert(line@ =~= before + seq![44u8, 32u8] + unbroken(value@));
            }
        }
        i = i + 1;
    }
    assert(raw.take(i as int) =~= raw);
    line
}

/// One header for each line of a cookie.
pub open spec fn cookie_list(lines: Seq<Seq<char>>) -> Seq<HeaderModel> {
    lines.map_values(
        |line: Seq<char>| (crate::text::utf8("set-cookie"@), crate::text::utf8(line)),
    )
}

/// Texts as contracts speak of them.
pub open spec fn text_list(lines: Seq<String>) -> Seq<Seq<char>> {
    lines.map_values(|line: String| line@)
}

/// Adds a header for each cookie to a list.
pub fn add_cookies(list: &mut Vec<Header>, cookies: &Vec<String>)
    ensures
        crate::http::header_list(final(list)@) == crate::http::header_list(old(list)@)
            + cookie_list(text_list(cookies@)),
{
    let ghost start = list@;
    let ghost lines = text_list(cookies@);
    let mut j: usize = 0;
    while j < cookies.len()
        invariant
            j <= cookies@.len() == lines.len(),
            lines == text_list(cookies@),
            crate::http::header_list(list@) == crate::http::header_list(start) + cookie_list(
                lines.take(j as int),
            ),
        decreases lines.len() - j,
    {
        let ghost before = list@;
        let name = slice_to_vec("set-cookie".as_bytes());
        let value = slice_to_vec(cookies[j].as_str().as_bytes());
        list.push((name, value));
        proof {
            let added = cookie_list(lines)[j as int];
            assert(crate::http::header_list(list@) =~= crate::http::header_list(before).push(
                added,
            ));
            assert(cookie_list(lines.take(j + 1)) =~= cookie_list(lines.take(j as int)).push(
                added,
            ));
        }
        j = j + 1;
    }
    assert(lines.take(j as int) =~= lines);
}

/// Prepares the headers that should be sent in an HTTP/2 message.
///
/// A `Connection` header is left out, names are sent in lower case, and each cookie gets a header
/// of its own at the end.
pub fn to_h2(headers: Headers) -> (list: Vec<Header>)
    requires
        text_values(headers@),
    ensures
        crate::http::header_list(list@) == h2_headers(headers@),
        forall|i: int|
            0 <= i < list@.len() ==> (#[trigger] crate::http::header_list(list@)[i]).0
                != crate::text::utf8("connection"@),
{
    proof {
        use_type_invariant(&headers);
        assert forall|i: int| 0 <= i < h2_headers(headers@).len() implies (
        #[trigger] h2_headers(headers@)[i]).0 != crate::text::utf8("connection"@) by {
            connection_is_not_sent(headers@, i);
        }
    }
    let mut inner = headers.inner;
    remove_connection(&mut inner);
    let ghost fields = header_fields(inner);
    let fields_list = list_headers(&inner);
    let mut list: Vec<Header> = Vec::new();
    let mut i: usize = 0;
    while i < fields_list.len()
        invariant
            i <= fields_list@.len() == fields.len(),
            forall|k: int|
                0 <= k < fields.len() ==> {
                    &&& (#[trigger] fields_list@[k]).0@ == fields[k].0
                    &&& fields_list@[k].1 == crate::text::same_name(fields[k].0, "Set-Cookie"@)
                    &&& raw_values(fields_list@[k].2@) == fields[k].1
                },
            crate::http::header_list(list@) == plain_headers(fields.take(i as int)),
        decreases fields.len() - i,
    {
        let ghost before = list@;
        assert(fields_list@[i as int].0@ == fields[i as int].0);
        assert(fields.take(i + 1).drop_last() =~= fields.take(i as int));
        if !fields_list[i].1 {
            // HTTP/2 header names MUST be lowercase.
            let name = to_lower(fields_list[i].0.as_str().as_bytes());
            let value = join_values(&fields_list[i].2);
            list.push((name, value));
            assert(crate::http::header_list(list@) =~= crate::http::header_list(before).push(
                (sent_name(fields[i as int].0), joined(fields[i as int].1)),
            ));
        }
        i = i + 1;
    }
    assert(fields.take(i as int) =~= fields);
    let cookies = list_cookies(&inner);
    add_cookies(&mut list, &cookies);
    list
}

/// Whether octets hold no upper case letter.
pub open spec fn is_lower(octets: Seq<u8>) -> bool {
    forall|i: int| 0 <= i < octets.len() ==> !(65 <= #[trigger] octets[i] <= 90)
}

/// Header names are sent in lower case, all of them.
pub proof fn sent_names_are_lower(fields: Seq<Field>, i: int)
    requires
        0 <= i < h2_headers(fields).len(),
    ensures
        is_lower(h2_headers(fields)[i].0),
{
    let rest = without_field(fields, "Connection"@);
    let plain = plain_headers(rest);
    if i < plain.len() {
        plain_header_origin(rest, i);
    } else {
        let name = "set-cookie"@;
        reveal_strlit("set-cookie");
        assert(name.map_values(|c: char| crate::text::lower_char(c)) =~= name);
        crate::text::lower_commutes(name);
        let octets = crate::text::utf8(name);
        assert forall|k: int| 0 <= k < octets.len() implies !(65 <= #[trigger] octets[k] <= 90) by {
            assert(octets.map_values(|b: u8| crate::text::lower_byte(b))[k] == octets[k]);
        }
        assert(h2_headers(fields)[i].0 == octets);
    }
}

/// Every header that is sent as it stands comes from one that was set.
pub proof fn plain_header_origin(fields: Seq<Field>, i: int) -> (from: int)
    requires
        0 <= i < plain_headers(fields).len(),
    ensures
        0 <= from < fields.len(),
        !crate::text::same_name(fields[from].0, "Set-Cookie"@),
        plain_headers(fields)[i] == (sent_name(fields[from].0), joined(fields[from].1)),
    decreases fields.len(),
{
    let before = plain_headers(fields.drop_last());
    if i < before.len() {
        plain_header_origin(fields.drop_last(), i)
    } else {
        fields.len() - 1
    }
}

/// Every header but `Connection` and `Set-Cookie` is sent.
pub proof fn plain_header_is_sent(fields: Seq<Field>, from: int)
    requires
        0 <= from < fields.len(),
        !crate::text::same_name(fields[from].0, "Set-Cookie"@),
        !crate::text::same_name(fields[from].0, "Connection"@),
    ensures
        h2_headers(fields).contains((sent_name(fields[from].0), joined(fields[from].1))),
{
    let rest = without_field(fields, "Connection"@);
    let gone = field_index(fields, "Connection"@);
    field_index_finds(fields, "Connection"@);
    let at = if gone < from {
        from - 1
    } else {
        from
    };
    assert(rest[at] == fields[from]);
    let i = plain_header_stands(rest, at);
    assert(h2_headers(fields)[i] == (sent_name(fields[from].0), joined(fields[from].1)));
}

/// Where a header that is sent as it stands ends up.
proof fn plain_header_stands(fields: Seq<Field>, from: int) -> (at: int)
    requires
        0 <= from < fields.len(),
        !crate::text::same_name(fields[from].0, "Set-Cookie"@),
    ensures
        0 <= at < plain_headers(fields).len(),
        plain_headers(fields)[at] == (sent_name(fields[from].0), joined(fields[from].1)),
    decreases fields.len(),
{
    if from < fields.len() - 1 {
        plain_header_stands(fields.drop_last(), from)
    } else {
        plain_headers(fields.drop_last()).len() as int
    }
}

/// A `Connection` header is never sent.
pub proof fn connection_is_not_sent(fields: Seq<Field>, i: int)
    requires
        distinct_names(fields),
        0 <= i < h2_headers(fields).len(),
    ensures
        h2_headers(fields)[i].0 != crate::text::utf8("connection"@),
{
    let rest = without_field(fields, "Connection"@);
    let gone = field_index(fields, "Connection"@);
    let plain = plain_headers(rest);
    reveal_strlit("connection");
    reveal_strlit("Connection");
    reveal_strlit("set-cookie");
    assert("Connection"@.map_values(|c: char| crate::text::lower_char(c)) =~= "connection"@);
    crate::text::lower_commutes("Connection"@);
    if i < plain.len() {
        let from = plain_header_origin(rest, i);
        field_index_finds(fields, "Connection"@);
        if crate::text::same_name(rest[from].0, "Connection"@) {
            let place = if from < gone {
                from
            } else {
                from + 1
            };
            assert(rest[from] == fields[place]);
            assert(crate::text::same_name(fields[gone].0, fields[place].0));
        }
        crate::text::same_name_by_octets(rest[from].0, "Connection"@);
    } else {
        vstd::utf8::encode_utf8_decode_utf8("set-cookie"@);
        vstd::utf8::encode_utf8_decode_utf8("connection"@);
        assert("set-cookie"@[0] != "connection"@[0]);
    }
}

} // verus!
