//! Compression of header lists: the two directions of a connection, each with its own history.
use crate::http::{Header, HeaderModel, HttpError, HttpResult};
use vstd::prelude::*;
use vstd::slice::slice_subrange;

verus! {

/// The type `hpack::Encoder`.
#[verifier::external_type_specification]
#[verifier::external_body]
pub struct ExEncoder<'a>(hpack::Encoder<'a>);

/// The type `hpack::Decoder`.
#[verifier::external_type_specification]
#[verifier::external_body]
pub struct ExDecoder<'a>(hpack::Decoder<'a>);

/// The type `hpack::decoder::DecoderError`.
#[verifier::external_type_specification]
#[verifier::external_body]
pub struct ExDecoderError(hpack::decoder::DecoderError);

/// The header lists that an encoder has encoded so far, oldest first.
pub uninterp spec fn lists_encoded(encoder: hpack::Encoder<'static>) -> Seq<Seq<HeaderModel>>;

/// The blocks that a decoder has been given so far, oldest first.
pub uninterp spec fn blocks_decoded(decoder: hpack::Decoder<'static>) -> Seq<Seq<u8>>;

/// The block that an encoder makes of a header list, given the lists that it encoded before.
pub uninterp spec fn hpack_encoding(before: Seq<Seq<HeaderModel>>, headers: Seq<HeaderModel>) -> Seq<
    u8,
>;

/// The header list that a decoder reads from a block, given the blocks that it was given before;
/// none if it finds the block malformed.
pub uninterp spec fn hpack_decoding(before: Seq<Seq<u8>>, block: Seq<u8>) -> Option<
    Seq<HeaderModel>,
>;

/// An integer of a header block whose first octet, at `at`, has room for the values up to `max`:
/// its value and where it ends. An integer takes five octets at most.
pub open spec fn integer_at(b: Seq<u8>, at: int, max: int) -> Option<(int, int)> {
    if at >= b.len() {
        None
    } else {
        let value = b[at] as int % (max + 1);
        if value < max {
            Some((value, at + 1))
        } else {
            integer_tail(b, at + 1, value, 1, 4)
        }
    }
}

/// The rest of an integer, in octets of seven bits of which the first are the least significant.
pub open spec fn integer_tail(b: Seq<u8>, at: int, value: int, weight: int, left: nat) -> Option<
    (int, int),
>
    decreases left,
{
    if left == 0 || at >= b.len() {
        None
    } else {
        let sum = value + (b[at] as int % 128) * weight;
        if b[at] < 128 {
            Some((sum, at + 1))
        } else {
            integer_tail(b, at + 1, sum, weight * 128, (left - 1) as nat)
        }
    }
}

/// Where the string that starts at `at` ends.
pub open spec fn string_end(b: Seq<u8>, at: int) -> Option<int> {
    match integer_at(b, at, 127) {
        Some((len, start)) => if start + len <= b.len() {
            Some(start + len)
        } else {
            None
        },
        None => None,
    }
}

/// Where the literal field at `at` ends, whose first octet has room for indices up to `max`.
pub open spec fn literal_end(b: Seq<u8>, at: int, max: int) -> Option<int> {
    match integer_at(b, at, max) {
        Some((index, next)) => if index == 0 {
            match string_end(b, next) {
                Some(value) => string_end(b, value),
                None => None,
            }
        } else {
            string_end(b, next)
        },
        None => None,
    }
}

/// Where the field at `at` ends; none if it is cut short.
pub open spec fn field_end(b: Seq<u8>, at: int) -> Option<int> {
    if b[at] >= 128 {
        match integer_at(b, at, 127) {
            Some((_, next)) => Some(next),
            None => None,
        }
    } else if b[at] >= 64 {
        literal_end(b, at, 63)
    } else if b[at] >= 32 {
        match integer_at(b, at, 31) {
            Some((_, next)) => Some(next),
            None => None,
        }
    } else {
        literal_end(b, at, 15)
    }
}

/// Where the first change of the table's size that is cut short stands in a block, from `at` on;
/// none if a field of another sort is cut short before it.
pub open spec fn broken_update(b: Seq<u8>, at: int) -> Option<int>
    decreases b.len() - at,
{
    if at >= b.len() {
        None
    } else {
        match field_end(b, at) {
            Some(next) => if at < next <= b.len() {
                broken_update(b, next)
            } else {
                None
            },
            None => if 32 <= b[at] < 64 {
                Some(at)
            } else {
                None
            },
        }
    }
}

/// Whether no change of the table's size in a block is cut short.
pub open spec fn size_updates_whole(b: Seq<u8>) -> bool {
    broken_update(b, 0) is None
}

/// A block up to a change of the table's size that is cut short.
pub open spec fn readable_part(b: Seq<u8>) -> Seq<u8> {
    match broken_update(b, 0) {
        Some(at) => b.take(at),
        None => b,
    }
}

/// The rest of an integer reads the same in a block that is cut behind it.
proof fn tail_in_prefix(b: Seq<u8>, at: int, value: int, weight: int, left: nat, k: int)
    requires
        0 <= at,
        0 <= k <= b.len(),
        0 <= value,
        0 <= weight,
    ensures
        integer_tail(b, at, value, weight, left) matches Some((v, end)) ==> {
            &&& at < end
            &&& v >= 0
            &&& end <= k ==> integer_tail(b.take(k), at, value, weight, left) == Some((v, end))
        },
    decreases left,
{
    if left > 0 && at < b.len() {
        let low = b[at] as int % 128;
        assert(low * weight >= 0 && weight * 128 >= 0) by (nonlinear_arith)
            requires
                low >= 0,
                weight >= 0,
        ;
        tail_in_prefix(b, at + 1, value + low * weight, weight * 128, (left - 1) as nat, k);
    }
}

/// An integer reads the same in a block that is cut behind it.
proof fn integer_in_prefix(b: Seq<u8>, at: int, max: int, k: int)
    requires
        0 <= at,
        0 <= k <= b.len(),
        0 < max,
    ensures
        integer_at(b, at, max) matches Some((v, end)) ==> {
            &&& at < end
            &&& v >= 0
            &&& end <= k ==> integer_at(b.take(k), at, max) == Some((v, end))
        },
{
    if at < b.len() {
        tail_in_prefix(b, at + 1, b[at] as int % (max + 1), 1, 4, k);
    }
}

/// A string reads the same in a block that is cut behind it.
proof fn string_in_prefix(b: Seq<u8>, at: int, k: int)
    requires
        0 <= at,
        0 <= k <= b.len(),
    ensures
        string_end(b, at) matches Some(end) ==> {
            &&& at < end <= b.len()
            &&& end <= k ==> string_end(b.take(k), at) == Some(end)
        },
{
    integer_in_prefix(b, at, 127, k);
}

/// A field reads the same in a block that is cut behind it.
proof fn field_in_prefix(b: Seq<u8>, at: int, k: int)
    requires
        0 <= at < k <= b.len(),
    ensures
        field_end(b, at) matches Some(end) ==> (end <= k ==> field_end(b.take(k), at) == Some(end)),
{
    integer_in_prefix(b, at, 127, k);
    integer_in_prefix(b, at, 63, k);
    integer_in_prefix(b, at, 31, k);
    integer_in_prefix(b, at, 15, k);
    let max = if b[at] >= 64 {
        63int
    } else {
        15int
    };
    if let Some((index, next)) = integer_at(b, at, max) {
        string_in_prefix(b, next, k);
        if let Some(value) = string_end(b, next) {
            string_in_prefix(b, value, k);
        }
    }
}

/// What comes before a change of the table's size that is cut short can be read.
proof fn readable_from(b: Seq<u8>, at: int)
    requires
        0 <= at,
    ensures
        broken_update(b, at) matches Some(k) ==> at <= k < b.len() && broken_update(b.take(k), at)
            is None,
    decreases b.len() - at,
{
    if at < b.len() {
        if let Some(next) = field_end(b, at) {
            if at < next <= b.len() {
                readable_from(b, next);
                if let Some(k) = broken_update(b, next) {
                    field_in_prefix(b, at, k);
                    assert(b.take(k)[at] == b[at]);
                }
            }
        }
    }
}

/// In the readable part of a block no change of the table's size is cut short.
pub proof fn readable_part_is_whole(b: Seq<u8>)
    ensures
        size_updates_whole(readable_part(b)),
{
    readable_from(b, 0);
}

/// `hpack::Encoder::new`: an encoder that has encoded nothing.
#[verifier::external_body]
fn new_encoder() -> (encoder: hpack::Encoder<'static>)
    ensures
        lists_encoded(encoder) == Seq::<Seq<HeaderModel>>::empty(),
{
    hpack::Encoder::new()
}

/// `hpack::Encoder::encode`: the block depends on the list and on the lists encoded before it, and
/// nothing else.
#[verifier::external_body]
fn encode_list(encoder: &mut hpack::Encoder<'static>, headers: &Vec<Header>) -> (block: Vec<u8>)
    ensures
        block@ == hpack_encoding(lists_encoded(*old(encoder)), crate::http::header_list(headers@)),
        lists_encoded(*final(encoder)) == lists_encoded(*old(encoder)).push(
            crate::http::header_list(headers@),
        ),
{
    encoder.encode(headers)
}

/// `hpack::Decoder::new`: a decoder that has been given nothing.
#[verifier::external_body]
fn new_decoder() -> (decoder: hpack::Decoder<'static>)
    ensures
        blocks_decoded(decoder) == Seq::<Seq<u8>>::empty(),
{
    hpack::Decoder::new()
}

/// `hpack::Decoder::decode`: the outcome depends on the block and on the blocks given before it,
/// and nothing else. It does not return from a block in which a change of the table's size is cut
/// short. Nothing is stated of which error it gives.
#[verifier::external_body]
fn decode_block(decoder: &mut hpack::Decoder<'static>, block: &[u8]) -> (headers: Result<
    Vec<Header>,
    hpack::decoder::DecoderError,
>)
    requires
        size_updates_whole(block@),
    ensures
        match headers {
            Ok(list) => hpack_decoding(blocks_decoded(*old(decoder)), block@) == Some(
                crate::http::header_list(list@),
            ),
            Err(_) => hpack_decoding(blocks_decoded(*old(decoder)), block@) is None,
        },
        blocks_decoded(*final(decoder)) == blocks_decoded(*old(decoder)).push(block@),
{
    decoder.decode(block)
}

/// Reads an integer.
fn read_integer(b: &[u8], at: usize, max: u8) -> (integer: Option<(usize, usize)>)
    requires
        at <= b@.len(),
        max == 127 || max == 63 || max == 31 || max == 15,
    ensures
        match integer {
            Some((value, next)) => integer_at(b@, at as int, max as int) == Some(
                (value as int, next as int),
            ) && at < next <= b@.len() && value < 0x2000_0000,
            None => integer_at(b@, at as int, max as int) is None,
        },
{
    if at >= b.len() {
        return None;
    }
    let first: u8 = b[at] % (max + 1);
    if first < max {
        return Some((first as usize, at + 1));
    }
    let mut value: usize = first as usize;
    let mut weight: usize = 1;
    let mut left: usize = 4;
    let mut next: usize = at + 1;
    while left > 0 && next < b.len()
        invariant
            at < next <= b@.len(),
            left <= 4,
            left == 4 ==> weight == 1,
            left == 3 ==> weight == 128,
            left == 2 ==> weight == 0x4000,
            left == 1 ==> weight == 0x20_0000,
            left == 0 ==> weight == 0x1000_0000,
            value <= weight + 126,
            integer_at(b@, at as int, max as int) == integer_tail(
                b@,
                next as int,
                value as int,
                weight as int,
                left as nat,
            ),
        decreases left,
    {
        let octet: u8 = b[next];
        let low: usize = (octet % 128) as usize;
        assert(low * weight <= 127 * weight) by (nonlinear_arith)
            requires
                low <= 127,
        ;
        value = value + low * weight;
        next = next + 1;
        if octet < 128 {
            return Some((value, next));
        }
        weight = weight * 128;
        left = left - 1;
    }
    None
}

/// Passes over a string.
fn skip_string(b: &[u8], at: usize) -> (end: Option<usize>)
    requires
        at <= b@.len(),
    ensures
        match end {
            Some(next) => string_end(b@, at as int) == Some(next as int) && at < next <= b@.len(),
            None => string_end(b@, at as int) is None,
        },
{
    match read_integer(b, at, 127) {
        Some((len, start)) => if len <= b.len() - start {
            Some(start + len)
        } else {
            None
        },
        None => None,
    }
}

/// Passes over a literal field.
fn skip_literal(b: &[u8], at: usize, max: u8) -> (end: Option<usize>)
    requires
        at <= b@.len(),
        max == 63 || max == 15,
    ensures
        match end {
            Some(next) => literal_end(b@, at as int, max as int) == Some(next as int) && at < next
                <= b@.len(),
            None => literal_end(b@, at as int, max as int) is None,
        },
{
    match read_integer(b, at, max) {
        Some((index, next)) => if index == 0 {
            match skip_string(b, next) {
                Some(value) => skip_string(b, value),
                None => None,
            }
        } else {
            skip_string(b, next)
        },
        None => None,
    }
}

/// Passes over a field.
fn skip_field(b: &[u8], at: usize) -> (end: Option<usize>)
    requires
        at < b@.len(),
    ensures
        match end {
            Some(next) => field_end(b@, at as int) == Some(next as int) && at < next <= b@.len(),
            None => field_end(b@, at as int) is None,
        },
{
    let first: u8 = b[at];
    if first >= 128 {
        match read_integer(b, at, 127) {
            Some((_, next)) => Some(next),
            None => None,
        }
    } else if first >= 64 {
        skip_literal(b, at, 63)
    } else if first >= 32 {
        match read_integer(b, at, 31) {
            Some((_, next)) => Some(next),
            None => None,
        }
    } else {
        skip_literal(b, at, 15)
    }
}

/// Finds the first change of the table's size that is cut short.
fn find_broken_update(b: &[u8]) -> (broken: Option<usize>)
    ensures
        match broken {
            Some(at) => broken_update(b@, 0) == Some(at as int) && at < b@.len(),
            None => broken_update(b@, 0) is None,
        },
{
    let mut at: usize = 0;
    while at < b.len()
        invariant
            at <= b@.len(),
            broken_update(b@, 0) == broken_update(b@, at as int),
        decreases b@.len() - at,
    {
        match skip_field(b, at) {
            Some(next) => {
                at = next;
            },
            None => {
                return if 32 <= b[at] && b[at] < 64 {
                    Some(at)
                } else {
                    None
                };
            },
        }
    }
    None
}

/// The header compression of a connection.
pub struct Compression {
    encoder: hpack::Encoder<'static>,
    decoder: hpack::Decoder<'static>,
}

/// A `Compression` as contracts speak of it.
#[verifier::ext_equal]
pub struct CompressionModel {
    /// The header lists encoded so far
    pub sent: Seq<Seq<HeaderModel>>,
    /// The blocks decoded so far
    pub received: Seq<Seq<u8>>,
}

impl View for Compression {
    type V = CompressionModel;

    closed spec fn view(&self) -> CompressionModel {
        CompressionModel {
            sent: lists_encoded(self.encoder),
            received: blocks_decoded(self.decoder),
        }
    }
}

impl CompressionModel {
    /// The block that stands for a header list at this point of the connection.
    pub open spec fn block(self, headers: Seq<HeaderModel>) -> Seq<u8> {
        hpack_encoding(self.sent, headers)
    }

    /// The header list that a block stands for at this point of the connection; none if the block
    /// is malformed.
    pub open spec fn headers(self, block: Seq<u8>) -> Option<Seq<HeaderModel>> {
        if size_updates_whole(block) {
            hpack_decoding(self.received, block)
        } else {
            None
        }
    }

    /// After a header list has been sent.
    pub open spec fn after_sending(self, headers: Seq<HeaderModel>) -> CompressionModel {
        CompressionModel { sent: self.sent.push(headers), ..self }
    }

    /// After a block has been received, as far as it can be read.
    pub open spec fn after_receiving(self, block: Seq<u8>) -> CompressionModel {
        CompressionModel { received: self.received.push(readable_part(block)), ..self }
    }
}

impl Compression {
    /// The compression of a new connection.
    pub fn new() -> (compression: Compression)
        ensures
            compression@ == (CompressionModel { sent: Seq::empty(), received: Seq::empty() }),
    {
        Compression { encoder: new_encoder(), decoder: new_decoder() }
    }

    /// Compresses a header list.
    pub fn encode(&mut self, headers: &Vec<Header>) -> (block: Vec<u8>)
        ensures
            block@ == old(self)@.block(crate::http::header_list(headers@)),
            final(self)@ == old(self)@.after_sending(crate::http::header_list(headers@)),
    {
        encode_list(&mut self.encoder, headers)
    }

    /// Restores a header list.
    pub fn decode(&mut self, block: &[u8]) -> (headers: HttpResult<Vec<Header>>)
        ensures
            match headers {
                Ok(list) => old(self)@.headers(block@) == Some(crate::http::header_list(list@)),
                Err(err) => old(self)@.headers(block@) is None && err is CompressionError,
            },
            final(self)@ == old(self)@.after_receiving(block@),
    {
        if let Some(at) = find_broken_update(block) {
            proof {
                readable_part_is_whole(block@);
                assert(block@.subrange(0, at as int) =~= readable_part(block@));
            }
            // What comes before it still counts for the blocks that follow.
            let _ = decode_block(&mut self.decoder, slice_subrange(block, 0, at));
            return Err(HttpError::CompressionError);
        }
        match decode_block(&mut self.decoder, block) {
            Ok(headers) => Ok(headers),
            Err(_) => Err(HttpError::CompressionError),
        }
    }
}

} // verus!
