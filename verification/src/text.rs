//! Text in headers: UTF-8, letter case and numbers.
use crate::Cause;
use vstd::prelude::*;

verus! {

/// A character in lower case, if it is an ASCII letter.
pub open spec fn lower_char(c: char) -> char {
    if 'A' <= c && c <= 'Z' {
        ((c as u32) + 32) as char
    } else {
        c
    }
}

/// An octet in lower case, if it is an ASCII letter.
pub open spec fn lower_byte(b: u8) -> u8 {
    if 65 <= b <= 90 {
        (b + 32) as u8
    } else {
        b
    }
}

/// Whether two names differ in the case of ASCII letters at most.
pub open spec fn same_name(a: Seq<char>, b: Seq<char>) -> bool {
    a.map_values(|c: char| lower_char(c)) == b.map_values(|c: char| lower_char(c))
}

/// The octets that stand for a text.
pub open spec fn utf8(text: Seq<char>) -> Seq<u8> {
    vstd::utf8::encode_utf8(text)
}

/// Whether a text is one or more decimal digits.
pub open spec fn all_digits(text: Seq<char>) -> bool {
    text.len() > 0 && forall|i: int| 0 <= i < text.len() ==> '0' <= #[trigger] text[i] <= '9'
}

/// The number that decimal digits stand for.
pub open spec fn decimal(digits: Seq<char>) -> int
    decreases digits.len(),
{
    if digits.len() == 0 {
        0
    } else {
        decimal(digits.drop_last()) * 10 + (digits.last() as int - '0' as int)
    }
}

/// The number of 16 bits that a text stands for: decimal digits, after a plus sign or not.
pub open spec fn number16(text: Seq<char>) -> Option<u16> {
    let digits = if text.len() > 0 && text[0] == '+' {
        text.drop_first()
    } else {
        text
    };
    if all_digits(digits) && decimal(digits) <= 0xffff {
        Some(decimal(digits) as u16)
    } else {
        None
    }
}

/// `std::str::from_utf8`: the text that the octets stand for, if they are UTF-8. Nothing is stated
/// of what the error says.
#[allow(deprecated)]
#[verifier::external_body]
pub(crate) fn from_utf8(bytes: &[u8]) -> (text: Result<String, Cause>)
    ensures
        match text {
            Ok(s) => vstd::utf8::valid_utf8(bytes@) && s@ == vstd::utf8::decode_utf8(bytes@),
            Err(_) => !vstd::utf8::valid_utf8(bytes@),
        },
{
    match std::str::from_utf8(bytes) {
        Ok(s) => Ok(s.to_string()),
        Err(err) => {
            let description = std::error::Error::description(&err).to_string();
            Err(Cause { kind: None, description, message: err.to_string(), cause: None })
        },
    }
}

/// `str::parse::<u16>`: decimal digits after an optional plus sign, if their number fits. Nothing is
/// stated of what the error says.
#[allow(deprecated)]
#[verifier::external_body]
pub(crate) fn parse_u16(text: &str) -> (number: Result<u16, Cause>)
    ensures
        match number {
            Ok(n) => number16(text@) == Some(n),
            Err(_) => number16(text@) is None,
        },
{
    match text.parse::<u16>() {
        Ok(n) => Ok(n),
        Err(err) => {
            let description = std::error::Error::description(&err).to_string();
            Err(Cause { kind: None, description, message: err.to_string(), cause: None })
        },
    }
}

/// Octets in lower case.
pub fn to_lower(bytes: &[u8]) -> (lower: Vec<u8>)
    ensures
        lower@ == bytes@.map_values(|b: u8| lower_byte(b)),
{
    let mut lower: Vec<u8> = Vec::new();
    let mut i: usize = 0;
    while i < bytes.len()
        invariant
            i <= bytes@.len(),
            lower@ == bytes@.subrange(0, i as int).map_values(|b: u8| lower_byte(b)),
        decreases bytes@.len() - i,
    {
        let b: u8 = bytes[i];
        lower.push(
            if 65 <= b && b <= 90 {
                b + 32
            } else {
                b
            },
        );
        i = i + 1;
    }
    assert(bytes@.subrange(0, i as int) =~= bytes@);
    lower
}

/// The encoding of one character, in lower case, is that of the character in lower case.
proof fn lower_scalar(c: char)
    ensures
        vstd::utf8::encode_scalar(c as u32).map_values(|b: u8| lower_byte(b))
            == vstd::utf8::encode_scalar(lower_char(c) as u32),
{
    let s = c as u32;
    vstd::utf8::char_is_scalar(c);
    let octets = vstd::utf8::encode_scalar(s);
    if s < 0x80 {
        assert(s & 0x7f == s) by (bit_vector)
            requires
                s < 0x80,
        ;
        let t = lower_char(c) as u32;
        assert(t & 0x7f == t) by (bit_vector)
            requires
                t < 0x80,
        ;
        assert(octets.map_values(|b: u8| lower_byte(b)) =~= vstd::utf8::encode_scalar(t));
    } else {
        assert(0xC0 | ((s >> 6) & 0x1F) as u8 >= 0x80) by (bit_vector);
        assert(0xE0 | ((s >> 12) & 0x0F) as u8 >= 0x80) by (bit_vector);
        assert(0xF0 | ((s >> 18) & 0x7) as u8 >= 0x80) by (bit_vector);
        assert(0x80 | (s & 0x3F) as u8 >= 0x80) by (bit_vector);
        assert(0x80 | ((s >> 6) & 0x3F) as u8 >= 0x80) by (bit_vector);
        assert(0x80 | ((s >> 12) & 0x3F) as u8 >= 0x80) by (bit_vector);
        assert(octets.map_values(|b: u8| lower_byte(b)) =~= octets);
    }
}

/// Lower case can be taken of a text or of its octets.
pub proof fn lower_commutes(text: Seq<char>)
    ensures
        utf8(text).map_values(|b: u8| lower_byte(b)) == utf8(
            text.map_values(|c: char| lower_char(c)),
        ),
    decreases text.len(),
{
    let lower = text.map_values(|c: char| lower_char(c));
    if text.len() == 0 {
        assert(utf8(text).map_values(|b: u8| lower_byte(b)) =~= utf8(lower));
    } else {
        let first = vstd::utf8::encode_scalar(text[0] as u32);
        let rest = utf8(text.drop_first());
        lower_scalar(text[0]);
        lower_commutes(text.drop_first());
        assert(lower.drop_first() =~= text.drop_first().map_values(|c: char| lower_char(c)));
        assert(utf8(text).map_values(|b: u8| lower_byte(b)) =~= first.map_values(
            |b: u8| lower_byte(b),
        ) + rest.map_values(|b: u8| lower_byte(b)));
    }
}

/// Two names are the same if and only if their octets in lower case are.
pub proof fn same_name_by_octets(a: Seq<char>, b: Seq<char>)
    ensures
        same_name(a, b) <==> utf8(a).map_values(|x: u8| lower_byte(x)) == utf8(b).map_values(
            |x: u8| lower_byte(x),
        ),
{
    lower_commutes(a);
    lower_commutes(b);
    vstd::utf8::encode_utf8_decode_utf8(a.map_values(|c: char| lower_char(c)));
    vstd::utf8::encode_utf8_decode_utf8(b.map_values(|c: char| lower_char(c)));
}

/// Whether two names differ in the case of ASCII letters at most.
pub fn is_same_name(a: &str, b: &str) -> (same: bool)
    ensures
        same == same_name(a@, b@),
{
    proof {
        same_name_by_octets(a@, b@);
    }
    let x = to_lower(a.as_bytes());
    let y = to_lower(b.as_bytes());
    let same = x == y;
    assert(same <==> x@ =~= y@);
    same
}

/// Digits stand for no negative number.
proof fn digits_are_natural(digits: Seq<char>)
    requires
        forall|i: int| 0 <= i < digits.len() ==> '0' <= #[trigger] digits[i] <= '9',
    ensures
        decimal(digits) >= 0,
    decreases digits.len(),
{
    if digits.len() > 0 {
        let before = digits.drop_last();
        assert forall|i: int| 0 <= i < before.len() implies '0' <= #[trigger] before[i] <= '9' by {
            assert(before[i] == digits[i]);
        }
        digits_are_natural(before);
        assert('0' <= digits[digits.len() - 1] <= '9');
    }
}

/// A decimal number goes on digit by digit, as long as it fits. A plus sign in front of it makes no
/// difference.
pub proof fn numbers_are_read(text: Seq<char>, number: u16, digit: char)
    requires
        all_digits(text),
        number16(text) == Some(number),
        '0' <= digit <= '9',
    ensures
        number16(seq![digit]) == Some((digit as int - '0' as int) as u16),
        number16(text.push(digit)) == if number * 10 + (digit as int - '0' as int) <= 0xffff {
            Some((number * 10 + (digit as int - '0' as int)) as u16)
        } else {
            None
        },
        number16(seq!['+'] + text) == Some(number),
{
    let one = seq![digit];
    reveal_with_fuel(decimal, 2);
    assert(one.drop_last() =~= Seq::empty());
    assert(all_digits(one));
    let more = text.push(digit);
    assert(more.drop_last() =~= text);
    assert(more.last() == digit);
    assert(more[0] == text[0]);
    assert forall|i: int| 0 <= i < more.len() implies '0' <= #[trigger] more[i] <= '9' by {
        if i < text.len() {
            assert(more[i] == text[i]);
        }
    }
    assert('0' <= text[0] <= '9');
    digits_are_natural(text);
    assert(decimal(more) == decimal(text) * 10 + (digit as int - '0' as int));
    let signed = seq!['+'] + text;
    assert(signed.drop_first() =~= text);
}

/// Two names are the same whatever the case of their letters, and only then.
pub proof fn names_are_compared(a: Seq<char>, b: Seq<char>)
    ensures
        same_name(a, b) <==> a.len() == b.len() && forall|i: int|
            0 <= i < a.len() ==> {
                let x = #[trigger] a[i] as int;
                let y = b[i] as int;
                ||| x == y
                ||| 65 <= x <= 90 && y == x + 32
                ||| 65 <= y <= 90 && x == y + 32
            },
{
    let x = a.map_values(|c: char| lower_char(c));
    let y = b.map_values(|c: char| lower_char(c));
    if same_name(a, b) {
        assert(a.len() == x.len() && b.len() == y.len());
        assert forall|i: int| 0 <= i < a.len() implies {
            let p = #[trigger] a[i] as int;
            let q = b[i] as int;
            ||| p == q
            ||| 65 <= p <= 90 && q == p + 32
            ||| 65 <= q <= 90 && p == q + 32
        } by {
            assert(x[i] == lower_char(a[i]));
            assert(y[i] == lower_char(b[i]));
        }
    } else if a.len() == b.len() {
        let i = choose|i: int| 0 <= i < a.len() && x[i] != y[i];
        assert(!(x =~= y));
        assert(x[i] == lower_char(a[i]) && y[i] == lower_char(b[i]));
        assert(a[i] as int == a[i] as int);
    }
}

} // verus!
