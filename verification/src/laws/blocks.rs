//! What holds of header blocks: how their fields follow each other
use vstd::prelude::*;

verus! {

/// The octets of an integer from the point on where its first octet has no room for more: seven
/// bits in each, the least significant first.
pub open spec fn more_octets(value: nat) -> Seq<u8>
    decreases value,
{
    if value < 128 {
        seq![value as u8]
    } else {
        seq![(128 + value % 128) as u8] + more_octets(value / 128)
    }
}

/// The octets of an integer whose first octet has room for values up to `max`, besides the bits
/// that mark what it is for.
pub open spec fn integer_octets(mark: u8, max: u8, value: nat) -> Seq<u8> {
    if value < max {
        seq![(mark + value) as u8]
    } else {
        seq![(mark + max) as u8] + more_octets((value - max) as nat)
    }
}

/// The octets of a string, which is compressed or not.
pub open spec fn string_octets(compressed: bool, text: Seq<u8>) -> Seq<u8> {
    integer_octets(
        if compressed {
            128
        } else {
            0
        },
        127,
        text.len(),
    ) + text
}

/// Whether the given octets stand in a block, from `at` on.
pub open spec fn stands_at(b: Seq<u8>, at: int, octets: Seq<u8>) -> bool {
    0 <= at && at + octets.len() <= b.len() && b.subrange(at, at + octets.len() as int) == octets
}

/// What stands somewhere in parts stands there part by part.
proof fn parts_stand(b: Seq<u8>, at: int, first: Seq<u8>, second: Seq<u8>)
    requires
        stands_at(b, at, first + second),
    ensures
        stands_at(b, at, first),
        stands_at(b, at + first.len() as int, second),
{
    let whole = first + second;
    let n = first.len() as int;
    assert forall|i: int| 0 <= i < first.len() implies b[at + i] == first[i] by {
        assert(b.subrange(at, at + whole.len() as int)[i] == whole[i]);
    }
    assert(b.subrange(at, at + n) =~= first);
    assert forall|i: int| 0 <= i < second.len() implies b[at + n + i] == second[i] by {
        assert(b.subrange(at, at + whole.len() as int)[n + i] == whole[n + i]);
    }
    assert(b.subrange(at + n, at + n + second.len() as int) =~= second);
}

/// The first of the octets that stand somewhere is there.
proof fn first_stands(b: Seq<u8>, at: int, octets: Seq<u8>)
    requires
        stands_at(b, at, octets),
        octets.len() > 0,
    ensures
        b[at] == octets[0],
{
    assert(b.subrange(at, at + octets.len() as int)[0] == octets[0]);
}

/// The rest of an integer is read back, if it is not too long.
proof fn rest_is_read(b: Seq<u8>, at: int, value: nat, start: int, weight: int, left: nat)
    requires
        stands_at(b, at, more_octets(value)),
        more_octets(value).len() <= left,
    ensures
        crate::compression::integer_tail(b, at, start, weight, left) == Some(
            (start + value * weight, at + more_octets(value).len()),
        ),
    decreases value,
{
    first_stands(b, at, more_octets(value));
    if value >= 128 {
        let low = (value % 128) as int;
        parts_stand(b, at, seq![(128 + value % 128) as u8], more_octets(value / 128));
        rest_is_read(
            b,
            at + 1,
            value / 128,
            start + low * weight,
            weight * 128,
            (left - 1) as nat,
        );
        let high = (value / 128) as int;
        assert(start + low * weight + high * (weight * 128) == start + (low + 128 * high) * weight)
            by (nonlinear_arith);
        assert(low + 128 * high == value);
    }
}

/// How long the rest of an integer is.
proof fn rest_is_short(value: nat)
    requires
        value < 0x1000_0000,
    ensures
        1 <= more_octets(value).len() <= 4,
{
    reveal_with_fuel(more_octets, 4);
    assert(value / 128 < 0x20_0000);
    assert(value / 128 / 128 < 0x4000);
    assert(value / 128 / 128 / 128 < 128);
}

/// The marks of an octet and the value beside them are told apart.
proof fn marks_come_off(mark: u8, max: u8, value: int)
    requires
        max == 127 && mark % 128 == 0 || max == 63 && mark % 64 == 0 || max == 31 && mark % 32 == 0
            || max == 15 && mark % 16 == 0,
        0 <= value <= max,
    ensures
        (mark + value) % (max + 1) == value,
{
    if max == 127 {
        assert((mark + value) % 128 == value);
    } else if max == 63 {
        assert((mark + value) % 64 == value);
    } else if max == 31 {
        assert((mark + value) % 32 == value);
    } else {
        assert((mark + value) % 16 == value);
    }
}

/// An integer that takes five octets at most is read back, whatever its mark is and whatever stands
/// around it.
pub proof fn integers_are_read(b: Seq<u8>, at: int, mark: u8, max: u8, value: nat)
    requires
        max == 127 && mark % 128 == 0 || max == 63 && mark % 64 == 0 || max == 31 && mark % 32 == 0
            || max == 15 && mark % 16 == 0,
        mark + max <= 255,
        value < 0x1000_0000,
        stands_at(b, at, integer_octets(mark, max, value)),
    ensures
        crate::compression::integer_at(b, at, max as int) == Some(
            (value as int, at + integer_octets(mark, max, value).len()),
        ),
{
    first_stands(b, at, integer_octets(mark, max, value));
    if value < max {
        marks_come_off(mark, max, value as int);
        assert(b[at] == mark + value);
    } else {
        let rest = (value - max) as nat;
        rest_is_short(rest);
        parts_stand(b, at, seq![(mark + max) as u8], more_octets(rest));
        marks_come_off(mark, max, max as int);
        assert(b[at] == mark + max);
        rest_is_read(b, at + 1, rest, max as int, 1, 4);
    }
}

/// A string is read back, whatever stands around it.
pub proof fn strings_are_read(b: Seq<u8>, at: int, compressed: bool, text: Seq<u8>)
    requires
        text.len() < 0x1000_0000,
        stands_at(b, at, string_octets(compressed, text)),
    ensures
        crate::compression::string_end(b, at) == Some(
            at + string_octets(compressed, text).len(),
        ),
{
    let mark = if compressed {
        128u8
    } else {
        0u8
    };
    parts_stand(b, at, integer_octets(mark, 127, text.len()), text);
    integers_are_read(b, at, mark, 127, text.len());
}

/// A field of a header block: one that the tables hold, one that is written out, with its name in
/// the tables or not, or a change of the table's size.
pub enum FieldForm {
    Indexed { index: nat },
    NamedInTable { mark: u8, index: nat, compressed: bool, value: Seq<u8> },
    WrittenOut {
        mark: u8,
        name_compressed: bool,
        name: Seq<u8>,
        compressed: bool,
        value: Seq<u8>,
    },
    SizeUpdate { size: nat },
}

/// The octets of a field.
pub open spec fn field_octets(field: FieldForm) -> Seq<u8> {
    match field {
        FieldForm::Indexed { index } => integer_octets(128, 127, index),
        FieldForm::NamedInTable { mark, index, compressed, value } => integer_octets(
            mark,
            if mark == 64 {
                63
            } else {
                15
            },
            index,
        ) + string_octets(compressed, value),
        FieldForm::WrittenOut { mark, name_compressed, name, compressed, value } => seq![mark]
            + string_octets(name_compressed, name) + string_octets(compressed, value),
        FieldForm::SizeUpdate { size } => integer_octets(32, 31, size),
    }
}

/// Whether the parts of a field have their usual marks, and lengths that five octets can hold.
pub open spec fn is_usual(field: FieldForm) -> bool {
    match field {
        FieldForm::Indexed { index } => index < 0x1000_0000,
        FieldForm::NamedInTable { mark, index, value, .. } => {
            &&& mark == 64 || mark == 16 || mark == 0
            &&& 0 < index < 0x1000_0000
            &&& value.len() < 0x1000_0000
        },
        FieldForm::WrittenOut { mark, name, value, .. } => {
            &&& mark == 64 || mark == 16 || mark == 0
            &&& name.len() < 0x1000_0000
            &&& value.len() < 0x1000_0000
        },
        FieldForm::SizeUpdate { size } => size < 0x1000_0000,
    }
}

/// A field whose name is in the tables is complete with its value.
proof fn named_fields_end(
    b: Seq<u8>,
    at: int,
    mark: u8,
    max: u8,
    index: nat,
    compressed: bool,
    value: Seq<u8>,
)
    requires
        mark == 64 && max == 63 || mark == 16 && max == 15 || mark == 0 && max == 15,
        0 < index < 0x1000_0000,
        value.len() < 0x1000_0000,
        stands_at(b, at, integer_octets(mark, max, index) + string_octets(compressed, value)),
    ensures
        crate::compression::literal_end(b, at, max as int) == Some(
            at + integer_octets(mark, max, index).len() + string_octets(compressed, value).len(),
        ),
        mark <= b[at] <= mark + max,
{
    let first = integer_octets(mark, max, index);
    parts_stand(b, at, first, string_octets(compressed, value));
    first_stands(b, at, first);
    integers_are_read(b, at, mark, max, index);
    strings_are_read(b, at + first.len() as int, compressed, value);
}

/// A field that is written out is complete with its value.
proof fn written_fields_end(
    b: Seq<u8>,
    at: int,
    mark: u8,
    max: u8,
    name_compressed: bool,
    name: Seq<u8>,
    compressed: bool,
    value: Seq<u8>,
)
    requires
        mark == 64 && max == 63 || mark == 16 && max == 15 || mark == 0 && max == 15,
        name.len() < 0x1000_0000,
        value.len() < 0x1000_0000,
        stands_at(
            b,
            at,
            seq![mark] + string_octets(name_compressed, name) + string_octets(compressed, value),
        ),
    ensures
        crate::compression::literal_end(b, at, max as int) == Some(
            at + 1 + string_octets(name_compressed, name).len() + string_octets(
                compressed,
                value,
            ).len(),
        ),
        b[at] == mark,
{
    let first = string_octets(name_compressed, name);
    let second = string_octets(compressed, value);
    assert(seq![mark] + first + second =~= seq![mark] + (first + second));
    parts_stand(b, at, seq![mark], first + second);
    first_stands(b, at, seq![mark]);
    parts_stand(b, at + 1, first, second);
    assert(max == 63 ==> mark % 64 == 0);
    assert(max == 15 ==> mark % 16 == 0);
    marks_come_off(mark, max, 0);
    strings_are_read(b, at + 1, name_compressed, name);
    strings_are_read(b, at + 1 + first.len() as int, compressed, value);
}

/// Where a complete field ends.
proof fn fields_end(b: Seq<u8>, at: int, field: FieldForm)
    requires
        is_usual(field),
        stands_at(b, at, field_octets(field)),
    ensures
        crate::compression::field_end(b, at) == Some(at + field_octets(field).len()),
        field_octets(field).len() > 0,
{
    match field {
        FieldForm::Indexed { index } => {
            first_stands(b, at, field_octets(field));
            integers_are_read(b, at, 128, 127, index);
        },
        FieldForm::NamedInTable { mark, index, compressed, value } => {
            let max = if mark == 64 {
                63u8
            } else {
                15u8
            };
            named_fields_end(b, at, mark, max, index, compressed, value);
        },
        FieldForm::WrittenOut { mark, name_compressed, name, compressed, value } => {
            let max = if mark == 64 {
                63u8
            } else {
                15u8
            };
            written_fields_end(b, at, mark, max, name_compressed, name, compressed, value);
        },
        FieldForm::SizeUpdate { size } => {
            first_stands(b, at, field_octets(field));
            integers_are_read(b, at, 32, 31, size);
        },
    }
}

/// A field that is complete is passed over, whatever stands around it.
pub proof fn fields_are_passed_over(b: Seq<u8>, at: int, field: FieldForm)
    requires
        is_usual(field),
        stands_at(b, at, field_octets(field)),
    ensures
        crate::compression::broken_update(b, at) == crate::compression::broken_update(
            b,
            at + field_octets(field).len(),
        ),
{
    fields_end(b, at, field);
}

/// The octets of fields, one after the other.
pub open spec fn block_octets(fields: Seq<FieldForm>) -> Seq<u8>
    decreases fields.len(),
{
    if fields.len() == 0 {
        Seq::empty()
    } else {
        field_octets(fields[0]) + block_octets(fields.drop_first())
    }
}

/// Complete fields are passed over, however many there are.
proof fn blocks_are_passed_over(b: Seq<u8>, at: int, fields: Seq<FieldForm>)
    requires
        forall|i: int| 0 <= i < fields.len() ==> is_usual(#[trigger] fields[i]),
        stands_at(b, at, block_octets(fields)),
    ensures
        crate::compression::broken_update(b, at) == crate::compression::broken_update(
            b,
            at + block_octets(fields).len(),
        ),
    decreases fields.len(),
{
    if fields.len() > 0 {
        let first = field_octets(fields[0]);
        let rest = fields.drop_first();
        assert(is_usual(fields[0]));
        assert forall|i: int| 0 <= i < rest.len() implies is_usual(#[trigger] rest[i]) by {
            assert(rest[i] == fields[i + 1]);
        }
        parts_stand(b, at, first, block_octets(rest));
        fields_are_passed_over(b, at, fields[0]);
        blocks_are_passed_over(b, at + first.len() as int, rest);
    }
}

/// A block of complete fields is handed to the decoder as it is. If a change of the table's size
/// follows them that breaks off, all up to it is.
pub proof fn complete_fields_are_handed_over(fields: Seq<FieldForm>, cut: Seq<u8>)
    requires
        forall|i: int| 0 <= i < fields.len() ==> is_usual(#[trigger] fields[i]),
        0 < cut.len() <= 4,
        cut[0] == 63,
        forall|i: int| 0 < i < cut.len() ==> #[trigger] cut[i] >= 128,
    ensures
        crate::compression::size_updates_whole(block_octets(fields)),
        crate::compression::readable_part(block_octets(fields)) == block_octets(fields),
        !crate::compression::size_updates_whole(block_octets(fields) + cut),
        crate::compression::readable_part(block_octets(fields) + cut) == block_octets(fields),
{
    let block = block_octets(fields);
    assert(block.subrange(0, block.len() as int) =~= block);
    blocks_are_passed_over(block, 0, fields);
    let b = block + cut;
    let n = block.len() as int;
    assert(b.subrange(0, n) =~= block);
    blocks_are_passed_over(b, 0, fields);
    assert(b[n] == 63);
    assert forall|i: int| n < i < b.len() implies #[trigger] b[i] >= 128 by {
        assert(b[i] == cut[i - n]);
    }
    assert(crate::compression::integer_at(b, n, 31) is None) by {
        reveal_with_fuel(crate::compression::integer_tail, 5);
    }
    assert(crate::compression::field_end(b, n) is None);
    assert(crate::compression::broken_update(b, n) == Some(n));
    assert(b.take(n) =~= block);
}

} // verus!
