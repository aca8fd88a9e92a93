//! What holds of headers: how they are set, read and sent
use crate::header::Field;
use crate::http::{HeaderModel, HttpScheme};
use crate::request::Request;
use vstd::prelude::*;

verus! {

/// Whether none of the headers has the given name.
pub open spec fn lacks(fields: Seq<Field>, name: Seq<char>) -> bool {
    forall|i: int|
        0 <= i < fields.len() ==> !crate::text::same_name(#[trigger] fields[i].0, name)
}

/// The one header with a name is found where it stands, and one that is not there is not found.
pub proof fn headers_are_found(fields: Seq<Field>, name: Seq<char>, i: int)
    requires
        crate::header::distinct_names(fields),
    ensures
        lacks(fields, name) ==> crate::header::field_index(fields, name) == fields.len(),
        lacks(fields, name) ==> crate::header::field_values(fields, name) is None,
        0 <= i < fields.len() && crate::text::same_name(fields[i].0, name) ==> {
            &&& crate::header::field_index(fields, name) == i
            &&& crate::header::field_values(fields, name) == Some(fields[i].1)
        },
{
    crate::header::field_index_finds(fields, name);
    let at = crate::header::field_index(fields, name);
    if at < fields.len() {
        assert(crate::text::same_name(fields[at].0, name));
        if 0 <= i < fields.len() && crate::text::same_name(fields[i].0, name) && i != at {
            if i < at {
                assert(!crate::text::same_name(fields[i].0, fields[at].0));
            } else {
                assert(!crate::text::same_name(fields[at].0, fields[i].0));
            }
        }
    } else if 0 <= i < fields.len() {
        assert(!crate::text::same_name(fields[i].0, name));
    }
}

/// A header that is set takes the place of the one with its name, or the last place if there is
/// none. The others stay as they are.
pub proof fn headers_are_set(fields: Seq<Field>, name: Seq<char>, values: Seq<Seq<u8>>, i: int)
    requires
        crate::header::distinct_names(fields),
    ensures
        lacks(fields, name) ==> crate::header::with_field(fields, name, values) == fields.push(
            (name, values),
        ),
        0 <= i < fields.len() && crate::text::same_name(fields[i].0, name)
            ==> crate::header::with_field(fields, name, values) == fields.update(i, (name, values)),
{
    headers_are_found(fields, name, i);
}

/// A value is read without the spaces at its end, and with all else.
pub proof fn values_are_trimmed(value: Seq<u8>)
    ensures
        ({
            let kept = crate::header::trim_end(value);
            &&& kept.len() <= value.len()
            &&& kept == value.take(kept.len() as int)
            &&& kept.len() > 0 ==> kept.last() != 32
            &&& forall|i: int| kept.len() <= i < value.len() ==> #[trigger] value[i] == 32
        }),
    decreases value.len(),
{
    let kept = crate::header::trim_end(value);
    if value.len() > 0 && value.last() == 32 {
        let rest = value.drop_last();
        values_are_trimmed(rest);
        assert(value.take(kept.len() as int) =~= rest.take(kept.len() as int));
        assert forall|i: int| kept.len() <= i < value.len() implies #[trigger] value[i] == 32 by {
            if i < rest.len() {
                assert(rest[i] == 32);
            }
        }
    } else {
        assert(value.take(value.len() as int) =~= value);
    }
}

/// A header list is read header by header: the value of each joins those of the headers before it
/// that have its name, or is the first of a header that comes last. Nothing is left out.
pub proof fn lists_are_read(list: Seq<HeaderModel>, name: Seq<char>, value: Seq<u8>, i: int)
    ensures
        crate::header::fields_of(Seq::empty()) == Seq::<Field>::empty(),
        ({
            let before = crate::header::fields_of(list);
            let after = crate::header::fields_of(list.push((crate::text::utf8(name), value)));
            let kept = crate::header::trim_end(value);
            &&& lacks(before, name) ==> after == before.push((name, seq![kept]))
            &&& 0 <= i < before.len() && crate::text::same_name(before[i].0, name) ==> after
                == before.update(i, (before[i].0, before[i].1.push(kept)))
        }),
{
    let more = list.push((crate::text::utf8(name), value));
    let lines = crate::header::lines_of(list);
    vstd::utf8::encode_utf8_decode_utf8(name);
    assert(crate::header::lines_of(more).drop_last() =~= lines);
    assert(crate::header::lines_of(more).last() == (name, value));
    crate::header::lines_give_distinct_names(lines);
    headers_are_found(crate::header::fields_of(list), name, i);
}

/// Text that is encoded counts as text.
pub proof fn names_of_lists(list: Seq<HeaderModel>, name: Seq<char>, value: Seq<u8>)
    ensures
        crate::header::names_are_text(Seq::empty()),
        crate::header::names_are_text(list) ==> crate::header::names_are_text(
            list.push((crate::text::utf8(name), value)),
        ),
{
    vstd::utf8::encode_utf8_valid_utf8(name);
}

/// The values of a header are sent as one, in their order, with a comma and a space between them.
pub proof fn values_are_joined(values: Seq<Seq<u8>>, value: Seq<u8>)
    ensures
        crate::header::joined(Seq::empty()) == Seq::<u8>::empty(),
        crate::header::joined(seq![value]) == crate::header::unbroken(value),
        values.len() > 0 ==> crate::header::joined(values.push(value)) == crate::header::joined(
            values,
        ) + seq![44u8, 32] + crate::header::unbroken(value),
{
    assert(values.push(value).drop_last() =~= values);
}

/// A value is sent octet by octet; only line breaks become spaces.
pub proof fn values_are_unbroken(value: Seq<u8>, i: int)
    requires
        0 <= i < value.len(),
    ensures
        crate::header::unbroken(value).len() == value.len(),
        value[i] != 13 && value[i] != 10 ==> crate::header::unbroken(value)[i] == value[i],
        value[i] == 13 || value[i] == 10 ==> crate::header::unbroken(value)[i] == 32,
{
}

/// A name is sent octet by octet; only capital letters become small ones.
pub proof fn names_are_lowered(name: Seq<char>, i: int)
    requires
        0 <= i < crate::text::utf8(name).len(),
    ensures
        ({
            let octets = crate::text::utf8(name);
            let sent = crate::header::sent_name(name);
            &&& sent.len() == octets.len()
            &&& sent[i] == if 65 <= octets[i] <= 90 {
                (octets[i] + 32) as u8
            } else {
                octets[i]
            }
        }),
{
}

/// Without a `Connection` and a `Set-Cookie` header, all headers are sent, in their order.
pub proof fn headers_are_sent(fields: Seq<Field>)
    requires
        lacks(fields, "Connection"@),
        lacks(fields, "Set-Cookie"@),
    ensures
        crate::header::h2_headers(fields) == fields.map_values(
            |field: Field| (crate::header::sent_name(field.0), crate::header::joined(field.1)),
        ),
{
    crate::header::field_index_finds(fields, "Connection"@);
    crate::header::field_index_finds(fields, "Set-Cookie"@);
    plain_headers_are_all(fields);
    assert(crate::header::cookie_headers(fields) =~= Seq::empty());
    assert(crate::header::h2_headers(fields) =~= crate::header::plain_headers(fields));
}

/// Without a `Set-Cookie` header, all headers are sent as they stand.
proof fn plain_headers_are_all(fields: Seq<Field>)
    requires
        lacks(fields, "Set-Cookie"@),
    ensures
        crate::header::plain_headers(fields) == fields.map_values(
            |field: Field| (crate::header::sent_name(field.0), crate::header::joined(field.1)),
        ),
    decreases fields.len(),
{
    let sent = |field: Field| (crate::header::sent_name(field.0), crate::header::joined(field.1));
    if fields.len() > 0 {
        let before = fields.drop_last();
        assert forall|i: int| 0 <= i < before.len() implies !crate::text::same_name(
            #[trigger] before[i].0,
            "Set-Cookie"@,
        ) by {
            assert(before[i] == fields[i]);
        }
        plain_headers_are_all(before);
        assert(!crate::text::same_name(fields[fields.len() - 1].0, "Set-Cookie"@));
        assert(fields.map_values(sent) =~= before.map_values(sent).push(sent(fields.last())));
    } else {
        assert(crate::header::plain_headers(fields) =~= fields.map_values(sent));
    }
}

/// A `Connection` header makes no difference to what is sent.
pub proof fn connection_makes_no_difference(fields: Seq<Field>, i: int)
    requires
        crate::header::distinct_names(fields),
        0 <= i < fields.len(),
        crate::text::same_name(fields[i].0, "Connection"@),
    ensures
        crate::header::h2_headers(fields) == crate::header::h2_headers(fields.remove(i)),
{
    let rest = fields.remove(i);
    headers_are_found(fields, "Connection"@, i);
    assert forall|k: int| 0 <= k < rest.len() implies !crate::text::same_name(
        #[trigger] rest[k].0,
        "Connection"@,
    ) by {
        if k < i {
            assert(!crate::text::same_name(fields[k].0, fields[i].0));
        } else {
            assert(!crate::text::same_name(fields[i].0, fields[k + 1].0));
        }
    }
    crate::header::field_index_finds(rest, "Connection"@);
}

/// A `Set-Cookie` header is sent as a header for each of its cookies, behind all others.
pub proof fn cookies_are_sent_last(fields: Seq<Field>, i: int)
    requires
        crate::header::distinct_names(fields),
        lacks(fields, "Connection"@),
        0 <= i < fields.len(),
        crate::text::same_name(fields[i].0, "Set-Cookie"@),
    ensures
        crate::header::h2_headers(fields) == crate::header::h2_headers(fields.remove(i))
            + crate::header::cookie_lines(fields[i].1).map_values(
            |line: Seq<char>| (crate::text::utf8("set-cookie"@), crate::text::utf8(line)),
        ),
{
    let rest = fields.remove(i);
    headers_are_found(fields, "Connection"@, 0);
    headers_are_found(fields, "Set-Cookie"@, i);
    assert forall|k: int| 0 <= k < rest.len() implies !crate::text::same_name(
        #[trigger] rest[k].0,
        "Set-Cookie"@,
    ) && !crate::text::same_name(rest[k].0, "Connection"@) by {
        if k < i {
            assert(!crate::text::same_name(fields[k].0, fields[i].0));
            assert(!crate::text::same_name(fields[k].0, "Connection"@));
        } else {
            assert(!crate::text::same_name(fields[i].0, fields[k + 1].0));
            assert(!crate::text::same_name(fields[k + 1].0, "Connection"@));
        }
    }
    crate::header::field_index_finds(rest, "Connection"@);
    crate::header::field_index_finds(rest, "Set-Cookie"@);
    plain_headers_without(fields, i);
    assert(crate::header::cookie_headers(rest) =~= Seq::empty());
    assert(crate::header::h2_headers(rest) =~= crate::header::plain_headers(rest));
}

/// A `Set-Cookie` header is not among those that are sent as they stand.
proof fn plain_headers_without(fields: Seq<Field>, i: int)
    requires
        0 <= i < fields.len(),
        crate::text::same_name(fields[i].0, "Set-Cookie"@),
    ensures
        crate::header::plain_headers(fields) == crate::header::plain_headers(fields.remove(i)),
    decreases fields.len(),
{
    let rest = fields.remove(i);
    if i == fields.len() - 1 {
        assert(rest =~= fields.drop_last());
    } else {
        plain_headers_without(fields.drop_last(), i);
        assert(rest.drop_last() =~= fields.drop_last().remove(i));
        assert(rest.last() == fields.last());
    }
}

/// Every request, with a body or without one, is sent with its method, its path, its authority and
/// its scheme first, and then with the headers that were set, this client as the user agent.
pub proof fn requests_are_sent_in_full(request: Request, scheme: HttpScheme)
    ensures
        ({
            let list = crate::protocol::request_headers(request, scheme);
            let fields = crate::header::with_field(
                request.headers@,
                "User-Agent"@,
                seq![crate::text::utf8("hydra/0.0.1"@)],
            );
            &&& list.len() >= 4
            &&& list[0] == (crate::text::utf8(":method"@), crate::text::utf8(request.method@))
            &&& list[1] == (crate::text::utf8(":path"@), crate::text::utf8(request.path@))
            &&& list[2] == (crate::text::utf8(":authority"@), crate::text::utf8("http2bin.org"@))
            &&& list[3] == (crate::text::utf8(":scheme"@), crate::text::utf8(scheme.label()))
            &&& list.subrange(4, list.len() as int) == crate::header::h2_headers(fields)
        }),
{
    let list = crate::protocol::request_headers(request, scheme);
    let fields = crate::header::with_user_agent(request.headers@);
    assert(list.subrange(4, list.len() as int) =~= crate::header::h2_headers(fields));
}

/// A header that was set is part of the request: under its name in lower case, with its values
/// joined. Only `Connection`, `Set-Cookie` and `User-Agent` are special.
pub proof fn headers_reach_the_peer(request: Request, scheme: HttpScheme, i: int)
    requires
        0 <= i < request.headers@.len(),
        !crate::text::same_name(request.headers@[i].0, "Connection"@),
        !crate::text::same_name(request.headers@[i].0, "Set-Cookie"@),
        !crate::text::same_name(request.headers@[i].0, "User-Agent"@),
    ensures
        crate::protocol::request_headers(request, scheme).contains(
            (
                crate::header::sent_name(request.headers@[i].0),
                crate::header::joined(request.headers@[i].1),
            ),
        ),
{
    let fields = request.headers@;
    let set = crate::header::with_user_agent(fields);
    crate::header::field_index_finds(fields, "User-Agent"@);
    assert(set[i] == fields[i]);
    crate::header::plain_header_is_sent(set, i);
    in_request(request, scheme, (
        crate::header::sent_name(fields[i].0),
        crate::header::joined(fields[i].1),
    ));
}

/// Every request names this client as its user agent.
pub proof fn user_agent_reaches_the_peer(request: Request, scheme: HttpScheme)
    ensures
        crate::protocol::request_headers(request, scheme).contains(
            (crate::text::utf8("user-agent"@), crate::text::utf8("hydra/0.0.1"@)),
        ),
{
    let agent = crate::text::utf8("hydra/0.0.1"@);
    let set = crate::header::with_user_agent(request.headers@);
    let at = crate::header::field_index(request.headers@, "User-Agent"@);
    crate::header::field_index_finds(request.headers@, "User-Agent"@);
    assert(set[at] == ("User-Agent"@, seq![agent]));
    reveal_strlit("User-Agent");
    reveal_strlit("user-agent");
    reveal_strlit("hydra/0.0.1");
    reveal_strlit("Connection");
    reveal_strlit("Set-Cookie");
    assert("User-Agent"@.map_values(|c: char| crate::text::lower_char(c)) =~= "user-agent"@);
    crate::text::lower_commutes("User-Agent"@);
    assert("Connection"@.map_values(|c: char| crate::text::lower_char(c))[0] == 'c');
    assert("Set-Cookie"@.map_values(|c: char| crate::text::lower_char(c))[0] == 's');
    assert("User-Agent"@.map_values(|c: char| crate::text::lower_char(c))[0] == 'u');
    crate::header::plain_header_is_sent(set, at);
    assert(crate::header::joined(seq![agent]) == agent) by {
        assert(vstd::utf8::is_ascii_chars("hydra/0.0.1"@));
        vstd::utf8::is_ascii_chars_encode_utf8("hydra/0.0.1"@);
        assert forall|i: int| 0 <= i < agent.len() implies #[trigger] agent[i] != 13 && agent[i]
            != 10 by {
            assert("hydra/0.0.1"@[i] as u8 == agent[i]);
        }
        assert(crate::header::unbroken(agent) =~= agent);
    }
    in_request(request, scheme, (crate::text::utf8("user-agent"@), agent));
}

/// What is sent for the headers of a request is part of the request.
proof fn in_request(request: Request, scheme: HttpScheme, header: HeaderModel)
    requires
        crate::header::h2_headers(
            crate::header::with_user_agent(request.headers@),
        ).contains(header),
    ensures
        crate::protocol::request_headers(request, scheme).contains(header),
{
    let rest = crate::header::h2_headers(crate::header::with_user_agent(request.headers@));
    let i = choose|i: int| 0 <= i < rest.len() && rest[i] == header;
    requests_are_sent_in_full(request, scheme);
    let list = crate::protocol::request_headers(request, scheme);
    assert(list.subrange(4, list.len() as int)[i] == list[i + 4]);
}

/// Headers can be sent if and only if their values are UTF-8, but for the headers that are not sent
/// as they were set.
pub proof fn text_can_be_sent(request: Request)
    requires
        crate::header::distinct_names(request.headers@),
    ensures
        crate::protocol::sendable(request) <==> forall|i: int|
            0 <= i < request.headers@.len() ==> {
                let (name, values) = #[trigger] request.headers@[i];
                ||| crate::text::same_name(name, "Connection"@)
                ||| crate::text::same_name(name, "Set-Cookie"@)
                ||| crate::text::same_name(name, "User-Agent"@)
                ||| forall|k: int|
                    0 <= k < values.len() ==> vstd::utf8::valid_utf8(#[trigger] values[k])
            },
{
    let fields = request.headers@;
    let sent = crate::header::with_user_agent(fields);
    let agent = crate::header::field_index(fields, "User-Agent"@);
    crate::header::field_index_finds(fields, "User-Agent"@);
    vstd::utf8::encode_utf8_valid_utf8("hydra/0.0.1"@);
    assert(crate::header::text_field(sent[agent]));
    assert forall|i: int| 0 <= i < fields.len() implies (#[trigger] crate::text::same_name(
        fields[i].0,
        "User-Agent"@,
    ) <==> i == agent) by {
        headers_are_found(fields, "User-Agent"@, i);
    }
    if crate::protocol::sendable(request) {
        assert forall|i: int| 0 <= i < fields.len() implies {
            let (name, values) = #[trigger] fields[i];
            ||| crate::text::same_name(name, "Connection"@)
            ||| crate::text::same_name(name, "Set-Cookie"@)
            ||| crate::text::same_name(name, "User-Agent"@)
            ||| forall|k: int|
                0 <= k < values.len() ==> vstd::utf8::valid_utf8(#[trigger] values[k])
        } by {
            if i != agent {
                assert(sent[i] == fields[i]);
                assert(crate::header::text_field(sent[i]));
            } else {
                assert(crate::text::same_name(fields[i].0, "User-Agent"@));
            }
        }
    } else {
        let i = choose|i: int|
            0 <= i < sent.len() && !#[trigger] crate::header::text_field(sent[i]);
        assert(i != agent);
        assert(sent[i] == fields[i]);
        assert(!crate::text::same_name(fields[i].0, "User-Agent"@));
    }
}

} // verus!
