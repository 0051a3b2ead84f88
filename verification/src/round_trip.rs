//! Writing a request head as text and reading it back gives the same request.

use crate::headers::{distinct_names, lemma_inserted_new, Fields};
use crate::http::{
    declared_length, field_of, length_of, parsed_fields, parsed_head, verb_name, verb_named,
    HttpVerb, RequestHead,
};
use crate::numeral::{decimal, is_digit, lemma_decimal_round_trip, parse_i32};
use crate::text::{
    ascii_uppercase, contains, free_of, join, lemma_absent_splits_cleanly,
    lemma_free_splits_cleanly, lemma_split_join, split, splits_cleanly, uppercase,
};
use vstd::prelude::*;
use vstd::utf8::is_ascii_chars;

verus! {

/// The first line of a request.
pub open spec fn request_line(verb: HttpVerb, route: Seq<char>, http_version: Seq<char>) -> Seq<
    char,
> {
    join(seq![verb_name(verb), route, http_version], " "@)
}

/// The line that declares a header field.
pub open spec fn field_text(field: (Seq<char>, Seq<char>)) -> Seq<char> {
    join(seq![field.0, field.1], ": "@)
}

/// The lines of a request head: the request line, then one line for each
/// header field.
pub open spec fn request_lines(
    verb: HttpVerb,
    route: Seq<char>,
    http_version: Seq<char>,
    fields: Fields,
) -> Seq<Seq<char>> {
    seq![request_line(verb, route, http_version)] + fields.map_values(
        |field: (Seq<char>, Seq<char>)| field_text(field),
    )
}

/// The head of a request as text, its lines joined by `CR LF`.
pub open spec fn request_text(
    verb: HttpVerb,
    route: Seq<char>,
    http_version: Seq<char>,
    fields: Fields,
) -> Seq<char> {
    join(request_lines(verb, route, http_version, fields), "\r\n"@)
}

/// The fields with their names in capitals.
pub open spec fn folded(fields: Fields) -> Fields {
    fields.map_values(|field: (Seq<char>, Seq<char>)| (uppercase(field.0), field.1))
}

/// A header field that a line can carry: no carriage return in either
/// part, and no colon followed by a space in either part.
pub open spec fn sendable_field(field: (Seq<char>, Seq<char>)) -> bool {
    &&& free_of(field.0, '\r')
    &&& !contains(field.0, ": "@)
    &&& free_of(field.1, '\r')
    &&& !contains(field.1, ": "@)
}

/// A path or version that a request line can carry: no space and no
/// carriage return.
pub open spec fn sendable_word(word: Seq<char>) -> bool {
    free_of(word, ' ') && free_of(word, '\r')
}

pub proof fn lemma_free_of_concat(a: Seq<char>, b: Seq<char>, c: char)
    requires
        free_of(a, c),
        free_of(b, c),
    ensures
        free_of(a + b, c),
{
    assert forall|i: int| 0 <= i < (a + b).len() implies #[trigger] (a + b)[i] != c by {
        if i < a.len() {
            assert((a + b)[i] == a[i]);
        } else {
            assert((a + b)[i] == b[i - a.len()]);
        }
    }
}

/// The name of each method is in capitals, and has neither a space nor a
/// carriage return.
pub proof fn lemma_verb_name(verb: HttpVerb)
    ensures
        verb_named(uppercase(verb_name(verb))) == Some(verb),
        sendable_word(verb_name(verb)),
{
    reveal_strlit("GET");
    reveal_strlit("HEAD");
    reveal_strlit("POST");
    reveal_strlit("PUT");
    reveal_strlit("DELETE");
    reveal_strlit("CONNECT");
    reveal_strlit("OPTIONS");
    reveal_strlit("TRACE");
    reveal_strlit("PATCH");
    let name = verb_name(verb);
    assert(is_ascii_chars(name));
    assert(ascii_uppercase(name) =~= name);
    assert("GET"@[0] == 'G' && "HEAD"@[0] == 'H' && "DELETE"@[0] == 'D');
    assert("CONNECT"@[0] == 'C' && "OPTIONS"@[0] == 'O' && "TRACE"@[0] == 'T');
    assert("POST"@[0] == 'P' && "PUT"@[0] == 'P' && "PATCH"@[0] == 'P');
    assert("POST"@[1] == 'O' && "PUT"@[1] == 'U' && "PATCH"@[1] == 'A');
}

pub proof fn lemma_join_two(a: Seq<char>, b: Seq<char>, separator: Seq<char>)
    ensures
        join(seq![a, b], separator) == a + separator + b,
{
    let lines = seq![a, b];
    assert(lines.skip(1) =~= seq![b]);
    assert(join(lines.skip(1), separator) == b);
}

pub proof fn lemma_join_three(a: Seq<char>, b: Seq<char>, c: Seq<char>, separator: Seq<char>)
    ensures
        join(seq![a, b, c], separator) == a + separator + (b + separator + c),
{
    let lines = seq![a, b, c];
    assert(lines.skip(1) =~= seq![b, c]);
    lemma_join_two(b, c, separator);
}

/// The line of a sendable field declares that field, its name in capitals,
/// and has no carriage return.
pub proof fn lemma_field_text(field: (Seq<char>, Seq<char>))
    requires
        sendable_field(field),
    ensures
        field_of(field_text(field)) == Some((uppercase(field.0), field.1)),
        free_of(field_text(field), '\r'),
{
    reveal_strlit(": ");
    let separator = ": "@;
    let lines = seq![field.0, field.1];
    lemma_absent_splits_cleanly(field.0, separator);
    assert forall|i: int| 0 <= i < lines.len() - 1 implies splits_cleanly(
        #[trigger] lines[i],
        separator,
    ) by {
        assert(lines[i] == field.0);
    }
    lemma_split_join(lines, separator);
    lemma_join_two(field.0, field.1, separator);
    assert(free_of(separator, '\r'));
    lemma_free_of_concat(field.0, separator, '\r');
    lemma_free_of_concat(field.0 + separator, field.1, '\r');
}

/// The lines of sendable fields whose names in capitals differ declare
/// exactly those fields, in their order.
pub proof fn lemma_parsed_fields(fields: Fields)
    requires
        forall|i: int| 0 <= i < fields.len() ==> sendable_field(#[trigger] fields[i]),
        distinct_names(folded(fields)),
    ensures
        parsed_fields(fields.map_values(|field: (Seq<char>, Seq<char>)| field_text(field)))
            == folded(fields),
    decreases fields.len(),
{
    let lines = fields.map_values(|field: (Seq<char>, Seq<char>)| field_text(field));
    if fields.len() == 0 {
        assert(folded(fields) =~= Seq::<(Seq<char>, Seq<char>)>::empty());
    } else {
        let earlier = fields.drop_last();
        let last = fields.last();
        assert(lines.drop_last() =~= earlier.map_values(
            |field: (Seq<char>, Seq<char>)| field_text(field),
        ));
        assert(folded(earlier) =~= folded(fields).drop_last());
        assert(distinct_names(folded(earlier))) by {
            assert forall|i: int, j: int| 0 <= i < j < folded(earlier).len() implies (
            #[trigger] folded(earlier)[i]).0 != (#[trigger] folded(earlier)[j]).0 by {
                assert(folded(earlier)[i] == folded(fields)[i]);
                assert(folded(earlier)[j] == folded(fields)[j]);
            }
        }
        assert forall|i: int| 0 <= i < earlier.len() implies sendable_field(
            #[trigger] earlier[i],
        ) by {
            assert(earlier[i] == fields[i]);
        }
        lemma_parsed_fields(earlier);
        assert(sendable_field(fields[fields.len() - 1]));
        lemma_field_text(last);
        assert(lines.last() == field_text(last));
        let name = uppercase(last.0);
        assert forall|i: int| 0 <= i < folded(earlier).len() implies (#[trigger] folded(
            earlier,
        )[i]).0 != name by {
            assert(folded(earlier)[i] == folded(fields)[i]);
            assert(folded(fields)[fields.len() - 1].0 == name);
        }
        lemma_inserted_new(folded(earlier), name, last.1);
        assert(folded(earlier).push((name, last.1)) =~= folded(fields));
    }
}

/// The lines of a sendable request: none is empty, none holds a carriage
/// return, and the first comes apart at its spaces into the name of the
/// method, the path and the version.
pub proof fn lemma_request_lines(
    verb: HttpVerb,
    route: Seq<char>,
    http_version: Seq<char>,
    fields: Fields,
)
    requires
        sendable_word(route),
        sendable_word(http_version),
        forall|i: int| 0 <= i < fields.len() ==> sendable_field(#[trigger] fields[i]),
    ensures
        split(request_line(verb, route, http_version), " "@) == seq![
            verb_name(verb),
            route,
            http_version,
        ],
        forall|i: int|
            0 <= i < request_lines(verb, route, http_version, fields).len() ==> {
                &&& free_of(#[trigger] request_lines(verb, route, http_version, fields)[i], '\r')
                &&& request_lines(verb, route, http_version, fields)[i].len() > 0
            },
{
    reveal_strlit(" ");
    reveal_strlit(": ");
    let space = " "@;
    let name = verb_name(verb);
    lemma_verb_name(verb);
    let words = seq![name, route, http_version];
    let first = request_line(verb, route, http_version);
    lemma_free_splits_cleanly(name, space);
    lemma_free_splits_cleanly(route, space);
    lemma_free_splits_cleanly(http_version, space);
    assert forall|i: int| 0 <= i < words.len() - 1 implies splits_cleanly(
        #[trigger] words[i],
        space,
    ) by {
        if i == 0 {
            assert(words[i] == name);
        } else {
            assert(words[i] == route);
        }
    }
    lemma_split_join(words, space);
    lemma_join_three(name, route, http_version, space);
    assert(free_of(space, '\r'));
    lemma_free_of_concat(route, space, '\r');
    lemma_free_of_concat(route + space, http_version, '\r');
    lemma_free_of_concat(name, space, '\r');
    lemma_free_of_concat(name + space, route + space + http_version, '\r');
    assert(first =~= name + space + (route + space + http_version));
    let lines = request_lines(verb, route, http_version, fields);
    assert forall|i: int| 0 <= i < lines.len() implies free_of(#[trigger] lines[i], '\r')
        && lines[i].len() > 0 by {
        if i > 0 {
            let field = fields[i - 1];
            assert(lines[i] == field_text(field));
            assert(sendable_field(field));
            lemma_field_text(field);
            lemma_join_two(field.0, field.1, ": "@);
        }
    }
}

/// A line that declares no field changes neither the table of the fields nor
/// the length that is declared.
pub proof fn lemma_silent_lines(lines: Seq<Seq<char>>, silent: Seq<Seq<char>>)
    requires
        forall|k: int| 0 <= k < silent.len() ==> field_of(#[trigger] silent[k]) is None,
    ensures
        parsed_fields(lines + silent) == parsed_fields(lines),
        declared_length(lines + silent) == declared_length(lines),
    decreases silent.len(),
{
    if silent.len() == 0 {
        assert(lines + silent =~= lines);
    } else {
        let all = lines + silent;
        assert(all.drop_last() =~= lines + silent.drop_last());
        assert(all.last() == silent[silent.len() - 1]);
        lemma_silent_lines(lines, silent.drop_last());
    }
}

/// A text whose lines are those of a sendable request, followed by lines
/// that declare no field, reads as that request.
pub proof fn lemma_head_of_lines(
    verb: HttpVerb,
    route: Seq<char>,
    http_version: Seq<char>,
    fields: Fields,
    silent: Seq<Seq<char>>,
    data: Seq<char>,
)
    requires
        sendable_word(route),
        sendable_word(http_version),
        forall|i: int| 0 <= i < fields.len() ==> sendable_field(#[trigger] fields[i]),
        distinct_names(folded(fields)),
        forall|k: int| 0 <= k < silent.len() ==> field_of(#[trigger] silent[k]) is None,
        split(data, "\r\n"@) == request_lines(verb, route, http_version, fields) + silent,
    ensures
        parsed_head(data) == Ok::<RequestHead, Seq<char>>(
            written_head(verb, route, http_version, fields),
        ),
{
    lemma_verb_name(verb);
    lemma_request_lines(verb, route, http_version, fields);
    let field_lines = fields.map_values(|field: (Seq<char>, Seq<char>)| field_text(field));
    let lines = request_lines(verb, route, http_version, fields) + silent;
    assert(lines[0] == request_line(verb, route, http_version));
    assert(lines.skip(1) =~= field_lines + silent);
    lemma_parsed_fields(fields);
    lemma_silent_lines(field_lines, silent);
}

/// What is read back of a request that was written: the method, the path
/// and the version as they were, the header fields in their order with their
/// names in capitals, and the length that the fields declare.
pub open spec fn written_head(
    verb: HttpVerb,
    route: Seq<char>,
    http_version: Seq<char>,
    fields: Fields,
) -> RequestHead {
    RequestHead {
        route,
        verb,
        content_length: declared_length(
            fields.map_values(|field: (Seq<char>, Seq<char>)| field_text(field)),
        ),
        headers: folded(fields),
        http_version,
    }
}

/// Splitting the text of a sendable request at its line ends gives back its
/// lines.
pub proof fn lemma_request_text_lines(
    verb: HttpVerb,
    route: Seq<char>,
    http_version: Seq<char>,
    fields: Fields,
)
    requires
        sendable_word(route),
        sendable_word(http_version),
        forall|i: int| 0 <= i < fields.len() ==> sendable_field(#[trigger] fields[i]),
    ensures
        split(request_text(verb, route, http_version, fields), "\r\n"@) == request_lines(
            verb,
            route,
            http_version,
            fields,
        ),
{
    reveal_strlit("\r\n");
    let line_end = "\r\n"@;
    let lines = request_lines(verb, route, http_version, fields);
    lemma_request_lines(verb, route, http_version, fields);
    assert forall|i: int| 0 <= i < lines.len() - 1 implies splits_cleanly(
        #[trigger] lines[i],
        line_end,
    ) by {
        lemma_free_splits_cleanly(lines[i], line_end);
    }
    lemma_free_splits_cleanly(lines.last(), line_end);
    lemma_split_join(lines, line_end);
}

/// Reading back the text of a request head gives the method, the path and
/// the version that were written, and the header fields in their order, with
/// their names in capitals. The path and the version must be free of spaces
/// and carriage returns, the fields must each fit a line, and no two names
/// may agree once in capitals.
pub proof fn lemma_request_round_trip(
    verb: HttpVerb,
    route: Seq<char>,
    http_version: Seq<char>,
    fields: Fields,
)
    requires
        sendable_word(route),
        sendable_word(http_version),
        forall|i: int| 0 <= i < fields.len() ==> sendable_field(#[trigger] fields[i]),
        distinct_names(folded(fields)),
    ensures
        parsed_head(request_text(verb, route, http_version, fields)) == Ok::<
            RequestHead,
            Seq<char>,
        >(written_head(verb, route, http_version, fields)),
{
    let lines = request_lines(verb, route, http_version, fields);
    lemma_request_text_lines(verb, route, http_version, fields);
    assert(lines + Seq::<Seq<char>>::empty() =~= lines);
    lemma_head_of_lines(
        verb,
        route,
        http_version,
        fields,
        Seq::empty(),
        request_text(verb, route, http_version, fields),
    );
}

/// The numeral of a number can stand as the value of a header field.
pub proof fn lemma_decimal_sendable(length: nat)
    ensures
        free_of(decimal(length), '\r'),
        !contains(decimal(length), ": "@),
{
    reveal_strlit(": ");
    let numeral = decimal(length);
    lemma_decimal_round_trip(length);
    assert(free_of(numeral, '\r') && free_of(numeral, ':')) by {
        assert forall|i: int| 0 <= i < numeral.len() implies #[trigger] numeral[i] != '\r'
            && numeral[i] != ':' by {
            assert(is_digit(numeral[i]));
        }
    }
    lemma_free_splits_cleanly(numeral, ": "@);
}

/// Where one of the header fields is called `Content-Length`, in any case of
/// letters, and its value is the numeral of a length that fits 32 bits with
/// a sign, that is the length that the header fields declare.
pub proof fn lemma_declared_content_length(fields: Fields, at: int, length: nat)
    requires
        0 <= at < fields.len(),
        uppercase(fields[at].0) == "CONTENT-LENGTH"@,
        fields[at].1 == decimal(length),
        length <= i32::MAX,
        forall|i: int| 0 <= i < fields.len() ==> sendable_field(#[trigger] fields[i]),
        distinct_names(folded(fields)),
    ensures
        declared_length(fields.map_values(|field: (Seq<char>, Seq<char>)| field_text(field)))
            == length,
    decreases fields.len(),
{
    let lines = fields.map_values(|field: (Seq<char>, Seq<char>)| field_text(field));
    let last = fields.last();
    assert(sendable_field(fields[fields.len() - 1]));
    lemma_field_text(last);
    assert(lines.last() == field_text(last));
    if at == fields.len() - 1 {
        let numeral = decimal(length);
        lemma_decimal_round_trip(length);
        assert(is_digit(numeral[0]));
        assert(parse_i32(numeral) == Some(length as i32));
        assert(length_of(lines.last()) == Some(length as i32));
    } else {
        let earlier = fields.drop_last();
        assert(folded(fields)[at].0 == "CONTENT-LENGTH"@);
        assert(folded(fields)[fields.len() - 1].0 == uppercase(last.0));
        assert(folded(fields)[at].0 != folded(fields)[fields.len() - 1].0);
        assert(length_of(lines.last()) is None);
        assert(lines.drop_last() =~= earlier.map_values(
            |field: (Seq<char>, Seq<char>)| field_text(field),
        ));
        assert(folded(earlier) =~= folded(fields).drop_last());
        assert(distinct_names(folded(earlier))) by {
            assert forall|i: int, j: int| 0 <= i < j < folded(earlier).len() implies (
            #[trigger] folded(earlier)[i]).0 != (#[trigger] folded(earlier)[j]).0 by {
                assert(folded(earlier)[i] == folded(fields)[i]);
                assert(folded(earlier)[j] == folded(fields)[j]);
            }
        }
        assert forall|i: int| 0 <= i < earlier.len() implies sendable_field(
            #[trigger] earlier[i],
        ) by {
            assert(earlier[i] == fields[i]);
        }
        assert(earlier[at] == fields[at]);
        lemma_declared_content_length(earlier, at, length);
    }
}

} // verus!
