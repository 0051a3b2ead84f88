//! A request that is written into a buffer is read back from it as it was.

use crate::headers::{distinct_names, Fields};
use crate::http::{
    buffered_head, ends_head, field_of, first_head_end, HttpVerb, Request, RequestHead,
};
use crate::numeral::decimal;
use crate::round_trip::{
    folded, lemma_declared_content_length, lemma_head_of_lines, lemma_request_lines,
    request_lines, request_text, sendable_field, sendable_word, written_head,
};
use crate::server::{buffered_body, requested};
use crate::text::{
    contains, decoded, free_of, join, lemma_free_splits_cleanly, lemma_split_join,
    lemma_split_single, occurs_at, splits_cleanly, uppercase,
};
use vstd::prelude::*;
use vstd::utf8::{
    encode_scalar, encode_utf8, encode_utf8_decode_utf8, encode_utf8_valid_utf8,
    has_width_1_encoding, has_width_2_encoding, has_width_3_encoding, leading_byte_width_1,
};

verus! {

/// A request on the wire: the text of its head in UTF-8, the empty line that
/// ends the head, and the bytes of the body.
pub open spec fn request_wire(
    verb: HttpVerb,
    route: Seq<char>,
    http_version: Seq<char>,
    fields: Fields,
    body: Seq<u8>,
) -> Seq<u8> {
    encode_utf8(request_text(verb, route, http_version, fields) + "\r\n\r\n"@) + body
}

/// Where the body of a written request begins: after the bytes of the head
/// and the four of the empty line.
pub open spec fn body_start(
    verb: HttpVerb,
    route: Seq<char>,
    http_version: Seq<char>,
    fields: Fields,
) -> int {
    (encode_utf8(request_text(verb, route, http_version, fields)).len() + 4) as int
}

/// Joining with one more line puts the separator and the line at the end.
pub proof fn lemma_join_push(lines: Seq<Seq<char>>, line: Seq<char>, separator: Seq<char>)
    requires
        lines.len() >= 1,
    ensures
        join(lines.push(line), separator) == join(lines, separator) + separator + line,
    decreases lines.len(),
{
    let longer = lines.push(line);
    if lines.len() == 1 {
        assert(longer.skip(1) =~= seq![line]);
        assert(join(seq![line], separator) == line);
        assert(longer[0] == lines[0]);
        assert(join(lines, separator) == lines[0]);
        assert(join(longer, separator) =~= lines[0] + separator + line);
    } else {
        let rest = lines.skip(1);
        lemma_join_push(rest, line, separator);
        assert(longer.skip(1) =~= rest.push(line));
        assert(join(longer, separator) =~= lines[0] + separator + (join(rest, separator)
            + separator + line));
        assert(join(longer, separator) =~= join(lines, separator) + separator + line);
    }
}

/// Each carriage return of the text is followed two places on by a
/// character that is none.
pub open spec fn returns_apart(text: Seq<char>) -> bool {
    forall|p: int|
        0 <= p < text.len() && #[trigger] text[p] == '\r' ==> p + 2 < text.len() && text[p + 2]
            != '\r'
}

/// In lines joined by `CR LF`, where no line is empty nor holds a carriage
/// return, each carriage return is followed two places on by a character
/// that is none.
pub proof fn lemma_returns_apart(lines: Seq<Seq<char>>)
    requires
        lines.len() >= 1,
        forall|i: int|
            0 <= i < lines.len() ==> (#[trigger] lines[i]).len() > 0 && free_of(lines[i], '\r'),
    ensures
        join(lines, "\r\n"@).len() > 0,
        join(lines, "\r\n"@)[0] == lines[0][0],
        returns_apart(join(lines, "\r\n"@)),
    decreases lines.len(),
{
    reveal_strlit("\r\n");
    let text = join(lines, "\r\n"@);
    assert(lines[0].len() > 0 && free_of(lines[0], '\r'));
    if lines.len() >= 2 {
        let head = lines[0];
        let rest = lines.skip(1);
        assert forall|i: int| 0 <= i < rest.len() implies (#[trigger] rest[i]).len() > 0
            && free_of(rest[i], '\r') by {
            assert(rest[i] == lines[i + 1]);
        }
        lemma_returns_apart(rest);
        let tail = join(rest, "\r\n"@);
        assert(text =~= head + "\r\n"@ + tail);
        assert(rest[0] == lines[1]);
        assert forall|p: int| 0 <= p < text.len() && #[trigger] text[p] == '\r' implies p + 2
            < text.len() && text[p + 2] != '\r' by {
            if p < head.len() {
                assert(text[p] == head[p]);
            } else if p == head.len() {
                assert(text[p + 2] == tail[0]);
                assert(tail[0] == rest[0][0]);
                assert(rest[0][0] != '\r');
            } else if p == head.len() + 1 {
                assert(text[p] == '\n');
            } else {
                let q = p - head.len() - 2;
                assert(text[p] == tail[q]);
                assert(tail[q] == '\r');
                assert(q + 2 < tail.len() && tail[q + 2] != '\r');
                assert(text[p + 2] == tail[q + 2]);
            }
        }
    } else {
        assert forall|p: int| 0 <= p < text.len() && #[trigger] text[p] == '\r' implies p + 2
            < text.len() && text[p + 2] != '\r' by {
            assert(lines[0][p] != '\r');
        }
    }
}

/// Setting high bits in a byte makes it 128 or more.
proof fn lemma_high_bytes(y: u8)
    by (bit_vector)
    ensures
        (0x80u8 | y) >= 0x80u8,
        (0xC0u8 | y) >= 0x80u8,
        (0xE0u8 | y) >= 0x80u8,
        (0xF0u8 | y) >= 0x80u8,
{
}

/// The bytes of one character: an ASCII character is its own single byte,
/// and any other character is two bytes or more, each of them 128 or more.
pub proof fn lemma_scalar_bytes(c: char)
    ensures
        (c as u32) <= 0x7F ==> encode_scalar(c as u32) == seq![c as u8],
        (c as u32) > 0x7F ==> encode_scalar(c as u32).len() >= 2 && forall|i: int|
            0 <= i < encode_scalar(c as u32).len() ==> #[trigger] encode_scalar(c as u32)[i]
                >= 0x80,
        1 <= encode_scalar(c as u32).len() <= 4,
{
    let s = c as u32;
    let bytes = encode_scalar(s);
    if s <= 0x7F {
        assert(s as u8 == leading_byte_width_1(s)) by (bit_vector)
            requires
                has_width_1_encoding(s),
        ;
        assert(bytes =~= seq![c as u8]);
    } else {
        lemma_high_bytes(((s >> 6) & 0x1F) as u8);
        lemma_high_bytes(((s >> 12) & 0x0F) as u8);
        lemma_high_bytes(((s >> 18) & 0x7) as u8);
        lemma_high_bytes((s & 0x3F) as u8);
        lemma_high_bytes(((s >> 6) & 0x3F) as u8);
        lemma_high_bytes(((s >> 12) & 0x3F) as u8);
        assert forall|i: int| 0 <= i < bytes.len() implies #[trigger] bytes[i] >= 0x80 by {
            if has_width_2_encoding(s) {
                if i == 0 {
                } else {
                }
            } else if has_width_3_encoding(s) {
                if i == 0 {
                } else if i == 1 {
                } else {
                }
            } else {
                if i == 0 {
                } else if i == 1 {
                } else if i == 2 {
                } else {
                }
            }
        }
    }
}

/// An ASCII character has the byte 13 exactly when it is the carriage
/// return.
pub proof fn lemma_return_byte(c: char)
    requires
        (c as u32) <= 0x7F,
    ensures
        (c as u8 == 13) <==> c == '\r',
{
    if c as u8 == 13 {
        assert(c as u32 == 13);
        vstd::utf8::char_u32_cast(c, 13u32);
        vstd::utf8::char_u32_cast('\r', 13u32);
    }
}

/// The bytes of the line ends that close a head.
pub proof fn lemma_ending_bytes()
    ensures
        encode_utf8("\r\n\r\n"@) == seq![13u8, 10u8, 13u8, 10u8],
        encode_utf8("\r\n"@ + seq!['\r']) == seq![13u8, 10u8, 13u8],
{
    reveal_strlit("\r\n");
    reveal_strlit("\r\n\r\n");
    lemma_scalar_bytes('\r');
    lemma_scalar_bytes('\n');
    let ending = "\r\n\r\n"@;
    let e1 = ending.drop_first();
    let e2 = e1.drop_first();
    let e3 = e2.drop_first();
    assert(e3.drop_first() =~= Seq::<char>::empty());
    assert(encode_utf8(e3.drop_first()) =~= Seq::<u8>::empty());
    assert(encode_utf8(e3) =~= seq![10u8]);
    assert(encode_utf8(e2) =~= seq![13u8, 10u8]);
    assert(encode_utf8(e1) =~= seq![10u8, 13u8, 10u8]);
    assert(encode_utf8(ending) =~= seq![13u8, 10u8, 13u8, 10u8]);
    let shorter = "\r\n"@ + seq!['\r'];
    let s1 = shorter.drop_first();
    let s2 = s1.drop_first();
    assert(s2.drop_first() =~= Seq::<char>::empty());
    assert(encode_utf8(s2.drop_first()) =~= Seq::<u8>::empty());
    assert(encode_utf8(s2) =~= seq![13u8]);
    assert(encode_utf8(s1) =~= seq![10u8, 13u8]);
    assert(encode_utf8(shorter) =~= seq![13u8, 10u8, 13u8]);
}

/// The bytes of two texts one after the other are the bytes of the first and
/// then those of the second.
pub proof fn lemma_encode_concat(a: Seq<char>, b: Seq<char>)
    ensures
        encode_utf8(a + b) == encode_utf8(a) + encode_utf8(b),
    decreases a.len(),
{
    if a.len() == 0 {
        assert(a + b =~= b);
        assert(encode_utf8(a) + encode_utf8(b) =~= encode_utf8(b));
    } else {
        lemma_encode_concat(a.drop_first(), b);
        assert((a + b).drop_first() =~= a.drop_first() + b);
        assert((a + b)[0] == a[0]);
        assert(encode_utf8(a + b) =~= encode_utf8(a) + encode_utf8(b));
    }
}

/// A text has at least as many bytes as characters.
pub proof fn lemma_encode_len(text: Seq<char>)
    ensures
        encode_utf8(text).len() >= text.len(),
    decreases text.len(),
{
    if text.len() > 0 {
        lemma_encode_len(text.drop_first());
        lemma_scalar_bytes(text[0]);
    }
}

/// Each byte 13 is followed two places on by a byte that is none.
pub open spec fn bytes_apart(bytes: Seq<u8>) -> bool {
    forall|p: int|
        0 <= p < bytes.len() && #[trigger] bytes[p] == 13 ==> p + 2 < bytes.len() && bytes[p + 2]
            != 13
}

/// Where the second character of a text is no carriage return, the second
/// byte of the text is not 13.
pub proof fn lemma_second_byte(text: Seq<char>)
    requires
        text.len() >= 2,
        text[1] != '\r',
    ensures
        encode_utf8(text).len() >= 2,
        encode_utf8(text)[1] != 13,
{
    let rest = text.drop_first();
    let after = rest.drop_first();
    lemma_scalar_bytes(text[0]);
    lemma_scalar_bytes(text[1]);
    assert(rest[0] == text[1]);
    let first = encode_scalar(text[0] as u32);
    let second = encode_scalar(text[1] as u32);
    assert(encode_utf8(text) == first + encode_utf8(rest));
    assert(encode_utf8(rest) == second + encode_utf8(after));
    if (text[0] as u32) <= 0x7F {
        assert(encode_utf8(text)[1] == second[0]);
        if (text[1] as u32) <= 0x7F {
            assert(second[0] == text[1] as u8);
            lemma_return_byte(text[1]);
        } else {
            assert(second[0] >= 0x80);
        }
    } else {
        assert(encode_utf8(text)[1] == first[1]);
        assert(first[1] >= 0x80);
    }
}

/// Where each carriage return of a text is followed two places on by a
/// character that is none, the same holds of the bytes of the text.
pub proof fn lemma_bytes_apart(text: Seq<char>)
    requires
        returns_apart(text),
    ensures
        bytes_apart(encode_utf8(text)),
    decreases text.len(),
{
    let bytes = encode_utf8(text);
    if text.len() > 0 {
        let rest = text.drop_first();
        assert(returns_apart(rest)) by {
            assert forall|p: int| 0 <= p < rest.len() && #[trigger] rest[p] == '\r' implies p + 2
                < rest.len() && rest[p + 2] != '\r' by {
                assert(text[p + 1] == '\r');
                assert(rest[p + 2] == text[p + 3]);
            }
        }
        lemma_bytes_apart(rest);
        lemma_scalar_bytes(text[0]);
        let first = encode_scalar(text[0] as u32);
        let tail = encode_utf8(rest);
        assert(bytes == first + tail);
        assert forall|p: int| 0 <= p < bytes.len() && #[trigger] bytes[p] == 13 implies p + 2
            < bytes.len() && bytes[p + 2] != 13 by {
            if p < first.len() {
                assert(bytes[p] == first[p]);
                assert((text[0] as u32) <= 0x7F);
                lemma_return_byte(text[0]);
                assert(text[0] == '\r');
                assert(text[2] != '\r');
                assert(rest[1] == text[2]);
                lemma_second_byte(rest);
                assert(bytes[p + 2] == tail[1]);
            } else {
                let q = p - first.len();
                assert(bytes[p] == tail[q]);
                assert(tail[q] == 13);
                assert(q + 2 < tail.len() && tail[q + 2] != 13);
                assert(bytes[p + 2] == tail[q + 2]);
            }
        }
    }
}

/// In a buffer that begins with the bytes of a text, the empty line and a
/// body, the head ends with the empty line that was written, what stands
/// before the last byte of that line is the text with a line end and a
/// carriage return, and the body follows. The text has to have five bytes or
/// more, and each of its carriage returns has to be followed two places on
/// by a character that is none.
pub proof fn lemma_written_head_end(text: Seq<char>, body: Seq<u8>, bytes: Seq<u8>)
    requires
        returns_apart(text),
        encode_utf8(text).len() >= 5,
        (encode_utf8(text + "\r\n\r\n"@) + body).len() <= bytes.len(),
        bytes.take((encode_utf8(text + "\r\n\r\n"@) + body).len() as int) == encode_utf8(
            text + "\r\n\r\n"@,
        ) + body,
    ensures
        first_head_end(bytes, (encode_utf8(text).len() + 3) as int),
        bytes.take((encode_utf8(text).len() + 3) as int) == encode_utf8(
            text + "\r\n"@ + seq!['\r'],
        ),
        bytes.subrange(
            (encode_utf8(text).len() + 4) as int,
            (encode_utf8(text).len() + 4 + body.len()) as int,
        ) == body,
        encode_utf8(text).len() + 4 + body.len() <= bytes.len(),
{
    let ending = "\r\n\r\n"@;
    let text_bytes = encode_utf8(text);
    let head_bytes = encode_utf8(text + ending);
    let wire = head_bytes + body;
    let m = text_bytes.len() as int;
    let n = m + 4;
    let end = n - 1;
    lemma_ending_bytes();
    lemma_encode_concat(text, ending);
    lemma_bytes_apart(text);
    assert(head_bytes.len() == n);
    assert forall|i: int| 0 <= i < n implies #[trigger] bytes[i] == head_bytes[i] by {
        assert(bytes.take(wire.len() as int)[i] == wire[i]);
    }
    assert(ends_head(bytes, end)) by {
        assert(head_bytes[end] == 10);
        assert(head_bytes[end - 1] == 13);
        assert(head_bytes[end - 2] == 10);
        assert(head_bytes[end - 3] == 13);
    }
    assert forall|j: int| 0 <= j < end implies !ends_head(bytes, j) by {
        if ends_head(bytes, j) {
            let p = j - 3;
            assert(bytes[p] == head_bytes[p]);
            assert(bytes[p + 2] == head_bytes[p + 2]);
            assert(p < m);
            assert(head_bytes[p] == text_bytes[p]);
            assert(text_bytes[p] == 13);
            assert(p + 2 < m && text_bytes[p + 2] != 13);
            assert(head_bytes[p + 2] == text_bytes[p + 2]);
        }
    }
    let data = text + "\r\n"@ + seq!['\r'];
    assert(bytes.take(end) =~= encode_utf8(data)) by {
        assert(data =~= text + ("\r\n"@ + seq!['\r']));
        lemma_encode_concat(text, "\r\n"@ + seq!['\r']);
        assert forall|i: int| 0 <= i < end implies bytes.take(end)[i] == encode_utf8(
            data,
        )[i] by {
            assert(bytes[i] == head_bytes[i]);
        }
    }
    assert(bytes.subrange(n, n + body.len()) =~= body) by {
        assert forall|i: int| 0 <= i < body.len() implies bytes.subrange(n, n + body.len())[i]
            == body[i] by {
            assert(bytes.take(wire.len() as int)[n + i] == wire[n + i]);
        }
    }
}

/// The text of a request with a line end and a carriage return after it
/// reads as the request that was written.
pub proof fn lemma_written_head_text(
    verb: HttpVerb,
    route: Seq<char>,
    http_version: Seq<char>,
    fields: Fields,
)
    requires
        sendable_word(route),
        sendable_word(http_version),
        forall|i: int| 0 <= i < fields.len() ==> sendable_field(#[trigger] fields[i]),
        distinct_names(folded(fields)),
    ensures
        crate::http::parsed_head(
            request_text(verb, route, http_version, fields) + "\r\n"@ + seq!['\r'],
        ) == Ok::<RequestHead, Seq<char>>(written_head(verb, route, http_version, fields)),
{
    reveal_strlit("\r\n");
    reveal_strlit(": ");
    let text = request_text(verb, route, http_version, fields);
    let lines = request_lines(verb, route, http_version, fields);
    let last = seq!['\r'];
    let data = text + "\r\n"@ + last;
    lemma_request_lines(verb, route, http_version, fields);
    lemma_join_push(lines, last, "\r\n"@);
    let longer = lines.push(last);
    assert(join(longer, "\r\n"@) == data);
    assert forall|i: int| 0 <= i < longer.len() - 1 implies splits_cleanly(
        #[trigger] longer[i],
        "\r\n"@,
    ) by {
        assert(longer[i] == lines[i]);
        lemma_free_splits_cleanly(lines[i], "\r\n"@);
    }
    assert(!contains(last, "\r\n"@)) by {
        assert forall|at: int| !occurs_at(last, "\r\n"@, at) by {}
    }
    assert(longer.last() == last);
    lemma_split_join(longer, "\r\n"@);
    assert(!contains(last, ": "@)) by {
        assert forall|at: int| !occurs_at(last, ": "@, at) by {}
    }
    lemma_split_single(last, ": "@);
    assert(field_of(last) is None);
    let silent = seq![last];
    assert(longer =~= lines + silent);
    lemma_head_of_lines(verb, route, http_version, fields, silent, data);
}

/// The text of a request has five bytes or more.
pub proof fn lemma_request_bytes(
    verb: HttpVerb,
    route: Seq<char>,
    http_version: Seq<char>,
    fields: Fields,
)
    ensures
        encode_utf8(request_text(verb, route, http_version, fields)).len() >= 5,
{
    let name = crate::http::verb_name(verb);
    let lines = request_lines(verb, route, http_version, fields);
    reveal_strlit("GET");
    reveal_strlit("HEAD");
    reveal_strlit("POST");
    reveal_strlit("PUT");
    reveal_strlit("DELETE");
    reveal_strlit("CONNECT");
    reveal_strlit("OPTIONS");
    reveal_strlit("TRACE");
    reveal_strlit("PATCH");
    reveal_strlit(" ");
    crate::round_trip::lemma_join_three(name, route, http_version, " "@);
    assert(lines[0].len() >= 5);
    lemma_line_within(lines);
    lemma_encode_len(request_text(verb, route, http_version, fields));
}

/// A sendable request that is written at the beginning of a buffer is read
/// back from the buffer: the method, the path and the version as they were,
/// the header fields in their order with their names in capitals, and for
/// the body the bytes that follow the head, as many as the fields declare.
/// Where the fields declare the length of the body that was written, and all
/// of it lies in the buffer, that body is read back.
pub proof fn lemma_buffer_round_trip(
    verb: HttpVerb,
    route: Seq<char>,
    http_version: Seq<char>,
    fields: Fields,
    body: Seq<u8>,
    bytes: Seq<u8>,
)
    requires
        sendable_word(route),
        sendable_word(http_version),
        forall|i: int| 0 <= i < fields.len() ==> sendable_field(#[trigger] fields[i]),
        distinct_names(folded(fields)),
        request_wire(verb, route, http_version, fields, body).len() <= bytes.len(),
        bytes.take(request_wire(verb, route, http_version, fields, body).len() as int)
            == request_wire(verb, route, http_version, fields, body),
    ensures
        buffered_head(bytes) == Ok::<(RequestHead, int), Seq<char>>(
            (
                written_head(verb, route, http_version, fields),
                body_start(verb, route, http_version, fields),
            ),
        ),
        requested(bytes) == Ok::<Request, Seq<char>>(
            Request {
                head: written_head(verb, route, http_version, fields),
                body: buffered_body(
                    bytes,
                    body_start(verb, route, http_version, fields),
                    written_head(verb, route, http_version, fields).content_length,
                ),
            },
        ),
        bytes.subrange(
            body_start(verb, route, http_version, fields),
            body_start(verb, route, http_version, fields) + body.len(),
        ) == body,
        written_head(verb, route, http_version, fields).content_length == body.len() && body.len()
            > 0 ==> requested(bytes) == Ok::<Request, Seq<char>>(
            Request { head: written_head(verb, route, http_version, fields), body: Some(body) },
        ),
{
    let text = request_text(verb, route, http_version, fields);
    let lines = request_lines(verb, route, http_version, fields);
    let end = (encode_utf8(text).len() + 3) as int;
    lemma_request_lines(verb, route, http_version, fields);
    lemma_returns_apart(lines);
    lemma_request_bytes(verb, route, http_version, fields);
    lemma_written_head_end(text, body, bytes);
    let chosen = choose|i: int| first_head_end(bytes, i);
    assert(chosen == end) by {
        if chosen < end {
            assert(!ends_head(bytes, chosen));
        } else if chosen > end {
            assert(!ends_head(bytes, end));
        }
    }
    let data = text + "\r\n"@ + seq!['\r'];
    encode_utf8_valid_utf8(data);
    encode_utf8_decode_utf8(data);
    assert(decoded(bytes.take(end)) == data);
    lemma_written_head_text(verb, route, http_version, fields);
}

/// The first line is part of the joined text.
pub proof fn lemma_line_within(lines: Seq<Seq<char>>)
    requires
        lines.len() >= 1,
    ensures
        join(lines, "\r\n"@).len() >= lines[0].len(),
{
    if lines.len() >= 2 {
        assert(join(lines, "\r\n"@) =~= lines[0] + "\r\n"@ + join(lines.skip(1), "\r\n"@));
    }
}

/// A request with a body, one of whose header fields is `Content-Length` (in
/// any case of letters) with the length of the body, is read back from the
/// buffer it was written into with that body and with that length.
pub proof fn lemma_body_round_trip(
    verb: HttpVerb,
    route: Seq<char>,
    http_version: Seq<char>,
    fields: Fields,
    at: int,
    body: Seq<u8>,
    bytes: Seq<u8>,
)
    requires
        sendable_word(route),
        sendable_word(http_version),
        forall|i: int| 0 <= i < fields.len() ==> sendable_field(#[trigger] fields[i]),
        distinct_names(folded(fields)),
        0 <= at < fields.len(),
        uppercase(fields[at].0) == "CONTENT-LENGTH"@,
        fields[at].1 == decimal(body.len()),
        0 < body.len() <= i32::MAX,
        request_wire(verb, route, http_version, fields, body).len() <= bytes.len(),
        bytes.take(request_wire(verb, route, http_version, fields, body).len() as int)
            == request_wire(verb, route, http_version, fields, body),
    ensures
        written_head(verb, route, http_version, fields).content_length == body.len(),
        requested(bytes) == Ok::<Request, Seq<char>>(
            Request { head: written_head(verb, route, http_version, fields), body: Some(body) },
        ),
{
    lemma_declared_content_length(fields, at, body.len());
    lemma_buffer_round_trip(verb, route, http_version, fields, body, bytes);
}

} // verus!
