//! HTTP requests and responses: the wire format of both, read and written.

use crate::headers::{inserted, lemma_inserted_new, position, value_of, Fields, Headers};
use crate::numeral::{decimal, i16_text, parse_i32, read_i32, signed_decimal, usize_text};
use crate::text::{
    decode_lossy, decoded, lemma_split_nonempty, split, split_chars, to_chars, to_string,
    to_uppercase, uppercase, views,
};
use vstd::prelude::*;
use vstd::string::*;
use vstd::utf8::*;

verus! {

/// The request methods that the server knows.
#[derive(Clone, Copy, Debug, PartialEq, Eq, Structural)]
pub enum HttpVerb {
    GET,
    HEAD,
    POST,
    PUT,
    DELETE,
    CONNECT,
    OPTIONS,
    TRACE,
    PATCH,
}

/// A request: its header and, where one came with it, its body.
#[derive(Debug)]
pub struct HttpRequest {
    pub header: HttpRequestHeader,
    pub body: Option<Vec<u8>>,
}

/// What the head of a request says.
#[derive(Debug)]
pub struct HttpRequestHeader {
    pub route: String,
    pub verb: HttpVerb,
    pub content_length: i32,
    pub headers: Headers,
    pub http_version: String,
}

/// A response, ready to be written out.
#[derive(Debug)]
pub struct HttpResponse {
    pub http_version: String,
    pub code: i16,
    pub content_type: String,
    pub headers: Headers,
    pub body: Option<Vec<u8>>,
}

/// The model of a request header.
pub struct RequestHead {
    pub route: Seq<char>,
    pub verb: HttpVerb,
    pub content_length: int,
    pub headers: Fields,
    pub http_version: Seq<char>,
}

/// The model of a request.
pub struct Request {
    pub head: RequestHead,
    pub body: Option<Seq<u8>>,
}

/// The model of a response.
pub struct Response {
    pub http_version: Seq<char>,
    pub code: int,
    pub content_type: Seq<char>,
    pub headers: Fields,
    pub body: Option<Seq<u8>>,
}

/// The bytes of an optional body.
pub open spec fn body_view(body: Option<Vec<u8>>) -> Option<Seq<u8>> {
    match body {
        Some(bytes) => Some(bytes@),
        None => None,
    }
}

/// The bytes that a body contributes to the wire: none where it is absent.
pub open spec fn body_bytes(body: Option<Seq<u8>>) -> Seq<u8> {
    match body {
        Some(bytes) => bytes,
        None => Seq::empty(),
    }
}

impl View for HttpRequestHeader {
    type V = RequestHead;

    open spec fn view(&self) -> RequestHead {
        RequestHead {
            route: self.route@,
            verb: self.verb,
            content_length: self.content_length as int,
            headers: self.headers@,
            http_version: self.http_version@,
        }
    }
}

impl View for HttpRequest {
    type V = Request;

    open spec fn view(&self) -> Request {
        Request { head: self.header@, body: body_view(self.body) }
    }
}

impl View for HttpResponse {
    type V = Response;

    open spec fn view(&self) -> Response {
        Response {
            http_version: self.http_version@,
            code: self.code as int,
            content_type: self.content_type@,
            headers: self.headers@,
            body: body_view(self.body),
        }
    }
}

/// The reason phrase that goes with a status code.
pub open spec fn reason_phrase(code: int) -> Seq<char> {
    if code == 200 {
        "OK"@
    } else if code == 400 {
        "Bad Request"@
    } else if code == 401 {
        "Unauthorized"@
    } else if code == 404 {
        "Not Found"@
    } else if code == 405 {
        "Method Not Allowed"@
    } else if code == 500 {
        "Internal Error"@
    } else {
        "Unknown"@
    }
}

/// The header fields that every response of this server carries, in the
/// order in which they are written.
pub open spec fn standard_fields(content_type: Seq<char>, body: Option<Seq<u8>>) -> Fields {
    seq![
        ("Server"@, "Psionic 0.0.1"@),
        ("Content-Length"@, decimal(body_bytes(body).len())),
        ("Connection"@, "Closed"@),
        ("Content-Type"@, content_type),
    ]
}

/// The response that `HttpResponse::create` builds.
pub open spec fn created(code: int, content_type: Seq<char>, body: Option<Seq<u8>>) -> Response {
    Response {
        http_version: "HTTP/1.1"@,
        code,
        content_type,
        headers: standard_fields(content_type, body),
        body,
    }
}

/// The first line of a response.
pub open spec fn status_line(http_version: Seq<char>, code: int) -> Seq<char> {
    http_version + " "@ + signed_decimal(code) + " "@ + reason_phrase(code) + "\r\n"@
}

/// One header field as a line of the wire format.
pub open spec fn field_line(field: (Seq<char>, Seq<char>)) -> Seq<char> {
    field.0 + ": "@ + field.1 + "\r\n"@
}

/// The lines of the header fields, in the order of the table.
pub open spec fn field_lines(fields: Fields) -> Seq<char>
    decreases fields.len(),
{
    if fields.len() == 0 {
        Seq::empty()
    } else {
        field_lines(fields.drop_last()) + field_line(fields.last())
    }
}

/// The head of a response as text: the status line, the header fields, and
/// the empty line that ends it.
pub open spec fn head_text(response: Response) -> Seq<char> {
    status_line(response.http_version, response.code) + field_lines(response.headers) + "\r\n"@
}

/// A response on the wire: its head in UTF-8, then the bytes of its body.
pub open spec fn wire_bytes(response: Response) -> Seq<u8> {
    encode_utf8(head_text(response)) + body_bytes(response.body)
}

/// The reason phrase that goes with `code`.
pub fn get_response_type_str(code: i16) -> (phrase: &'static str)
    ensures
        phrase@ == reason_phrase(code as int),
{
    match code {
        200 => "OK",
        400 => "Bad Request",
        401 => "Unauthorized",
        404 => "Not Found",
        405 => "Method Not Allowed",
        500 => "Internal Error",
        _ => "Unknown",
    }
}

/// Appends the bytes of `more` to `out`.
pub fn append_bytes(out: &mut Vec<u8>, more: &Vec<u8>)
    ensures
        final(out)@ == old(out)@ + more@,
{
    let mut i: usize = 0;
    while i < more.len()
        invariant
            i <= more.len(),
            out@ == old(out)@ + more@.take(i as int),
        decreases more.len() - i,
    {
        out.push(more[i]);
        i = i + 1;
        assert(out@ =~= old(out)@ + more@.take(i as int));
    }
    assert(more@.take(more@.len() as int) =~= more@);
}

impl HttpResponse {
    /// A response with the given status, content type and body, under
    /// `HTTP/1.1`, with the server's standard header fields.
    pub fn create(code: i16, content_type: String, body: Option<Vec<u8>>) -> (response:
        HttpResponse)
        ensures
            response@ == created(code as int, content_type@, body_view(body)),
    {
        let http_version = String::from_str("HTTP/1.1");
        let len: usize = match &body {
            None => 0,
            Some(b) => b.len(),
        };
        let mut headers = Headers::new();
        proof {
            reveal_strlit("Server");
            reveal_strlit("Content-Length");
            reveal_strlit("Connection");
            reveal_strlit("Content-Type");
            assert("Server"@.len() == 6);
            assert("Content-Length"@.len() == 14);
            assert("Connection"@.len() == 10);
            assert("Content-Type"@.len() == 12);
        }
        headers.insert(String::from_str("Server"), String::from_str("Psionic 0.0.1"));
        proof {
            let fields = headers@;
            assert(fields =~= seq![("Server"@, "Psionic 0.0.1"@)]);
        }
        let ghost one = headers@;
        headers.insert(String::from_str("Content-Length"), usize_text(len));
        proof {
            assert(one[0].0 != "Content-Length"@);
            lemma_inserted_new(one, "Content-Length"@, decimal(len as nat));
        }
        let ghost two = headers@;
        headers.insert(String::from_str("Connection"), String::from_str("Closed"));
        proof {
            assert(two[0].0 != "Connection"@);
            assert(two[1].0 != "Connection"@);
            lemma_inserted_new(two, "Connection"@, "Closed"@);
        }
        let ghost three = headers@;
        headers.insert(String::from_str("Content-Type"), content_type.clone());
        proof {
            assert(three[0].0 != "Content-Type"@);
            assert(three[1].0 != "Content-Type"@);
            assert(three[2].0 != "Content-Type"@);
            lemma_inserted_new(three, "Content-Type"@, content_type@);
            assert(headers@ =~= standard_fields(content_type@, body_view(body)));
        }
        HttpResponse { http_version, code, content_type, headers, body }
    }

    /// The response as it goes over the wire: the status line, every header
    /// field in the order of the table, an empty line, then the body.
    pub fn to_bytes(&mut self) -> (bytes: Vec<u8>)
        ensures
            bytes@ == wire_bytes(old(self)@),
            *final(self) == *old(self),
    {
        let response_type = get_response_type_str(self.code);
        let mut head = String::new();
        head.append(self.http_version.as_str());
        head.push(' ');
        head.append(i16_text(self.code).as_str());
        head.push(' ');
        head.append(response_type);
        head.append("\r\n");
        proof {
            reveal_strlit(" ");
            reveal_strlit("\r\n");
            reveal_strlit(": ");
            assert(head@ =~= status_line(self@.http_version, self@.code));
        }
        let n: usize = self.headers.len();
        let mut i: usize = 0;
        proof {
            assert(self@.headers.take(0) =~= Seq::<(Seq<char>, Seq<char>)>::empty());
        }
        while i < n
            invariant
                i <= n,
                n == self.headers@.len(),
                *self == *old(self),
                head@ == status_line(self@.http_version, self@.code) + field_lines(
                    self@.headers.take(i as int),
                ),
            decreases n - i,
        {
            let field = self.headers.entry(i);
            head.append(field.name.as_str());
            head.append(": ");
            head.append(field.value.as_str());
            head.append("\r\n");
            i = i + 1;
            proof {
                let seen = self@.headers.take(i as int);
                assert(seen.drop_last() =~= self@.headers.take(i - 1));
                assert(seen.last() == self@.headers[i - 1]);
                assert(head@ =~= status_line(self@.http_version, self@.code) + field_lines(
                    seen,
                ));
            }
        }
        head.append("\r\n");
        proof {
            assert(self@.headers.take(n as int) =~= self@.headers);
            assert(head@ =~= head_text(self@));
        }
        let mut bytes = head.as_str().as_bytes_vec();
        if let Some(b) = &self.body {
            append_bytes(&mut bytes, b);
        }
        assert(bytes@ =~= wire_bytes(self@));
        bytes
    }
}

/// The name of a request method as it stands in a request line.
pub open spec fn verb_name(verb: HttpVerb) -> Seq<char> {
    match verb {
        HttpVerb::GET => "GET"@,
        HttpVerb::HEAD => "HEAD"@,
        HttpVerb::POST => "POST"@,
        HttpVerb::PUT => "PUT"@,
        HttpVerb::DELETE => "DELETE"@,
        HttpVerb::CONNECT => "CONNECT"@,
        HttpVerb::OPTIONS => "OPTIONS"@,
        HttpVerb::TRACE => "TRACE"@,
        HttpVerb::PATCH => "PATCH"@,
    }
}

/// The request method with the given name in capitals.
pub open spec fn verb_named(name: Seq<char>) -> Option<HttpVerb> {
    if name == "GET"@ {
        Some(HttpVerb::GET)
    } else if name == "HEAD"@ {
        Some(HttpVerb::HEAD)
    } else if name == "POST"@ {
        Some(HttpVerb::POST)
    } else if name == "PUT"@ {
        Some(HttpVerb::PUT)
    } else if name == "DELETE"@ {
        Some(HttpVerb::DELETE)
    } else if name == "CONNECT"@ {
        Some(HttpVerb::CONNECT)
    } else if name == "PATCH"@ {
        Some(HttpVerb::PATCH)
    } else if name == "OPTIONS"@ {
        Some(HttpVerb::OPTIONS)
    } else if name == "TRACE"@ {
        Some(HttpVerb::TRACE)
    } else {
        None
    }
}

/// The header field that a line of a request head declares: the line is cut
/// at each `": "`; with two pieces or more, the first in capitals is the
/// name and the second the value. A line without `": "` declares none.
pub open spec fn field_of(line: Seq<char>) -> Option<(Seq<char>, Seq<char>)> {
    let items = split(line, ": "@);
    if items.len() > 1 {
        Some((uppercase(items[0]), items[1]))
    } else {
        None
    }
}

/// The table of the header fields that the lines declare, a later line
/// replacing the value of an earlier one of the same name.
pub open spec fn parsed_fields(lines: Seq<Seq<char>>) -> Fields
    decreases lines.len(),
{
    if lines.len() == 0 {
        Seq::empty()
    } else {
        let before = parsed_fields(lines.drop_last());
        match field_of(lines.last()) {
            Some((name, value)) => inserted(before, name, value),
            None => before,
        }
    }
}

/// The length that a line declares for the body: the value of a
/// `CONTENT-LENGTH` field that reads as a 32-bit integer and is not
/// negative. A value that is no such number declares no length.
pub open spec fn length_of(line: Seq<char>) -> Option<i32> {
    match field_of(line) {
        Some((name, value)) => if name == "CONTENT-LENGTH"@ {
            match parse_i32(value) {
                Some(length) => if length >= 0 {
                    Some(length)
                } else {
                    None
                },
                None => None,
            }
        } else {
            None
        },
        None => None,
    }
}

/// The length that the lines declare for the body: that of the last line
/// that declares one, and 0 where none does.
pub open spec fn declared_length(lines: Seq<Seq<char>>) -> int
    decreases lines.len(),
{
    if lines.len() == 0 {
        0
    } else {
        match length_of(lines.last()) {
            Some(length) => length as int,
            None => declared_length(lines.drop_last()),
        }
    }
}

/// The length that lines declare is never negative.
pub proof fn lemma_declared_length(lines: Seq<Seq<char>>)
    ensures
        0 <= declared_length(lines) <= i32::MAX,
    decreases lines.len(),
{
    if lines.len() > 0 {
        lemma_declared_length(lines.drop_last());
    }
}

/// What the text of a request head says. Its first line is cut at each
/// space: the first piece names the method, in any case of letters, the
/// second is the path and the third the version. The other lines declare the
/// header fields.
pub open spec fn parsed_head(data: Seq<char>) -> Result<RequestHead, Seq<char>> {
    let lines = split(data, "\r\n"@);
    let parts = split(lines[0], " "@);
    match verb_named(uppercase(parts[0])) {
        None => Err("Unknown http verb"@),
        Some(verb) => if parts.len() < 3 {
            Err("Malformed request line"@)
        } else {
            Ok(
                RequestHead {
                    route: parts[1],
                    verb,
                    content_length: declared_length(lines.skip(1)),
                    headers: parsed_fields(lines.skip(1)),
                    http_version: parts[2],
                },
            )
        },
    }
}

/// Position `i`, which is above 4, holds the last byte of a `CR LF CR LF`.
pub open spec fn ends_head(bytes: Seq<u8>, i: int) -> bool {
    &&& 4 < i < bytes.len()
    &&& bytes[i] == 10
    &&& bytes[i - 1] == 13
    &&& bytes[i - 2] == 10
    &&& bytes[i - 3] == 13
}

/// Position `i` is the least one that ends a head.
pub open spec fn first_head_end(bytes: Seq<u8>, i: int) -> bool {
    &&& ends_head(bytes, i)
    &&& forall|j: int| 0 <= j < i ==> !ends_head(bytes, j)
}

/// What a buffer holds of a request head, and where the body begins: the
/// text before the last byte of the empty line that ends the head is read,
/// and the body begins right after that byte.
pub open spec fn buffered_head(bytes: Seq<u8>) -> Result<(RequestHead, int), Seq<char>> {
    if exists|i: int| first_head_end(bytes, i) {
        let end = choose|i: int| first_head_end(bytes, i);
        match parsed_head(decoded(bytes.take(end))) {
            Ok(head) => Ok((head, end + 1)),
            Err(e) => Err(e),
        }
    } else {
        Err("Request header larger than buffer"@)
    }
}

impl HttpVerb {
    /// The request method that `data` names, in any case of letters.
    pub fn from_str(data: &str) -> (verb: Result<HttpVerb, &'static str>)
        ensures
            match verb {
                Ok(v) => verb_named(uppercase(data@)) == Some(v),
                Err(e) => verb_named(uppercase(data@)) is None && e@ == "Unknown http verb"@,
            },
    {
        let upper = to_uppercase(data);
        if upper == String::from_str("GET") {
            Ok(HttpVerb::GET)
        } else if upper == String::from_str("HEAD") {
            Ok(HttpVerb::HEAD)
        } else if upper == String::from_str("POST") {
            Ok(HttpVerb::POST)
        } else if upper == String::from_str("PUT") {
            Ok(HttpVerb::PUT)
        } else if upper == String::from_str("DELETE") {
            Ok(HttpVerb::DELETE)
        } else if upper == String::from_str("CONNECT") {
            Ok(HttpVerb::CONNECT)
        } else if upper == String::from_str("PATCH") {
            Ok(HttpVerb::PATCH)
        } else if upper == String::from_str("OPTIONS") {
            Ok(HttpVerb::OPTIONS)
        } else if upper == String::from_str("TRACE") {
            Ok(HttpVerb::TRACE)
        } else {
            Err("Unknown http verb")
        }
    }
}

impl HttpRequest {
    /// A request of the given header and body.
    pub fn create(header: HttpRequestHeader, body: Option<Vec<u8>>) -> (request: Result<
        HttpRequest,
        &'static str,
    >)
        ensures
            request == Ok::<HttpRequest, &'static str>(HttpRequest { header, body }),
    {
        Ok(HttpRequest { header, body })
    }
}

impl HttpRequestHeader {
    /// Reads the head of a request from the text before the empty line. The
    /// length that it declares for the body is never negative.
    pub fn parse_from_string(data: String) -> (header: Result<HttpRequestHeader, &'static str>)
        ensures
            match header {
                Ok(h) => parsed_head(data@) == Ok::<RequestHead, Seq<char>>(h@)
                    && h.content_length >= 0,
                Err(e) => parsed_head(data@) == Err::<RequestHead, Seq<char>>(e@),
            },
    {
        let chars = to_chars(data.as_str());
        let line_end = to_chars("\r\n");
        let space = to_chars(" ");
        let colon_space = to_chars(": ");
        let lines = split_chars(&chars, &line_end);
        proof {
            lemma_split_nonempty(chars@, line_end@);
        }
        let parts = split_chars(&lines[0], &space);
        proof {
            lemma_split_nonempty(lines[0]@, space@);
        }
        let verb_text = to_string(&parts[0], 0, parts[0].len());
        assert(verb_text@ =~= parts[0]@);
        let verb = match HttpVerb::from_str(verb_text.as_str()) {
            Ok(v) => v,
            Err(e) => {
                return Err(e);
            },
        };
        if parts.len() < 3 {
            return Err("Malformed request line");
        }
        let route = to_string(&parts[1], 0, parts[1].len());
        let http_version = to_string(&parts[2], 0, parts[2].len());
        assert(route@ =~= parts[1]@);
        assert(http_version@ =~= parts[2]@);
        let mut headers = Headers::new();
        let mut content_length: i32 = 0;
        let ghost all = views(lines@);
        let mut i: usize = 1;
        proof {
            assert(all.subrange(1, 1) =~= Seq::<Seq<char>>::empty());
        }
        while i < lines.len()
            invariant
                1 <= i <= lines.len(),
                all == views(lines@),
                colon_space@ == ": "@,
                headers@ == parsed_fields(all.subrange(1, i as int)),
                content_length == declared_length(all.subrange(1, i as int)),
                content_length >= 0,
            decreases lines.len() - i,
        {
            let items = split_chars(&lines[i], &colon_space);
            proof {
                let seen = all.subrange(1, i + 1);
                assert(seen.drop_last() =~= all.subrange(1, i as int));
                assert(seen.last() == lines[i as int]@);
            }
            if items.len() > 1 {
                let name = to_string(&items[0], 0, items[0].len());
                assert(name@ =~= items[0]@);
                let k = to_uppercase(name.as_str());
                let v = to_string(&items[1], 0, items[1].len());
                assert(v@ =~= items[1]@);
                if k == String::from_str("CONTENT-LENGTH") {
                    match read_i32(&items[1]) {
                        Some(n) => {
                            if n >= 0 {
                                content_length = n;
                            }
                        },
                        None => {},
                    }
                }
                headers.insert(k, v);
            }
            i = i + 1;
        }
        proof {
            assert(all.subrange(1, lines.len() as int) =~= all.skip(1));
        }
        Ok(HttpRequestHeader { route, verb, content_length, headers, http_version })
    }

    /// Reads the head of a request from the buffer that it was received in,
    /// and says where in the buffer the body begins.
    pub fn create_from_buffer(buffer: [u8; 4096]) -> (found: Result<
        (HttpRequestHeader, usize),
        &'static str,
    >)
        ensures
            match found {
                Ok((h, start)) => buffered_head(buffer@) == Ok::<(RequestHead, int), Seq<char>>(
                    (h@, start as int),
                ) && h.content_length >= 0,
                Err(e) => buffered_head(buffer@) == Err::<(RequestHead, int), Seq<char>>(e@),
            },
    {
        let mut i: usize = 5;
        while i < 4096
            invariant
                5 <= i <= 4096,
                forall|j: int| 0 <= j < i ==> !ends_head(buffer@, j),
            decreases 4096 - i,
        {
            if buffer[i] == 10 && buffer[i - 1] == 13 && buffer[i - 2] == 10 && buffer[i - 3]
                == 13 {
                let mut head: Vec<u8> = Vec::new();
                let mut k: usize = 0;
                while k < i
                    invariant
                        k <= i < 4096,
                        head@ == buffer@.take(k as int),
                    decreases i - k,
                {
                    head.push(buffer[k]);
                    k = k + 1;
                    assert(head@ =~= buffer@.take(k as int));
                }
                let text = decode_lossy(head.as_slice());
                proof {
                    assert(first_head_end(buffer@, i as int));
                    let end = choose|e: int| first_head_end(buffer@, e);
                    assert(end == i) by {
                        if end < i {
                            assert(!ends_head(buffer@, end));
                        } else if i < end {
                            assert(!ends_head(buffer@, i as int));
                        }
                    }
                    assert(text@ == decoded(buffer@.take(i as int)));
                }
                return match HttpRequestHeader::parse_from_string(text) {
                    Ok(request) => Ok((request, i + 1)),
                    Err(e) => Err(e),
                };
            }
            i = i + 1;
        }
        Err("Request header larger than buffer")
    }
}

/// A response as `HttpResponse::create` builds it goes over the wire as the
/// status line, the four standard header fields, an empty line and the body,
/// in this order; and its `Content-Length` is the length of the body, which
/// is 0 where there is none.
pub proof fn lemma_created_wire(code: int, content_type: Seq<char>, body: Option<Seq<u8>>)
    ensures
        wire_bytes(created(code, content_type, body)) == encode_utf8(
            status_line("HTTP/1.1"@, code) + ("Server: Psionic 0.0.1\r\n"@ + "Content-Length: "@
                + decimal(body_bytes(body).len()) + "\r\n"@ + "Connection: Closed\r\n"@
                + "Content-Type: "@ + content_type + "\r\n"@) + "\r\n"@,
        ) + body_bytes(body),
        value_of(created(code, content_type, body).headers, "Content-Length"@) == Some(
            decimal(body_bytes(body).len()),
        ),
        body is None ==> value_of(created(code, content_type, body).headers, "Content-Length"@)
            == Some("0"@),
{
    reveal_strlit("Server");
    reveal_strlit("Content-Length");
    reveal_strlit("Connection");
    reveal_strlit("Content-Type");
    reveal_strlit("Psionic 0.0.1");
    reveal_strlit("Closed");
    reveal_strlit(": ");
    reveal_strlit("\r\n");
    reveal_strlit("0");
    reveal_strlit("Server: Psionic 0.0.1\r\n");
    reveal_strlit("Content-Length: ");
    reveal_strlit("Connection: Closed\r\n");
    reveal_strlit("Content-Type: ");
    let fields = standard_fields(content_type, body);
    let one = fields.take(1);
    let two = fields.take(2);
    let three = fields.take(3);
    assert(one.drop_last() =~= Seq::<(Seq<char>, Seq<char>)>::empty());
    assert(two.drop_last() =~= one);
    assert(three.drop_last() =~= two);
    assert(fields.drop_last() =~= three);
    assert(field_lines(one.drop_last()) =~= Seq::<char>::empty());
    assert(field_lines(one) =~= "Server: Psionic 0.0.1\r\n"@);
    assert(field_lines(two) =~= field_lines(one) + field_line(fields[1]));
    assert(field_lines(three) =~= field_lines(two) + field_line(fields[2]));
    assert(field_lines(fields) =~= field_lines(three) + field_line(fields[3]));
    assert(field_line(fields[1]) =~= "Content-Length: "@ + decimal(body_bytes(body).len())
        + "\r\n"@);
    assert(field_line(fields[2]) =~= "Connection: Closed\r\n"@);
    assert(field_line(fields[3]) =~= "Content-Type: "@ + content_type + "\r\n"@);
    assert(field_lines(fields) =~= "Server: Psionic 0.0.1\r\n"@ + "Content-Length: "@ + decimal(
        body_bytes(body).len(),
    ) + "\r\n"@ + "Connection: Closed\r\n"@ + "Content-Type: "@ + content_type + "\r\n"@);
    assert(fields[1].0 == "Content-Length"@);
    assert("Server"@.len() == 6);
    assert("Content-Length"@.len() == 14);
    assert("Connection"@.len() == 10);
    assert("Content-Type"@.len() == 12);
    let at = position(fields, "Content-Length"@);
    assert(at == 1) by {
        if at != 1 {
            assert(fields[at].0 == "Content-Length"@);
        }
    }
    assert(decimal(0) =~= "0"@);
}

} // verus!
