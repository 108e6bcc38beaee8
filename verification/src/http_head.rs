//! Reading the head of a proxied HTTP message into what the console shows of it.

use vstd::prelude::*;
use vstd::string::*;
use vstd::utf8::*;
use crate::host::slice_range;
use crate::console::{texts, ConsoleRequest, ConsoleResponse, HeaderList};

verus! {

broadcast use vstd::string::group_string_axioms;

/// A header as the HTTP parser found it: its name and the raw bytes of its value.
pub struct RawHeader {
    pub name: String,
    pub value: Vec<u8>,
}

/// The start line and headers of a request, and where its body starts.
pub struct RequestHead {
    pub method: Option<String>,
    pub path: Option<String>,
    pub headers: Vec<RawHeader>,
    pub body_offset: usize,
}

/// The status line and headers of a response, and where its body starts.
pub struct ResponseHead {
    pub code: Option<u16>,
    pub headers: Vec<RawHeader>,
    pub body_offset: usize,
}

/// What the HTTP parser makes of a buffer.
pub enum HeadParse<H> {
    /// The buffer is not HTTP; the parser's description of why.
    Invalid(String),
    /// The buffer holds only the start of a head.
    Partial,
    /// The buffer holds a whole head.
    Complete(H),
}

/// What a parsed header holds.
pub struct RawHeaderView {
    pub name: Seq<char>,
    pub value: Seq<u8>,
}

/// What a parsed request head holds.
pub struct RequestHeadView {
    pub method: Option<Seq<char>>,
    pub path: Option<Seq<char>>,
    pub headers: Seq<RawHeaderView>,
    pub body_offset: nat,
}

/// What a parsed response head holds.
pub struct ResponseHeadView {
    pub code: Option<u16>,
    pub headers: Seq<RawHeaderView>,
    pub body_offset: nat,
}

/// What the HTTP parser made of a buffer, in terms of the views of its parts.
pub enum HeadParseView<H> {
    Invalid(Seq<char>),
    Partial,
    Complete(H),
}

/// The text of an optional string.
pub open spec fn opt_text(s: Option<String>) -> Option<Seq<char>> {
    match s {
        Some(t) => Some(t@),
        None => None,
    }
}

impl View for RawHeader {
    type V = RawHeaderView;

    open spec fn view(&self) -> RawHeaderView {
        RawHeaderView { name: self.name@, value: self.value@ }
    }
}

impl View for RequestHead {
    type V = RequestHeadView;

    open spec fn view(&self) -> RequestHeadView {
        RequestHeadView {
            method: opt_text(self.method),
            path: opt_text(self.path),
            headers: self.headers@.map_values(|h: RawHeader| h@),
            body_offset: self.body_offset as nat,
        }
    }
}

impl View for ResponseHead {
    type V = ResponseHeadView;

    open spec fn view(&self) -> ResponseHeadView {
        ResponseHeadView {
            code: self.code,
            headers: self.headers@.map_values(|h: RawHeader| h@),
            body_offset: self.body_offset as nat,
        }
    }
}

impl<H: View> View for HeadParse<H> {
    type V = HeadParseView<H::V>;

    open spec fn view(&self) -> HeadParseView<H::V> {
        match self {
            HeadParse::Invalid(t) => HeadParseView::Invalid(t@),
            HeadParse::Partial => HeadParseView::Partial,
            HeadParse::Complete(h) => HeadParseView::Complete(h@),
        }
    }
}

/// Whether `t` is one of the descriptions that `httparse::Error` gives of a refusal.
pub open spec fn parser_description(t: Seq<char>) -> bool {
    ||| t == "invalid header name"@
    ||| t == "invalid header value"@
    ||| t == "invalid new line"@
    ||| t == "invalid response status"@
    ||| t == "invalid token"@
    ||| t == "too many headers"@
    ||| t == "invalid HTTP version"@
}

/// What `httparse::Request::parse` finds in `data`, given room for 64 headers; a refusal
/// carries the text of the parser's error.
pub uninterp spec fn httparse_request(data: Seq<u8>) -> HeadParseView<RequestHeadView>;

/// What `httparse::Response::parse` finds in `data`, given room for 64 headers; a refusal
/// carries the text of the parser's error.
pub uninterp spec fn httparse_response(data: Seq<u8>) -> HeadParseView<ResponseHeadView>;

/// Parses `data` with `httparse::Request::parse`, with room for 64 headers, and turns a
/// refusal into the text that the error's `Display` gives. On a whole head the parser
/// has set the method and the path, and the body offset lies within the buffer (the
/// crate's source sets both before it reports completion and counts the offset in bytes
/// consumed). A refusal's text is one of the seven descriptions the error's `Display`
/// writes, one per variant.
#[verifier::external_body]
fn parse_request_head(data: &[u8]) -> (r: HeadParse<RequestHead>)
    ensures
        r@ == httparse_request(data@),
        r matches HeadParse::Complete(h) ==> h.method is Some && h.path is Some && h.body_offset
            <= data@.len(),
        r matches HeadParse::Invalid(t) ==> parser_description(t@),
{
    let mut slots = [httparse::EMPTY_HEADER; 64];
    let mut req = httparse::Request::new(&mut slots);
    match req.parse(data) {
        Err(e) => HeadParse::Invalid(e.to_string()),
        Ok(httparse::Status::Partial) => HeadParse::Partial,
        Ok(httparse::Status::Complete(body_offset)) => HeadParse::Complete(RequestHead {
            method: req.method.map(|m| m.to_owned()),
            path: req.path.map(|p| p.to_owned()),
            headers: req.headers.iter().map(|h| RawHeader { name: h.name.to_owned(), value: h.value.to_vec() }).collect(),
            body_offset,
        }),
    }
}

/// Parses `data` with `httparse::Response::parse`, with room for 64 headers, and turns a
/// refusal into the text that the error's `Display` gives. On a whole head the parser
/// has set the status code, and the body offset lies within the buffer; a refusal's text
/// is one of the seven descriptions of the error's `Display`.
#[verifier::external_body]
fn parse_response_head(data: &[u8]) -> (r: HeadParse<ResponseHead>)
    ensures
        r@ == httparse_response(data@),
        r matches HeadParse::Complete(h) ==> h.code is Some && h.body_offset <= data@.len(),
        r matches HeadParse::Invalid(t) ==> parser_description(t@),
{
    let mut slots = [httparse::EMPTY_HEADER; 64];
    let mut res = httparse::Response::new(&mut slots);
    match res.parse(data) {
        Err(e) => HeadParse::Invalid(e.to_string()),
        Ok(httparse::Status::Partial) => HeadParse::Partial,
        Ok(httparse::Status::Complete(body_offset)) => HeadParse::Complete(ResponseHead {
            code: res.code,
            headers: res.headers.iter().map(|h| RawHeader { name: h.name.to_owned(), value: h.value.to_vec() }).collect(),
            body_offset,
        }),
    }
}

/// Decodes `bytes` with `std::str::from_utf8`: the text they encode when they are valid
/// UTF-8, `None` otherwise.
#[verifier::external_body]
fn utf8_text(bytes: &[u8]) -> (r: Option<String>)
    ensures
        r is Some <==> valid_utf8(bytes@),
        r matches Some(s) ==> s@ == decode_utf8(bytes@),
{
    std::str::from_utf8(bytes).ok().map(|s| s.to_owned())
}

/// Why a captured message could not be read.
#[derive(Debug)]
pub enum ConsoleParseError {
    /// The bytes are not an HTTP message; the parser's description of why.
    Malformed(String),
    /// The bytes hold only part of a request head.
    Partial,
}

impl ConsoleParseError {
    /// The message of the error: the parser's description for bytes that are not HTTP,
    /// "is partial" for a request head that is not whole.
    pub fn message(&self) -> (r: String)
        ensures
            r@ == match self {
                ConsoleParseError::Malformed(m) => m@,
                ConsoleParseError::Partial => "is partial"@,
            },
    {
        match self {
            ConsoleParseError::Malformed(m) => m.clone(),
            ConsoleParseError::Partial => String::from_str("is partial"),
        }
    }
}

/// Whether every header value is valid UTF-8.
pub open spec fn values_are_text(hs: Seq<RawHeaderView>) -> bool {
    forall|i: int| 0 <= i < hs.len() ==> valid_utf8(#[trigger] hs[i].value)
}

/// Whether `list` holds the headers `hs` in order, each name with the one text its
/// value encodes.
pub open spec fn lists_headers(list: Seq<(String, Vec<String>)>, hs: Seq<RawHeaderView>) -> bool {
    &&& list.len() == hs.len()
    &&& forall|i: int|
        0 <= i < hs.len() ==> (#[trigger] list[i]).0@ == hs[i].name && texts(list[i].1@) == seq![
            decode_utf8(hs[i].value),
        ]
}

/// Whether a parse result may be read into a console message: a whole head has its
/// start line, a body offset within `len` bytes and header values that are text.
pub open spec fn readable_request(p: HeadParseView<RequestHeadView>, len: nat) -> bool {
    p matches HeadParseView::Complete(h) ==> h.method is Some && h.path is Some && h.body_offset
        <= len && values_are_text(h.headers)
}

/// Like [`readable_request`], for responses.
pub open spec fn readable_response(p: HeadParseView<ResponseHeadView>, len: nat) -> bool {
    p matches HeadParseView::Complete(h) ==> h.code is Some && h.body_offset <= len
        && values_are_text(h.headers)
}

/// The header list of a parsed head, each value decoded.
fn collect_headers(headers: &Vec<RawHeader>) -> (list: HeaderList)
    requires
        values_are_text(headers@.map_values(|h: RawHeader| h@)),
    ensures
        lists_headers(list@, headers@.map_values(|h: RawHeader| h@)),
{
    let ghost hs = headers@.map_values(|h: RawHeader| h@);
    let mut list: HeaderList = Vec::new();
    let mut i: usize = 0;
    while i < headers.len()
        invariant
            i <= headers@.len(),
            hs == headers@.map_values(|h: RawHeader| h@),
            values_are_text(hs),
            list@.len() == i,
            forall|j: int|
                0 <= j < i ==> (#[trigger] list@[j]).0@ == hs[j].name && texts(list@[j].1@)
                    == seq![decode_utf8(hs[j].value)],
        decreases headers@.len() - i,
    {
        assert(hs[i as int] == headers@[i as int]@);
        let text = match utf8_text(headers[i].value.as_slice()) {
            Some(t) => t,
            None => {
                assert(valid_utf8(hs[i as int].value));
                assert(false);
                String::new()
            },
        };
        let mut values: Vec<String> = Vec::new();
        values.push(text);
        assert(texts(values@) =~= seq![decode_utf8(hs[i as int].value)]);
        list.push((headers[i].name.clone(), values));
        i = i + 1;
    }
    list
}

/// The console request for the bytes `data` of a request whose head parsed as `parsed`:
/// the method, the path as its URL, the headers with their values decoded, and the
/// bytes after the head as its body.
pub fn console_request_from_head(id: String, data: &[u8], parsed: HeadParse<RequestHead>) -> (r:
    Result<ConsoleRequest, ConsoleParseError>)
    requires
        readable_request(parsed@, data@.len()),
    ensures
        match parsed@ {
            HeadParseView::Invalid(t) => (r matches Err(ConsoleParseError::Malformed(m)) && m@ == t),
            HeadParseView::Partial => r matches Err(ConsoleParseError::Partial),
            HeadParseView::Complete(h) => (r matches Ok(c) && c.id == id && c.method@
                == h.method->0 && c.url@ == h.path->0 && c.body@ == data@.subrange(
                h.body_offset as int,
                data@.len() as int,
            ) && lists_headers(c.headers@, h.headers)),
        },
{
    match parsed {
        HeadParse::Invalid(t) => Err(ConsoleParseError::Malformed(t)),
        HeadParse::Partial => Err(ConsoleParseError::Partial),
        HeadParse::Complete(head) => {
            let headers = collect_headers(&head.headers);
            let method = match head.method {
                Some(m) => m,
                None => String::new(),
            };
            let url = match head.path {
                Some(p) => p,
                None => String::new(),
            };
            let body = slice_range(data, head.body_offset, data.len());
            Ok(ConsoleRequest { id, method, url, body, headers })
        },
    }
}

/// The console response for the bytes `data` of a response whose head parsed as
/// `parsed`: the status code, the headers with their values decoded, and the bytes after
/// the head as its body.
pub fn console_response_from_head(id: String, data: &[u8], parsed: HeadParse<ResponseHead>) -> (r:
    Result<ConsoleResponse, ConsoleParseError>)
    requires
        !(parsed@ is Partial),
        readable_response(parsed@, data@.len()),
    ensures
        match parsed@ {
            HeadParseView::Complete(h) => (r matches Ok(c) && c.request_id == id && Some(c.status)
                == h.code && c.body@ == data@.subrange(h.body_offset as int, data@.len() as int)
                && lists_headers(c.headers@, h.headers)),
            HeadParseView::Invalid(t) => (r matches Err(ConsoleParseError::Malformed(m)) && m@ == t),
            HeadParseView::Partial => r matches Err(ConsoleParseError::Partial),
        },
{
    match parsed {
        HeadParse::Complete(head) => {
            let headers = collect_headers(&head.headers);
            let status = match head.code {
                Some(c) => c,
                None => 0,
            };
            let body = slice_range(data, head.body_offset, data.len());
            Ok(ConsoleResponse { request_id: id, status, headers, body })
        },
        HeadParse::Invalid(t) => Err(ConsoleParseError::Malformed(t)),
        HeadParse::Partial => {
            assert(false);
            Err(ConsoleParseError::Partial)
        },
    }
}

/// Reads the captured request bytes `data` into a console request, as the request
/// transmitter does. Refused bytes and a partial head are errors.
pub fn parse_http_request(id: String, data: Vec<u8>) -> (r: Result<ConsoleRequest, ConsoleParseError>)
    requires
        httparse_request(data@) matches HeadParseView::Complete(h) ==> values_are_text(h.headers),
    ensures
        match httparse_request(data@) {
            HeadParseView::Invalid(t) => (r matches Err(ConsoleParseError::Malformed(m)) && m@ == t),
            HeadParseView::Partial => r matches Err(ConsoleParseError::Partial),
            HeadParseView::Complete(h) => (r matches Ok(c) && c.id == id && c.method@
                == h.method->0 && c.url@ == h.path->0 && c.body@ == data@.subrange(
                h.body_offset as int,
                data@.len() as int,
            ) && lists_headers(c.headers@, h.headers)),
        },
{
    let parsed = parse_request_head(data.as_slice());
    console_request_from_head(id, data.as_slice(), parsed)
}

/// Reads the captured response bytes `data` into a console response, as the response
/// transmitter does. Refused bytes are an error; the response head must be whole.
pub fn parse_http_resonse(id: String, data: Vec<u8>) -> (r: Result<ConsoleResponse, ConsoleParseError>)
    requires
        !(httparse_response(data@) is Partial),
        httparse_response(data@) matches HeadParseView::Complete(h) ==> values_are_text(h.headers),
    ensures
        match httparse_response(data@) {
            HeadParseView::Complete(h) => (r matches Ok(c) && c.request_id == id && Some(c.status)
                == h.code && c.body@ == data@.subrange(h.body_offset as int, data@.len() as int)
                && lists_headers(c.headers@, h.headers)),
            HeadParseView::Invalid(t) => (r matches Err(ConsoleParseError::Malformed(m)) && m@ == t),
            HeadParseView::Partial => r matches Err(ConsoleParseError::Partial),
        },
{
    let parsed = parse_response_head(data.as_slice());
    console_response_from_head(id, data.as_slice(), parsed)
}

/// Whether every header value of a parsed head is valid UTF-8.
fn all_values_text(headers: &Vec<RawHeader>) -> (r: bool)
    ensures
        r == values_are_text(headers@.map_values(|h: RawHeader| h@)),
{
    let ghost hs = headers@.map_values(|h: RawHeader| h@);
    let mut i: usize = 0;
    while i < headers.len()
        invariant
            i <= headers@.len(),
            hs == headers@.map_values(|h: RawHeader| h@),
            forall|j: int| 0 <= j < i ==> valid_utf8(#[trigger] hs[j].value),
        decreases headers@.len() - i,
    {
        assert(hs[i as int] == headers@[i as int]@);
        if utf8_text(headers[i].value.as_slice()).is_none() {
            assert(!valid_utf8(hs[i as int].value));
            return false;
        }
        i = i + 1;
    }
    true
}

/// Reads captured request bytes as [`parse_http_request`] does, where that is possible:
/// `None` when a header value is not UTF-8, which the request transmitter cannot show.
pub fn try_parse_http_request(id: String, data: Vec<u8>) -> (r: Option<
    Result<ConsoleRequest, ConsoleParseError>,
>)
    ensures
        r is None <==> (httparse_request(data@) matches HeadParseView::Complete(h)
            && !values_are_text(h.headers)),
        r matches Some(res) ==> match httparse_request(data@) {
            HeadParseView::Invalid(t) => (res matches Err(ConsoleParseError::Malformed(m)) && m@ == t),
            HeadParseView::Partial => res matches Err(ConsoleParseError::Partial),
            HeadParseView::Complete(h) => (res matches Ok(c) && c.id == id && c.method@
                == h.method->0 && c.url@ == h.path->0 && c.body@ == data@.subrange(
                h.body_offset as int,
                data@.len() as int,
            ) && lists_headers(c.headers@, h.headers)),
        },
{
    let parsed = parse_request_head(data.as_slice());
    let usable = match &parsed {
        HeadParse::Complete(head) => all_values_text(&head.headers),
        _ => true,
    };
    if usable {
        Some(parse_http_request(id, data))
    } else {
        None
    }
}

/// Reads captured response bytes as [`parse_http_resonse`] does, where that is
/// possible: `None` when the head is partial or a header value is not UTF-8, which the
/// response transmitter cannot show.
pub fn try_parse_http_response(id: String, data: Vec<u8>) -> (r: Option<
    Result<ConsoleResponse, ConsoleParseError>,
>)
    ensures
        r is None <==> (httparse_response(data@) is Partial || (httparse_response(
            data@,
        ) matches HeadParseView::Complete(h) && !values_are_text(h.headers))),
        r matches Some(res) ==> match httparse_response(data@) {
            HeadParseView::Complete(h) => (res matches Ok(c) && c.request_id == id && Some(
                c.status,
            ) == h.code && c.body@ == data@.subrange(h.body_offset as int, data@.len() as int)
                && lists_headers(c.headers@, h.headers)),
            HeadParseView::Invalid(t) => (res matches Err(ConsoleParseError::Malformed(m)) && m@ == t),
            HeadParseView::Partial => res matches Err(ConsoleParseError::Partial),
        },
{
    let parsed = parse_response_head(data.as_slice());
    let usable = match &parsed {
        HeadParse::Complete(head) => all_values_text(&head.headers),
        HeadParse::Partial => false,
        HeadParse::Invalid(_) => true,
    };
    if usable {
        Some(parse_http_resonse(id, data))
    } else {
        None
    }
}

} // verus!
