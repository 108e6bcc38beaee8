//! The request console: the HTTP exchanges a client proxies, captured and turned into
//! events for a local web page.

use vstd::prelude::*;
use vstd::string::*;
use vstd::utf8::*;
use crate::subdomain::same_text;
use crate::decimal::{
    all_digits, decimal, digits_value, i16_to_decimal, law_padded_decimal_reads_back, pad_left, pad_left_zeros,
    parse_i64, parse_i64_spec, pow10, signed_decimal,
};

verus! {

broadcast use vstd::string::group_string_axioms;

/// Headers of a captured message, as `(name, values)` pairs in the order they were
/// collected; a later pair for a name replaces an earlier one.
pub type HeaderList = Vec<(String, Vec<String>)>;

/// The text of each string in `v`.
pub open spec fn texts(v: Seq<String>) -> Seq<Seq<char>> {
    v.map_values(|s: String| s@)
}

/// The map a header list stands for: each name to the values of its last pair.
pub open spec fn header_map(h: Seq<(String, Vec<String>)>) -> Map<Seq<char>, Seq<Seq<char>>>
    decreases h.len(),
{
    if h.len() == 0 {
        Map::empty()
    } else {
        header_map(h.drop_last()).insert(h.last().0@, texts(h.last().1@))
    }
}

/// The name of the header that announces a body's length.
pub open spec fn content_length_name() -> Seq<char> {
    "Content-Length"@
}

/// Largest body, in bytes, that a console event carries as it is.
pub const BODY_LIMIT: i64 = 65536;

/// The bytes of the words that stand in a console event for a body over [`BODY_LIMIT`].
pub open spec fn body_too_large() -> Seq<u8> {
    encode_utf8("body too large"@)
}

/// An HTTP request as the console shows it.
pub struct ConsoleRequest {
    pub id: String,
    pub method: String,
    pub url: String,
    pub body: Vec<u8>,
    pub headers: HeaderList,
}

/// An HTTP response as the console shows it.
pub struct ConsoleResponse {
    pub request_id: String,
    pub status: u16,
    pub headers: HeaderList,
    pub body: Vec<u8>,
}

/// The index of the last pair of `h` named `name`.
pub open spec fn last_header_index(h: Seq<(String, Vec<String>)>, name: Seq<char>) -> Option<int>
    decreases h.len(),
{
    if h.len() == 0 {
        None
    } else if h.last().0@ == name {
        Some(h.len() - 1)
    } else {
        last_header_index(h.drop_last(), name)
    }
}

/// A name is in a header list's map exactly when a pair has it, and then it maps to the
/// values of the last such pair.
pub proof fn lemma_header_lookup(h: Seq<(String, Vec<String>)>, name: Seq<char>)
    ensures
        match last_header_index(h, name) {
            Some(i) => 0 <= i < h.len() && h[i].0@ == name && header_map(h).contains_key(name)
                && header_map(h)[name] == texts(h[i].1@),
            None => !header_map(h).contains_key(name),
        },
    decreases h.len(),
{
    if h.len() > 0 {
        lemma_header_lookup(h.drop_last(), name);
        if h.last().0@ != name {
            match last_header_index(h.drop_last(), name) {
                Some(i) => {
                    assert(h.drop_last()[i] == h[i]);
                },
                None => {},
            }
        }
    }
}

/// The index of the last pair of `headers` named `name`.
pub fn find_header(headers: &HeaderList, name: &str) -> (r: Option<usize>)
    ensures
        r == match last_header_index(headers@, name@) {
            Some(i) => Some(i as usize),
            None => None::<usize>,
        },
        match r {
            Some(i) => i < headers@.len() && headers@[i as int].0@ == name@ && header_map(
                headers@,
            ).contains_key(name@) && header_map(headers@)[name@] == texts(
                headers@[i as int].1@,
            ),
            None => !header_map(headers@).contains_key(name@),
        },
{
    proof {
        lemma_header_lookup(headers@, name@);
    }
    let mut i = headers.len();
    assert(headers@.subrange(0, i as int) =~= headers@);
    while i > 0
        invariant
            i <= headers@.len(),
            last_header_index(headers@, name@) == last_header_index(
                headers@.subrange(0, i as int),
                name@,
            ),
        decreases i,
    {
        let ghost prefix = headers@.subrange(0, i as int);
        assert(prefix.drop_last() =~= headers@.subrange(0, i - 1));
        assert(prefix.last() == headers@[i - 1]);
        if same_text(headers[i - 1].0.as_str(), name) {
            proof {
                lemma_header_lookup(headers@, name@);
            }
            return Some(i - 1);
        }
        i = i - 1;
    }
    None
}

/// The values of the length header of a message with headers `h`, when it has one.
pub open spec fn declared_length(h: Seq<(String, Vec<String>)>) -> Option<Seq<Seq<char>>> {
    if header_map(h).contains_key(content_length_name()) {
        Some(header_map(h)[content_length_name()])
    } else {
        None
    }
}

/// What preparing an event needs of a message: when it declares a length, the header
/// has a value, and unless the body is empty that value reads as an `i64`.
pub open spec fn event_requirements(h: Seq<(String, Vec<String>)>, body: Seq<u8>) -> bool {
    match declared_length(h) {
        None => true,
        Some(values) => values.len() > 0 && (body.len() > 0 ==> parse_i64_spec(values[0]) is Some),
    }
}

/// Whether a message is still missing its body: it declares a length but carries no
/// body yet, so its next bytes are part of it.
pub open spec fn awaits_body(h: Seq<(String, Vec<String>)>, body: Seq<u8>) -> bool {
    declared_length(h) is Some && body.len() == 0
}

/// The body a console event carries: the message's own, or the words "body too large"
/// when the declared length is over [`BODY_LIMIT`].
pub open spec fn event_body(h: Seq<(String, Vec<String>)>, body: Seq<u8>) -> Seq<u8> {
    match declared_length(h) {
        Some(values) => if parse_i64_spec(values[0])->0 > BODY_LIMIT {
            body_too_large()
        } else {
            body
        },
        None => body,
    }
}

/// The identifier of the `count`-th exchange of a connection whose exchanges share
/// `prefix`: `{prefix}-{count:0>5}`.
pub open spec fn event_id(prefix: Seq<char>, count: int) -> Seq<char> {
    prefix + "-"@ + pad_left(signed_decimal(count), '0', 5)
}

/// Checks what [`prepare_request_event`] and [`prepare_response_event`] need of a
/// message; where it fails, the message cannot be shown.
pub fn event_requirements_hold(headers: &HeaderList, body: &Vec<u8>) -> (r: bool)
    ensures
        r == event_requirements(headers@, body@),
{
    match find_header(headers, "Content-Length") {
        None => true,
        Some(i) => {
            let values = &headers[i].1;
            proof {
                assert(texts(values@).len() == values@.len());
            }
            if values.len() == 0 {
                false
            } else if body.len() == 0 {
                true
            } else {
                assert(texts(values@)[0] == values@[0]@);
                parse_i64(values[0].as_str()).is_some()
            }
        },
    }
}

/// Which captured messages the console can show, read off the last `Content-Length`
/// pair: a message without one can always be shown; one with it needs a value, and,
/// once its body has started, a first value that reads as an `i64` of any size. Such a
/// message is shown with its own body up to [`BODY_LIMIT`] bytes declared, and with
/// "body too large" beyond.
pub proof fn law_showable_messages(h: Seq<(String, Vec<String>)>, body: Seq<u8>)
    ensures
        event_requirements(h, body) <==> match last_header_index(h, content_length_name()) {
            None => true,
            Some(i) => h[i].1@.len() > 0 && (body.len() > 0 ==> parse_i64_spec(h[i].1@[0]@) is Some),
        },
        last_header_index(h, content_length_name()) is None ==> !awaits_body(h, body)
            && event_body(h, body) == body,
        match last_header_index(h, content_length_name()) {
            Some(i) => h[i].1@.len() > 0 && body.len() > 0 ==> !awaits_body(h, body) && match parse_i64_spec(h[i].1@[0]@) {
                Some(n) => event_body(h, body) == if n > BODY_LIMIT {
                    body_too_large()
                } else {
                    body
                },
                None => true,
            },
            None => true,
        },
{
    lemma_header_lookup(h, content_length_name());
    match last_header_index(h, content_length_name()) {
        Some(i) => {
            assert(texts(h[i].1@).len() == h[i].1@.len());
            if h[i].1@.len() > 0 {
                assert(texts(h[i].1@)[0] == h[i].1@[0]@);
            }
        },
        None => {},
    }
}

/// The identifier of a non-negative exchange number below 100000 is the prefix, a
/// hyphen and exactly five digits that read back as the number.
pub proof fn law_event_id_numbers_exchanges(prefix: Seq<char>, count: int)
    requires
        0 <= count < 100000,
    ensures
        event_id(prefix, count).len() == prefix.len() + 6,
        event_id(prefix, count).subrange(0, prefix.len() as int) == prefix,
        event_id(prefix, count)[prefix.len() as int] == '-',
        all_digits(event_id(prefix, count).subrange(prefix.len() + 1int, prefix.len() + 6int)),
        digits_value(event_id(prefix, count).subrange(prefix.len() + 1int, prefix.len() + 6int)) == count,
{
    assert(pow10(5) == 100000) by {
        reveal_with_fuel(pow10, 6);
    }
    law_padded_decimal_reads_back(count as nat, 5);
    let padded = pad_left(decimal(count as nat), '0', 5);
    let id = event_id(prefix, count);
    assert(signed_decimal(count) == decimal(count as nat));
    reveal_strlit("-");
    assert("-"@ =~= seq!['-']);
    assert(id =~= prefix + seq!['-'] + padded);
    assert(id.subrange(0, prefix.len() as int) =~= prefix);
    assert(id.subrange(prefix.len() + 1int, prefix.len() + 6int) =~= padded);
}

/// The identifier `{prefix}-{count:0>5}`.
fn exchange_id(prefix: &str, count: i16) -> (r: String)
    ensures
        r@ == event_id(prefix@, count as int),
{
    let number = pad_left_zeros(i16_to_decimal(count), 5);
    String::from_str(prefix).concat("-").concat(number.as_str())
}

/// The body carried by an event for a message whose declared length is `length`.
fn capped_body(length: i64, body: Vec<u8>) -> (r: Vec<u8>)
    ensures
        r@ == if length > BODY_LIMIT {
            body_too_large()
        } else {
            body@
        },
{
    if length > BODY_LIMIT {
        String::from_str("body too large").as_str().as_bytes_vec()
    } else {
        body
    }
}

/// The body an event carries for a message with `headers` and `body`; `None` while the
/// message still awaits its body.
fn shown_body(headers: &HeaderList, body: Vec<u8>) -> (r: Option<Vec<u8>>)
    requires
        event_requirements(headers@, body@),
    ensures
        awaits_body(headers@, body@) <==> r is None,
        r matches Some(b) ==> b@ == event_body(headers@, body@),
{
    match find_header(headers, "Content-Length") {
        None => Some(body),
        Some(i) => {
            if body.len() == 0 {
                return None;
            }
            assert(texts(headers@[i as int].1@)[0] == headers@[i as int].1@[0]@);
            let length = match parse_i64(headers[i].1[0].as_str()) {
                Some(n) => n,
                None => {
                    assert(false);
                    0
                },
            };
            Some(capped_body(length, body))
        },
    }
}

/// What the request transmitter sends for a captured request: nothing while the
/// request still awaits its body (`None`, the next bytes belong to it); otherwise the
/// request under the identifier `{id_prefix}-{count:0>5}`, its body replaced by
/// "body too large" when the declared length is over [`BODY_LIMIT`].
pub fn prepare_request_event(msg: ConsoleRequest, id_prefix: &str, count: i16) -> (r: Option<
    ConsoleRequest,
>)
    requires
        event_requirements(msg.headers@, msg.body@),
    ensures
        awaits_body(msg.headers@, msg.body@) <==> r is None,
        r matches Some(e) ==> {
            &&& e.id@ == event_id(id_prefix@, count as int)
            &&& e.body@ == event_body(msg.headers@, msg.body@)
            &&& e.method == msg.method
            &&& e.url == msg.url
            &&& e.headers == msg.headers
        },
{
    let ConsoleRequest { id: _, method, url, body, headers } = msg;
    match shown_body(&headers, body) {
        None => None,
        Some(body) => Some(ConsoleRequest { id: exchange_id(id_prefix, count), method, url, body, headers }),
    }
}

/// What the response transmitter sends for a captured response: nothing while the
/// response still awaits its body (`None`, the next bytes belong to it); otherwise the
/// response under the identifier `{id_prefix}-{count:0>5}`, its body replaced by
/// "body too large" when the declared length is over [`BODY_LIMIT`].
pub fn prepare_response_event(msg: ConsoleResponse, id_prefix: &str, count: i16) -> (r: Option<
    ConsoleResponse,
>)
    requires
        event_requirements(msg.headers@, msg.body@),
    ensures
        awaits_body(msg.headers@, msg.body@) <==> r is None,
        r matches Some(e) ==> {
            &&& e.request_id@ == event_id(id_prefix@, count as int)
            &&& e.body@ == event_body(msg.headers@, msg.body@)
            &&& e.status == msg.status
            &&& e.headers == msg.headers
        },
{
    let ConsoleResponse { request_id: _, status, headers, body } = msg;
    match shown_body(&headers, body) {
        None => None,
        Some(body) => Some(ConsoleResponse { request_id: exchange_id(id_prefix, count), status, headers, body }),
    }
}

/// The message being captured and its number after the bytes `chunk` pass: added to the
/// message when it awaited its body, otherwise the start of the next message.
pub open spec fn after_chunk(awaiting: bool, data: Seq<u8>, count: int, chunk: Seq<u8>) -> (
    Seq<u8>,
    int,
) {
    if awaiting {
        (data + chunk, count)
    } else {
        (chunk, count + 1)
    }
}

/// The capture after `chunks` pass in turn, each but the first reaching a message that
/// the transmitter found still awaiting its body.
pub open spec fn feed(awaiting: bool, data: Seq<u8>, count: int, chunks: Seq<Seq<u8>>) -> (
    Seq<u8>,
    int,
)
    decreases chunks.len(),
{
    if chunks.len() == 0 {
        (data, count)
    } else {
        let (d, c) = after_chunk(awaiting, data, count, chunks[0]);
        feed(true, d, c, chunks.drop_first())
    }
}

/// The bytes of `chunks`, one after another.
pub open spec fn joined(chunks: Seq<Seq<u8>>) -> Seq<u8>
    decreases chunks.len(),
{
    if chunks.len() == 0 {
        Seq::empty()
    } else {
        chunks[0] + joined(chunks.drop_first())
    }
}

/// Chunks that reach a message awaiting its body are added to it.
proof fn lemma_feed_awaiting(data: Seq<u8>, count: int, chunks: Seq<Seq<u8>>)
    ensures
        feed(true, data, count, chunks) == (data + joined(chunks), count),
    decreases chunks.len(),
{
    if chunks.len() == 0 {
        assert(data + joined(chunks) =~= data);
    } else {
        lemma_feed_awaiting(data + chunks[0], count, chunks.drop_first());
        assert(data + chunks[0] + joined(chunks.drop_first()) =~= data + joined(chunks));
    }
}

/// A message that arrives in several chunks, each found still awaiting its body until
/// the last, is captured whole, as one message: its bytes are the chunks joined and the
/// message count rises by one.
pub proof fn law_segmented_message_is_reassembled(data: Seq<u8>, count: int, chunks: Seq<Seq<u8>>)
    requires
        chunks.len() >= 1,
    ensures
        feed(false, data, count, chunks) == (joined(chunks), count + 1),
{
    lemma_feed_awaiting(chunks[0], count + 1, chunks.drop_first());
}

/// The state of one direction of a proxied connection watched by the console: the bytes
/// of the message being captured, how many messages were started, and whether the last
/// send found the message still awaiting its body.
pub struct ConsoleCapture {
    pub was_segmented: bool,
    pub data: Vec<u8>,
    pub req_count: i16,
}

impl ConsoleCapture {
    /// The state before any bytes have passed.
    pub fn new() -> (c: Self)
        ensures
            !c.was_segmented,
            c.data@ == Seq::<u8>::empty(),
            c.req_count == 0,
    {
        ConsoleCapture { was_segmented: false, data: Vec::new(), req_count: 0 }
    }

    /// Whether another message can be counted; counting past `i16::MAX` overflows.
    pub fn can_take_chunk(&self) -> (r: bool)
        ensures
            r == (self.was_segmented || self.req_count < i16::MAX),
    {
        self.was_segmented || self.req_count < i16::MAX
    }

    /// Takes the bytes `chunk` just forwarded. A chunk that follows a message awaiting its
    /// body is added to it; any other starts a new message and counts it. Returns the
    /// bytes of the message so far and its number, for the transmitter.
    pub fn take_chunk(&mut self, chunk: &[u8]) -> (r: (Vec<u8>, i16))
        requires
            old(self).was_segmented || old(self).req_count < i16::MAX,
        ensures
            final(self).was_segmented == old(self).was_segmented,
            (final(self).data@, final(self).req_count as int) == after_chunk(
                old(self).was_segmented,
                old(self).data@,
                old(self).req_count as int,
                chunk@,
            ),
            r.0@ == final(self).data@,
            r.1 == final(self).req_count,
    {
        if !self.was_segmented {
            self.req_count = self.req_count + 1;
            self.data.clear();
        }
        let ghost before = self.data@;
        let mut k: usize = 0;
        while k < chunk.len()
            invariant
                k <= chunk@.len(),
                self.data@ == before + chunk@.subrange(0, k as int),
                self.was_segmented == old(self).was_segmented,
                self.req_count == if old(self).was_segmented {
                    old(self).req_count as int
                } else {
                    old(self).req_count + 1
                },
            decreases chunk@.len() - k,
        {
            self.data.push(chunk[k]);
            k = k + 1;
            assert(self.data@ =~= before + chunk@.subrange(0, k as int));
        }
        assert(chunk@.subrange(0, chunk@.len() as int) =~= chunk@);
        assert(before + chunk@ =~= if old(self).was_segmented {
            old(self).data@ + chunk@
        } else {
            chunk@
        });
        (self.data.clone(), self.req_count)
    }

    /// Takes what the transmitter said of the message: `Some(true)` when it awaits its
    /// body, `Some(false)` when it was sent, `None` when sending failed, which counts as
    /// sent.
    pub fn record_outcome(&mut self, outcome: Option<bool>)
        ensures
            final(self).was_segmented == (outcome == Some(true)),
            final(self).data@ == old(self).data@,
            final(self).req_count == old(self).req_count,
    {
        self.was_segmented = match outcome {
            Some(b) => b,
            None => false,
        };
    }
}

} // verus!
