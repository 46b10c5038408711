//! HTTP with server-sent events.
//!
//! The client opens a stream of events. An `endpoint` event says where requests are to be posted;
//! answers and notifications arrive as `message` events.
use crate::error::Error;
use crate::text::{
    host_of, host_part, join, lemma_all_host, lemma_host_of, one_line, same_text, starts_with, strip_prefix, trim,
    trim_breaks, trim_line, trim_start, trimmed, whitespace,
};
use vstd::prelude::*;
use vstd::utf8::{
    char_is_scalar, char_u32_cast, encode_scalar, encode_utf8, encode_utf8_decode_utf8, encode_utf8_valid_utf8,
};

verus! {

/// The scheme and the host of a URL, with its port where it has one, and nothing that follows.
pub open spec fn base_of(url: Seq<char>) -> Seq<char> {
    if "http://"@.is_prefix_of(url) {
        "http://"@ + host_of(url.skip("http://"@.len() as int))
    } else if "https://"@.is_prefix_of(url) {
        "https://"@ + host_of(url.skip("https://"@.len() as int))
    } else {
        url
    }
}

/// The scheme and the host of a URL, with its port where it has one. A text of another scheme stays
/// as it is.
pub fn base_url(url: &str) -> (base: String)
    ensures
        base@ == base_of(url@),
{
    match strip_prefix(url, "http://") {
        Some(rest) => join("http://", host_part(rest.as_str()).as_str()),
        None => match strip_prefix(url, "https://") {
            Some(rest) => join("https://", host_part(rest.as_str()).as_str()),
            None => url.to_owned(),
        },
    }
}

/// What a server-sent event gives the client.
#[derive(Debug)]
pub enum SseEvent {
    /// Where to post requests.
    Endpoint(String),
    /// A message of the server.
    Message(String),
}

/// The model of an [`SseEvent`].
pub enum SseEventView {
    Endpoint(Seq<char>),
    Message(Seq<char>),
}

impl View for SseEvent {
    type V = SseEventView;

    open spec fn view(&self) -> SseEventView {
        match self {
            SseEvent::Endpoint(url) => SseEventView::Endpoint(url@),
            SseEvent::Message(text) => SseEventView::Message(text@),
        }
    }
}

/// What is remembered from one line of the stream to the next.
pub struct SseState {
    /// The type of the event that the lines belong to.
    pub event_type: Seq<char>,
    /// An endpoint has been announced.
    pub has_endpoint: bool,
}

/// The text that `String::from_utf8_lossy` makes of bytes that are no UTF-8.
pub uninterp spec fn lossy_utf8(bytes: Seq<u8>) -> Seq<char>;

/// The text of a line of the stream.
pub open spec fn line_text(bytes: Seq<u8>) -> Seq<char> {
    if vstd::utf8::valid_utf8(bytes) {
        vstd::utf8::decode_utf8(bytes)
    } else {
        lossy_utf8(bytes)
    }
}

/// `String::from_utf8_lossy`: it decodes bytes that are UTF-8, and what it makes of other bytes
/// depends on the bytes alone.
#[verifier::external_body]
fn from_utf8_lossy(bytes: &[u8]) -> (text: String)
    ensures
        vstd::utf8::valid_utf8(bytes@) ==> text@ == vstd::utf8::decode_utf8(bytes@),
        !vstd::utf8::valid_utf8(bytes@) ==> text@ == lossy_utf8(bytes@),
{
    String::from_utf8_lossy(bytes).into_owned()
}

/// What a line of the stream does, given as text without its line break.
pub open spec fn line_step(state: SseState, line: Seq<char>) -> (SseState, Seq<SseEventView>) {
    if line.len() == 0 {
        (SseState { event_type: Seq::empty(), ..state }, Seq::empty())
    } else if "event:"@.is_prefix_of(line) {
        (SseState { event_type: trimmed(line.skip("event:"@.len() as int)), ..state }, Seq::empty())
    } else if "data:"@.is_prefix_of(line) {
        let data = trimmed(line.skip("data:"@.len() as int));
        if state.event_type == "endpoint"@ {
            if state.has_endpoint {
                (state, Seq::empty())
            } else {
                (SseState { has_endpoint: true, ..state }, seq![SseEventView::Endpoint(data)])
            }
        } else if state.event_type == "message"@ || state.event_type.len() == 0 {
            (state, seq![SseEventView::Message(data)])
        } else {
            (state, Seq::empty())
        }
    } else {
        (state, Seq::empty())
    }
}

/// The length of the first line of the bytes, with its line feed; `None` where no line is complete.
pub open spec fn first_line(bytes: Seq<u8>) -> Option<int>
    decreases bytes.len(),
{
    if bytes.len() == 0 {
        None
    } else if bytes[0] == 10u8 {
        Some(1)
    } else {
        match first_line(bytes.drop_first()) {
            Some(n) => Some(n + 1),
            None => None,
        }
    }
}

/// What the complete lines of the bytes do one after the other: the state that they leave, the
/// events that they give, and the bytes of the last, incomplete line.
pub open spec fn lines_step(state: SseState, bytes: Seq<u8>) -> (SseState, Seq<SseEventView>, Seq<u8>)
    decreases bytes.len(),
{
    match first_line(bytes) {
        Some(n) => {
            let line = trim_breaks(line_text(bytes.take(n)));
            let (next, events) = line_step(state, line);
            if 0 < n <= bytes.len() {
                let (last, more, rest) = lines_step(next, bytes.skip(n));
                (last, events + more, rest)
            } else {
                (next, events, bytes)
            }
        },
        None => (state, Seq::empty(), bytes),
    }
}

/// The first line is as long as its first line feed says.
pub proof fn lemma_first_line(bytes: Seq<u8>)
    ensures
        match first_line(bytes) {
            Some(n) => 0 < n <= bytes.len() && bytes[n - 1] == 10u8 && forall|i: int|
                0 <= i < n - 1 ==> bytes[i] != 10u8,
            None => forall|i: int| 0 <= i < bytes.len() ==> bytes[i] != 10u8,
        },
    decreases bytes.len(),
{
    if bytes.len() > 0 && bytes[0] != 10u8 {
        let rest = bytes.drop_first();
        lemma_first_line(rest);
        match first_line(rest) {
            Some(n) => {
                assert(bytes[n] == rest[n - 1]);
                assert forall|i: int| 0 <= i < n implies bytes[i] != 10u8 by {
                    if i > 0 {
                        assert(bytes[i] == rest[i - 1]);
                    }
                }
            },
            None => {
                assert forall|i: int| 0 <= i < bytes.len() implies bytes[i] != 10u8 by {
                    if i > 0 {
                        assert(bytes[i] == rest[i - 1]);
                    }
                }
            },
        }
    }
}

/// A line feed with none before it ends the first line.
pub proof fn lemma_first_line_at(bytes: Seq<u8>, n: int)
    requires
        0 < n <= bytes.len(),
        bytes[n - 1] == 10u8,
        forall|i: int| 0 <= i < n - 1 ==> bytes[i] != 10u8,
    ensures
        first_line(bytes) == Some(n),
{
    lemma_first_line(bytes);
}

/// Reads a stream of server-sent events, chunk by chunk.
pub struct SseReader {
    buf: Vec<u8>,
    event_type: String,
    has_endpoint: bool,
}

/// The views of a list of events.
pub open spec fn events_of(events: Seq<SseEvent>) -> Seq<SseEventView> {
    Seq::new(events.len(), |i: int| events[i]@)
}

impl SseReader {
    /// What the reader remembers of the lines so far.
    pub closed spec fn state(self) -> SseState {
        SseState { event_type: self.event_type@, has_endpoint: self.has_endpoint }
    }

    /// The bytes of the line that is not complete yet.
    pub closed spec fn pending(self) -> Seq<u8> {
        self.buf@
    }

    /// A reader at the start of a stream.
    pub fn new() -> (reader: SseReader)
        ensures
            reader.state() == (SseState { event_type: Seq::empty(), has_endpoint: false }),
            reader.pending().len() == 0,
    {
        SseReader { buf: Vec::new(), event_type: String::new(), has_endpoint: false }
    }

    /// Takes a line, given as text without its line break.
    fn line(&mut self, line: &str) -> (event: Option<SseEvent>)
        ensures
            final(self).state() == line_step(old(self).state(), line@).0,
            match event {
                Some(event) => line_step(old(self).state(), line@).1 == seq![event@],
                None => line_step(old(self).state(), line@).1 == Seq::<SseEventView>::empty(),
            },
            final(self).pending() == old(self).pending(),
    {
        if line.is_empty() {
            self.event_type = String::new();
            return None;
        }
        match strip_prefix(line, "event:") {
            Some(rest) => {
                self.event_type = trim(rest.as_str());
                None
            },
            None => match strip_prefix(line, "data:") {
                Some(rest) => {
                    let data = trim(rest.as_str());
                    if same_text(self.event_type.as_str(), "endpoint") {
                        if self.has_endpoint {
                            None
                        } else {
                            self.has_endpoint = true;
                            Some(SseEvent::Endpoint(data))
                        }
                    } else if same_text(self.event_type.as_str(), "message") || self.event_type.as_str().is_empty() {
                        Some(SseEvent::Message(data))
                    } else {
                        None
                    }
                },
                None => None,
            },
        }
    }

    /// Takes the next bytes of the stream and gives the events that they complete.
    pub fn feed(&mut self, chunk: &[u8]) -> (events: Vec<SseEvent>)
        ensures
            (final(self).state(), events_of(events@), final(self).pending()) == lines_step(
                old(self).state(),
                old(self).pending() + chunk@,
            ),
    {
        let ghost before = self.state();
        let ghost bytes = self.buf@ + chunk@;
        let mut buf: Vec<u8> = Vec::new();
        std::mem::swap(&mut buf, &mut self.buf);
        let mut k: usize = 0;
        while k < chunk.len()
            invariant
                k <= chunk@.len(),
                buf@ == old(self).pending() + chunk@.take(k as int),
                self.state() == before,
            decreases chunk@.len() - k,
        {
            buf.push(chunk[k]);
            k += 1;
        }
        assert(buf@ =~= bytes);
        let mut events: Vec<SseEvent> = Vec::new();
        let mut line: Vec<u8> = Vec::new();
        let mut i: usize = 0;
        let ghost mut start: int = 0;
        proof {
            assert(bytes.skip(0) =~= bytes);
            let whole = lines_step(before, bytes);
            assert(events_of(events@) + whole.1 =~= whole.1);
        }
        while i < buf.len()
            invariant
                i <= buf@.len(),
                buf@ == bytes,
                0 <= start <= i,
                line@ == bytes.subrange(start, i as int),
                forall|j: int| start <= j < i ==> bytes[j] != 10u8,
                ({
                    let left = lines_step(self.state(), bytes.skip(start));
                    lines_step(before, bytes) == (left.0, events_of(events@) + left.1, left.2)
                }),
            decreases buf@.len() - i,
        {
            let byte = buf[i];
            line.push(byte);
            assert(line@ =~= bytes.subrange(start, i + 1));
            if byte == 10 {
                let text = from_utf8_lossy(line.as_slice());
                let ghost state = self.state();
                let ghost left = bytes.skip(start);
                let ghost earlier = events_of(events@);
                let event = self.line(trim_line(text.as_str()).as_str());
                proof {
                    let n = i + 1 - start;
                    assert forall|j: int| 0 <= j < n - 1 implies left[j] != 10u8 by {
                        assert(left[j] == bytes[start + j]);
                    }
                    lemma_first_line_at(left, n);
                    assert(left.take(n) =~= line@);
                    assert(left.skip(n) =~= bytes.skip(i + 1));
                }
                match event {
                    Some(event) => {
                        events.push(event);
                        assert(events_of(events@) =~= earlier + seq![event@]);
                    },
                    None => {
                        assert(events_of(events@) =~= earlier + Seq::<SseEventView>::empty());
                    },
                }
                proof {
                    let now = line_step(state, trim_breaks(line_text(line@)));
                    let later = lines_step(self.state(), bytes.skip(i + 1));
                    assert(events_of(events@) == earlier + now.1);
                    assert(earlier + (now.1 + later.1) =~= events_of(events@) + later.1);
                    start = i + 1;
                }
                line = Vec::new();
            }
            i += 1;
        }
        proof {
            let left = bytes.skip(start);
            lemma_first_line(left);
            match first_line(left) {
                Some(n) => {
                    assert(left[n - 1] == bytes[start + n - 1]);
                },
                None => {},
            }
            assert(left =~= line@);
            assert(events_of(events@) + Seq::<SseEventView>::empty() =~= events_of(events@));
        }
        self.buf = line;
        events
    }
}

/// Where a request goes: a URL stays as it is, anything else is a path on the server.
pub open spec fn target_of(base: Seq<char>, endpoint: Seq<char>) -> Seq<char> {
    if "http"@.is_prefix_of(endpoint) {
        endpoint
    } else {
        base + endpoint
    }
}

/// The error message for a response whose status is no success.
pub open spec fn status_message(what: Seq<char>, url: Seq<char>, status: Seq<char>) -> Seq<char> {
    what + " "@ + url + " returned "@ + status
}

/// Accepts a response whose status code is from 200 to 299.
fn check_status(what: &str, url: &str, code: u16, status: &str) -> (result: Result<(), Error>)
    ensures
        result is Ok <==> 200 <= code < 300,
        !(200 <= code < 300) ==> (result matches Err(Error::Protocol(message)) && message@ == status_message(
            what@,
            url@,
            status@,
        )),
{
    if 200 <= code && code < 300 {
        Ok(())
    } else {
        let mut message: String = join(what, " ");
        message.append(url);
        message.append(" returned ");
        message.append(status);
        Err(Error::Protocol(message))
    }
}

/// The sending side: where requests are posted.
#[derive(Debug)]
pub struct HttpSender {
    /// What the server announced in its `endpoint` event.
    pub endpoint: Option<String>,
    /// The scheme and the host of the stream of events.
    pub base_url: String,
}

impl HttpSender {
    /// The URL that a request is posted to.
    pub fn target(&self) -> (url: Result<String, Error>)
        ensures
            match self.endpoint {
                Some(endpoint) => url matches Ok(url) && url@ == target_of(self.base_url@, endpoint@),
                None => url matches Err(Error::NotInitialized),
            },
    {
        match &self.endpoint {
            Some(endpoint) => if starts_with(endpoint.as_str(), "http") {
                Ok(endpoint.clone())
            } else {
                Ok(join(self.base_url.as_str(), endpoint.as_str()))
            },
            None => Err(Error::NotInitialized),
        }
    }

    /// Looks at the response to a posted request: its status code, and the status as text.
    pub fn posted(url: &str, code: u16, status: &str) -> (result: Result<(), Error>)
        ensures
            result is Ok <==> 200 <= code < 300,
            !(200 <= code < 300) ==> (result matches Err(Error::Protocol(message)) && message@ == status_message(
                "POST"@,
                url@,
                status@,
            )),
    {
        check_status("POST", url, code, status)
    }
}

/// The receiving side.
pub struct HttpReceiver;

impl HttpReceiver {
    /// Looks at the response that opens the stream of events: its status code, and the status as
    /// text.
    pub fn opened(url: &str, code: u16, status: &str) -> (result: Result<(), Error>)
        ensures
            result is Ok <==> 200 <= code < 300,
            !(200 <= code < 300) ==> (result matches Err(Error::Protocol(message)) && message@ == status_message(
                "SSE GET"@,
                url@,
                status@,
            )),
    {
        check_status("SSE GET", url, code, status)
    }

    /// What a receiver returns for what came through its channel; nothing comes through any more
    /// once the stream has ended.
    pub fn recv<E>(item: Option<Result<String, E>>) -> (message: Result<Option<String>, E>)
        ensures
            message == match item {
                Some(Ok(text)) => Ok::<Option<String>, E>(Some(text)),
                Some(Err(error)) => Err::<Option<String>, E>(error),
                None => Ok::<Option<String>, E>(None),
            },
    {
        match item {
            Some(Ok(text)) => Ok(Some(text)),
            Some(Err(error)) => Err(error),
            None => Ok(None),
        }
    }
}

/// A connection over HTTP.
pub struct HttpTransport;

impl HttpTransport {
    /// The sender for a stream of events, once the stream has announced an endpoint; `None` stands
    /// for a stream that ended before it did.
    pub fn connect(sse_url: &str, endpoint: Option<String>) -> (sender: Result<HttpSender, Error>)
        ensures
            match endpoint {
                Some(endpoint) => sender matches Ok(sender) && sender.endpoint == Some(endpoint)
                    && sender.base_url@ == base_of(sse_url@),
                None => sender matches Err(Error::Protocol(message)) && message@
                    == "SSE connection closed before endpoint event"@,
            },
    {
        match endpoint {
            Some(endpoint) => Ok(HttpSender { endpoint: Some(endpoint), base_url: base_url(sse_url) }),
            None => Err(Error::Protocol("SSE connection closed before endpoint event".to_owned())),
        }
    }
}

/// The base of a URL is its own base.
pub proof fn law_base_of_base(url: Seq<char>)
    ensures
        base_of(base_of(url)) == base_of(url),
{
    reveal_strlit("http://");
    reveal_strlit("https://");
    if "http://"@.is_prefix_of(url) {
        let host = host_of(url.skip("http://"@.len() as int));
        lemma_host_of(url.skip("http://"@.len() as int));
        lemma_all_host(host);
        assert(base_of(url).skip("http://"@.len() as int) =~= host);
        assert("http://"@.is_prefix_of(base_of(url)));
    } else if "https://"@.is_prefix_of(url) {
        let host = host_of(url.skip("https://"@.len() as int));
        lemma_host_of(url.skip("https://"@.len() as int));
        lemma_all_host(host);
        assert(base_of(url).skip("https://"@.len() as int) =~= host);
        assert("https://"@.is_prefix_of(base_of(url)));
        assert(base_of(url)[4] == 's');
        assert("http://"@[4] == ':');
        assert(!"http://"@.is_prefix_of(base_of(url)));
    }
}

/// A URL starts with its base.
pub proof fn law_base_is_prefix(url: Seq<char>)
    ensures
        base_of(url).is_prefix_of(url),
{
    if "http://"@.is_prefix_of(url) {
        let rest = url.skip("http://"@.len() as int);
        lemma_host_of(rest);
        assert(base_of(url) =~= url.take(base_of(url).len() as int));
    } else if "https://"@.is_prefix_of(url) {
        let rest = url.skip("https://"@.len() as int);
        lemma_host_of(rest);
        assert(base_of(url) =~= url.take(base_of(url).len() as int));
    } else {
        assert(url =~= url.take(url.len() as int));
    }
}

/// It makes no difference how the bytes of a stream are cut into chunks: two chunks give the
/// events of the two put together, and leave the reader as those would.
pub proof fn law_chunks(state: SseState, first: Seq<u8>, second: Seq<u8>)
    ensures
        ({
            let (middle, events, rest) = lines_step(state, first);
            let (last, more, end) = lines_step(middle, rest + second);
            lines_step(state, first + second) == (last, events + more, end)
        }),
    decreases first.len(),
{
    lemma_first_line(first);
    match first_line(first) {
        Some(n) => {
            let whole = first + second;
            assert forall|i: int| 0 <= i < n - 1 implies whole[i] != 10u8 by {
                assert(whole[i] == first[i]);
            }
            lemma_first_line_at(whole, n);
            assert(whole.take(n) =~= first.take(n));
            assert(whole.skip(n) =~= first.skip(n) + second);
            let (next, events) = line_step(state, trim_breaks(line_text(first.take(n))));
            law_chunks(next, first.skip(n), second);
            let (middle, some, rest) = lines_step(next, first.skip(n));
            let (last, more, end) = lines_step(middle, rest + second);
            assert(events + (some + more) =~= (events + some) + more);
        },
        None => {
            let (last, more, end) = lines_step(state, first + second);
            assert(Seq::<SseEventView>::empty() + more =~= more);
        },
    }
}

/// A reader announces at most one endpoint: once it has announced one it never does again.
pub proof fn law_one_endpoint(state: SseState, bytes: Seq<u8>)
    ensures
        state.has_endpoint ==> lines_step(state, bytes).0.has_endpoint && forall|i: int|
            0 <= i < lines_step(state, bytes).1.len() ==> !(#[trigger] lines_step(state, bytes).1[i] is Endpoint),
        forall|i: int, j: int|
            0 <= i < j < lines_step(state, bytes).1.len() ==> !(#[trigger] lines_step(state, bytes).1[i] is Endpoint
                && #[trigger] lines_step(state, bytes).1[j] is Endpoint),
        !lines_step(state, bytes).0.has_endpoint ==> forall|i: int|
            0 <= i < lines_step(state, bytes).1.len() ==> !(#[trigger] lines_step(state, bytes).1[i] is Endpoint),
    decreases bytes.len(),
{
    lemma_first_line(bytes);
    match first_line(bytes) {
        Some(n) => {
            let (next, events) = line_step(state, trim_breaks(line_text(bytes.take(n))));
            law_one_endpoint(next, bytes.skip(n));
        },
        None => {},
    }
}

/// What is kept for the next chunk is the start of a line: it holds no complete line.
pub proof fn law_pending_is_no_line(state: SseState, bytes: Seq<u8>)
    ensures
        first_line(lines_step(state, bytes).2) is None,
    decreases bytes.len(),
{
    lemma_first_line(bytes);
    match first_line(bytes) {
        Some(n) => {
            let (next, events) = line_step(state, trim_breaks(line_text(bytes.take(n))));
            law_pending_is_no_line(next, bytes.skip(n));
        },
        None => {},
    }
}

/// A text without a line feed is encoded without a line feed.
proof fn lemma_encoded_line(text: Seq<char>)
    requires
        forall|i: int| 0 <= i < text.len() ==> #[trigger] text[i] != '\n',
    ensures
        forall|i: int| 0 <= i < encode_utf8(text).len() ==> #[trigger] encode_utf8(text)[i] != 10u8,
    decreases text.len(),
{
    if text.len() > 0 {
        let rest = text.drop_first();
        lemma_encoded_line(rest);
        let c = text[0] as u32;
        let head = encode_scalar(c);
        assert(text[0] != '\n');
        char_is_scalar(text[0]);
        char_u32_cast(text[0], c);
        assert(c != 10u32);
        lemma_encoded_scalar(c);
        let bytes = encode_utf8(text);
        assert forall|i: int| 0 <= i < bytes.len() implies #[trigger] bytes[i] != 10u8 by {
            if i < head.len() {
                assert(bytes[i] == head[i]);
            } else {
                assert(bytes[i] == encode_utf8(rest)[i - head.len()]);
            }
        }
    }
}

/// Only the line feed is encoded with the byte of a line feed.
proof fn lemma_encoded_scalar(c: u32)
    requires
        c != 10u32,
    ensures
        forall|i: int| 0 <= i < encode_scalar(c).len() ==> #[trigger] encode_scalar(c)[i] != 10u8,
{
    assert(c != 10u32 && c <= 0x7f ==> (c & 0x7F) as u8 != 10u8) by (bit_vector);
    assert(0xC0u8 | ((c >> 6) & 0x1F) as u8 != 10u8) by (bit_vector);
    assert(0xE0u8 | ((c >> 12) & 0x0F) as u8 != 10u8) by (bit_vector);
    assert(0xF0u8 | ((c >> 18) & 0x7) as u8 != 10u8) by (bit_vector);
    assert(0x80u8 | (c & 0x3F) as u8 != 10u8) by (bit_vector);
    assert(0x80u8 | ((c >> 6) & 0x3F) as u8 != 10u8) by (bit_vector);
    assert(0x80u8 | ((c >> 12) & 0x3F) as u8 != 10u8) by (bit_vector);
}

/// The encoding of two texts put together is that of the one and that of the other.
proof fn lemma_encode_append(a: Seq<char>, b: Seq<char>)
    ensures
        encode_utf8(a + b) == encode_utf8(a) + encode_utf8(b),
    decreases a.len(),
{
    if a.len() == 0 {
        assert(a + b =~= b);
        assert(encode_utf8(a) + encode_utf8(b) =~= encode_utf8(b));
    } else {
        lemma_encode_append(a.drop_first(), b);
        assert((a + b).drop_first() =~= a.drop_first() + b);
        assert(encode_scalar(a[0] as u32) + (encode_utf8(a.drop_first()) + encode_utf8(b)) =~= encode_utf8(a)
            + encode_utf8(b));
    }
}

/// A line that the server sends is taken as the text that it is, whatever follows it.
pub proof fn law_line_is_taken(state: SseState, text: Seq<char>, more: Seq<u8>)
    requires
        one_line(text),
    ensures
        ({
            let (next, events) = line_step(state, text);
            let (last, later, rest) = lines_step(next, more);
            lines_step(state, encode_utf8(text + seq!['\n']) + more) == (last, events + later, rest)
        }),
{
    let chars = text + seq!['\n'];
    let line = encode_utf8(chars);
    lemma_encode_append(text, seq!['\n']);
    lemma_encoded_line(text);
    assert(encode_utf8(seq!['\n']) =~= seq![10u8]) by {
        assert(seq!['\n'].drop_first() =~= Seq::empty());
        assert(10u32 & 0x7F == 10u32) by (bit_vector);
        reveal_with_fuel(encode_utf8, 2);
    }
    let whole = line + more;
    let n = line.len() as int;
    assert forall|i: int| 0 <= i < n - 1 implies whole[i] != 10u8 by {
        assert(whole[i] == encode_utf8(text)[i]);
    }
    lemma_first_line_at(whole, n);
    assert(whole.take(n) =~= line);
    assert(whole.skip(n) =~= more);
    encode_utf8_valid_utf8(chars);
    encode_utf8_decode_utf8(chars);
    assert(chars.drop_last() =~= text);
    assert(trim_breaks(chars) == text) by {
        reveal_with_fuel(trim_breaks, 2);
    }
}

/// A text without white space around it, on one line.
pub open spec fn bare_text(text: Seq<char>) -> bool {
    &&& text.len() > 0 ==> !whitespace(text[0]) && !whitespace(text.last())
    &&& forall|i: int| 0 <= i < text.len() ==> #[trigger] text[i] != '\n'
}

/// A line of a field and a bare text.
proof fn lemma_field_line(field: Seq<char>, text: Seq<char>)
    requires
        bare_text(text),
        forall|i: int| 0 <= i < field.len() ==> #[trigger] field[i] != '\n',
    ensures
        one_line(field + seq![' '] + text),
        field.is_prefix_of(field + seq![' '] + text),
        trimmed((field + seq![' '] + text).skip(field.len() as int)) == text,
{
    let line = field + seq![' '] + text;
    assert(line.last() == if text.len() > 0 { text.last() } else { ' ' });
    assert forall|i: int| 0 <= i < line.len() implies #[trigger] line[i] != '\n' by {
        if i < field.len() {
            assert(line[i] == field[i]);
        } else if i > field.len() {
            assert(line[i] == text[i - field.len() - 1]);
        }
    }
    assert(field =~= line.subrange(0, field.len() as int));
    let rest = line.skip(field.len() as int);
    assert(rest[0] == ' ');
    assert(rest.drop_first() =~= text);
    reveal_with_fuel(trim_start, 2);
}

/// A message that the server sends as a line of data arrives as it was sent, whatever follows it.
pub proof fn law_message_arrives(state: SseState, text: Seq<char>, more: Seq<u8>)
    requires
        bare_text(text),
        state.event_type == "message"@ || state.event_type.len() == 0,
    ensures
        ({
            let line = encode_utf8("data:"@ + seq![' '] + text + seq!['\n']);
            let (last, later, rest) = lines_step(state, more);
            lines_step(state, line + more) == (last, seq![SseEventView::Message(text)] + later, rest)
        }),
{
    reveal_strlit("data:");
    reveal_strlit("event:");
    reveal_strlit("endpoint");
    reveal_strlit("message");
    lemma_field_line("data:"@, text);
    let line = "data:"@ + seq![' '] + text;
    assert(line[0] == 'd');
    assert("event:"@[0] == 'e');
    assert("endpoint"@[0] == 'e');
    assert("message"@[0] == 'm');
    law_line_is_taken(state, line, more);
}

/// The first endpoint that the server announces arrives as it was sent, whatever follows it.
pub proof fn law_endpoint_arrives(state: SseState, url: Seq<char>, more: Seq<u8>)
    requires
        bare_text(url),
        !state.has_endpoint,
    ensures
        ({
            let event = encode_utf8("event:"@ + seq![' '] + "endpoint"@ + seq!['\n']);
            let data = encode_utf8("data:"@ + seq![' '] + url + seq!['\n']);
            let next = SseState { event_type: "endpoint"@, has_endpoint: true };
            let (last, later, rest) = lines_step(next, more);
            lines_step(state, event + (data + more)) == (last, seq![SseEventView::Endpoint(url)] + later, rest)
        }),
{
    reveal_strlit("data:");
    reveal_strlit("event:");
    reveal_strlit("endpoint");
    lemma_field_line("event:"@, "endpoint"@);
    lemma_field_line("data:"@, url);
    let data = "data:"@ + seq![' '] + url;
    let bytes = encode_utf8(data + seq!['\n']);
    assert(data[0] == 'd');
    assert("event:"@[0] == 'e');
    law_line_is_taken(state, "event:"@ + seq![' '] + "endpoint"@, bytes + more);
    let named = SseState { event_type: "endpoint"@, ..state };
    law_line_is_taken(named, data, more);
    let next = SseState { event_type: "endpoint"@, has_endpoint: true };
    let (last, later, rest) = lines_step(next, more);
    assert(Seq::<SseEventView>::empty() + (seq![SseEventView::Endpoint(url)] + later) =~= seq![
        SseEventView::Endpoint(url),
    ] + later);
}

} // verus!
