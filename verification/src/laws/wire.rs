//! How messages travel: pieces of text, lines, events and URLs, each in terms of what it is made of.
use crate::error::Error;
use crate::text::{
    chars_of, host_of, host_part, is_whitespace, join, lemma_host_of, same_text, starts_with, strip_prefix, trim,
    trim_breaks, trim_end, trim_line, trim_start, trimmed, whitespace,
};
use crate::transport::connect_mock;
use crate::transport::http::{
    base_url, events_of, first_line, law_chunks, law_line_is_taken, lemma_first_line, lemma_first_line_at, line_step,
    line_text, lines_step, lossy_utf8, HttpReceiver, HttpSender, HttpTransport, SseEvent, SseEventView, SseReader,
    SseState,
};
use crate::transport::mock::{MockLink, MockRead};
use crate::transport::stdio::{StdioReceiver, StdioSender, StdioTransport};
use vstd::prelude::*;
use vstd::utf8::encode_utf8;

verus! {

/// The characters of a text are those of the text, in order.
pub proof fn law_chars(text: &str, chars: Vec<char>)
    requires
        call_ensures(chars_of, (text,), chars),
    ensures
        chars@ == text@,
{
}

/// White space are the characters that Unicode calls so.
pub proof fn law_whitespace(c: char, white: bool)
    requires
        call_ensures(is_whitespace, (c,), white),
    ensures
        ({
            let n = c as u32;
            white == (9 <= n <= 13 || n == 32 || n == 0x85 || n == 0xa0 || n == 0x1680 || 0x2000 <= n <= 0x200a || n
                == 0x2028 || n == 0x2029 || n == 0x202f || n == 0x205f || n == 0x3000)
        }),
{
}

/// The first `n` characters are taken away from the start, and they are white space.
proof fn lemma_trim_start(text: Seq<char>) -> (n: int)
    ensures
        0 <= n <= text.len(),
        trim_start(text) == text.skip(n),
        forall|i: int| 0 <= i < n ==> whitespace(#[trigger] text[i]),
        n < text.len() ==> !whitespace(text[n]),
    decreases text.len(),
{
    if text.len() > 0 && whitespace(text[0]) {
        let rest = text.drop_first();
        let k = lemma_trim_start(rest);
        assert(rest.skip(k) =~= text.skip(k + 1));
        assert forall|i: int| 0 <= i < k + 1 implies whitespace(#[trigger] text[i]) by {
            if i > 0 {
                assert(rest[i - 1] == text[i]);
            }
        }
        if k < rest.len() {
            assert(rest[k] == text[k + 1]);
        }
        k + 1
    } else {
        assert(text.skip(0) =~= text);
        0
    }
}

/// The characters from `n` on are taken away from the end, and they are white space.
proof fn lemma_trim_end(text: Seq<char>) -> (n: int)
    ensures
        0 <= n <= text.len(),
        trim_end(text) == text.take(n),
        forall|i: int| n <= i < text.len() ==> whitespace(#[trigger] text[i]),
        n > 0 ==> !whitespace(text[n - 1]),
    decreases text.len(),
{
    if text.len() > 0 && whitespace(text.last()) {
        let rest = text.drop_last();
        let k = lemma_trim_end(rest);
        assert(rest.take(k) =~= text.take(k));
        assert forall|i: int| k <= i < text.len() implies whitespace(#[trigger] text[i]) by {
            if i < rest.len() {
                assert(rest[i] == text[i]);
            }
        }
        if k > 0 {
            assert(rest[k - 1] == text[k - 1]);
        }
        k
    } else {
        assert(text.take(text.len() as int) =~= text);
        text.len() as int
    }
}

/// All the characters are white space.
pub open spec fn is_blank(text: Seq<char>) -> bool {
    forall|i: int| 0 <= i < text.len() ==> whitespace(#[trigger] text[i])
}

/// The inner text is the whole one but for white space around it, and has none around it itself.
pub open spec fn is_trimmed(text: Seq<char>, inner: Seq<char>) -> bool {
    &&& exists|before: Seq<char>, after: Seq<char>|
        is_blank(before) && is_blank(after) && text == #[trigger] (before + inner + after)
    &&& inner.len() > 0 ==> !whitespace(inner[0]) && !whitespace(inner.last())
}

/// A trimmed text is the text but for the white space around it.
pub proof fn law_trimmed(text: Seq<char>)
    ensures
        is_trimmed(text, trimmed(text)),
{
    let n = lemma_trim_start(text);
    let rest = text.skip(n);
    let k = lemma_trim_end(rest);
    let before = text.take(n);
    let inner = rest.take(k);
    let after = rest.skip(k);
    assert forall|i: int| 0 <= i < before.len() implies whitespace(#[trigger] before[i]) by {
        assert(before[i] == text[i]);
    }
    assert forall|i: int| 0 <= i < after.len() implies whitespace(#[trigger] after[i]) by {
        assert(after[i] == rest[k + i]);
    }
    assert(text =~= before + inner + after);
    if inner.len() > 0 {
        assert(inner[0] == text[n]);
        assert(inner.last() == rest[k - 1]);
    }
}

/// Trimming takes away the white space around a text and nothing else.
pub proof fn law_trim(text: &str, inner: String)
    requires
        call_ensures(trim, (text,), inner),
    ensures
        is_trimmed(text@, inner@),
{
    law_trimmed(text@);
}

/// The line ends with nothing but line breaks after the inner text, which none ends.
pub open spec fn is_unbroken(line: Seq<char>, inner: Seq<char>) -> bool {
    &&& inner.len() <= line.len()
    &&& line.take(inner.len() as int) == inner
    &&& forall|i: int| inner.len() <= i < line.len() ==> #[trigger] line[i] == '\n' || line[i] == '\r'
    &&& inner.len() > 0 ==> inner.last() != '\n' && inner.last() != '\r'
}

/// A line without its breaks is the line but for the breaks that end it.
pub proof fn law_trim_breaks(line: Seq<char>)
    ensures
        is_unbroken(line, trim_breaks(line)),
    decreases line.len(),
{
    if line.len() > 0 && (line.last() == '\n' || line.last() == '\r') {
        let rest = line.drop_last();
        law_trim_breaks(rest);
        let inner = trim_breaks(rest);
        assert(line.take(inner.len() as int) =~= rest.take(inner.len() as int));
        assert forall|i: int| inner.len() <= i < line.len() implies #[trigger] line[i] == '\n' || line[i] == '\r' by {
            if i < rest.len() {
                assert(rest[i] == line[i]);
            }
        }
    } else {
        assert(line.take(line.len() as int) =~= line);
    }
}

/// Taking the line breaks away takes nothing else.
pub proof fn law_trim_line(line: &str, inner: String)
    requires
        call_ensures(trim_line, (line,), inner),
    ensures
        is_unbroken(line@, inner@),
{
    law_trim_breaks(line@);
}

/// A text starts with another one where it is that one and a rest.
pub proof fn law_starts_with(text: &str, prefix: &str, yes: bool)
    requires
        call_ensures(starts_with, (text, prefix), yes),
    ensures
        yes <==> exists|rest: Seq<char>| text@ == #[trigger] (prefix@ + rest),
{
    if prefix@.is_prefix_of(text@) {
        assert(text@ =~= prefix@ + text@.skip(prefix@.len() as int));
    }
    if exists|rest: Seq<char>| text@ == #[trigger] (prefix@ + rest) {
        let rest = choose|rest: Seq<char>| text@ == #[trigger] (prefix@ + rest);
        assert(prefix@ =~= text@.subrange(0, prefix@.len() as int));
    }
}

/// What is left of a text behind a prefix makes up the text with it.
pub proof fn law_strip_prefix(text: &str, prefix: &str, rest: Option<String>)
    requires
        call_ensures(strip_prefix, (text, prefix), rest),
    ensures
        match rest {
            Some(rest) => text@ == prefix@ + rest@,
            None => forall|rest: Seq<char>| text@ != #[trigger] (prefix@ + rest),
        },
{
    match rest {
        Some(rest) => {
            assert(text@ =~= prefix@ + rest@);
        },
        None => {
            assert forall|rest: Seq<char>| text@ != #[trigger] (prefix@ + rest) by {
                if text@ == prefix@ + rest {
                    assert(prefix@ =~= text@.subrange(0, prefix@.len() as int));
                }
            }
        },
    }
}

/// Two texts are put together one after the other.
pub proof fn law_join(a: &str, b: &str, text: String)
    requires
        call_ensures(join, (a, b), text),
    ensures
        text@.len() == a@.len() + b@.len(),
        forall|i: int| 0 <= i < a@.len() ==> #[trigger] text@[i] == a@[i],
        forall|i: int| 0 <= i < b@.len() ==> text@[a@.len() + i] == #[trigger] b@[i],
{
}

/// Texts are the same where their characters are.
pub proof fn law_same_text(a: &str, b: &str, same: bool)
    requires
        call_ensures(same_text, (a, b), same),
    ensures
        same <==> a@ == b@,
{
}

/// The character starts a path, a query or a fragment.
pub open spec fn ends_a_host(c: char) -> bool {
    c == '/' || c == '?' || c == '#'
}

/// The text is a host and what follows it: nothing, or a path, a query or a fragment.
pub open spec fn is_host_and(text: Seq<char>, host: Seq<char>, rest: Seq<char>) -> bool {
    &&& text == host + rest
    &&& forall|i: int| 0 <= i < host.len() ==> !ends_a_host(#[trigger] host[i])
    &&& rest.len() > 0 ==> ends_a_host(rest[0])
}

/// The host of a text is what stands before its path, its query or its fragment.
pub proof fn law_host(host: Seq<char>, rest: Seq<char>)
    requires
        is_host_and(host + rest, host, rest),
    ensures
        host_of(host + rest) == host,
    decreases host.len(),
{
    let text = host + rest;
    if host.len() == 0 {
        assert(text =~= rest);
        assert(host_of(text) =~= host);
    } else {
        assert(!ends_a_host(host[0]));
        assert(text[0] == host[0]);
        let fewer = host.drop_first();
        assert(text.drop_first() =~= fewer + rest);
        assert forall|i: int| 0 <= i < fewer.len() implies !ends_a_host(#[trigger] fewer[i]) by {
            assert(fewer[i] == host[i + 1]);
        }
        law_host(fewer, rest);
        assert(seq![host[0]] + fewer =~= host);
    }
}

/// The host part of a text is the one before its path, its query or its fragment.
pub proof fn law_host_part(text: &str, host: String)
    requires
        call_ensures(host_part, (text,), host),
    ensures
        exists|rest: Seq<char>| #[trigger] is_host_and(text@, host@, rest),
{
    lemma_host_of(text@);
    let n = host@.len() as int;
    let rest = text@.skip(n);
    assert(text@ =~= host@ + rest);
    lemma_after_host(text@);
    assert(is_host_and(text@, host@, rest));
}

/// What follows the host starts with a character that ends it.
proof fn lemma_after_host(text: Seq<char>)
    ensures
        host_of(text).len() < text.len() ==> ends_a_host(text[host_of(text).len() as int]),
    decreases text.len(),
{
    if text.len() > 0 && !ends_a_host(text[0]) {
        lemma_after_host(text.drop_first());
    }
}

/// The base of a URL is its scheme and its host with its port, and nothing of what follows; a text
/// of another scheme stays as it is.
pub proof fn law_base_url(url: &str, base: String)
    requires
        call_ensures(base_url, (url,), base),
    ensures
        forall|host: Seq<char>, rest: Seq<char>|
            url@ == "http://"@ + (host + rest) && #[trigger] is_host_and(host + rest, host, rest)
                ==> base@ == "http://"@
                + host,
        forall|host: Seq<char>, rest: Seq<char>|
            url@ == "https://"@ + (host + rest) && #[trigger] is_host_and(host + rest, host, rest) ==> base@
                == "https://"@ + host,
        (forall|rest: Seq<char>| url@ != #[trigger] ("http://"@ + rest)) && (forall|rest: Seq<char>|
            url@ != #[trigger] ("https://"@ + rest)) ==> base@ == url@,
{
    reveal_strlit("http://");
    reveal_strlit("https://");
    assert forall|host: Seq<char>, rest: Seq<char>|
        url@ == "http://"@ + (host + rest) && #[trigger] is_host_and(host + rest, host, rest) implies base@
        == "http://"@ + host by {
        assert("http://"@ =~= url@.subrange(0, "http://"@.len() as int));
        assert(url@.skip("http://"@.len() as int) =~= host + rest);
        law_host(host, rest);
    }
    assert forall|host: Seq<char>, rest: Seq<char>|
        url@ == "https://"@ + (host + rest) && #[trigger] is_host_and(host + rest, host, rest) implies base@
        == "https://"@ + host by {
        assert("https://"@ =~= url@.subrange(0, "https://"@.len() as int));
        assert(url@[4] == 's');
        assert("http://"@[4] == ':');
        assert(!"http://"@.is_prefix_of(url@));
        assert(url@.skip("https://"@.len() as int) =~= host + rest);
        law_host(host, rest);
    }
    if (forall|rest: Seq<char>| url@ != #[trigger] ("http://"@ + rest)) && (forall|rest: Seq<char>|
        url@ != #[trigger] ("https://"@ + rest)) {
        if "http://"@.is_prefix_of(url@) {
            assert(url@ =~= "http://"@ + url@.skip("http://"@.len() as int));
        }
        if "https://"@.is_prefix_of(url@) {
            assert(url@ =~= "https://"@ + url@.skip("https://"@.len() as int));
        }
    }
}

/// Requests go to the endpoint that the server announced: as it is where it starts with `http`, and
/// otherwise behind the base of the URL. Without an endpoint they go nowhere.
pub proof fn law_target(sender: HttpSender, url: Result<String, Error>)
    requires
        call_ensures(HttpSender::target, (&sender,), url),
    ensures
        match sender.endpoint {
            None => url == Err::<String, Error>(Error::NotInitialized),
            Some(endpoint) => url matches Ok(own) && {
                &&& (exists|rest: Seq<char>| endpoint@ == #[trigger] ("http"@ + rest)) ==> own@ == endpoint@
                &&& (forall|rest: Seq<char>| endpoint@ != #[trigger] ("http"@ + rest)) ==> own@ == sender.base_url@
                    + endpoint@
            },
        },
{
    if let Some(endpoint) = sender.endpoint {
        if exists|rest: Seq<char>| endpoint@ == #[trigger] ("http"@ + rest) {
            let rest = choose|rest: Seq<char>| endpoint@ == #[trigger] ("http"@ + rest);
            assert("http"@ =~= endpoint@.subrange(0, "http"@.len() as int));
        }
        if "http"@.is_prefix_of(endpoint@) {
            assert(endpoint@ =~= "http"@ + endpoint@.skip("http"@.len() as int));
        }
    }
}

/// A post succeeds with a status from 200 to 299, and with any other the error says what happened.
pub proof fn law_posted(url: &str, code: u16, status: &str, result: Result<(), Error>)
    requires
        call_ensures(HttpSender::posted, (url, code, status), result),
    ensures
        code / 100 == 2 <==> result is Ok,
        code / 100 != 2 ==> (result matches Err(Error::Protocol(message)) && message@ == "POST"@ + " "@ + url@
            + " returned "@ + status@),
{
}

/// A stream opens with a status from 200 to 299, and with any other the error says what happened.
pub proof fn law_opened(url: &str, code: u16, status: &str, result: Result<(), Error>)
    requires
        call_ensures(HttpReceiver::opened, (url, code, status), result),
    ensures
        code / 100 == 2 <==> result is Ok,
        code / 100 != 2 ==> (result matches Err(Error::Protocol(message)) && message@ == "SSE GET"@ + " "@ + url@
            + " returned "@ + status@),
{
}

/// What comes through the channel is received as it is, and the end of the channel is the end.
pub proof fn law_received<E>(item: Option<Result<String, E>>, message: Result<Option<String>, E>)
    requires
        call_ensures(HttpReceiver::recv::<E>, (item,), message),
    ensures
        item is None ==> message == Ok::<Option<String>, E>(None),
        item matches Some(Ok(text)) ==> message == Ok::<Option<String>, E>(Some(text)),
        item matches Some(Err(error)) ==> message == Err::<Option<String>, E>(error),
{
}

/// A sender keeps the endpoint that was announced and the base of the URL of the stream; without an
/// endpoint there is none.
pub proof fn law_connect(
    url: &str,
    endpoint: Option<String>,
    sender: Result<HttpSender, Error>,
    base: String,
)
    requires
        call_ensures(HttpTransport::connect, (url, endpoint), sender),
        call_ensures(base_url, (url,), base),
    ensures
        match endpoint {
            Some(own) => sender matches Ok(made) && made.endpoint == Some(own) && made.base_url@ == base@,
            None => sender matches Err(Error::Protocol(message)) && message@
                == "SSE connection closed before endpoint event"@,
        },
{
}

/// A message is sent as a line: the message and a line feed.
pub proof fn law_line_is_sent(json: &str, line: String)
    requires
        call_ensures(StdioSender::send, (json,), line),
    ensures
        line@ == json@.push('\n'),
{
    assert(json@ + seq!['\n'] =~= json@.push('\n'));
}

/// A line is received without the line feed that ends it, or the carriage return and the line feed;
/// everything else of it stays. Nothing at all is the end.
pub proof fn law_line_is_received(line: &str, message: Option<String>)
    requires
        call_ensures(StdioReceiver::recv, (line,), message),
    ensures
        message is None <==> line@.len() == 0,
        message matches Some(own) ==> {
            ||| line@ == own@ && line@.last() != '\n'
            ||| line@ == own@.push('\n') && !(own@.len() > 0 && own@.last() == '\r')
            ||| line@ == own@.push('\r').push('\n')
        },
{
    if let Some(own) = message {
        if line@.last() == '\n' {
            if line@.len() > 1 && line@[line@.len() - 2] == '\r' {
                assert(line@ =~= own@.push('\r').push('\n'));
            } else {
                assert(line@ =~= own@.push('\n'));
            }
        }
    }
}

/// A message without a line break at its end is received as it was sent.
pub proof fn law_line_there_and_back(json: &str, line: String, text: &str, message: Option<String>)
    requires
        call_ensures(StdioSender::send, (json,), line),
        text@ == line@,
        call_ensures(StdioReceiver::recv, (text,), message),
        json@.len() > 0 ==> json@.last() != '\r',
    ensures
        message matches Some(own) && own@ == json@,
{
    assert(line@ =~= json@.push('\n'));
    assert(line@.drop_last() =~= json@);
}

/// A stream of a process is taken where it is there; otherwise the error says which one is missing.
pub proof fn law_captured<T>(stream: Option<T>, name: &str, result: Result<T, Error>)
    requires
        call_ensures(StdioTransport::captured::<T>, (stream, name), result),
    ensures
        match stream {
            Some(own) => result == Ok::<T, Error>(own),
            None => result matches Err(Error::Protocol(message)) && message@ == "failed to capture child "@ + name@,
        },
{
}

/// A line of the stream does what it says. An empty line ends the event. `event:` names the type of
/// the event. `data:` gives the endpoint, the first time that the event is of that type, and a
/// message
/// where the event is of the type `message` or of none. All other lines do nothing.
pub open spec fn line_does(before: SseState, line: Seq<char>, after: SseState, events: Seq<SseEventView>) -> bool {
    if line.len() == 0 {
        events.len() == 0 && after.event_type.len() == 0 && after.has_endpoint == before.has_endpoint
    } else {
        &&& forall|rest: Seq<char>|
            line == #[trigger] ("event:"@ + rest) ==> events.len() == 0 && is_trimmed(rest, after.event_type)
                && after.has_endpoint == before.has_endpoint
        &&& forall|rest: Seq<char>|
            line == #[trigger] ("data:"@ + rest) ==> after.event_type == before.event_type && if before.event_type
                == "endpoint"@ && !before.has_endpoint {
                after.has_endpoint && events.len() == 1 && (events[0] matches SseEventView::Endpoint(url)
                    && is_trimmed(rest, url))
            } else if before.event_type == "message"@ || before.event_type.len() == 0 {
                after.has_endpoint == before.has_endpoint && events.len() == 1 && (
                events[0] matches SseEventView::Message(text) && is_trimmed(rest, text))
            } else {
                after.has_endpoint == before.has_endpoint && events.len() == 0
            }
        &&& (forall|rest: Seq<char>| line != #[trigger] ("event:"@ + rest)) && (forall|rest: Seq<char>|
            line != #[trigger] ("data:"@ + rest)) ==> events.len() == 0 && after == before
    }
}

/// Every line of the stream does what it says.
pub proof fn law_line(state: SseState, line: Seq<char>)
    ensures
        line_does(state, line, line_step(state, line).0, line_step(state, line).1),
{
    reveal_strlit("event:");
    reveal_strlit("data:");
    reveal_strlit("endpoint");
    reveal_strlit("message");
    let (after, events) = line_step(state, line);
    assert("event:"@[0] == 'e');
    assert("data:"@[0] == 'd');
    assert("endpoint"@[0] == 'e');
    assert("message"@[0] == 'm');
    assert forall|rest: Seq<char>| line == #[trigger] ("event:"@ + rest) implies events.len() == 0 && is_trimmed(
        rest,
        after.event_type,
    ) && after.has_endpoint == state.has_endpoint by {
        assert("event:"@ =~= line.subrange(0, "event:"@.len() as int));
        assert(line.skip("event:"@.len() as int) =~= rest);
        law_trimmed(rest);
    }
    assert forall|rest: Seq<char>| line == #[trigger] ("data:"@ + rest) implies after.event_type == state.event_type
        && if state.event_type == "endpoint"@ && !state.has_endpoint {
        after.has_endpoint && events.len() == 1 && (events[0] matches SseEventView::Endpoint(url) && is_trimmed(
            rest,
            url,
        ))
    } else if state.event_type == "message"@ || state.event_type.len() == 0 {
        after.has_endpoint == state.has_endpoint && events.len() == 1 && (
        events[0] matches SseEventView::Message(text) && is_trimmed(rest, text))
    } else {
        after.has_endpoint == state.has_endpoint && events.len() == 0
    } by {
        assert("data:"@ =~= line.subrange(0, "data:"@.len() as int));
        assert(line[0] == 'd');
        assert(!"event:"@.is_prefix_of(line));
        assert(line.skip("data:"@.len() as int) =~= rest);
        law_trimmed(rest);
    }
    if line.len() > 0 && (forall|rest: Seq<char>| line != #[trigger] ("event:"@ + rest)) && (forall|rest: Seq<char>|
        line != #[trigger] ("data:"@ + rest)) {
        if "event:"@.is_prefix_of(line) {
            assert(line =~= "event:"@ + line.skip("event:"@.len() as int));
        }
        if "data:"@.is_prefix_of(line) {
            assert(line =~= "data:"@ + line.skip("data:"@.len() as int));
        }
    }
}

/// The events are these: endpoints as endpoints, messages as messages, each with its text.
pub open spec fn are_events(events: Seq<SseEvent>, told: Seq<SseEventView>) -> bool {
    &&& events.len() == told.len()
    &&& forall|i: int|
        0 <= i < events.len() ==> match #[trigger] events[i] {
            SseEvent::Endpoint(url) => told[i] == SseEventView::Endpoint(url@),
            SseEvent::Message(text) => told[i] == SseEventView::Message(text@),
        }
}

/// Events that the contracts allow are these.
proof fn lemma_are_events(events: Seq<SseEvent>)
    ensures
        are_events(events, events_of(events)),
{
    assert forall|i: int| 0 <= i < events.len() implies match #[trigger] events[i] {
        SseEvent::Endpoint(url) => events_of(events)[i] == SseEventView::Endpoint(url@),
        SseEvent::Message(text) => events_of(events)[i] == SseEventView::Message(text@),
    } by {
        assert(events_of(events)[i] == events[i]@);
    }
}

/// A reader starts without an event, an endpoint or a part of a line.
pub proof fn law_new_reader(reader: SseReader)
    requires
        call_ensures(SseReader::new, (), reader),
    ensures
        reader.state().event_type.len() == 0,
        !reader.state().has_endpoint,
        reader.pending().len() == 0,
{
}

/// A reader that is fed a line does what the line says, and keeps nothing of it.
pub proof fn law_line_is_fed(text: Seq<char>, chunk: &[u8])
    requires
        crate::text::one_line(text),
        chunk@ == encode_utf8(text + seq!['\n']),
    ensures
        forall|reader: &mut SseReader, events: Vec<SseEvent>| #[trigger]
            call_ensures(SseReader::feed, (reader, chunk), events) && reader.pending().len() == 0
                ==> final(reader).pending().len() == 0 && exists|told: Seq<SseEventView>| #[trigger]
                are_events(events@, told) && line_does(reader.state(), text, final(reader).state(), told),
{
    assert forall|reader: &mut SseReader, events: Vec<SseEvent>| #[trigger]
        call_ensures(SseReader::feed, (reader, chunk), events) && reader.pending().len() == 0
            implies final(reader).pending().len() == 0 && exists|told: Seq<SseEventView>| #[trigger]
        are_events(events@, told) && line_does(reader.state(), text, final(reader).state(), told) by {
        let none = Seq::<u8>::empty();
        assert(reader.pending() + chunk@ =~= chunk@ + none);
        law_line_is_taken(reader.state(), text, none);
        law_line(reader.state(), text);
        let (next, given) = line_step(reader.state(), text);
        assert(first_line(none) is None);
        assert(given + Seq::<SseEventView>::empty() =~= given);
        lemma_are_events(events@);
        assert(are_events(events@, given));
    }
}

/// The text of the bytes of a line: what they encode, or what the decoder makes of bytes that are
/// no
/// text.
pub open spec fn text_of_bytes(bytes: Seq<u8>) -> Seq<char> {
    if vstd::utf8::valid_utf8(bytes) {
        vstd::utf8::decode_utf8(bytes)
    } else {
        lossy_utf8(bytes)
    }
}

/// The line does this once the line breaks that end it are taken away.
pub open spec fn broken_line_does(
    before: SseState,
    line: Seq<char>,
    inner: Seq<char>,
    after: SseState,
    events: Seq<SseEventView>,
) -> bool {
    is_unbroken(line, inner) && line_does(before, inner, after, events)
}

/// Whatever the bytes of a line are, and however many chunks they came in: once its line feed
/// comes,
/// the reader does what the line says, without the line breaks that end it, and keeps nothing of
/// it.
pub proof fn law_any_line_is_fed(line: Seq<u8>, chunk: &[u8])
    requires
        forall|i: int| 0 <= i < line.len() ==> #[trigger] line[i] != 10u8,
    ensures
        forall|reader: &mut SseReader, events: Vec<SseEvent>| #[trigger]
            call_ensures(SseReader::feed, (reader, chunk), events) && reader.pending() + chunk@ == line.push(10u8)
                ==> final(reader).pending().len() == 0 && exists|inner: Seq<char>, told: Seq<SseEventView>|
                are_events(events@, told) && #[trigger] broken_line_does(
                    reader.state(),
                    text_of_bytes(line.push(10u8)),
                    inner,
                    final(reader).state(),
                    told,
                ),
{
    assert forall|reader: &mut SseReader, events: Vec<SseEvent>| #[trigger]
        call_ensures(SseReader::feed, (reader, chunk), events) && reader.pending() + chunk@ == line.push(
            10u8,
        ) implies final(reader).pending().len() == 0 && exists|inner: Seq<char>, told: Seq<SseEventView>|
        are_events(events@, told) && #[trigger] broken_line_does(
            reader.state(),
            text_of_bytes(line.push(10u8)),
            inner,
            final(reader).state(),
            told,
        ) by {
        let bytes = line.push(10u8);
        let n = bytes.len() as int;
        assert forall|i: int| 0 <= i < n - 1 implies bytes[i] != 10u8 by {
            assert(bytes[i] == line[i]);
        }
        lemma_first_line_at(bytes, n);
        assert(bytes.take(n) =~= bytes);
        let none = Seq::<u8>::empty();
        assert(bytes.skip(n) =~= none);
        let inner = trim_breaks(text_of_bytes(bytes));
        law_trim_breaks(text_of_bytes(bytes));
        law_line(reader.state(), inner);
        let (next, given) = line_step(reader.state(), inner);
        assert(first_line(none) is None);
        assert(given + Seq::<SseEventView>::empty() =~= given);
        assert(line_text(bytes) == text_of_bytes(bytes));
        assert(lines_step(next, none) == (next, Seq::<SseEventView>::empty(), none));
        assert(lines_step(reader.state(), bytes) == (next, given + Seq::<SseEventView>::empty(), none));
        lemma_are_events(events@);
        assert(are_events(events@, given));
        assert(broken_line_does(reader.state(), text_of_bytes(bytes), inner, final(reader).state(), given));
    }
}

/// A reader that is fed bytes without a line feed keeps them and gives nothing.
pub proof fn law_part_is_kept(chunk: &[u8])
    requires
        forall|i: int| 0 <= i < chunk@.len() ==> #[trigger] chunk@[i] != 10u8,
    ensures
        forall|reader: &mut SseReader, events: Vec<SseEvent>| #[trigger]
            call_ensures(SseReader::feed, (reader, chunk), events) && first_line(reader.pending()) is None
                ==> events@.len() == 0 && final(reader).state() == reader.state() && final(reader).pending()
                == reader.pending() + chunk@,
{
    assert forall|reader: &mut SseReader, events: Vec<SseEvent>| #[trigger]
        call_ensures(SseReader::feed, (reader, chunk), events) && first_line(reader.pending()) is None
            implies events@.len()
        == 0 && final(reader).state() == reader.state() && final(reader).pending() == reader.pending() + chunk@ by {
        lemma_first_line(reader.pending());
        let whole = reader.pending() + chunk@;
        lemma_first_line(whole);
        if let Some(n) = first_line(whole) {
            if n - 1 < reader.pending().len() {
                assert(whole[n - 1] == reader.pending()[n - 1]);
            } else {
                assert(whole[n - 1] == chunk@[n - 1 - reader.pending().len()]);
            }
        }
        assert(events_of(events@).len() == events@.len());
    }
}

/// It makes no difference how a stream is cut: a reader that is fed two chunks gives the events
/// that
/// one that is fed both at once gives, and is left the same.
pub proof fn law_feeds(first: &[u8], second: &[u8], both: &[u8])
    requires
        both@ == first@ + second@,
    ensures
        forall|
            one: &mut SseReader,
            two: &mut SseReader,
            other: &mut SseReader,
            events: Vec<SseEvent>,
            more: Vec<SseEvent>,
            all: Vec<SseEvent>,
        |
            #[trigger] call_ensures(SseReader::feed, (one, first), events) && #[trigger] call_ensures(
                SseReader::feed,
                (two, second),
                more,
            ) && #[trigger] call_ensures(SseReader::feed, (other, both), all) && two.state() == final(one).state()
                && two.pending() == final(one).pending() && other.state() == one.state() && other.pending()
                == one.pending()
                    ==> final(other).state() == final(two).state()
                        && final(other).pending() == final(two).pending()
                            && all@.len() == events@.len() + more@.len() && (forall|i: int|
                0 <= i < events@.len() ==> (#[trigger] events@[i])@ == all@[i]@) && (forall|i: int|
                0 <= i < more@.len() ==> (#[trigger] more@[i])@ == all@[events@.len() + i]@),
{
    assert forall|
        one: &mut SseReader,
        two: &mut SseReader,
        other: &mut SseReader,
        events: Vec<SseEvent>,
        more: Vec<SseEvent>,
        all: Vec<SseEvent>,
    |
        #[trigger] call_ensures(SseReader::feed, (one, first), events) && #[trigger] call_ensures(
            SseReader::feed,
            (two, second),
            more,
        ) && #[trigger] call_ensures(SseReader::feed, (other, both), all) && two.state() == final(one).state()
            && two.pending() == final(one).pending() && other.state() == one.state() && other.pending()
            == one.pending()
                implies final(other).state() == final(two).state()
                    && final(other).pending() == final(two).pending()
                        && all@.len() == events@.len() + more@.len() && (forall|i: int|
        0 <= i < events@.len() ==> (#[trigger] events@[i])@ == all@[i]@) && (forall|i: int|
        0 <= i < more@.len() ==> (#[trigger] more@[i])@ == all@[events@.len() + i]@) by {
        let start = one.pending() + first@;
        law_chunks(one.state(), start, second@);
        assert(other.pending() + both@ =~= start + second@);
        let a = events_of(events@);
        let b = events_of(more@);
        let c = events_of(all@);
        assert(c == a + b);
        assert(c.len() == all@.len() && a.len() == events@.len() && b.len() == more@.len());
        assert forall|i: int| 0 <= i < events@.len() implies (#[trigger] events@[i])@ == all@[i]@ by {
            assert(c[i] == a[i]);
        }
        assert forall|i: int| 0 <= i < more@.len() implies (#[trigger] more@[i])@ == all@[events@.len() + i]@ by {
            assert(c[a.len() + i] == b[i]);
        }
    }
}

/// A link within the process starts open and with nothing on it.
pub proof fn law_new_link(link: MockLink)
    requires
        call_ensures(connect_mock, (), link),
    ensures
        link@.open,
        link@.to_server.len() == 0,
        link@.to_client.len() == 0,
{
}

/// What the client sends waits behind what it has sent before, as long as the server is there and
/// there is room. Nothing else changes.
pub proof fn law_client_sends(message: String)
    ensures
        forall|link: &mut MockLink, sent: Result<bool, Error>| #[trigger]
            call_ensures(MockLink::client_send, (link, message), sent) ==> {
                &&& final(link)@.to_client == link@.to_client
                &&& final(link)@.open == link@.open
                &&& !link@.open ==> sent == Err::<bool, Error>(Error::Closed) && final(link)@.to_server
                    == link@.to_server
                &&& link@.open && link@.to_server.len() >= 64
                    ==> sent == Ok::<bool, Error>(false) && final(link)@.to_server == link@.to_server
                &&& link@.open && link@.to_server.len() < 64
                    ==> sent == Ok::<bool, Error>(true) && final(link)@.to_server == link@.to_server.push(message)
            },
{
}

/// The server reads what has waited longest. Nothing else changes.
pub proof fn law_server_reads()
    ensures
        forall|link: &mut MockLink, message: Option<String>| #[trigger]
            call_ensures(MockLink::server_recv, (link,), message) ==> {
                &&& final(link)@.to_client == link@.to_client
                &&& final(link)@.open == link@.open
                &&& link@.open && link@.to_server.len() > 0
                    ==> message == Some(link@.to_server[0]) && final(link)@.to_server == link@.to_server.skip(1)
                &&& !link@.open || link@.to_server.len() == 0 ==> message is None && final(link)@.to_server
                    == link@.to_server
            },
{
    assert forall|link: &mut MockLink, message: Option<String>| #[trigger]
        call_ensures(MockLink::server_recv, (link,), message) && link@.open && link@.to_server.len() > 0
            implies final(link)@.to_server == link@.to_server.skip(1) by {
        assert(link@.to_server.drop_first() =~= link@.to_server.skip(1));
    }
}

/// What the server sends waits behind what it has sent before, as long as it is there and there is
/// room. Nothing else changes.
pub proof fn law_server_sends(message: String)
    ensures
        forall|link: &mut MockLink, sent: bool| #[trigger]
            call_ensures(MockLink::server_send, (link, message), sent) ==> {
                &&& final(link)@.to_server == link@.to_server
                &&& final(link)@.open == link@.open
                &&& sent <==> link@.open && link@.to_client.len() < 64
                &&& sent ==> final(link)@.to_client == link@.to_client.push(message)
                &&& !sent ==> final(link)@.to_client == link@.to_client
            },
{
}

/// The client reads what has waited longest, also once the server has left; then it finds that the
/// server is gone, or nothing yet. Nothing else changes.
pub proof fn law_client_reads()
    ensures
        forall|link: &mut MockLink, read: MockRead| #[trigger]
            call_ensures(MockLink::client_recv, (link,), read) ==> {
                &&& final(link)@.to_server == link@.to_server
                &&& final(link)@.open == link@.open
                &&& link@.to_client.len() > 0
                    ==> read == MockRead::Message(link@.to_client[0])
                        && final(link)@.to_client == link@.to_client.skip(1)
                &&& link@.to_client.len() == 0 ==> final(link)@.to_client == link@.to_client && (link@.open
                    <==> read is Empty) && (!link@.open <==> read is Closed)
            },
{
    assert forall|link: &mut MockLink, read: MockRead| #[trigger]
        call_ensures(MockLink::client_recv, (link,), read) && link@.to_client.len() > 0 implies final(link)@.to_client
        == link@.to_client.skip(1) by {
        assert(link@.to_client.drop_first() =~= link@.to_client.skip(1));
    }
}

/// A server that leaves closes the link and takes nothing off it.
pub proof fn law_server_leaves()
    ensures
        forall|link: &mut MockLink, out: ()| #[trigger]
            call_ensures(MockLink::server_close, (link,), out) ==> !final(link)@.open && final(link)@.to_client
                == link@.to_client && final(link)@.to_server == link@.to_server,
{
}

} // verus!
