//! The standard streams of a local process: one message per line.
use crate::error::Error;
use crate::text::{join, one_line};
use vstd::prelude::*;

verus! {

/// The message in a line, without the line break that ends it; `None` where nothing was read,
/// which is the end of the stream.
pub open spec fn line_message(line: Seq<char>) -> Option<Seq<char>> {
    if line.len() == 0 {
        None
    } else if line.last() != '\n' {
        Some(line)
    } else if line.len() > 1 && line[line.len() - 2] == '\r' {
        Some(line.take(line.len() - 2))
    } else {
        Some(line.drop_last())
    }
}

/// The sending side.
pub struct StdioSender;

impl StdioSender {
    /// The line that is written for a message.
    pub fn send(json: &str) -> (line: String)
        ensures
            line@ == json@ + seq!['\n'],
    {
        proof {
            reveal_strlit("\n");
            assert("\n"@ =~= seq!['\n']);
        }
        join(json, "\n")
    }
}

/// The receiving side.
pub struct StdioReceiver;

impl StdioReceiver {
    /// The message in a line that was read; `None` at the end of the stream, where a read gives
    /// nothing.
    pub fn recv(line: &str) -> (message: Option<String>)
        ensures
            match message {
                Some(message) => line_message(line@) == Some(message@),
                None => line_message(line@) is None,
            },
    {
        let n: usize = line.unicode_len();
        if n == 0 {
            return None;
        }
        let mut end: usize = n;
        if line.get_char(n - 1) == '\n' {
            end = n - 1;
            if end > 0 && line.get_char(end - 1) == '\r' {
                end = end - 1;
            }
        }
        let message = line.substring_char(0, end);
        assert(Some(message@) == line_message(line@)) by {
            assert(line@.subrange(0, n as int) =~= line@);
            assert(line@.subrange(0, n - 1) =~= line@.drop_last());
        }
        Some(message.to_owned())
    }
}

/// A connection to a local process.
pub struct StdioTransport;

impl StdioTransport {
    /// Takes a stream of the process that was just started, called `name`.
    pub fn captured<T>(stream: Option<T>, name: &str) -> (result: Result<T, Error>)
        ensures
            match stream {
                Some(stream) => result == Ok::<T, Error>(stream),
                None => result matches Err(Error::Protocol(message)) && message@ == "failed to capture child "@ + name@,
            },
    {
        match stream {
            Some(stream) => Ok(stream),
            None => Err(Error::Protocol(join("failed to capture child ", name))),
        }
    }
}

/// A message on one line arrives as it was sent, and only its last character ends its line.
pub proof fn law_line_roundtrip(text: Seq<char>)
    requires
        one_line(text),
    ensures
        line_message(text + seq!['\n']) == Some(text),
        forall|i: int| 0 <= i < (text + seq!['\n']).len() - 1 ==> #[trigger] (text + seq!['\n'])[i] != '\n',
{
    assert((text + seq!['\n']).drop_last() =~= text);
}

} // verus!
