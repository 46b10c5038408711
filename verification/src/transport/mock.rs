//! A connection within the process, for tests of what is built on a transport.
use crate::error::Error;
use std::collections::VecDeque;
use vstd::prelude::*;

verus! {

/// How many messages wait in one direction at most.
pub const MOCK_CAPACITY: usize = 64;

/// Both ends of a connection. Messages come out in the order in which they went in.
pub struct MockLink {
    to_server: VecDeque<String>,
    to_client: VecDeque<String>,
    open: bool,
}

/// The model of a [`MockLink`].
#[verifier::ext_equal]
pub struct MockLinkView {
    /// What the client has sent and the server has not read.
    pub to_server: Seq<String>,
    /// What the server has sent and the client has not read.
    pub to_client: Seq<String>,
    /// The server is still there.
    pub open: bool,
}

impl View for MockLink {
    type V = MockLinkView;

    closed spec fn view(&self) -> MockLinkView {
        MockLinkView { to_server: self.to_server@, to_client: self.to_client@, open: self.open }
    }
}

/// What the client finds when it reads.
pub enum MockRead {
    /// A message.
    Message(String),
    /// Nothing yet.
    Empty,
    /// The server is gone.
    Closed,
}

impl MockLink {
    /// A connection on which nothing was sent.
    pub fn new() -> (link: MockLink)
        ensures
            link@ == (MockLinkView { to_server: Seq::empty(), to_client: Seq::empty(), open: true }),
    {
        MockLink { to_server: VecDeque::new(), to_client: VecDeque::new(), open: true }
    }

    /// The client sends a message. The result is `false` where too many messages wait already.
    pub fn client_send(&mut self, message: String) -> (sent: Result<bool, Error>)
        ensures
            if !old(self)@.open {
                sent matches Err(Error::Closed) && final(self)@ == old(self)@
            } else if old(self)@.to_server.len() >= MOCK_CAPACITY {
                sent == Ok::<bool, Error>(false) && final(self)@ == old(self)@
            } else {
                sent == Ok::<bool, Error>(true) && final(self)@ == (MockLinkView {
                    to_server: old(self)@.to_server.push(message),
                    ..old(self)@
                })
            },
    {
        if !self.open {
            return Err(Error::Closed);
        }
        if self.to_server.len() >= MOCK_CAPACITY {
            return Ok(false);
        }
        self.to_server.push_back(message);
        Ok(true)
    }

    /// The client reads a message. What the server sent before it left can still be read.
    pub fn client_recv(&mut self) -> (read: MockRead)
        ensures
            if old(self)@.to_client.len() > 0 {
                read == MockRead::Message(old(self)@.to_client.first()) && final(self)@ == (MockLinkView {
                    to_client: old(self)@.to_client.drop_first(),
                    ..old(self)@
                })
            } else {
                final(self)@ == old(self)@ && read == if old(self)@.open {
                    MockRead::Empty
                } else {
                    MockRead::Closed
                }
            },
    {
        match self.to_client.pop_front() {
            Some(message) => MockRead::Message(message),
            None => if self.open {
                MockRead::Empty
            } else {
                MockRead::Closed
            },
        }
    }

    /// The server reads a message. A server that has left reads nothing.
    pub fn server_recv(&mut self) -> (message: Option<String>)
        ensures
            if old(self)@.open && old(self)@.to_server.len() > 0 {
                message == Some(old(self)@.to_server.first()) && final(self)@ == (MockLinkView {
                    to_server: old(self)@.to_server.drop_first(),
                    ..old(self)@
                })
            } else {
                message is None && final(self)@ == old(self)@
            },
    {
        if self.open {
            self.to_server.pop_front()
        } else {
            None
        }
    }

    /// The server sends a message. The result is `false` where it has left, or where too many
    /// messages wait already.
    pub fn server_send(&mut self, message: String) -> (sent: bool)
        ensures
            sent == (old(self)@.open && old(self)@.to_client.len() < MOCK_CAPACITY),
            final(self)@ == if sent {
                MockLinkView { to_client: old(self)@.to_client.push(message), ..old(self)@ }
            } else {
                old(self)@
            },
    {
        if !self.open || self.to_client.len() >= MOCK_CAPACITY {
            return false;
        }
        self.to_client.push_back(message);
        true
    }

    /// The server leaves.
    pub fn server_close(&mut self)
        ensures
            final(self)@ == (MockLinkView { open: false, ..old(self)@ }),
    {
        self.open = false;
    }
}

} // verus!
