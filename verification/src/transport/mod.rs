//! The transports: how messages travel, apart from the reading and the writing itself.
pub mod http;
pub mod mock;
pub mod stdio;

use crate::transport::mock::{MockLink, MockLinkView};
use vstd::prelude::*;

verus! {

/// A connection within the process.
pub fn connect_mock() -> (link: MockLink)
    ensures
        link@ == (MockLinkView { to_server: Seq::empty(), to_client: Seq::empty(), open: true }),
{
    MockLink::new()
}

} // verus!
