//! A minimal web-demo library: the message codec and connection state
//! machine behind a small HTTP/WebSocket server, with the user-record
//! builders its endpoints answer with. The server itself — routing, I/O,
//! the upgrade — lives outside; everything decided here is verified.

pub mod cities;
pub mod codec;
pub mod ext;
pub mod msg;
pub mod session;
pub mod users;

use vstd::prelude::*;

verus! {

/// The greeting served at the root route.
pub fn greeting() -> (r: &'static str)
    ensures
        r@ == "Hello, World!"@,
{
    "Hello, World!"
}

} // verus!
