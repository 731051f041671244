//! Bootstrap of an onion service through a Tor daemon's control port.

pub mod address;
pub mod bootstrap;
pub mod command;
pub mod config;
pub mod error;
pub mod locator;
pub mod provisioner;
pub mod reply;
pub mod session;
pub mod supervisor;

use vstd::prelude::*;

verus! {

/// The text served at the greeting route of the embedding application.
pub open spec fn greeting() -> Seq<char> {
    "Hello World!"@
}

/// Returns the greeting served by the embedding application.
pub fn hello() -> (text: &'static str)
    ensures
        text@ == greeting(),
{
    "Hello World!"
}

} // verus!
