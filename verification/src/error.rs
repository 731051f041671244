//! The ways in which the bootstrap can fail.

use vstd::prelude::*;

verus! {

/// Why a step of the bootstrap failed. The first failure ends the bootstrap
/// and is what the caller sees.
#[derive(Clone, Copy, Debug, PartialEq, Eq, Structural)]
pub enum BootstrapError {
    /// The control port could not be reached, or the connection was lost.
    Connection,
    /// The daemon rejected the credential, or authentication was attempted
    /// out of turn.
    Auth,
    /// A command was attempted on a session that is not authenticated.
    PreAuthentication,
    /// The onion service was not created.
    Provision,
    /// An info query failed, or its answer could not be read.
    Query,
    /// The daemon did not start.
    ProcessLaunch,
    /// The control port announcement never appeared within the allowed attempts.
    DiscoveryTimeout,
    /// A command was issued while another was in flight, or a reply arrived
    /// that no command was waiting for.
    ProtocolViolation,
}

/// Why no configuration could be settled.
#[derive(Clone, Copy, Debug, PartialEq, Eq, Structural)]
pub enum ConfigError {
    /// Something is stored, but it cannot be read as a configuration. It is
    /// left as it is: no key is made and nothing is written over it.
    Unreadable,
}

} // verus!
