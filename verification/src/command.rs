//! The commands that a session sends to the daemon.

use vstd::prelude::*;
use crate::address::{HostAddress, SocketAddress};
use crate::config::OnionServiceKey;

verus! {

/// One entry of an onion service's port mapping: connections to the virtual
/// port of the service are handed to the target.
#[derive(Clone, Copy, Debug, PartialEq, Eq, Structural)]
pub struct PortMapping {
    pub virtual_port: u16,
    pub target: SocketAddress,
}

/// What is asked of the daemon when an onion service is created.
#[derive(Clone, PartialEq, Eq)]
pub struct OnionServiceRequest {
    pub key: OnionServiceKey,
    pub detach: bool,
    pub discard_private_key: bool,
    pub max_streams_close_circuit: bool,
    pub max_streams: Option<u16>,
    pub port_mapping: Vec<PortMapping>,
}

/// A request with its key and mapping as sequences.
pub struct OnionServiceRequestView {
    pub key: Seq<u8>,
    pub detach: bool,
    pub discard_private_key: bool,
    pub max_streams_close_circuit: bool,
    pub max_streams: Option<u16>,
    pub port_mapping: Seq<PortMapping>,
}

impl View for OnionServiceRequest {
    type V = OnionServiceRequestView;

    open spec fn view(&self) -> OnionServiceRequestView {
        OnionServiceRequestView {
            key: self.key@,
            detach: self.detach,
            discard_private_key: self.discard_private_key,
            max_streams_close_circuit: self.max_streams_close_circuit,
            max_streams: self.max_streams,
            port_mapping: self.port_mapping@,
        }
    }
}

/// A command of the control protocol.
#[derive(Clone, PartialEq, Eq)]
pub enum Command {
    /// Proves to the daemon that the controller knows the shared secret.
    Authenticate { secret: String },
    /// Creates an onion service.
    AddOnion(OnionServiceRequest),
    /// Asks for the value of a runtime variable of the daemon.
    GetInfo { key: String },
}

/// A command with its texts as sequences.
pub enum CommandView {
    Authenticate { secret: Seq<char> },
    AddOnion(OnionServiceRequestView),
    GetInfo { key: Seq<char> },
}

impl View for Command {
    type V = CommandView;

    open spec fn view(&self) -> CommandView {
        match self {
            Command::Authenticate { secret } => CommandView::Authenticate { secret: secret@ },
            Command::AddOnion(request) => CommandView::AddOnion(request@),
            Command::GetInfo { key } => CommandView::GetInfo { key: key@ },
        }
    }
}

/// A mapping is a set by its virtual ports: it has at least one entry, and
/// no virtual port twice.
pub open spec fn is_port_mapping(mapping: Seq<PortMapping>) -> bool {
    &&& mapping.len() >= 1
    &&& forall|i: int, j: int|
        0 <= i < j < mapping.len() ==> (#[trigger] mapping[i]).virtual_port != (
        #[trigger] mapping[j]).virtual_port
}

/// Whether the entries are a port mapping.
pub fn check_port_mapping(mapping: &Vec<PortMapping>) -> (ok: bool)
    ensures
        ok == is_port_mapping(mapping@),
{
    let n = mapping.len();
    if n == 0 {
        return false;
    }
    let mut j: usize = 1;
    while j < n
        invariant
            1 <= j <= n,
            n == mapping.len(),
            forall|a: int, b: int|
                0 <= a < b < j ==> (#[trigger] mapping@[a]).virtual_port != (
                #[trigger] mapping@[b]).virtual_port,
        decreases n - j,
    {
        let mut i: usize = 0;
        while i < j
            invariant
                i <= j < n,
                n == mapping.len(),
                forall|a: int| 0 <= a < i ==> (#[trigger] mapping@[a]).virtual_port != mapping@[j as int].virtual_port,
            decreases j - i,
        {
            if mapping[i].virtual_port == mapping[j].virtual_port {
                return false;
            }
            i += 1;
        }
        j += 1;
    }
    true
}

/// The address of a port on the local host, `127.0.0.1`.
pub open spec fn local_address(port: u16) -> SocketAddress {
    SocketAddress { host: HostAddress(127, 0, 0, 1), port }
}

/// The request with which the service is provisioned: the service outlives
/// the session, keeps its private key, has no limit on streams, and hands
/// connections to its one virtual port to the same port of the local host.
pub open spec fn service_request(key: Seq<u8>, listen_port: u16) -> OnionServiceRequestView {
    OnionServiceRequestView {
        key,
        detach: true,
        discard_private_key: false,
        max_streams_close_circuit: false,
        max_streams: None,
        port_mapping: seq![
            PortMapping { virtual_port: listen_port, target: local_address(listen_port) },
        ],
    }
}

/// The info key under which the daemon reports its SOCKS listeners.
pub open spec fn socks_listeners_key() -> Seq<char> {
    "net/listeners/socks"@
}

} // verus!
