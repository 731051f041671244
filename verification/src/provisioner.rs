//! Provisioning of the onion service over an authenticated session.
//!
//! The provisioner has the service created, then asks the daemon for its
//! SOCKS listener and reads the answer as a socket address. The first
//! failure ends it.

use vstd::prelude::*;
use crate::address::{parse_socket_address, text_address, HostAddress, SocketAddress};
use crate::command::{
    service_request, socks_listeners_key, Command, CommandView, PortMapping,
};
use crate::config::OnionServiceKey;
use crate::error::BootstrapError;
use crate::session::{
    after_response, after_send, outcome, refusal, Completion, CompletionView, ControlSession,
    Response, ResponseView, SessionView,
};

verus! {

/// How far the provisioning has come.
#[derive(Clone, Copy, Debug, PartialEq, Eq, Structural)]
pub enum Stage {
    /// The creation of the service is in flight.
    AddingService,
    /// The query for the SOCKS listener is in flight.
    QueryingProxy,
    /// The provisioning has ended, in success or in failure.
    Finished,
}

/// What the provisioning needs next, or what it has found.
#[derive(Clone, PartialEq, Eq)]
pub enum Progress {
    /// This command is to be sent, and its response brought back.
    Send(Command),
    /// The service exists, and this is the daemon's SOCKS listener.
    Ready(SocketAddress),
}

/// A progress with its command as a view.
pub enum ProgressView {
    Send(CommandView),
    Ready(SocketAddress),
}

impl View for Progress {
    type V = ProgressView;

    open spec fn view(&self) -> ProgressView {
        match self {
            Progress::Send(command) => ProgressView::Send(command@),
            Progress::Ready(address) => ProgressView::Ready(*address),
        }
    }
}

/// The provisioning of one onion service.
#[derive(Clone, Copy, Debug, PartialEq, Eq, Structural)]
pub struct Provisioner {
    pub stage: Stage,
}

/// The view of what `advance` returns.
pub open spec fn progress_view(r: Result<Progress, BootstrapError>) -> Result<
    ProgressView,
    BootstrapError,
> {
    match r {
        Ok(progress) => Ok(progress@),
        Err(error) => Err(error),
    }
}

/// The query for the daemon's SOCKS listener.
pub open spec fn proxy_query() -> CommandView {
    CommandView::GetInfo { key: socks_listeners_key() }
}

/// What a response leads to at a stage.
///
/// While the service is being created, its creation leads to the query for
/// the SOCKS listener. While that query is in flight, its value leads to
/// the address that the value denotes, and to a query error where it
/// denotes none. A failure of the session is passed on; a completion that
/// does not belong to the stage violates the protocol, and so does any
/// response after the end.
pub open spec fn advanced(stage: Stage, session: SessionView, response: ResponseView) -> Result<
    ProgressView,
    BootstrapError,
> {
    match stage {
        Stage::AddingService => match outcome(session, response) {
            Ok(CompletionView::ServiceAdded) => match refusal(
                after_response(session, response),
                proxy_query(),
            ) {
                None => Ok(ProgressView::Send(proxy_query())),
                Some(error) => Err(error),
            },
            Ok(_) => Err(BootstrapError::ProtocolViolation),
            Err(error) => Err(error),
        },
        Stage::QueryingProxy => match outcome(session, response) {
            Ok(CompletionView::Info(value)) => match text_address(value) {
                Some(address) => Ok(ProgressView::Ready(address)),
                None => Err(BootstrapError::Query),
            },
            Ok(_) => Err(BootstrapError::ProtocolViolation),
            Err(error) => Err(error),
        },
        Stage::Finished => Err(BootstrapError::ProtocolViolation),
    }
}

/// The stage after a response: the query follows the creation, and
/// everything else is the end.
pub open spec fn stage_after(stage: Stage, session: SessionView, response: ResponseView) -> Stage {
    if stage == Stage::AddingService && advanced(stage, session, response) is Ok {
        Stage::QueryingProxy
    } else {
        Stage::Finished
    }
}

/// The session after a response was handed to the provisioner: it has taken
/// the response, and waits for the answer to the query where one was sent.
/// After the end the provisioner leaves the session alone.
pub open spec fn session_after(stage: Stage, session: SessionView, response: ResponseView) -> SessionView {
    match stage {
        Stage::AddingService => if outcome(session, response) == Ok::<
            CompletionView,
            BootstrapError,
        >(CompletionView::ServiceAdded) {
            after_send(after_response(session, response), proxy_query())
        } else {
            after_response(session, response)
        },
        Stage::QueryingProxy => after_response(session, response),
        Stage::Finished => session,
    }
}

impl Provisioner {
    /// Starts the provisioning of the service of `key`, reached under
    /// `listen_port` and served by the same port of the local host. Where
    /// the session lets the creation through, the command to send comes back
    /// with the provisioner; a session that is not authenticated refuses.
    pub fn begin(session: &mut ControlSession, key: &OnionServiceKey, listen_port: u16) -> (r: Result<
        (Provisioner, Command),
        BootstrapError,
    >)
        ensures
            ({
                let command = CommandView::AddOnion(service_request(key@, listen_port));
                &&& final(session)@ == after_send(old(session)@, command)
                &&& match refusal(old(session)@, command) {
                    Some(error) => r == Err::<(Provisioner, Command), BootstrapError>(error),
                    None => r matches Ok(started) && started.0.stage == Stage::AddingService
                        && started.1@ == command,
                }
            }),
    {
        let mut mapping: Vec<PortMapping> = Vec::new();
        mapping.push(
            PortMapping {
                virtual_port: listen_port,
                target: SocketAddress { host: HostAddress(127, 0, 0, 1), port: listen_port },
            },
        );
        assert(mapping@ =~= service_request(key@, listen_port).port_mapping);
        match session.add_onion_service(key, true, false, false, None, mapping) {
            Ok(command) => Ok((Provisioner { stage: Stage::AddingService }, command)),
            Err(error) => Err(error),
        }
    }

    /// Takes the response to the command that the provisioning sent last.
    pub fn advance(&mut self, session: &mut ControlSession, response: Response) -> (r: Result<
        Progress,
        BootstrapError,
    >)
        ensures
            progress_view(r) == advanced(old(self).stage, old(session)@, response@),
            final(self).stage == stage_after(old(self).stage, old(session)@, response@),
            final(session)@ == session_after(old(self).stage, old(session)@, response@),
    {
        let stage = self.stage;
        self.stage = Stage::Finished;
        match stage {
            Stage::AddingService => match session.complete(response) {
                Ok(Completion::ServiceAdded) => match session.get_info("net/listeners/socks") {
                    Ok(command) => {
                        self.stage = Stage::QueryingProxy;
                        Ok(Progress::Send(command))
                    },
                    Err(error) => Err(error),
                },
                Ok(_) => Err(BootstrapError::ProtocolViolation),
                Err(error) => Err(error),
            },
            Stage::QueryingProxy => match session.complete(response) {
                Ok(Completion::Info(value)) => match parse_socket_address(value.as_slice()) {
                    Some(address) => Ok(Progress::Ready(address)),
                    None => Err(BootstrapError::Query),
                },
                Ok(_) => Err(BootstrapError::ProtocolViolation),
                Err(error) => Err(error),
            },
            Stage::Finished => Err(BootstrapError::ProtocolViolation),
        }
    }
}

} // verus!
