//! The session with the daemon's control port.
//!
//! A session starts unauthenticated. Authentication is the only command that
//! it lets through in that state. Commands are answered in the order in
//! which they were sent, so a session lets one command through at a time
//! and takes the next response as the answer to it.
//!
//! The session decides; it does not talk. A command that it lets through is
//! handed back to the caller, who sends it and brings back the response.

use vstd::prelude::*;
use vstd::utf8::encode_utf8;
use crate::command::{
    check_port_mapping, is_port_mapping, Command, CommandView, OnionServiceRequest,
    OnionServiceRequestView, PortMapping,
};
use crate::config::OnionServiceKey;
use crate::error::BootstrapError;
use crate::reply::{
    info_value, line_views, read_info_value, reply_status, status_of, ReplyLine, ReplyLineView,
    STATUS_OK,
};

verus! {

/// How far a session has come.
#[derive(Clone, Copy, Debug, PartialEq, Eq, Structural)]
pub enum SessionState {
    Unauthenticated,
    Authenticated,
    /// Authenticated, with a handler for the daemon's events installed.
    EventSubscribed,
}

/// The command that a session waits to be answered.
#[derive(Clone, Debug, PartialEq, Eq)]
pub enum Pending {
    Authenticate,
    AddOnion,
    /// An info query for this key.
    GetInfo(String),
}

/// A pending command with its key as a sequence of characters.
pub enum PendingView {
    Authenticate,
    AddOnion,
    GetInfo(Seq<char>),
}

impl View for Pending {
    type V = PendingView;

    open spec fn view(&self) -> PendingView {
        match self {
            Pending::Authenticate => PendingView::Authenticate,
            Pending::AddOnion => PendingView::AddOnion,
            Pending::GetInfo(key) => PendingView::GetInfo(key@),
        }
    }
}

/// What came back after a command was sent.
#[derive(Clone, Debug, PartialEq, Eq)]
pub enum Response {
    /// The lines of a reply.
    Lines(Vec<ReplyLine>),
    /// Something that could not be read as a reply.
    Garbled,
    /// Nothing: the connection failed.
    Disconnected,
}

/// A response with its lines as a sequence of line views.
pub enum ResponseView {
    Lines(Seq<ReplyLineView>),
    Garbled,
    Disconnected,
}

impl View for Response {
    type V = ResponseView;

    open spec fn view(&self) -> ResponseView {
        match self {
            Response::Lines(lines) => ResponseView::Lines(line_views(lines@)),
            Response::Garbled => ResponseView::Garbled,
            Response::Disconnected => ResponseView::Disconnected,
        }
    }
}

/// What a command that was answered with success has brought.
#[derive(Clone, Debug, PartialEq, Eq)]
pub enum Completion {
    /// The session is authenticated.
    Authenticated,
    /// The onion service exists.
    ServiceAdded,
    /// The value of the variable that was asked for, without surrounding quotes.
    Info(Vec<u8>),
}

/// A completion with its value as a sequence of bytes.
pub enum CompletionView {
    Authenticated,
    ServiceAdded,
    Info(Seq<u8>),
}

impl View for Completion {
    type V = CompletionView;

    open spec fn view(&self) -> CompletionView {
        match self {
            Completion::Authenticated => CompletionView::Authenticated,
            Completion::ServiceAdded => CompletionView::ServiceAdded,
            Completion::Info(value) => CompletionView::Info(value@),
        }
    }
}

/// A session as contracts see it.
pub struct SessionView {
    pub state: SessionState,
    pub pending: Option<PendingView>,
}

/// The session with the control port of the daemon.
#[derive(Clone, Debug, PartialEq, Eq)]
pub struct ControlSession {
    state: SessionState,
    pending: Option<Pending>,
}

impl View for ControlSession {
    type V = SessionView;

    closed spec fn view(&self) -> SessionView {
        SessionView {
            state: self.state,
            pending: match self.pending {
                Some(pending) => Some(pending@),
                None => None,
            },
        }
    }
}

/// A session right after the connection was made.
pub open spec fn fresh_session() -> SessionView {
    SessionView { state: SessionState::Unauthenticated, pending: None }
}

/// What a session waits for once it has let a command through.
pub open spec fn pending_of(command: CommandView) -> PendingView {
    match command {
        CommandView::Authenticate { secret } => PendingView::Authenticate,
        CommandView::AddOnion(request) => PendingView::AddOnion,
        CommandView::GetInfo { key } => PendingView::GetInfo(key),
    }
}

/// Why a session does not let a command through, if it does not.
///
/// Authentication is let through once: by a session that is unauthenticated
/// and waits for nothing. Any other command is refused before
/// authentication has completed, whatever else holds; after that it is
/// refused while another command is in flight, and an onion service is
/// refused where its port mapping is none.
pub open spec fn refusal(session: SessionView, command: CommandView) -> Option<BootstrapError> {
    match command {
        CommandView::Authenticate { secret } => if session.state == SessionState::Unauthenticated
            && session.pending is None {
            None
        } else {
            Some(BootstrapError::Auth)
        },
        CommandView::AddOnion(request) => if session.state == SessionState::Unauthenticated {
            Some(BootstrapError::PreAuthentication)
        } else if session.pending is Some {
            Some(BootstrapError::ProtocolViolation)
        } else if !is_port_mapping(request.port_mapping) {
            Some(BootstrapError::Provision)
        } else {
            None
        },
        CommandView::GetInfo { key } => if session.state == SessionState::Unauthenticated {
            Some(BootstrapError::PreAuthentication)
        } else if session.pending is Some {
            Some(BootstrapError::ProtocolViolation)
        } else {
            None
        },
    }
}

/// The session after it was asked to send a command: unchanged where it
/// refused, waiting for the answer where it did not.
pub open spec fn after_send(session: SessionView, command: CommandView) -> SessionView {
    if refusal(session, command) is None {
        SessionView { state: session.state, pending: Some(pending_of(command)) }
    } else {
        session
    }
}

/// The error of a command that the daemon did not carry out.
pub open spec fn failure_of(pending: PendingView) -> BootstrapError {
    match pending {
        PendingView::Authenticate => BootstrapError::Auth,
        PendingView::AddOnion => BootstrapError::Provision,
        PendingView::GetInfo(key) => BootstrapError::Query,
    }
}

/// What a response means to a session.
///
/// A response that no command waits for violates the protocol. A lost
/// connection is a connection error. Anything but a full reply of status 250
/// is the failure of the command that was waiting. A full reply of status
/// 250 completes that command; an info query needs the reply to give a value
/// for its key as well.
pub open spec fn outcome(session: SessionView, response: ResponseView) -> Result<
    CompletionView,
    BootstrapError,
> {
    match session.pending {
        None => Err(BootstrapError::ProtocolViolation),
        Some(pending) => match response {
            ResponseView::Disconnected => Err(BootstrapError::Connection),
            ResponseView::Garbled => Err(failure_of(pending)),
            ResponseView::Lines(lines) => if reply_status(lines) == Some(STATUS_OK) {
                match pending {
                    PendingView::Authenticate => Ok(CompletionView::Authenticated),
                    PendingView::AddOnion => Ok(CompletionView::ServiceAdded),
                    PendingView::GetInfo(key) => match info_value(lines, encode_utf8(key)) {
                        Some(value) => Ok(CompletionView::Info(value)),
                        None => Err(BootstrapError::Query),
                    },
                }
            } else {
                Err(failure_of(pending))
            },
        },
    }
}

/// The session after a response: it waits for nothing, and it is
/// authenticated where the response completed an authentication. A response
/// that no command waited for leaves it as it was.
pub open spec fn after_response(session: SessionView, response: ResponseView) -> SessionView {
    SessionView {
        state: if outcome(session, response) == Ok::<CompletionView, BootstrapError>(
            CompletionView::Authenticated,
        ) {
            SessionState::Authenticated
        } else {
            session.state
        },
        pending: None,
    }
}

/// Whether a session takes a handler for the daemon's events: only once it
/// is authenticated.
pub open spec fn registration(session: SessionView) -> Result<(), BootstrapError> {
    if session.state == SessionState::Unauthenticated {
        Err(BootstrapError::PreAuthentication)
    } else {
        Ok(())
    }
}

/// The session after it was asked to take a handler: subscribed to events
/// where it took one, unchanged where it did not.
pub open spec fn after_registration(session: SessionView) -> SessionView {
    if session.state == SessionState::Unauthenticated {
        session
    } else {
        SessionView { state: SessionState::EventSubscribed, pending: session.pending }
    }
}

/// The view of what `complete` returns.
pub open spec fn completion_view(r: Result<Completion, BootstrapError>) -> Result<
    CompletionView,
    BootstrapError,
> {
    match r {
        Ok(completion) => Ok(completion@),
        Err(error) => Err(error),
    }
}

/// Before authentication has completed a session lets no command through
/// but authentication: it answers with the pre-authentication error, hands
/// nothing out to be sent, and stays as it is.
pub proof fn lemma_no_command_before_authentication(session: SessionView, command: CommandView)
    requires
        session.state == SessionState::Unauthenticated,
        !(command is Authenticate),
    ensures
        refusal(session, command) == Some(BootstrapError::PreAuthentication),
        after_send(session, command) == session,
{
}

/// An authentication that the daemon accepts makes a fresh session
/// authenticated, once: the session then refuses every further
/// authentication and stays as it is.
pub proof fn lemma_authentication_accepted(
    secret: Seq<char>,
    lines: Seq<ReplyLineView>,
    again: Seq<char>,
)
    requires
        reply_status(lines) == Some(STATUS_OK),
    ensures
        ({
            let command = CommandView::Authenticate { secret };
            let waiting = after_send(fresh_session(), command);
            let done = after_response(waiting, ResponseView::Lines(lines));
            &&& refusal(fresh_session(), command) is None
            &&& outcome(waiting, ResponseView::Lines(lines)) == Ok::<
                CompletionView,
                BootstrapError,
            >(CompletionView::Authenticated)
            &&& done == SessionView { state: SessionState::Authenticated, pending: None }
            &&& refusal(done, CommandView::Authenticate { secret: again }) == Some(
                BootstrapError::Auth,
            )
            &&& after_send(done, CommandView::Authenticate { secret: again }) == done
        }),
{
}

/// An authentication that the daemon does not accept, by a reply of another
/// status or by something that is no reply, fails with the authentication
/// error and leaves the session unauthenticated.
pub proof fn lemma_authentication_rejected(secret: Seq<char>, response: ResponseView)
    requires
        !(response is Disconnected),
        response matches ResponseView::Lines(lines) ==> reply_status(lines) != Some(STATUS_OK),
    ensures
        ({
            let waiting = after_send(fresh_session(), CommandView::Authenticate { secret });
            &&& outcome(waiting, response) == Err::<CompletionView, BootstrapError>(
                BootstrapError::Auth,
            )
            &&& after_response(waiting, response) == fresh_session()
        }),
{
}

/// A session changes its state in one way only: by a reply of status 250 to
/// an authentication in flight, which makes it authenticated. Letting a
/// command through changes no state.
pub proof fn lemma_state_changes_by_authentication(
    session: SessionView,
    command: CommandView,
    response: ResponseView,
)
    ensures
        after_send(session, command).state == session.state,
        after_response(session, response).state != session.state ==> {
            &&& session.pending == Some(PendingView::Authenticate)
            &&& response matches ResponseView::Lines(lines) && reply_status(lines) == Some(
                STATUS_OK,
            )
            &&& after_response(session, response).state == SessionState::Authenticated
        },
{
}

impl ControlSession {
    /// Opens a session over a connection attempt that has ended. Where the
    /// connection was established the session is fresh; where it was not,
    /// there is no session.
    pub fn connect(established: bool) -> (r: Result<ControlSession, BootstrapError>)
        ensures
            established ==> (r matches Ok(session) && session@ == fresh_session()),
            !established ==> r == Err::<ControlSession, BootstrapError>(BootstrapError::Connection),
    {
        if established {
            Ok(ControlSession { state: SessionState::Unauthenticated, pending: None })
        } else {
            Err(BootstrapError::Connection)
        }
    }

    /// How far the session has come.
    pub fn state(&self) -> (state: SessionState)
        ensures
            state == self@.state,
    {
        self.state
    }

    /// Whether a command is in flight.
    pub fn is_waiting(&self) -> (waiting: bool)
        ensures
            waiting == self@.pending is Some,
    {
        self.pending.is_some()
    }

    /// Asks the session to send a command. Where the session lets it through
    /// the command comes back, to be sent, and the session waits for its
    /// answer. Where it does not, the error says why, nothing is to be sent,
    /// and the session is as it was.
    pub fn send_command(&mut self, command: Command) -> (r: Result<Command, BootstrapError>)
        ensures
            final(self)@ == after_send(old(self)@, command@),
            match refusal(old(self)@, command@) {
                Some(error) => r == Err::<Command, BootstrapError>(error),
                None => r == Ok::<Command, BootstrapError>(command),
            },
    {
        match &command {
            Command::Authenticate { .. } => {
                if !matches!(self.state, SessionState::Unauthenticated) || self.pending.is_some() {
                    return Err(BootstrapError::Auth);
                }
                self.pending = Some(Pending::Authenticate);
            },
            Command::AddOnion(request) => {
                if matches!(self.state, SessionState::Unauthenticated) {
                    return Err(BootstrapError::PreAuthentication);
                }
                if self.pending.is_some() {
                    return Err(BootstrapError::ProtocolViolation);
                }
                if !check_port_mapping(&request.port_mapping) {
                    return Err(BootstrapError::Provision);
                }
                self.pending = Some(Pending::AddOnion);
            },
            Command::GetInfo { key } => {
                if matches!(self.state, SessionState::Unauthenticated) {
                    return Err(BootstrapError::PreAuthentication);
                }
                if self.pending.is_some() {
                    return Err(BootstrapError::ProtocolViolation);
                }
                self.pending = Some(Pending::GetInfo(key.clone()));
            },
        }
        Ok(command)
    }

    /// Asks the session to authenticate with a shared secret.
    pub fn authenticate(&mut self, secret: &str) -> (r: Result<Command, BootstrapError>)
        ensures
            final(self)@ == after_send(old(self)@, CommandView::Authenticate { secret: secret@ }),
            match refusal(old(self)@, CommandView::Authenticate { secret: secret@ }) {
                Some(error) => r == Err::<Command, BootstrapError>(error),
                None => r matches Ok(command) && command@ == (CommandView::Authenticate {
                    secret: secret@,
                }),
            },
    {
        self.send_command(Command::Authenticate { secret: String::from_str(secret) })
    }

    /// Asks the session to create an onion service.
    pub fn add_onion_service(
        &mut self,
        key: &OnionServiceKey,
        detach: bool,
        discard_private_key: bool,
        max_streams_close_circuit: bool,
        max_streams: Option<u16>,
        port_mapping: Vec<PortMapping>,
    ) -> (r: Result<Command, BootstrapError>)
        ensures
            ({
                let command = CommandView::AddOnion(
                    OnionServiceRequestView {
                        key: key@,
                        detach,
                        discard_private_key,
                        max_streams_close_circuit,
                        max_streams,
                        port_mapping: port_mapping@,
                    },
                );
                &&& final(self)@ == after_send(old(self)@, command)
                &&& match refusal(old(self)@, command) {
                    Some(error) => r == Err::<Command, BootstrapError>(error),
                    None => r matches Ok(sent) && sent@ == command,
                }
            }),
    {
        self.send_command(
            Command::AddOnion(
                OnionServiceRequest {
                    key: *key,
                    detach,
                    discard_private_key,
                    max_streams_close_circuit,
                    max_streams,
                    port_mapping,
                },
            ),
        )
    }

    /// Asks the session to query a runtime variable of the daemon.
    pub fn get_info(&mut self, key: &str) -> (r: Result<Command, BootstrapError>)
        ensures
            final(self)@ == after_send(old(self)@, CommandView::GetInfo { key: key@ }),
            match refusal(old(self)@, CommandView::GetInfo { key: key@ }) {
                Some(error) => r == Err::<Command, BootstrapError>(error),
                None => r matches Ok(command) && command@ == (CommandView::GetInfo { key: key@ }),
            },
    {
        self.send_command(Command::GetInfo { key: String::from_str(key) })
    }

    /// Notes that a handler for the daemon's events was installed. Only an
    /// authenticated session takes one; a session that is not stays as it is.
    pub fn register_event_handler(&mut self) -> (r: Result<(), BootstrapError>)
        ensures
            r == registration(old(self)@),
            final(self)@ == after_registration(old(self)@),
    {
        if matches!(self.state, SessionState::Unauthenticated) {
            return Err(BootstrapError::PreAuthentication);
        }
        self.state = SessionState::EventSubscribed;
        Ok(())
    }

    /// Takes the response to the command in flight.
    pub fn complete(&mut self, response: Response) -> (r: Result<Completion, BootstrapError>)
        ensures
            completion_view(r) == outcome(old(self)@, response@),
            final(self)@ == after_response(old(self)@, response@),
    {
        let pending = match self.pending.take() {
            None => {
                return Err(BootstrapError::ProtocolViolation);
            },
            Some(pending) => pending,
        };
        let failure = match &pending {
            Pending::Authenticate => BootstrapError::Auth,
            Pending::AddOnion => BootstrapError::Provision,
            Pending::GetInfo(_) => BootstrapError::Query,
        };
        let lines = match response {
            Response::Disconnected => {
                return Err(BootstrapError::Connection);
            },
            Response::Garbled => {
                return Err(failure);
            },
            Response::Lines(lines) => lines,
        };
        match status_of(&lines) {
            Some(status) => {
                if status != STATUS_OK {
                    return Err(failure);
                }
            },
            None => {
                return Err(failure);
            },
        }
        match pending {
            Pending::Authenticate => {
                self.state = SessionState::Authenticated;
                Ok(Completion::Authenticated)
            },
            Pending::AddOnion => Ok(Completion::ServiceAdded),
            Pending::GetInfo(key) => match read_info_value(&lines, key.as_str().as_bytes()) {
                Some(value) => Ok(Completion::Info(value)),
                None => Err(BootstrapError::Query),
            },
        }
    }
}

} // verus!
