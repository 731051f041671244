//! The bootstrap as a whole: launch the daemon, find its control port,
//! connect, authenticate, provision the onion service, and learn the SOCKS
//! listener.
//!
//! The bootstrap is a state machine. It says what to do next; the caller
//! does it and reports what happened. The first failure ends the bootstrap,
//! and nothing that was done before it is undone.

use vstd::prelude::*;
use vstd::utf8::encode_utf8;
use crate::address::{address_text, text_address, SocketAddress};
use crate::command::{service_request, socks_listeners_key, Command, CommandView};
use crate::config::ServiceConfig;
use crate::error::BootstrapError;
use crate::locator::{
    after_reading, announcement_path, announcement_token, is_whitespace,
    lemma_announcement_gives_address, observed, Locator, Poll, POLL_INTERVAL_MILLIS,
};
use crate::provisioner::{
    advanced, session_after, stage_after, Progress, ProgressView, Provisioner, Stage,
};
use crate::reply::{info_value, reply_status, ReplyLineView, STATUS_OK};
use crate::session::{
    after_registration, after_response, after_send, fresh_session, outcome, refusal, registration,
    Completion, CompletionView, ControlSession, Response, ResponseView, SessionState, SessionView,
};
use crate::supervisor::{flag_views, launch_flags, launch_plan, LaunchFlag, LaunchFlagView};

verus! {

/// What the caller reports back.
#[derive(Clone, Debug, PartialEq, Eq)]
pub enum Event {
    /// The daemon was launched in the background.
    Launched,
    /// The daemon could not be launched.
    LaunchFailed,
    /// The announcement file was read, or could not be read.
    Reading(Option<Vec<u8>>),
    /// The connection to the control port was established, or was not.
    Connected(bool),
    /// The handler for the daemon's events is installed.
    HandlerInstalled,
    /// This came back for the command that was sent.
    Response(Response),
}

/// An event with its contents as views.
pub enum EventView {
    Launched,
    LaunchFailed,
    Reading(Option<Seq<u8>>),
    Connected(bool),
    HandlerInstalled,
    Response(ResponseView),
}

impl View for Event {
    type V = EventView;

    open spec fn view(&self) -> EventView {
        match self {
            Event::Launched => EventView::Launched,
            Event::LaunchFailed => EventView::LaunchFailed,
            Event::Reading(reading) => EventView::Reading(
                match reading {
                    Some(content) => Some(content@),
                    None => None,
                },
            ),
            Event::Connected(established) => EventView::Connected(*established),
            Event::HandlerInstalled => EventView::HandlerInstalled,
            Event::Response(response) => EventView::Response(response@),
        }
    }
}

/// What the caller is to do next.
#[derive(Clone, PartialEq, Eq)]
pub enum Action {
    /// Launch the daemon in the background with these parameters, and report
    /// `Launched` without waiting for it.
    Launch(Vec<LaunchFlag>),
    /// Wait, then read the announcement file and report the `Reading`.
    ReadAnnouncement { path: String, wait_millis: u64 },
    /// Connect to the control port and report `Connected`.
    Connect(SocketAddress),
    /// Send the command and report the `Response`.
    Send(Command),
    /// Install a handler for the daemon's events and report `HandlerInstalled`.
    InstallEventHandler,
    /// The bootstrap is done: this is the daemon's SOCKS listener.
    Finish(SocketAddress),
    /// The bootstrap has failed.
    Fail(BootstrapError),
}

/// An action with its contents as views.
pub enum ActionView {
    Launch(Seq<LaunchFlagView>),
    ReadAnnouncement { path: Seq<char>, wait_millis: u64 },
    Connect(SocketAddress),
    Send(CommandView),
    InstallEventHandler,
    Finish(SocketAddress),
    Fail(BootstrapError),
}

impl View for Action {
    type V = ActionView;

    open spec fn view(&self) -> ActionView {
        match self {
            Action::Launch(flags) => ActionView::Launch(flag_views(flags@)),
            Action::ReadAnnouncement { path, wait_millis } => ActionView::ReadAnnouncement {
                path: path@,
                wait_millis: *wait_millis,
            },
            Action::Connect(address) => ActionView::Connect(*address),
            Action::Send(command) => ActionView::Send(command@),
            Action::InstallEventHandler => ActionView::InstallEventHandler,
            Action::Finish(address) => ActionView::Finish(*address),
            Action::Fail(error) => ActionView::Fail(*error),
        }
    }
}

/// Where the bootstrap stands.
enum Phase {
    Launching(Locator),
    Locating(Locator),
    Connecting(SocketAddress),
    Authenticating(ControlSession),
    Subscribing(ControlSession),
    Provisioning(Provisioner, ControlSession),
    Done(SocketAddress),
    Failed(BootstrapError),
}

/// Where the bootstrap stands, as contracts see it.
pub enum PhaseView {
    /// The daemon is being launched; the locator waits for its turn.
    Launching(Locator),
    /// The control port is being looked for.
    Locating(Locator),
    /// The control port is known and is being connected to.
    Connecting(SocketAddress),
    /// The authentication is in flight.
    Authenticating(SessionView),
    /// The session is authenticated and gets its handler for events.
    Subscribing(SessionView),
    /// The onion service is being provisioned.
    Provisioning(Stage, SessionView),
    /// The bootstrap is done: this is the daemon's SOCKS listener.
    Done(SocketAddress),
    /// The bootstrap has failed with this error.
    Failed(BootstrapError),
}

impl View for Phase {
    type V = PhaseView;

    closed spec fn view(&self) -> PhaseView {
        match self {
            Phase::Launching(locator) => PhaseView::Launching(*locator),
            Phase::Locating(locator) => PhaseView::Locating(*locator),
            Phase::Connecting(address) => PhaseView::Connecting(*address),
            Phase::Authenticating(session) => PhaseView::Authenticating(session@),
            Phase::Subscribing(session) => PhaseView::Subscribing(session@),
            Phase::Provisioning(provisioner, session) => PhaseView::Provisioning(
                provisioner.stage,
                session@,
            ),
            Phase::Done(address) => PhaseView::Done(*address),
            Phase::Failed(error) => PhaseView::Failed(*error),
        }
    }
}

/// The bootstrap of one service.
pub struct Bootstrap {
    config: ServiceConfig,
    secret: String,
    phase: Phase,
}

/// A bootstrap as contracts see it: what it was started with, and where it
/// stands.
pub struct BootstrapView {
    pub data_dir: Seq<char>,
    pub key: Seq<u8>,
    pub listen_port: u16,
    pub secret: Seq<char>,
    pub phase: PhaseView,
}

impl View for Bootstrap {
    type V = BootstrapView;

    closed spec fn view(&self) -> BootstrapView {
        BootstrapView {
            data_dir: self.config.data_dir@,
            key: self.config.onion_key@,
            listen_port: self.config.listen_port,
            secret: self.secret@,
            phase: self.phase@,
        }
    }
}

/// The end in failure.
pub open spec fn failed(error: BootstrapError) -> (PhaseView, ActionView) {
    (PhaseView::Failed(error), ActionView::Fail(error))
}

/// The action that asks for the next reading of the announcement file.
pub open spec fn read_announcement(data_dir: Seq<char>, wait_millis: u64) -> ActionView {
    ActionView::ReadAnnouncement { path: data_dir + "/control-port.txt"@, wait_millis }
}

/// The phase that an event leads to, and the action that it calls for.
///
/// Each phase waits for one kind of event, and any other event violates the
/// protocol. Once the bootstrap is done or has failed, every event is
/// answered with the same end.
pub open spec fn stepped(state: BootstrapView, event: EventView) -> (PhaseView, ActionView) {
    match state.phase {
        PhaseView::Done(address) => (PhaseView::Done(address), ActionView::Finish(address)),
        PhaseView::Failed(error) => failed(error),
        PhaseView::Launching(locator) => match event {
            EventView::Launched => (
                PhaseView::Locating(locator),
                read_announcement(state.data_dir, POLL_INTERVAL_MILLIS),
            ),
            EventView::LaunchFailed => failed(BootstrapError::ProcessLaunch),
            _ => failed(BootstrapError::ProtocolViolation),
        },
        PhaseView::Locating(locator) => match event {
            EventView::Reading(reading) => match observed(locator, reading) {
                Ok(Poll::Located(address)) => (
                    PhaseView::Connecting(address),
                    ActionView::Connect(address),
                ),
                Ok(Poll::Wait(wait_millis)) => (
                    PhaseView::Locating(after_reading(locator, reading)),
                    read_announcement(state.data_dir, wait_millis),
                ),
                Err(error) => failed(error),
            },
            _ => failed(BootstrapError::ProtocolViolation),
        },
        PhaseView::Connecting(address) => match event {
            EventView::Connected(established) => if established {
                let command = CommandView::Authenticate { secret: state.secret };
                (
                    PhaseView::Authenticating(after_send(fresh_session(), command)),
                    ActionView::Send(command),
                )
            } else {
                failed(BootstrapError::Connection)
            },
            _ => failed(BootstrapError::ProtocolViolation),
        },
        PhaseView::Authenticating(session) => match event {
            EventView::Response(response) => match outcome(session, response) {
                Ok(CompletionView::Authenticated) => (
                    PhaseView::Subscribing(after_response(session, response)),
                    ActionView::InstallEventHandler,
                ),
                Ok(_) => failed(BootstrapError::ProtocolViolation),
                Err(error) => failed(error),
            },
            _ => failed(BootstrapError::ProtocolViolation),
        },
        PhaseView::Subscribing(session) => match event {
            EventView::HandlerInstalled => match registration(session) {
                Ok(_) => {
                    let subscribed = after_registration(session);
                    let command = CommandView::AddOnion(
                        service_request(state.key, state.listen_port),
                    );
                    match refusal(subscribed, command) {
                        None => (
                            PhaseView::Provisioning(
                                Stage::AddingService,
                                after_send(subscribed, command),
                            ),
                            ActionView::Send(command),
                        ),
                        Some(error) => failed(error),
                    }
                },
                Err(error) => failed(error),
            },
            _ => failed(BootstrapError::ProtocolViolation),
        },
        PhaseView::Provisioning(stage, session) => match event {
            EventView::Response(response) => match advanced(stage, session, response) {
                Ok(ProgressView::Send(command)) => (
                    PhaseView::Provisioning(
                        stage_after(stage, session, response),
                        session_after(stage, session, response),
                    ),
                    ActionView::Send(command),
                ),
                Ok(ProgressView::Ready(address)) => (
                    PhaseView::Done(address),
                    ActionView::Finish(address),
                ),
                Err(error) => failed(error),
            },
            _ => failed(BootstrapError::ProtocolViolation),
        },
    }
}

/// The bootstrap after an event: what it was started with stays, and the
/// phase moves on.
pub open spec fn after_event(state: BootstrapView, event: EventView) -> BootstrapView {
    BootstrapView {
        data_dir: state.data_dir,
        key: state.key,
        listen_port: state.listen_port,
        secret: state.secret,
        phase: stepped(state, event).0,
    }
}

/// Once the bootstrap is done or has failed, nothing changes it: every event
/// leaves the phase as it is and is answered with the same end.
pub proof fn lemma_end_is_final(state: BootstrapView, event: EventView)
    requires
        state.phase is Done || state.phase is Failed,
    ensures
        after_event(state, event) == state,
        state.phase matches PhaseView::Done(address) ==> stepped(state, event).1
            == ActionView::Finish(address),
        state.phase matches PhaseView::Failed(error) ==> stepped(state, event).1
            == ActionView::Fail(error),
{
}

/// The first failure ends the bootstrap: the error that an event was
/// answered with is the answer to every later event too.
pub proof fn lemma_first_failure_ends(state: BootstrapView, event: EventView, later: EventView)
    requires
        stepped(state, event).1 is Fail,
    ensures
        stepped(after_event(state, event), later) == failed(stepped(state, event).1->Fail_0),
{
}

/// No command but the authentication is sent before the session is
/// authenticated: where the bootstrap has another command sent, the
/// session that waits for its answer is past authentication.
pub proof fn lemma_commands_follow_authentication(state: BootstrapView, event: EventView)
    requires
        stepped(state, event).1 matches ActionView::Send(command) && !(command is Authenticate),
    ensures
        stepped(state, event).0 matches PhaseView::Provisioning(stage, session) && session.state
            != SessionState::Unauthenticated,
{
}

/// The commands of a bootstrap carry what it was started with: the
/// authentication its secret, the creation of the service its key, with the
/// listen port both as the virtual port and as the port of the local
/// target, and the query the key of the SOCKS listeners.
pub proof fn lemma_commands_carry_configuration(state: BootstrapView, event: EventView)
    requires
        stepped(state, event).1 is Send,
    ensures
        match stepped(state, event).1->Send_0 {
            CommandView::Authenticate { secret } => secret == state.secret,
            CommandView::AddOnion(request) => request == service_request(
                state.key,
                state.listen_port,
            ),
            CommandView::GetInfo { key } => key == socks_listeners_key(),
        },
{
}

/// The address that the bootstrap ends with is the one that the daemon
/// reports for its SOCKS listener, unchanged. So where the port that the
/// daemon reports differs from the control port and from the listen port,
/// the port that the bootstrap ends with differs from both.
pub proof fn lemma_proxy_port_is_reported_port(
    state: BootstrapView,
    response: ResponseView,
    value: Seq<u8>,
    reported: SocketAddress,
    control_port: u16,
)
    requires
        state.phase matches PhaseView::Provisioning(stage, session) && (stage
            == Stage::QueryingProxy && outcome(session, response) == Ok::<
            CompletionView,
            BootstrapError,
        >(CompletionView::Info(value))),
        text_address(value) == Some(reported),
        reported.port != control_port,
        reported.port != state.listen_port,
    ensures
        stepped(state, EventView::Response(response)) == (
            PhaseView::Done(reported),
            ActionView::Finish(reported),
        ),
        stepped(state, EventView::Response(response)).1 matches ActionView::Finish(address) && (
        address.port != control_port && address.port != state.listen_port),
{
}

/// A bootstrap in which everything goes well ends with the SOCKS listener
/// that the daemon reports: the daemon is launched, the announcement gives
/// the control port, the connection is established, and the daemon answers
/// the authentication, the creation of the service and the query with status
/// 250, the last with a value for the SOCKS listeners that denotes an
/// address.
pub proof fn lemma_accepted_run(
    start: BootstrapView,
    control: SocketAddress,
    padding: Seq<u8>,
    authenticated: Seq<ReplyLineView>,
    added: Seq<ReplyLineView>,
    reported: Seq<ReplyLineView>,
    proxy: SocketAddress,
)
    requires
        start.phase is Launching,
        forall|i: int| 0 <= i < padding.len() ==> is_whitespace(#[trigger] padding[i]),
        reply_status(authenticated) == Some(STATUS_OK),
        reply_status(added) == Some(STATUS_OK),
        reply_status(reported) == Some(STATUS_OK),
        info_value(reported, encode_utf8(socks_listeners_key())) matches Some(value)
            && text_address(value) == Some(proxy),
    ensures
        ({
            let announcement = announcement_token() + address_text(control) + padding;
            let launched = after_event(start, EventView::Launched);
            let located = after_event(launched, EventView::Reading(Some(announcement)));
            let connected = after_event(located, EventView::Connected(true));
            let trusted = after_event(
                connected,
                EventView::Response(ResponseView::Lines(authenticated)),
            );
            let subscribed = after_event(trusted, EventView::HandlerInstalled);
            let served = after_event(subscribed, EventView::Response(ResponseView::Lines(added)));
            &&& stepped(start, EventView::Launched).1 == read_announcement(
                start.data_dir,
                POLL_INTERVAL_MILLIS,
            )
            &&& stepped(launched, EventView::Reading(Some(announcement))).1 == ActionView::Connect(
                control,
            )
            &&& stepped(located, EventView::Connected(true)).1 == ActionView::Send(
                CommandView::Authenticate { secret: start.secret },
            )
            &&& stepped(connected, EventView::Response(ResponseView::Lines(authenticated))).1
                == ActionView::InstallEventHandler
            &&& stepped(trusted, EventView::HandlerInstalled).1 == ActionView::Send(
                CommandView::AddOnion(service_request(start.key, start.listen_port)),
            )
            &&& stepped(subscribed, EventView::Response(ResponseView::Lines(added))).1
                == ActionView::Send(CommandView::GetInfo { key: socks_listeners_key() })
            &&& stepped(served, EventView::Response(ResponseView::Lines(reported))) == (
                PhaseView::Done(proxy),
                ActionView::Finish(proxy),
            )
        }),
{
    lemma_announcement_gives_address(control, padding);
}

/// The bootstrap after a run of events, first to last.
pub open spec fn after_events(state: BootstrapView, events: Seq<EventView>) -> BootstrapView
    decreases events.len(),
{
    if events.len() == 0 {
        state
    } else {
        after_event(after_events(state, events.drop_last()), events.last())
    }
}

/// The action that answers the event at position `i` of a run.
pub open spec fn answer(state: BootstrapView, events: Seq<EventView>, i: int) -> ActionView {
    stepped(after_events(state, events.take(i)), events[i]).1
}

/// The action that sends the authentication with a secret.
pub open spec fn authentication(secret: Seq<char>) -> ActionView {
    ActionView::Send(CommandView::Authenticate { secret })
}

/// How far a phase is along the bootstrap.
pub open spec fn phase_rank(phase: PhaseView) -> int {
    match phase {
        PhaseView::Launching(locator) => 0,
        PhaseView::Locating(locator) => 1,
        PhaseView::Connecting(address) => 2,
        PhaseView::Authenticating(session) => 3,
        PhaseView::Subscribing(session) => 4,
        PhaseView::Provisioning(stage, session) => 5,
        PhaseView::Done(address) => 6,
        PhaseView::Failed(error) => 7,
    }
}

/// Whether the session of a bootstrap is where its phase says: waiting for
/// the answer to the authentication while that is in flight, authenticated
/// and idle while the handler is installed, and past authentication, with one
/// command in flight, while the service is provisioned.
pub open spec fn session_fits_phase(state: BootstrapView) -> bool {
    match state.phase {
        PhaseView::Authenticating(session) => session == after_send(
            fresh_session(),
            CommandView::Authenticate { secret: state.secret },
        ),
        PhaseView::Subscribing(session) => session == (SessionView {
            state: SessionState::Authenticated,
            pending: None,
        }),
        PhaseView::Provisioning(stage, session) => session.state == SessionState::EventSubscribed
            && session.pending is Some && stage != Stage::Finished,
        _ => true,
    }
}

/// One more event of a run moves the bootstrap by one step.
proof fn lemma_run_grows(start: BootstrapView, events: Seq<EventView>, k: int)
    requires
        0 <= k < events.len(),
    ensures
        after_events(start, events.take(k + 1)) == after_event(
            after_events(start, events.take(k)),
            events[k],
        ),
        stepped(after_events(start, events.take(k)), events[k]).1 == answer(start, events, k),
{
    assert(events.take(k + 1).drop_last() =~= events.take(k));
    assert(events.take(k + 1).last() == events[k]);
}

/// A run changes nothing of what the bootstrap was started with, and leaves
/// the session where the phase says.
pub proof fn lemma_session_follows_the_phases(start: BootstrapView, events: Seq<EventView>)
    requires
        start.phase is Launching,
    ensures
        after_events(start, events).data_dir == start.data_dir,
        after_events(start, events).key == start.key,
        after_events(start, events).listen_port == start.listen_port,
        after_events(start, events).secret == start.secret,
        session_fits_phase(after_events(start, events)),
    decreases events.len(),
{
    if events.len() > 0 {
        lemma_session_follows_the_phases(start, events.drop_last());
    }
}

/// A bootstrap never goes back: no event leads to an earlier phase. The
/// authentication is sent by one step only, the one from the connecting to
/// the authenticating phase, and that phase is entered by no other step.
pub proof fn lemma_phases_go_forward(state: BootstrapView, event: EventView)
    ensures
        phase_rank(state.phase) <= phase_rank(stepped(state, event).0),
        phase_rank(stepped(state, event).0) == 3 <==> stepped(state, event).1 == authentication(
            state.secret,
        ),
        stepped(state, event).1 == authentication(state.secret) ==> state.phase is Connecting,
        stepped(state, event).1 matches ActionView::Send(command) && command is Authenticate
            ==> stepped(state, event).1 == authentication(state.secret),
        3 <= phase_rank(stepped(state, event).0) <= 6 ==> 2 <= phase_rank(state.phase) <= 6,
{
}

/// The phases of a run never go back.
proof fn lemma_run_goes_forward(start: BootstrapView, events: Seq<EventView>, i: int, j: int)
    requires
        0 <= i <= j <= events.len(),
    ensures
        phase_rank(after_events(start, events.take(i)).phase) <= phase_rank(
            after_events(start, events.take(j)).phase,
        ),
    decreases j - i,
{
    if i < j {
        lemma_run_goes_forward(start, events, i, j - 1);
        lemma_run_grows(start, events, j - 1);
        lemma_phases_go_forward(after_events(start, events.take(j - 1)), events[j - 1]);
    }
}

/// A bootstrap that has come past the connection has sent the
/// authentication, with the secret it was started with: the position of the
/// event that was answered with it is returned.
pub proof fn lemma_authentication_came_first(
    start: BootstrapView,
    events: Seq<EventView>,
    k: int,
) -> (i: int)
    requires
        start.phase is Launching,
        0 <= k <= events.len(),
        3 <= phase_rank(after_events(start, events.take(k)).phase) <= 6,
    ensures
        0 <= i < k,
        answer(start, events, i) == authentication(start.secret),
    decreases k,
{
    if k == 0 {
        assert(events.take(0) =~= Seq::<EventView>::empty());
        0
    } else {
        let before = after_events(start, events.take(k - 1));
        lemma_run_grows(start, events, k - 1);
        lemma_phases_go_forward(before, events[k - 1]);
        lemma_session_follows_the_phases(start, events.take(k - 1));
        if phase_rank(before.phase) >= 3 {
            lemma_authentication_came_first(start, events, k - 1)
        } else {
            k - 1
        }
    }
}

/// In a run the authentication is sent once, and with the secret that the
/// bootstrap was started with: an event that is answered with an
/// authentication is the only one.
pub proof fn lemma_authentication_is_sent_once(
    start: BootstrapView,
    events: Seq<EventView>,
    i: int,
    j: int,
)
    requires
        start.phase is Launching,
        0 <= i < j < events.len(),
        answer(start, events, i) matches ActionView::Send(command) && command is Authenticate,
    ensures
        answer(start, events, i) == authentication(start.secret),
        !(answer(start, events, j) matches ActionView::Send(command) && command is Authenticate),
{
    lemma_session_follows_the_phases(start, events.take(i));
    lemma_session_follows_the_phases(start, events.take(j));
    lemma_run_grows(start, events, i);
    lemma_phases_go_forward(after_events(start, events.take(i)), events[i]);
    lemma_run_goes_forward(start, events, i + 1, j);
    lemma_phases_go_forward(after_events(start, events.take(j)), events[j]);
}

/// In a run every other command follows the authentication, on the session
/// that the authentication has made authenticated: where an event is
/// answered with the creation of the service or with the query, an earlier
/// event was answered with the authentication, whose position is returned,
/// and the session that waits for the answer is past authentication.
pub proof fn lemma_commands_follow_the_authentication(
    start: BootstrapView,
    events: Seq<EventView>,
    j: int,
) -> (i: int)
    requires
        start.phase is Launching,
        0 <= j < events.len(),
        answer(start, events, j) matches ActionView::Send(command) && !(command is Authenticate),
    ensures
        0 <= i < j,
        answer(start, events, i) == authentication(start.secret),
        after_events(start, events.take(j + 1)).phase matches PhaseView::Provisioning(
            stage,
            session,
        ) && session.state == SessionState::EventSubscribed,
{
    let before = after_events(start, events.take(j));
    lemma_run_grows(start, events, j);
    lemma_session_follows_the_phases(start, events.take(j));
    lemma_session_follows_the_phases(start, events.take(j + 1));
    lemma_phases_go_forward(before, events[j]);
    lemma_commands_follow_authentication(before, events[j]);
    lemma_authentication_came_first(start, events, j)
}

impl Bootstrap {
    /// Starts a bootstrap. The first action is the launch of the daemon,
    /// with the parameters that belong to the data directory and the hashed
    /// form of the secret.
    pub fn begin(config: ServiceConfig, secret: String, hashed_secret: &str, locator: Locator) -> (r: (
        Bootstrap,
        Action,
    ))
        ensures
            r.0@ == (BootstrapView {
                data_dir: config.data_dir@,
                key: config.onion_key@,
                listen_port: config.listen_port,
                secret: secret@,
                phase: PhaseView::Launching(locator),
            }),
            r.1@ == ActionView::Launch(launch_plan(config.data_dir@, hashed_secret@)),
    {
        let flags = launch_flags(config.data_dir.as_str(), hashed_secret);
        (Bootstrap { config, secret, phase: Phase::Launching(locator) }, Action::Launch(flags))
    }

    /// Takes what the caller reports and says what to do next.
    pub fn step(self, event: Event) -> (r: (Bootstrap, Action))
        ensures
            r.0@ == after_event(self@, event@),
            r.1@ == stepped(self@, event@).1,
    {
        let Bootstrap { config, secret, phase } = self;
        let (phase, action) = match phase {
            Phase::Done(address) => (Phase::Done(address), Action::Finish(address)),
            Phase::Failed(error) => (Phase::Failed(error), Action::Fail(error)),
            Phase::Launching(locator) => match event {
                Event::Launched => (
                    Phase::Locating(locator),
                    Action::ReadAnnouncement {
                        path: announcement_path(config.data_dir.as_str()),
                        wait_millis: POLL_INTERVAL_MILLIS,
                    },
                ),
                Event::LaunchFailed => fail(BootstrapError::ProcessLaunch),
                _ => fail(BootstrapError::ProtocolViolation),
            },
            Phase::Locating(locator) => match event {
                Event::Reading(reading) => {
                    let mut locator = locator;
                    let observed = match &reading {
                        Some(content) => locator.observe(Some(content.as_slice())),
                        None => locator.observe(None),
                    };
                    match observed {
                        Ok(Poll::Located(address)) => (
                            Phase::Connecting(address),
                            Action::Connect(address),
                        ),
                        Ok(Poll::Wait(wait_millis)) => (
                            Phase::Locating(locator),
                            Action::ReadAnnouncement {
                                path: announcement_path(config.data_dir.as_str()),
                                wait_millis,
                            },
                        ),
                        Err(error) => fail(error),
                    }
                },
                _ => fail(BootstrapError::ProtocolViolation),
            },
            Phase::Connecting(address) => match event {
                Event::Connected(established) => match ControlSession::connect(established) {
                    Ok(session) => {
                        let mut session = session;
                        match session.authenticate(secret.as_str()) {
                            Ok(command) => (Phase::Authenticating(session), Action::Send(command)),
                            Err(error) => fail(error),
                        }
                    },
                    Err(error) => fail(error),
                },
                _ => fail(BootstrapError::ProtocolViolation),
            },
            Phase::Authenticating(session) => match event {
                Event::Response(response) => {
                    let mut session = session;
                    match session.complete(response) {
                        Ok(Completion::Authenticated) => (
                            Phase::Subscribing(session),
                            Action::InstallEventHandler,
                        ),
                        Ok(_) => fail(BootstrapError::ProtocolViolation),
                        Err(error) => fail(error),
                    }
                },
                _ => fail(BootstrapError::ProtocolViolation),
            },
            Phase::Subscribing(session) => match event {
                Event::HandlerInstalled => {
                    let mut session = session;
                    match session.register_event_handler() {
                        Ok(_) => match Provisioner::begin(
                            &mut session,
                            &config.onion_key,
                            config.listen_port,
                        ) {
                            Ok((provisioner, command)) => (
                                Phase::Provisioning(provisioner, session),
                                Action::Send(command),
                            ),
                            Err(error) => fail(error),
                        },
                        Err(error) => fail(error),
                    }
                },
                _ => fail(BootstrapError::ProtocolViolation),
            },
            Phase::Provisioning(provisioner, session) => match event {
                Event::Response(response) => {
                    let mut provisioner = provisioner;
                    let mut session = session;
                    match provisioner.advance(&mut session, response) {
                        Ok(Progress::Send(command)) => (
                            Phase::Provisioning(provisioner, session),
                            Action::Send(command),
                        ),
                        Ok(Progress::Ready(address)) => (
                            Phase::Done(address),
                            Action::Finish(address),
                        ),
                        Err(error) => fail(error),
                    }
                },
                _ => fail(BootstrapError::ProtocolViolation),
            },
        };
        (Bootstrap { config, secret, phase }, action)
    }
}

/// The end in failure.
fn fail(error: BootstrapError) -> (r: (Phase, Action))
    ensures
        (r.0@, r.1@) == failed(error),
{
    (Phase::Failed(error), Action::Fail(error))
}

} // verus!
