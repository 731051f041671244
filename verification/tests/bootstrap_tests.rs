use onion_bootstrap::address::{HostAddress, SocketAddress};
use onion_bootstrap::bootstrap::{Action, Bootstrap, Event};
use onion_bootstrap::command::{Command, OnionServiceRequest, PortMapping};
use onion_bootstrap::config::{OnionServiceKey, ServiceConfig};
use onion_bootstrap::error::BootstrapError;
use onion_bootstrap::locator::Locator;
use onion_bootstrap::provisioner::{Progress, Provisioner, Stage};
use onion_bootstrap::reply::ReplyLine;
use onion_bootstrap::session::{Completion, ControlSession, Response, SessionState};
use onion_bootstrap::supervisor::launch_flags;

fn line(status_code: u16, data: &[u8], continued: bool) -> ReplyLine {
    ReplyLine { status_code, data: data.to_vec(), continued }
}

fn ok() -> Response {
    Response::Lines(vec![line(250, b"OK", false)])
}

fn rejected(status_code: u16) -> Response {
    Response::Lines(vec![line(status_code, b"", false)])
}

fn proxy_reply(value: &[u8]) -> Response {
    let mut data = b"net/listeners/socks=".to_vec();
    data.extend_from_slice(value);
    Response::Lines(vec![line(250, &data, true), line(250, b"OK", false)])
}

fn key() -> OnionServiceKey {
    OnionServiceKey::from_bytes([9u8; 64])
}

fn config() -> ServiceConfig {
    ServiceConfig { data_dir: String::from("/tmp/tor-datadir"), onion_key: key(), listen_port: 8000 }
}

fn local(port: u16) -> SocketAddress {
    SocketAddress { host: HostAddress(127, 0, 0, 1), port }
}

fn service_command(port: u16) -> Command {
    Command::AddOnion(OnionServiceRequest {
        key: key(),
        detach: true,
        discard_private_key: false,
        max_streams_close_circuit: false,
        max_streams: None,
        port_mapping: vec![PortMapping { virtual_port: port, target: local(port) }],
    })
}

fn proxy_query() -> Command {
    Command::GetInfo { key: String::from("net/listeners/socks") }
}

fn authenticated() -> ControlSession {
    let mut session = ControlSession::connect(true).unwrap();
    session.authenticate("s3cr3t").unwrap();
    assert_eq!(session.complete(ok()), Ok(Completion::Authenticated));
    session
}

fn read_action(wait_millis: u64) -> Action {
    Action::ReadAnnouncement { path: String::from("/tmp/tor-datadir/control-port.txt"), wait_millis }
}

fn run(events: Vec<Event>) -> (Bootstrap, Action) {
    let (mut bootstrap, mut action) =
        Bootstrap::begin(config(), String::from("s3cr3t"), "16:ABCD", Locator::unbounded());
    for event in events {
        let next = bootstrap.step(event);
        bootstrap = next.0;
        action = next.1;
    }
    (bootstrap, action)
}

fn until_provisioning() -> Vec<Event> {
    vec![
        Event::Launched,
        Event::Reading(Some(b"PORT=127.0.0.1:9051\n".to_vec())),
        Event::Connected(true),
        Event::Response(ok()),
        Event::HandlerInstalled,
    ]
}

#[test]
fn provisioner_before_authentication_fails() {
    let mut session = ControlSession::connect(true).unwrap();
    let started = Provisioner::begin(&mut session, &key(), 8000);
    assert!(started == Err(BootstrapError::PreAuthentication));
    assert_eq!(session.state(), SessionState::Unauthenticated);
    assert!(!session.is_waiting());
}

#[test]
fn provisioner_adds_the_service_then_asks_for_the_proxy() {
    let mut session = authenticated();
    let (mut provisioner, command) = Provisioner::begin(&mut session, &key(), 8000).unwrap();
    assert!(command == service_command(8000));
    assert_eq!(provisioner.stage, Stage::AddingService);
    let progress = provisioner.advance(&mut session, ok());
    assert!(progress == Ok(Progress::Send(proxy_query())));
    assert_eq!(provisioner.stage, Stage::QueryingProxy);
    let progress = provisioner.advance(&mut session, proxy_reply(b"\"127.0.0.1:9150\""));
    assert!(progress == Ok(Progress::Ready(local(9150))));
    assert_eq!(provisioner.stage, Stage::Finished);
    assert!(!session.is_waiting());
    let progress = provisioner.advance(&mut session, ok());
    assert!(progress == Err(BootstrapError::ProtocolViolation));
}

#[test]
fn provisioner_stops_at_the_first_failure() {
    let mut session = authenticated();
    let (mut provisioner, _) = Provisioner::begin(&mut session, &key(), 8000).unwrap();
    assert!(provisioner.advance(&mut session, rejected(512)) == Err(BootstrapError::Provision));
    assert_eq!(provisioner.stage, Stage::Finished);
    assert!(provisioner.advance(&mut session, ok()) == Err(BootstrapError::ProtocolViolation));

    let mut session = authenticated();
    let (mut provisioner, _) = Provisioner::begin(&mut session, &key(), 8000).unwrap();
    provisioner.advance(&mut session, ok()).unwrap();
    assert!(provisioner.advance(&mut session, rejected(552)) == Err(BootstrapError::Query));
    assert_eq!(provisioner.stage, Stage::Finished);
}

#[test]
fn proxy_value_that_is_no_address_is_a_query_error() {
    let values: [&[u8]; 5] = [
        b"\"127.0.0.1:9150\" \"127.0.0.1:9151\"",
        b"\"unix:/run/tor/socks\"",
        b"",
        b"\"\"",
        b"\"[::1]:9150\"",
    ];
    for value in values {
        let mut session = authenticated();
        let (mut provisioner, _) = Provisioner::begin(&mut session, &key(), 8000).unwrap();
        provisioner.advance(&mut session, ok()).unwrap();
        assert!(provisioner.advance(&mut session, proxy_reply(value)) == Err(BootstrapError::Query));
    }
}

#[test]
fn bootstrap_starts_with_the_launch() {
    let (_, action) = run(vec![]);
    assert!(action == Action::Launch(launch_flags("/tmp/tor-datadir", "16:ABCD")));
}

#[test]
fn bootstrap_runs_from_launch_to_proxy() {
    let (bootstrap, action) = run(vec![]);
    assert!(matches!(action, Action::Launch(_)));
    let (bootstrap, action) = bootstrap.step(Event::Launched);
    assert!(action == read_action(100));
    let (bootstrap, action) = bootstrap.step(Event::Reading(None));
    assert!(action == read_action(100));
    let (bootstrap, action) = bootstrap.step(Event::Reading(Some(b"PORT=".to_vec())));
    assert!(action == read_action(100));
    let (bootstrap, action) = bootstrap.step(Event::Reading(Some(b"PORT=127.0.0.1:9051\n".to_vec())));
    assert!(action == Action::Connect(local(9051)));
    let (bootstrap, action) = bootstrap.step(Event::Connected(true));
    assert!(action == Action::Send(Command::Authenticate { secret: String::from("s3cr3t") }));
    let (bootstrap, action) = bootstrap.step(Event::Response(ok()));
    assert!(action == Action::InstallEventHandler);
    let (bootstrap, action) = bootstrap.step(Event::HandlerInstalled);
    assert!(action == Action::Send(service_command(8000)));
    let (bootstrap, action) = bootstrap.step(Event::Response(ok()));
    assert!(action == Action::Send(proxy_query()));
    let (bootstrap, action) = bootstrap.step(Event::Response(proxy_reply(b"\"127.0.0.1:9150\"")));
    assert!(action == Action::Finish(local(9150)));
    let (_, action) = bootstrap.step(Event::Launched);
    assert!(action == Action::Finish(local(9150)));
}

#[test]
fn proxy_port_is_the_one_that_the_daemon_reports() {
    let mut events = until_provisioning();
    events.push(Event::Response(ok()));
    events.push(Event::Response(proxy_reply(b"\"127.0.0.1:9150\"")));
    let (_, action) = run(events);
    match action {
        Action::Finish(proxy) => {
            assert_eq!(proxy.port, 9150);
            assert_ne!(proxy.port, 9051);
            assert_ne!(proxy.port, config().listen_port);
        },
        _ => panic!("the bootstrap did not finish"),
    }
}

#[test]
fn launch_failure_ends_the_bootstrap() {
    let (_, action) = run(vec![Event::LaunchFailed]);
    assert!(action == Action::Fail(BootstrapError::ProcessLaunch));
}

#[test]
fn discovery_times_out_with_a_bounded_locator() {
    let (bootstrap, _) =
        Bootstrap::begin(config(), String::from("s3cr3t"), "16:ABCD", Locator::bounded(2));
    let (bootstrap, action) = bootstrap.step(Event::Launched);
    assert!(action == read_action(100));
    let (bootstrap, action) = bootstrap.step(Event::Reading(None));
    assert!(action == read_action(100));
    let (bootstrap, action) = bootstrap.step(Event::Reading(None));
    assert!(action == Action::Fail(BootstrapError::DiscoveryTimeout));
    let (_, action) = bootstrap.step(Event::Reading(Some(b"PORT=127.0.0.1:9051\n".to_vec())));
    assert!(action == Action::Fail(BootstrapError::DiscoveryTimeout));
}

#[test]
fn refused_connection_ends_the_bootstrap() {
    let (_, action) = run(vec![
        Event::Launched,
        Event::Reading(Some(b"PORT=127.0.0.1:9051\n".to_vec())),
        Event::Connected(false),
    ]);
    assert!(action == Action::Fail(BootstrapError::Connection));
}

#[test]
fn rejected_secret_ends_the_bootstrap() {
    let (bootstrap, action) = run(vec![
        Event::Launched,
        Event::Reading(Some(b"PORT=127.0.0.1:9051\n".to_vec())),
        Event::Connected(true),
        Event::Response(rejected(515)),
    ]);
    assert!(action == Action::Fail(BootstrapError::Auth));
    let (bootstrap, action) = bootstrap.step(Event::HandlerInstalled);
    assert!(action == Action::Fail(BootstrapError::Auth));
    let (_, action) = bootstrap.step(Event::Response(ok()));
    assert!(action == Action::Fail(BootstrapError::Auth));
}

#[test]
fn rejected_service_ends_the_bootstrap() {
    let mut events = until_provisioning();
    events.push(Event::Response(rejected(513)));
    let (bootstrap, action) = run(events);
    assert!(action == Action::Fail(BootstrapError::Provision));
    let (_, action) = bootstrap.step(Event::Response(ok()));
    assert!(action == Action::Fail(BootstrapError::Provision));
}

#[test]
fn failed_query_ends_the_bootstrap() {
    let mut events = until_provisioning();
    events.push(Event::Response(ok()));
    events.push(Event::Response(rejected(552)));
    let (_, action) = run(events);
    assert!(action == Action::Fail(BootstrapError::Query));

    let mut events = until_provisioning();
    events.push(Event::Response(ok()));
    events.push(Event::Response(proxy_reply(b"\"not an address\"")));
    let (_, action) = run(events);
    assert!(action == Action::Fail(BootstrapError::Query));
}

#[test]
fn lost_connection_ends_the_bootstrap() {
    let mut events = until_provisioning();
    events.push(Event::Response(Response::Disconnected));
    let (_, action) = run(events);
    assert!(action == Action::Fail(BootstrapError::Connection));
}

#[test]
fn event_out_of_turn_violates_the_protocol() {
    let out_of_turn = [
        vec![Event::Connected(true)],
        vec![Event::Launched, Event::Launched],
        vec![Event::Launched, Event::Response(ok())],
        vec![
            Event::Launched,
            Event::Reading(Some(b"PORT=127.0.0.1:9051\n".to_vec())),
            Event::HandlerInstalled,
        ],
        vec![
            Event::Launched,
            Event::Reading(Some(b"PORT=127.0.0.1:9051\n".to_vec())),
            Event::Connected(true),
            Event::Connected(true),
        ],
        vec![
            Event::Launched,
            Event::Reading(Some(b"PORT=127.0.0.1:9051\n".to_vec())),
            Event::Connected(true),
            Event::Response(ok()),
            Event::Response(ok()),
        ],
    ];
    for events in out_of_turn {
        let (_, action) = run(events);
        assert!(action == Action::Fail(BootstrapError::ProtocolViolation));
    }
}

#[test]
fn listen_port_is_virtual_port_and_target_port() {
    for port in [1u16, 80, 8000, 65535] {
        let settings = ServiceConfig { data_dir: String::from("d"), onion_key: key(), listen_port: port };
        let (mut bootstrap, mut action) =
            Bootstrap::begin(settings, String::from("pw"), "16:00", Locator::unbounded());
        for event in until_provisioning() {
            let next = bootstrap.step(event);
            bootstrap = next.0;
            action = next.1;
        }
        assert!(action == Action::Send(service_command(port)));
    }
}
