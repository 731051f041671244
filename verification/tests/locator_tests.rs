use onion_bootstrap::address::{HostAddress, SocketAddress};
use onion_bootstrap::error::BootstrapError;
use onion_bootstrap::locator::{
    announcement_path, parse_announcement, Locator, Poll, POLL_INTERVAL_MILLIS,
};

fn control() -> SocketAddress {
    SocketAddress { host: HostAddress(127, 0, 0, 1), port: 9051 }
}

#[test]
fn announcement_with_a_line_feed_gives_the_address() {
    assert_eq!(parse_announcement(b"PORT=127.0.0.1:9051\n"), Some(control()));
}

#[test]
fn announcement_gives_exactly_the_address_it_holds() {
    let cases: [(&[u8], SocketAddress); 4] = [
        (b"PORT=127.0.0.1:9051", control()),
        (b"PORT=0.0.0.0:0\n", SocketAddress { host: HostAddress(0, 0, 0, 0), port: 0 }),
        (
            b"PORT=192.168.1.77:65535\r\n",
            SocketAddress { host: HostAddress(192, 168, 1, 77), port: 65535 },
        ),
        (b"PORT=10.0.0.2:443 \t\x0b\x0c\r\n\n", SocketAddress { host: HostAddress(10, 0, 0, 2), port: 443 }),
    ];
    for (content, expected) in cases {
        assert_eq!(parse_announcement(content), Some(expected));
    }
}

#[test]
fn announcement_of_a_written_address_reads_back() {
    let address = SocketAddress { host: HostAddress(203, 0, 113, 9), port: 40123 };
    let mut content = b"PORT=".to_vec();
    content.extend_from_slice(&address.to_text());
    content.extend_from_slice(b"\n");
    assert_eq!(parse_announcement(&content), Some(address));
}

#[test]
fn content_without_the_token_is_not_accepted() {
    let contents: [&[u8]; 9] = [
        b"127.0.0.1:9051\n",
        b"port=127.0.0.1:9051\n",
        b"PORT 127.0.0.1:9051\n",
        b" PORT=127.0.0.1:9051\n",
        b"\nPORT=127.0.0.1:9051\n",
        b"PORT",
        b"PORT:127.0.0.1:9051",
        b"UNIX_PORT=/var/run/tor/control",
        b"",
    ];
    for content in contents {
        assert_eq!(parse_announcement(content), None, "{:?}", content);
    }
}

#[test]
fn content_with_a_non_numeric_port_is_not_accepted() {
    let contents: [&[u8]; 6] = [
        b"PORT=127.0.0.1:abc\n",
        b"PORT=127.0.0.1:90a1\n",
        b"PORT=127.0.0.1:\n",
        b"PORT=127.0.0.1:9051x\n",
        b"PORT=127.0.0.1:9 051\n",
        b"PORT=127.0.0.1:auto\n",
    ];
    for content in contents {
        assert_eq!(parse_announcement(content), None, "{:?}", content);
    }
}

#[test]
fn token_is_taken_from_the_start_only() {
    assert_eq!(parse_announcement(b"PORT=PORT=127.0.0.1:9051\n"), None);
    assert_eq!(parse_announcement(b"PORT=127.0.0.1:PORT=9051\n"), None);
    assert_eq!(parse_announcement(b"PORT= 127.0.0.1:9051\n"), None);
    assert_eq!(parse_announcement(b"PORT=\n"), None);
    assert_eq!(parse_announcement(b"PORT="), None);
}

#[test]
fn announcement_file_is_in_the_data_directory() {
    assert_eq!(announcement_path("/tmp/tor-datadir"), "/tmp/tor-datadir/control-port.txt");
    assert_eq!(announcement_path("data"), "data/control-port.txt");
}

#[test]
fn poll_interval_is_a_tenth_of_a_second() {
    assert_eq!(POLL_INTERVAL_MILLIS, 100);
}

#[test]
fn unbounded_locator_waits_until_the_announcement_is_there() {
    let mut locator = Locator::unbounded();
    for _ in 0..1000 {
        assert_eq!(locator.observe(None), Ok(Poll::Wait(100)));
        assert_eq!(locator.observe(Some(b"")), Ok(Poll::Wait(100)));
        assert_eq!(locator.observe(Some(b"PORT=127.0")), Ok(Poll::Wait(100)));
    }
    assert_eq!(locator.remaining, None);
    assert_eq!(locator.observe(Some(b"PORT=127.0.0.1:9051\n")), Ok(Poll::Located(control())));
}

#[test]
fn bounded_locator_times_out_after_its_attempts() {
    let mut locator = Locator::bounded(3);
    assert_eq!(locator.observe(None), Ok(Poll::Wait(100)));
    assert_eq!(locator.remaining, Some(2));
    assert_eq!(locator.observe(Some(b"PORT=")), Ok(Poll::Wait(100)));
    assert_eq!(locator.remaining, Some(1));
    assert_eq!(locator.observe(None), Err(BootstrapError::DiscoveryTimeout));
    assert_eq!(locator.remaining, Some(0));
    assert_eq!(locator.observe(None), Err(BootstrapError::DiscoveryTimeout));
    assert_eq!(locator.remaining, Some(0));
}

#[test]
fn bounded_locator_finds_the_address_on_its_last_attempt() {
    let mut locator = Locator::bounded(2);
    assert_eq!(locator.observe(None), Ok(Poll::Wait(100)));
    assert_eq!(locator.observe(Some(b"PORT=127.0.0.1:9051\n")), Ok(Poll::Located(control())));
    assert_eq!(locator.remaining, Some(1));
}

#[test]
fn locator_without_attempts_times_out_at_once() {
    let mut locator = Locator::bounded(0);
    assert_eq!(locator.observe(None), Err(BootstrapError::DiscoveryTimeout));
    let mut locator = Locator::bounded(1);
    assert_eq!(locator.observe(Some(b"nothing")), Err(BootstrapError::DiscoveryTimeout));
}
