//! Discovery of the control port from the announcement that the daemon writes.
//!
//! The announcement is the token `PORT=`, an address text, and any amount of
//! trailing whitespace. The locator looks at one reading of the announcement
//! file at a time and says whether the address is known, whether to wait and
//! read again, or whether the allowed attempts are used up.

use vstd::prelude::*;
use vstd::slice::slice_subrange;
use crate::address::{
    address_text, is_digit, lemma_port_follows_colon, lemma_scan_bounds, lemma_text_round_trip,
    parse_socket_address, scan, text_address, SocketAddress, COLON,
};
use crate::error::BootstrapError;

verus! {

/// The pause between two readings of the announcement file, in milliseconds.
pub const POLL_INTERVAL_MILLIS: u64 = 100;

/// The token that an announcement starts with, `PORT=`.
pub open spec fn announcement_token() -> Seq<u8> {
    seq![0x50u8, 0x4fu8, 0x52u8, 0x54u8, 0x3du8]
}

/// Space, tab, line feed, vertical tab, form feed and carriage return.
pub open spec fn is_whitespace(b: u8) -> bool {
    b == 0x20 || 0x09 <= b <= 0x0d
}

/// The text without its trailing whitespace.
pub open spec fn trim_end(s: Seq<u8>) -> Seq<u8>
    decreases s.len(),
{
    if s.len() > 0 && is_whitespace(s.last()) {
        trim_end(s.drop_last())
    } else {
        s
    }
}

/// What follows the token, without trailing whitespace.
pub open spec fn announced_text(content: Seq<u8>) -> Seq<u8> {
    trim_end(content.skip(5))
}

/// The address that an announcement gives, if the content is an announcement.
pub open spec fn announced_address(content: Seq<u8>) -> Option<SocketAddress> {
    if announcement_token().is_prefix_of(content) {
        text_address(announced_text(content))
    } else {
        None
    }
}

/// The path of the announcement file under a data directory.
pub fn announcement_path(data_dir: &str) -> (path: String)
    ensures
        path@ == data_dir@ + "/control-port.txt"@,
{
    String::from_str(data_dir).concat("/control-port.txt")
}

/// The length of the text without its trailing whitespace.
fn trimmed_len(text: &[u8]) -> (len: usize)
    ensures
        len <= text.len(),
        trim_end(text@) == text@.take(len as int),
{
    let mut len: usize = text.len();
    assert(text@.take(len as int) =~= text@);
    while len > 0 && (text[len - 1] == 0x20 || (0x09 <= text[len - 1] && text[len - 1] <= 0x0d))
        invariant
            len <= text.len(),
            trim_end(text@) == trim_end(text@.take(len as int)),
        decreases len,
    {
        assert(text@.take(len as int).drop_last() =~= text@.take(len - 1));
        len -= 1;
    }
    len
}

/// Reads the content of the announcement file. Returns the announced address,
/// and `None` for content that is no announcement.
pub fn parse_announcement(content: &[u8]) -> (r: Option<SocketAddress>)
    ensures
        r == announced_address(content@),
{
    if content.len() < 5 || content[0] != 0x50 || content[1] != 0x4f || content[2] != 0x52
        || content[3] != 0x54 || content[4] != 0x3d {
        return None;
    }
    assert(content@.subrange(0, 5) =~= announcement_token());
    let rest = slice_subrange(content, 5, content.len());
    assert(rest@ =~= content@.skip(5));
    let len = trimmed_len(rest);
    let text = slice_subrange(rest, 0, len);
    assert(text@ =~= rest@.take(len as int));
    parse_socket_address(text)
}

/// Whitespace after a text that does not end in whitespace is all that
/// trimming removes.
pub proof fn lemma_trim_end_padding(text: Seq<u8>, padding: Seq<u8>)
    requires
        text.len() > 0 ==> !is_whitespace(text.last()),
        forall|i: int| 0 <= i < padding.len() ==> is_whitespace(#[trigger] padding[i]),
    ensures
        trim_end(text + padding) == text,
    decreases padding.len(),
{
    if padding.len() == 0 {
        assert(text + padding =~= text);
    } else {
        lemma_trim_end_padding(text, padding.drop_last());
        assert((text + padding).drop_last() =~= text + padding.drop_last());
        assert((text + padding).last() == padding.last());
    }
}

/// The token, any address text and any trailing whitespace make an
/// announcement of the address that the text denotes.
pub proof fn lemma_announcement_of_text(text: Seq<u8>, padding: Seq<u8>)
    requires
        text_address(text) is Some,
        forall|i: int| 0 <= i < padding.len() ==> is_whitespace(#[trigger] padding[i]),
    ensures
        announced_address(announcement_token() + text + padding) == text_address(text),
{
    let content = announcement_token() + text + padding;
    lemma_port_follows_colon(text);
    lemma_scan_bounds(text, 0, COLON);
    let colon = scan(text, 0, COLON);
    let port = text.subrange(colon + 1, text.len() as int);
    assert(text.last() == port[port.len() - 1]);
    assert(is_digit(port[port.len() - 1]));
    assert(content.skip(5) =~= text + padding);
    lemma_trim_end_padding(text, padding);
}

/// The token, the canonical text of any address and any trailing whitespace
/// make an announcement of exactly that address.
pub proof fn lemma_announcement_gives_address(address: SocketAddress, padding: Seq<u8>)
    requires
        forall|i: int| 0 <= i < padding.len() ==> is_whitespace(#[trigger] padding[i]),
    ensures
        announced_address(announcement_token() + address_text(address) + padding) == Some(address),
{
    lemma_text_round_trip(address);
    lemma_announcement_of_text(address_text(address), padding);
}

/// Content that is accepted starts with the token, and after the first colon
/// of its text holds a port of digits only, at least one.
pub proof fn lemma_accepted_announcement(content: Seq<u8>)
    requires
        announced_address(content) is Some,
    ensures
        announcement_token().is_prefix_of(content),
        ({
            let text = announced_text(content);
            let colon = scan(text, 0, COLON);
            &&& colon + 1 < text.len()
            &&& forall|i: int| colon < i < text.len() ==> is_digit(#[trigger] text[i])
        }),
{
    let text = announced_text(content);
    lemma_port_follows_colon(text);
    lemma_scan_bounds(text, 0, COLON);
    let colon = scan(text, 0, COLON);
    let port = text.subrange(colon + 1, text.len() as int);
    assert forall|i: int| colon < i < text.len() implies is_digit(#[trigger] text[i]) by {
        assert(text[i] == port[i - colon - 1]);
    }
}

/// What one reading of the announcement file leads to.
#[derive(Clone, Copy, Debug, PartialEq, Eq, Structural)]
pub enum Poll {
    /// The control port is known.
    Located(SocketAddress),
    /// Nothing usable yet: wait this many milliseconds and read again.
    Wait(u64),
}

/// Looks for the control port, one reading of the announcement file at a time.
///
/// A locator made with `unbounded` waits for as long as it takes. One made
/// with `bounded` gives up once its attempts are used up.
#[derive(Clone, Copy, Debug, PartialEq, Eq, Structural)]
pub struct Locator {
    /// The attempts that are left; `None` where they are not counted.
    pub remaining: Option<u64>,
}

/// The address that a reading announces, if it announces one. A reading is
/// the content of the announcement file, or `None` where the file could not
/// be read.
pub open spec fn reading_address(reading: Option<Seq<u8>>) -> Option<SocketAddress> {
    match reading {
        Some(content) => announced_address(content),
        None => None,
    }
}

/// What a reading leads to.
///
/// A reading that announces an address locates the control port, whatever
/// attempts are left. Any other reading costs one attempt: it leads to a
/// wait of `POLL_INTERVAL_MILLIS`, or to `DiscoveryTimeout` where it was
/// the last attempt allowed.
pub open spec fn observed(locator: Locator, reading: Option<Seq<u8>>) -> Result<
    Poll,
    BootstrapError,
> {
    match reading_address(reading) {
        Some(address) => Ok(Poll::Located(address)),
        None => match locator.remaining {
            Some(left) if left <= 1 => Err(BootstrapError::DiscoveryTimeout),
            _ => Ok(Poll::Wait(POLL_INTERVAL_MILLIS)),
        },
    }
}

/// The locator after a reading.
pub open spec fn after_reading(locator: Locator, reading: Option<Seq<u8>>) -> Locator {
    match reading_address(reading) {
        Some(address) => locator,
        None => match locator.remaining {
            Some(left) => Locator {
                remaining: Some(
                    if left <= 1 {
                        0u64
                    } else {
                        (left - 1) as u64
                    },
                ),
            },
            None => locator,
        },
    }
}

/// The locator after a run of readings, first to last.
pub open spec fn after_readings(locator: Locator, readings: Seq<Option<Seq<u8>>>) -> Locator
    decreases readings.len(),
{
    if readings.len() == 0 {
        locator
    } else {
        after_reading(after_readings(locator, readings.drop_last()), readings.last())
    }
}

/// A locator that counts no attempts waits through any run of readings
/// without an address, and finds the address of the first reading that
/// announces one.
pub proof fn lemma_unbounded_locator_waits(
    readings: Seq<Option<Seq<u8>>>,
    next: Option<Seq<u8>>,
)
    requires
        forall|i: int| 0 <= i < readings.len() ==> reading_address(#[trigger] readings[i]) is None,
    ensures
        after_readings(Locator { remaining: None }, readings) == (Locator { remaining: None }),
        observed(after_readings(Locator { remaining: None }, readings), next) == (match reading_address(
            next,
        ) {
            Some(address) => Ok::<Poll, BootstrapError>(Poll::Located(address)),
            None => Ok::<Poll, BootstrapError>(Poll::Wait(POLL_INTERVAL_MILLIS)),
        }),
    decreases readings.len(),
{
    if readings.len() > 0 {
        lemma_unbounded_locator_waits(readings.drop_last(), readings.last());
    }
}

/// A locator with `attempts` attempts waits through fewer readings without
/// an address than that, still finds an address in the reading after them,
/// and gives up where the last attempt finds none.
pub proof fn lemma_bounded_locator_gives_up(
    attempts: u64,
    readings: Seq<Option<Seq<u8>>>,
    next: Option<Seq<u8>>,
)
    requires
        readings.len() < attempts,
        forall|i: int| 0 <= i < readings.len() ==> reading_address(#[trigger] readings[i]) is None,
    ensures
        after_readings(Locator { remaining: Some(attempts) }, readings) == (Locator {
            remaining: Some((attempts - readings.len()) as u64),
        }),
        observed(after_readings(Locator { remaining: Some(attempts) }, readings), next) == (match reading_address(
            next,
        ) {
            Some(address) => Ok::<Poll, BootstrapError>(Poll::Located(address)),
            None => if readings.len() + 1 == attempts {
                Err::<Poll, BootstrapError>(BootstrapError::DiscoveryTimeout)
            } else {
                Ok::<Poll, BootstrapError>(Poll::Wait(POLL_INTERVAL_MILLIS))
            },
        }),
    decreases readings.len(),
{
    if readings.len() > 0 {
        lemma_bounded_locator_gives_up(attempts, readings.drop_last(), readings.last());
    }
}

/// The view of a reading that is held as a slice.
pub open spec fn reading_view(reading: Option<&[u8]>) -> Option<Seq<u8>> {
    match reading {
        Some(content) => Some(content@),
        None => None,
    }
}

impl Locator {
    /// A locator that never gives up.
    pub fn unbounded() -> (locator: Locator)
        ensures
            locator.remaining is None,
    {
        Locator { remaining: None }
    }

    /// A locator that gives up after `attempts` readings without an address.
    pub fn bounded(attempts: u64) -> (locator: Locator)
        ensures
            locator.remaining == Some(attempts),
    {
        Locator { remaining: Some(attempts) }
    }

    /// Takes one reading of the announcement file, `None` where the file
    /// could not be read.
    pub fn observe(&mut self, reading: Option<&[u8]>) -> (r: Result<Poll, BootstrapError>)
        ensures
            r == observed(*old(self), reading_view(reading)),
            *final(self) == after_reading(*old(self), reading_view(reading)),
    {
        let found = match reading {
            Some(content) => parse_announcement(content),
            None => None,
        };
        match found {
            Some(address) => Ok(Poll::Located(address)),
            None => match self.remaining {
                None => Ok(Poll::Wait(POLL_INTERVAL_MILLIS)),
                Some(left) => {
                    if left <= 1 {
                        self.remaining = Some(0);
                        Err(BootstrapError::DiscoveryTimeout)
                    } else {
                        self.remaining = Some(left - 1);
                        Ok(Poll::Wait(POLL_INTERVAL_MILLIS))
                    }
                },
            },
        }
    }
}

} // verus!
