//! Socket addresses in their textual form, `a.b.c.d:port`.
//!
//! Texts are byte sequences. An address text has four decimal host fields of
//! one to three digits each, none above 255 and none with a superfluous
//! leading zero, separated by dots, then a colon and a decimal port of at
//! least one digit, none above 65535.

use vstd::prelude::*;

verus! {

/// The four numbers of an IPv4 host, first to last.
#[derive(Clone, Copy, Debug, PartialEq, Eq, Structural)]
pub struct HostAddress(pub u8, pub u8, pub u8, pub u8);

/// A TCP endpoint: an IPv4 host and a port.
#[derive(Clone, Copy, Debug, PartialEq, Eq, Structural)]
pub struct SocketAddress {
    pub host: HostAddress,
    pub port: u16,
}

pub const DOT: u8 = 0x2e;

pub const COLON: u8 = 0x3a;

pub const ZERO: u8 = 0x30;

pub open spec fn is_digit(b: u8) -> bool {
    0x30 <= b <= 0x39
}

pub open spec fn all_digits(s: Seq<u8>) -> bool {
    forall|i: int| 0 <= i < s.len() ==> is_digit(#[trigger] s[i])
}

/// The number that a sequence of decimal digits denotes, most significant first.
pub open spec fn decimal_value(s: Seq<u8>) -> nat
    decreases s.len(),
{
    if s.len() == 0 {
        0
    } else {
        decimal_value(s.drop_last()) * 10 + (s.last() - ZERO) as nat
    }
}

/// The shortest decimal text that denotes `n`.
pub open spec fn decimal_text(n: nat) -> Seq<u8>
    decreases n,
{
    if n < 10 {
        seq![(ZERO + n) as u8]
    } else {
        decimal_text(n / 10).push((ZERO + n % 10) as u8)
    }
}

/// A host field: one to three digits, no leading zero before another digit, at most 255.
pub open spec fn is_octet_text(s: Seq<u8>) -> bool {
    &&& 1 <= s.len() <= 3
    &&& all_digits(s)
    &&& (s.len() > 1 ==> s[0] != ZERO)
    &&& decimal_value(s) <= 255
}

/// A port field: at least one digit, at most 65535. Leading zeros are allowed.
pub open spec fn is_port_text(s: Seq<u8>) -> bool {
    &&& s.len() >= 1
    &&& all_digits(s)
    &&& decimal_value(s) <= 65535
}

/// The position of the first `sep` at or after `start`, or the length of the
/// text where there is none.
pub open spec fn scan(text: Seq<u8>, start: int, sep: u8) -> int
    decreases text.len() - start,
{
    if start < 0 || start >= text.len() {
        text.len() as int
    } else if text[start] == sep {
        start
    } else {
        scan(text, start + 1, sep)
    }
}

/// The address that a text denotes, if it is an address text.
pub open spec fn text_address(text: Seq<u8>) -> Option<SocketAddress> {
    let e0 = scan(text, 0, DOT);
    let e1 = scan(text, e0 + 1, DOT);
    let e2 = scan(text, e1 + 1, DOT);
    let e3 = scan(text, e2 + 1, COLON);
    let a = text.subrange(0, e0);
    let b = text.subrange(e0 + 1, e1);
    let c = text.subrange(e1 + 1, e2);
    let d = text.subrange(e2 + 1, e3);
    let p = text.subrange(e3 + 1, text.len() as int);
    if e3 < text.len() && is_octet_text(a) && is_octet_text(b) && is_octet_text(c)
        && is_octet_text(d) && is_port_text(p) {
        Some(
            SocketAddress {
                host: HostAddress(
                    decimal_value(a) as u8,
                    decimal_value(b) as u8,
                    decimal_value(c) as u8,
                    decimal_value(d) as u8,
                ),
                port: decimal_value(p) as u16,
            },
        )
    } else {
        None
    }
}

/// Five fields joined by three dots and a colon.
pub open spec fn joined(a: Seq<u8>, b: Seq<u8>, c: Seq<u8>, d: Seq<u8>, p: Seq<u8>) -> Seq<u8> {
    a.push(DOT) + b.push(DOT) + c.push(DOT) + d.push(COLON) + p
}

/// The canonical text of an address.
pub open spec fn address_text(address: SocketAddress) -> Seq<u8> {
    joined(
        decimal_text(address.host.0 as nat),
        decimal_text(address.host.1 as nat),
        decimal_text(address.host.2 as nat),
        decimal_text(address.host.3 as nat),
        decimal_text(address.port as nat),
    )
}

pub proof fn lemma_scan_bounds(text: Seq<u8>, start: int, sep: u8)
    requires
        0 <= start <= text.len(),
    ensures
        start <= scan(text, start, sep) <= text.len(),
        scan(text, start, sep) < text.len() ==> text[scan(text, start, sep)] == sep,
        forall|j: int| start <= j < scan(text, start, sep) ==> text[j] != sep,
    decreases text.len() - start,
{
    if start < text.len() && text[start] != sep {
        lemma_scan_bounds(text, start + 1, sep);
    }
}

/// A position with no `sep` before it, back to `start`, which holds `sep`
/// or is the end of the text, is where the scan from `start` stops.
pub proof fn lemma_scan_stops(text: Seq<u8>, start: int, sep: u8, stop: int)
    requires
        0 <= start <= stop <= text.len(),
        forall|j: int| start <= j < stop ==> text[j] != sep,
        stop < text.len() ==> text[stop] == sep,
    ensures
        scan(text, start, sep) == stop,
    decreases stop - start,
{
    if start < stop {
        lemma_scan_stops(text, start + 1, sep, stop);
    }
}

/// Among digit sequences a prefix never denotes more than the whole.
pub proof fn lemma_decimal_value_prefix(s: Seq<u8>, k: int)
    requires
        all_digits(s),
        0 <= k <= s.len(),
    ensures
        decimal_value(s.take(k)) <= decimal_value(s),
    decreases s.len() - k,
{
    if k < s.len() {
        lemma_decimal_value_prefix(s, k + 1);
        let longer = s.take(k + 1);
        assert(longer.drop_last() =~= s.take(k));
        assert(is_digit(s[k]));
        assert(longer.last() == s[k]);
    } else {
        assert(s.take(k) =~= s);
    }
}

/// The position of the first `sep` at or after `start`, or the end of the text.
fn find(text: &[u8], start: usize, sep: u8) -> (stop: usize)
    requires
        start <= text.len(),
    ensures
        start <= stop <= text.len(),
        stop == scan(text@, start as int, sep),
{
    let mut i: usize = start;
    while i < text.len() && text[i] != sep
        invariant
            start <= i <= text.len(),
            forall|j: int| start <= j < i ==> text@[j] != sep,
        decreases text.len() - i,
    {
        i += 1;
    }
    proof {
        lemma_scan_stops(text@, start as int, sep, i as int);
    }
    i
}

/// Reads `text[start..end)` as a decimal number of at least one digit that
/// does not exceed `limit`.
fn read_number(text: &[u8], start: usize, end: usize, limit: u32) -> (r: Option<u32>)
    requires
        start <= end <= text.len(),
        limit <= 65535,
    ensures
        r == ({
            let field = text@.subrange(start as int, end as int);
            if field.len() >= 1 && all_digits(field) && decimal_value(field) <= limit {
                Some(decimal_value(field) as u32)
            } else {
                None
            }
        }),
{
    if start == end {
        return None;
    }
    let ghost field = text@.subrange(start as int, end as int);
    let mut value: u32 = 0;
    let mut i: usize = start;
    while i < end
        invariant
            start <= i <= end <= text.len(),
            limit <= 65535,
            value <= limit,
            field == text@.subrange(start as int, end as int),
            all_digits(field.take(i - start)),
            value == decimal_value(field.take(i - start)),
        decreases end - i,
    {
        let b = text[i];
        if b < 0x30 || b > 0x39 {
            assert(field[i - start] == b);
            return None;
        }
        value = value * 10 + (b - 0x30) as u32;
        proof {
            let longer = field.take(i - start + 1);
            assert(longer.drop_last() =~= field.take(i - start));
            assert(longer.last() == b);
            assert forall|j: int| 0 <= j < longer.len() implies is_digit(#[trigger] longer[j]) by {
                if j < i - start {
                    assert(longer[j] == field.take(i - start)[j]);
                }
            }
            if all_digits(field) {
                lemma_decimal_value_prefix(field, i - start + 1);
            }
        }
        if value > limit {
            return None;
        }
        i += 1;
    }
    assert(field.take(i - start) =~= field);
    Some(value)
}

/// Reads `text[start..end)` as a host field.
fn read_octet(text: &[u8], start: usize, end: usize) -> (r: Option<u8>)
    requires
        start <= end <= text.len(),
    ensures
        r == ({
            let field = text@.subrange(start as int, end as int);
            if is_octet_text(field) {
                Some(decimal_value(field) as u8)
            } else {
                None
            }
        }),
{
    if end - start > 3 {
        return None;
    }
    if end - start > 1 && text[start] == ZERO {
        return None;
    }
    match read_number(text, start, end, 255) {
        Some(value) => Some(value as u8),
        None => None,
    }
}

/// Reads `text[start..end)` as a port field.
fn read_port(text: &[u8], start: usize, end: usize) -> (r: Option<u16>)
    requires
        start <= end <= text.len(),
    ensures
        r == ({
            let field = text@.subrange(start as int, end as int);
            if is_port_text(field) {
                Some(decimal_value(field) as u16)
            } else {
                None
            }
        }),
{
    match read_number(text, start, end, 65535) {
        Some(value) => Some(value as u16),
        None => None,
    }
}

/// Parses an address text. Returns the address that the text denotes, and
/// `None` for every text that is no address text.
pub fn parse_socket_address(text: &[u8]) -> (r: Option<SocketAddress>)
    ensures
        r == text_address(text@),
{
    let n = text.len();
    let e0 = find(text, 0, DOT);
    if e0 >= n {
        return None;
    }
    let e1 = find(text, e0 + 1, DOT);
    if e1 >= n {
        return None;
    }
    let e2 = find(text, e1 + 1, DOT);
    if e2 >= n {
        return None;
    }
    let e3 = find(text, e2 + 1, COLON);
    if e3 >= n {
        return None;
    }
    let a = read_octet(text, 0, e0);
    let b = read_octet(text, e0 + 1, e1);
    let c = read_octet(text, e1 + 1, e2);
    let d = read_octet(text, e2 + 1, e3);
    let p = read_port(text, e3 + 1, n);
    match (a, b, c, d, p) {
        (Some(a), Some(b), Some(c), Some(d), Some(p)) => Some(
            SocketAddress { host: HostAddress(a, b, c, d), port: p },
        ),
        _ => None,
    }
}

/// The canonical decimal text of a number is made of digits, denotes that
/// number, and has no leading zero before another digit.
pub proof fn lemma_decimal_text(n: nat)
    ensures
        decimal_text(n).len() >= 1,
        all_digits(decimal_text(n)),
        decimal_value(decimal_text(n)) == n,
        decimal_text(n).len() > 1 ==> decimal_text(n)[0] != ZERO,
        n < 10 ==> decimal_text(n).len() == 1,
        10 <= n < 100 ==> decimal_text(n).len() == 2,
        100 <= n < 1000 ==> decimal_text(n).len() == 3,
    decreases n,
{
    let text = decimal_text(n);
    if n < 10 {
        assert(text.drop_last() =~= Seq::<u8>::empty());
        assert(decimal_value(text.drop_last()) == 0);
    } else {
        lemma_decimal_text(n / 10);
        let shorter = decimal_text(n / 10);
        assert(text.drop_last() =~= shorter);
        assert(text.last() == (ZERO + n % 10) as u8);
        assert forall|i: int| 0 <= i < text.len() implies is_digit(#[trigger] text[i]) by {
            if i < shorter.len() {
                assert(text[i] == shorter[i]);
            }
        }
        assert(text[0] == shorter[0]);
        if shorter.len() == 1 {
            assert(decimal_value(shorter.drop_last()) == 0);
        }
    }
}

/// Four host fields and a port field, joined by three dots and a colon,
/// denote the address made of the numbers of the fields.
pub proof fn lemma_fields_denote(a: Seq<u8>, b: Seq<u8>, c: Seq<u8>, d: Seq<u8>, p: Seq<u8>)
    requires
        is_octet_text(a),
        is_octet_text(b),
        is_octet_text(c),
        is_octet_text(d),
        is_port_text(p),
    ensures
        text_address(joined(a, b, c, d, p)) == Some(
            SocketAddress {
                host: HostAddress(
                    decimal_value(a) as u8,
                    decimal_value(b) as u8,
                    decimal_value(c) as u8,
                    decimal_value(d) as u8,
                ),
                port: decimal_value(p) as u16,
            },
        ),
{
    let text = joined(a, b, c, d, p);
    let e0 = a.len() as int;
    let e1 = e0 + 1 + b.len();
    let e2 = e1 + 1 + c.len();
    let e3 = e2 + 1 + d.len();
    assert(text.len() == e3 + 1 + p.len());
    assert forall|j: int| 0 <= j < e0 implies text[j] != DOT by {
        assert(text[j] == a[j]);
    }
    assert(text[e0] == DOT);
    lemma_scan_stops(text, 0, DOT, e0);
    assert forall|j: int| e0 + 1 <= j < e1 implies text[j] != DOT by {
        assert(text[j] == b[j - e0 - 1]);
    }
    assert(text[e1] == DOT);
    lemma_scan_stops(text, e0 + 1, DOT, e1);
    assert forall|j: int| e1 + 1 <= j < e2 implies text[j] != DOT by {
        assert(text[j] == c[j - e1 - 1]);
    }
    assert(text[e2] == DOT);
    lemma_scan_stops(text, e1 + 1, DOT, e2);
    assert forall|j: int| e2 + 1 <= j < e3 implies text[j] != COLON by {
        assert(text[j] == d[j - e2 - 1]);
    }
    assert(text[e3] == COLON);
    lemma_scan_stops(text, e2 + 1, COLON, e3);
    assert(text.subrange(0, e0) =~= a);
    assert(text.subrange(e0 + 1, e1) =~= b);
    assert(text.subrange(e1 + 1, e2) =~= c);
    assert(text.subrange(e2 + 1, e3) =~= d);
    assert(text.subrange(e3 + 1, text.len() as int) =~= p);
}

/// A text that denotes an address is made of four host fields and a port
/// field, joined by three dots and a colon.
pub proof fn lemma_denoting_text_is_joined(text: Seq<u8>)
    requires
        text_address(text) is Some,
    ensures
        exists|a: Seq<u8>, b: Seq<u8>, c: Seq<u8>, d: Seq<u8>, p: Seq<u8>|
            {
                &&& #[trigger] joined(a, b, c, d, p) == text
                &&& is_octet_text(a)
                &&& is_octet_text(b)
                &&& is_octet_text(c)
                &&& is_octet_text(d)
                &&& is_port_text(p)
            },
{
    let e0 = scan(text, 0, DOT);
    lemma_scan_bounds(text, 0, DOT);
    let e1 = scan(text, e0 + 1, DOT);
    lemma_scan_bounds(text, e0 + 1, DOT);
    let e2 = scan(text, e1 + 1, DOT);
    lemma_scan_bounds(text, e1 + 1, DOT);
    let e3 = scan(text, e2 + 1, COLON);
    lemma_scan_bounds(text, e2 + 1, COLON);
    let a = text.subrange(0, e0);
    let b = text.subrange(e0 + 1, e1);
    let c = text.subrange(e1 + 1, e2);
    let d = text.subrange(e2 + 1, e3);
    let p = text.subrange(e3 + 1, text.len() as int);
    assert(joined(a, b, c, d, p) =~= text);
}

/// Reading the canonical text of an address gives that address back.
pub proof fn lemma_text_round_trip(address: SocketAddress)
    ensures
        text_address(address_text(address)) == Some(address),
{
    lemma_decimal_text(address.host.0 as nat);
    lemma_decimal_text(address.host.1 as nat);
    lemma_decimal_text(address.host.2 as nat);
    lemma_decimal_text(address.host.3 as nat);
    lemma_decimal_text(address.port as nat);
    lemma_fields_denote(
        decimal_text(address.host.0 as nat),
        decimal_text(address.host.1 as nat),
        decimal_text(address.host.2 as nat),
        decimal_text(address.host.3 as nat),
        decimal_text(address.port as nat),
    );
}

/// In an address text the first colon stands before the port, and the port
/// is all that follows it.
pub proof fn lemma_port_follows_colon(text: Seq<u8>)
    requires
        text_address(text) is Some,
    ensures
        scan(text, 0, COLON) < text.len(),
        is_port_text(text.subrange(scan(text, 0, COLON) + 1, text.len() as int)),
        text_address(text)->0.port == decimal_value(
            text.subrange(scan(text, 0, COLON) + 1, text.len() as int),
        ),
{
    let e0 = scan(text, 0, DOT);
    lemma_scan_bounds(text, 0, DOT);
    let e1 = scan(text, e0 + 1, DOT);
    lemma_scan_bounds(text, e0 + 1, DOT);
    let e2 = scan(text, e1 + 1, DOT);
    lemma_scan_bounds(text, e1 + 1, DOT);
    let e3 = scan(text, e2 + 1, COLON);
    lemma_scan_bounds(text, e2 + 1, COLON);
    let a = text.subrange(0, e0);
    let b = text.subrange(e0 + 1, e1);
    let c = text.subrange(e1 + 1, e2);
    assert forall|j: int| 0 <= j < e3 implies text[j] != COLON by {
        if j < e0 {
            assert(is_digit(a[j]));
        } else if e0 < j < e1 {
            assert(is_digit(b[j - e0 - 1]));
        } else if e1 < j < e2 {
            assert(is_digit(c[j - e1 - 1]));
        }
    }
    lemma_scan_stops(text, 0, COLON, e3);
}

/// Appends the canonical decimal text of `n`.
fn push_decimal(out: &mut Vec<u8>, n: u16)
    ensures
        final(out)@ == old(out)@ + decimal_text(n as nat),
    decreases n,
{
    if n >= 10 {
        push_decimal(out, n / 10);
    }
    out.push(ZERO + (n % 10) as u8);
    assert(out@ =~= old(out)@ + decimal_text(n as nat));
}

/// The canonical decimal text of a port number.
pub fn port_text(port: u16) -> (text: Vec<u8>)
    ensures
        text@ == decimal_text(port as nat),
{
    let mut text: Vec<u8> = Vec::new();
    push_decimal(&mut text, port);
    assert(text@ =~= decimal_text(port as nat));
    text
}

impl SocketAddress {
    /// The canonical text of the address, as `parse_socket_address` reads it.
    pub fn to_text(&self) -> (text: Vec<u8>)
        ensures
            text@ == address_text(*self),
    {
        let mut text: Vec<u8> = Vec::new();
        push_decimal(&mut text, self.host.0 as u16);
        text.push(DOT);
        push_decimal(&mut text, self.host.1 as u16);
        text.push(DOT);
        push_decimal(&mut text, self.host.2 as u16);
        text.push(DOT);
        push_decimal(&mut text, self.host.3 as u16);
        text.push(COLON);
        push_decimal(&mut text, self.port);
        assert(text@ =~= address_text(*self));
        text
    }
}

} // verus!
