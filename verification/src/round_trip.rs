//! The decoder and the wire format agree.
//!
//! [`encode_request`] writes down what a client sends for a target. The
//! laws here say that decoding gives back exactly what was encoded, that
//! nothing but an encoding decodes, and that the host text of a target
//! determines the address bytes it was made from.

use vstd::prelude::*;
use crate::target::{
    address_fits, address_len, address_start, host_text, kind_of, port_of, request_len, spec_parse_request,
    AddressKind, ProtocolError, TargetView, ATYP_DOMAIN, ATYP_IPV4, ATYP_IPV6, CMD_CONNECT,
    SOCKS_VERSION,
};
use crate::text::{
    decimal_text, digit_char, domain_text, dotted_text, grouped_text, hex_byte_text,
};

verus! {

/// The address type byte of a kind of address.
pub open spec fn atyp_of(kind: AddressKind) -> u8 {
    match kind {
        AddressKind::IPv4 => ATYP_IPV4,
        AddressKind::Domain => ATYP_DOMAIN,
        AddressKind::IPv6 => ATYP_IPV6,
    }
}

/// The two bytes of a port, most significant first.
pub open spec fn port_bytes(port: u16) -> Seq<u8> {
    seq![(port / 256) as u8, (port % 256) as u8]
}

/// The address field of a request: the address bytes, behind their
/// length byte where the address is a domain name.
pub open spec fn encode_address(kind: AddressKind, addr: Seq<u8>) -> Seq<u8> {
    match kind {
        AddressKind::Domain => seq![addr.len() as u8] + addr,
        _ => addr,
    }
}

/// The CONNECT request for the given address and port, with reserved
/// byte `rsv`.
pub open spec fn encode_request(kind: AddressKind, addr: Seq<u8>, port: u16, rsv: u8) -> Seq<u8> {
    seq![SOCKS_VERSION, CMD_CONNECT, rsv, atyp_of(kind)] + encode_address(kind, addr) + port_bytes(
        port,
    )
}

/// No character of `s` is a dot.
pub open spec fn dotless(s: Seq<char>) -> bool {
    forall|i: int| 0 <= i < s.len() ==> #[trigger] s[i] != '.'
}

/// Round trip: the request that encodes an address and a port, with
/// anything behind it, decodes to the target of that kind whose host is
/// the text of that address and whose port is that port.
pub proof fn parse_round_trip(
    kind: AddressKind,
    addr: Seq<u8>,
    port: u16,
    rsv: u8,
    rest: Seq<u8>,
)
    requires
        address_fits(kind, addr),
    ensures
        spec_parse_request(encode_request(kind, addr, port, rsv) + rest) == Ok::<
            TargetView,
            ProtocolError,
        >(TargetView { kind, host: host_text(kind, addr), port }),
{
    let b = encode_request(kind, addr, port, rsv) + rest;
    let start = address_start(kind);
    let end = start + address_len(kind, b);
    assert(b[0] == SOCKS_VERSION && b[1] == CMD_CONNECT && b[3] == atyp_of(kind));
    assert(kind_of(b[3]) == Some(kind));
    if kind == AddressKind::Domain {
        assert(b[4] == addr.len() as u8);
    }
    assert(end == start + addr.len());
    assert(b.subrange(start, end) == addr);
    assert(b[end] == (port / 256) as u8);
    assert(b[end + 1] == (port % 256) as u8);
    assert(port_of((port / 256) as u8, (port % 256) as u8) == port);
}

/// Nothing but an encoding decodes: a request that decodes to a target
/// begins with the encoding of some address of the target's kind that
/// has the target's host as its text, and of the target's port.
pub proof fn parsed_request_is_encoding(b: Seq<u8>, t: TargetView)
    requires
        spec_parse_request(b) == Ok::<TargetView, ProtocolError>(t),
    ensures
        ({
            let addr = b.subrange(
                address_start(t.kind),
                address_start(t.kind) + address_len(t.kind, b),
            );
            &&& address_fits(t.kind, addr)
            &&& t.host == host_text(t.kind, addr)
            &&& request_len(t.kind, b) <= b.len()
            &&& b.take(request_len(t.kind, b)) == encode_request(t.kind, addr, t.port, b[2])
        }),
{
    let kind = t.kind;
    let start = address_start(kind);
    let end = start + address_len(kind, b);
    let addr = b.subrange(start, end);
    let hi = b[end];
    let lo = b[end + 1];
    assert(t.port == port_of(hi, lo));
    assert((t.port / 256) as u8 == hi && (t.port % 256) as u8 == lo);
    assert(b.take(request_len(kind, b)) =~= encode_request(kind, addr, t.port, b[2]));
}

/// Two bytes spell one port, and every port is spelt by its two bytes.
pub proof fn port_is_exact(h1: u8, l1: u8, h2: u8, l2: u8, port: u16)
    ensures
        port_of(h1, l1) == port_of(h2, l2) ==> h1 == h2 && l1 == l2,
        port_of((port / 256) as u8, (port % 256) as u8) == port,
{
}

/// Digits are told apart by their characters, and none is a dot or a
/// colon.
proof fn digit_chars_differ(d: int, e: int)
    requires
        0 <= d < 16,
        0 <= e < 16,
    ensures
        digit_char(d) == digit_char(e) ==> d == e,
        digit_char(d) != '.',
        digit_char(d) != ':',
{
}

/// The decimal numeral of a byte, written out.
proof fn decimal_text_of_byte(n: u8)
    ensures
        n < 10 ==> decimal_text(n as nat) == seq![digit_char(n as int)],
        10 <= n < 100 ==> decimal_text(n as nat) == seq![
            digit_char(n as int / 10),
            digit_char(n as int % 10),
        ],
        100 <= n ==> decimal_text(n as nat) == seq![
            digit_char(n as int / 100),
            digit_char(n as int / 10 % 10),
            digit_char(n as int % 10),
        ],
        dotless(decimal_text(n as nat)),
        1 <= decimal_text(n as nat).len() <= 3,
{
    reveal_with_fuel(decimal_text, 3);
    digit_chars_differ(n as int % 10, 0);
    digit_chars_differ(n as int / 10 % 10, 0);
    digit_chars_differ(n as int / 100, 0);
    if n < 100 {
        digit_chars_differ(n as int / 10, 0);
    }
}

/// A byte is told by its decimal numeral.
proof fn decimal_text_is_exact(m: u8, n: u8)
    requires
        decimal_text(m as nat) == decimal_text(n as nat),
    ensures
        m == n,
{
    decimal_text_of_byte(m);
    decimal_text_of_byte(n);
    let s = decimal_text(m as nat);
    let t = decimal_text(n as nat);
    assert(s.len() == t.len());
    assert(m < 10 <==> s.len() == 1);
    assert(10 <= m < 100 <==> s.len() == 2);
    assert(n < 10 <==> t.len() == 1);
    assert(10 <= n < 100 <==> t.len() == 2);
    if m < 10 {
        assert(s[0] == digit_char(m as int) && t[0] == digit_char(n as int));
        digit_chars_differ(m as int, n as int);
    } else if m < 100 {
        assert(s[0] == digit_char(m as int / 10) && t[0] == digit_char(n as int / 10));
        assert(s[1] == digit_char(m as int % 10) && t[1] == digit_char(n as int % 10));
        digit_chars_differ(m as int / 10, n as int / 10);
        digit_chars_differ(m as int % 10, n as int % 10);
    } else {
        assert(s[0] == digit_char(m as int / 100) && t[0] == digit_char(n as int / 100));
        assert(s[1] == digit_char(m as int / 10 % 10) && t[1] == digit_char(n as int / 10 % 10));
        assert(s[2] == digit_char(m as int % 10) && t[2] == digit_char(n as int % 10));
        digit_chars_differ(m as int / 100, n as int / 100);
        digit_chars_differ(m as int / 10 % 10, n as int / 10 % 10);
        digit_chars_differ(m as int % 10, n as int % 10);
    }
}

/// A byte is told by its two hexadecimal digits.
proof fn hex_byte_text_is_exact(m: u8, n: u8)
    requires
        hex_byte_text(m) == hex_byte_text(n),
    ensures
        m == n,
{
    let s = hex_byte_text(m);
    let t = hex_byte_text(n);
    assert(s[0] == t[0] && s[1] == t[1]);
    digit_chars_differ(m as int / 16, n as int / 16);
    digit_chars_differ(m as int % 16, n as int % 16);
}

/// Two texts that end in a dot and a dotless part are equal only if the
/// parts before the dot are equal and the parts behind it are.
proof fn split_at_last_dot(p: Seq<char>, x: Seq<char>, q: Seq<char>, y: Seq<char>)
    requires
        p.push('.') + x == q.push('.') + y,
        dotless(x),
        dotless(y),
    ensures
        p == q,
        x == y,
{
    let s = p.push('.') + x;
    let t = q.push('.') + y;
    assert(s.len() == p.len() + 1 + x.len());
    assert(t.len() == q.len() + 1 + y.len());
    if p.len() < q.len() {
        // where the second text has its last dot, the first has a
        // character of `x`
        assert(t[q.len() as int] == '.');
        assert(s[q.len() as int] == x[q.len() - p.len() - 1]);
    } else if q.len() < p.len() {
        assert(s[p.len() as int] == '.');
        assert(t[p.len() as int] == y[p.len() - q.len() - 1]);
    }
    assert(p.len() == q.len());
    assert forall|i: int| 0 <= i < p.len() implies p[i] == q[i] by {
        assert(s[i] == p[i]);
        assert(t[i] == q[i]);
    }
    assert(p =~= q);
    assert forall|i: int| 0 <= i < x.len() implies x[i] == y[i] by {
        assert(s[p.len() + 1 + i] == x[i]);
        assert(t[q.len() + 1 + i] == y[i]);
    }
    assert(x =~= y);
}

/// Two texts of equal length that are split at the same place are equal
/// only part by part.
proof fn split_at_same_place(p: Seq<char>, x: Seq<char>, q: Seq<char>, y: Seq<char>)
    requires
        p + x == q + y,
        p.len() == q.len(),
    ensures
        p == q,
        x == y,
{
    let s = p + x;
    let t = q + y;
    assert(s.len() == p.len() + x.len());
    assert(t.len() == q.len() + y.len());
    assert forall|i: int| 0 <= i < p.len() implies p[i] == q[i] by {
        assert(s[i] == p[i]);
        assert(t[i] == q[i]);
    }
    assert(p =~= q);
    assert forall|i: int| 0 <= i < x.len() implies x[i] == y[i] by {
        assert(s[p.len() + i] == x[i]);
        assert(t[q.len() + i] == y[i]);
    }
    assert(x =~= y);
}

/// Bytes are told by their dotted decimal text.
proof fn dotted_text_is_exact(a: Seq<u8>, b: Seq<u8>, count: nat)
    requires
        count <= a.len(),
        count <= b.len(),
        dotted_text(a, count) == dotted_text(b, count),
    ensures
        forall|i: int| 0 <= i < count ==> a[i] == b[i],
    decreases count,
{
    if count == 1 {
        decimal_text_is_exact(a[0], b[0]);
    } else if count >= 2 {
        let before = (count - 1) as nat;
        decimal_text_of_byte(a[count - 1]);
        decimal_text_of_byte(b[count - 1]);
        split_at_last_dot(
            dotted_text(a, before),
            decimal_text(a[count - 1] as nat),
            dotted_text(b, before),
            decimal_text(b[count - 1] as nat),
        );
        decimal_text_is_exact(a[count - 1], b[count - 1]);
        dotted_text_is_exact(a, b, before);
    }
}

/// The text of `count` groups is five characters to the group, less the
/// colon that the first one lacks.
proof fn grouped_text_len(a: Seq<u8>, count: nat)
    ensures
        grouped_text(a, count).len() == if count == 0 {
            0
        } else {
            5 * count - 1
        },
    decreases count,
{
    if count >= 2 {
        grouped_text_len(a, (count - 1) as nat);
    }
}

/// Bytes are told by their grouped hexadecimal text.
proof fn grouped_text_is_exact(a: Seq<u8>, b: Seq<u8>, count: nat)
    requires
        2 * count <= a.len(),
        2 * count <= b.len(),
        grouped_text(a, count) == grouped_text(b, count),
    ensures
        forall|i: int| 0 <= i < 2 * count ==> a[i] == b[i],
    decreases count,
{
    if count == 1 {
        split_at_same_place(
            hex_byte_text(a[0]),
            hex_byte_text(a[1]),
            hex_byte_text(b[0]),
            hex_byte_text(b[1]),
        );
        hex_byte_text_is_exact(a[0], b[0]);
        hex_byte_text_is_exact(a[1], b[1]);
    } else if count >= 2 {
        let before = (count - 1) as nat;
        grouped_text_len(a, before);
        grouped_text_len(b, before);
        let pa = grouped_text(a, before).push(':') + hex_byte_text(a[2 * count - 2]);
        let pb = grouped_text(b, before).push(':') + hex_byte_text(b[2 * count - 2]);
        split_at_same_place(
            pa,
            hex_byte_text(a[2 * count - 1]),
            pb,
            hex_byte_text(b[2 * count - 1]),
        );
        split_at_same_place(
            grouped_text(a, before).push(':'),
            hex_byte_text(a[2 * count - 2]),
            grouped_text(b, before).push(':'),
            hex_byte_text(b[2 * count - 2]),
        );
        assert(grouped_text(a, before) == grouped_text(a, before).push(':').drop_last());
        assert(grouped_text(b, before) == grouped_text(b, before).push(':').drop_last());
        hex_byte_text_is_exact(a[2 * count - 2], b[2 * count - 2]);
        hex_byte_text_is_exact(a[2 * count - 1], b[2 * count - 1]);
        grouped_text_is_exact(a, b, before);
    }
}

/// The host of a target equals the encoded address exactly: two
/// addresses of one kind that have the same host text are the same
/// bytes.
pub proof fn host_text_is_exact(kind: AddressKind, a: Seq<u8>, b: Seq<u8>)
    requires
        address_fits(kind, a),
        address_fits(kind, b),
        host_text(kind, a) == host_text(kind, b),
    ensures
        a == b,
{
    match kind {
        AddressKind::IPv4 => {
            dotted_text_is_exact(a, b, 4);
        },
        AddressKind::IPv6 => {
            grouped_text_is_exact(a, b, 8);
        },
        AddressKind::Domain => {
            assert(domain_text(a).len() == domain_text(b).len());
            assert forall|i: int| 0 <= i < a.len() implies a[i] == b[i] by {
                assert(domain_text(a)[i] == domain_text(b)[i]);
            }
        },
    }
    assert(a =~= b);
}

/// Decoding loses nothing: two requests that decode to the same target
/// encode the same kind of address, the same address bytes and the same
/// port.
pub proof fn equal_targets_have_equal_requests(
    k1: AddressKind,
    a1: Seq<u8>,
    p1: u16,
    k2: AddressKind,
    a2: Seq<u8>,
    p2: u16,
)
    requires
        address_fits(k1, a1),
        address_fits(k2, a2),
        spec_parse_request(encode_request(k1, a1, p1, 0)) == spec_parse_request(
            encode_request(k2, a2, p2, 0),
        ),
    ensures
        k1 == k2,
        a1 == a2,
        p1 == p2,
{
    parse_round_trip(k1, a1, p1, 0, Seq::empty());
    parse_round_trip(k2, a2, p2, 0, Seq::empty());
    assert(encode_request(k1, a1, p1, 0) + Seq::<u8>::empty() == encode_request(k1, a1, p1, 0));
    assert(encode_request(k2, a2, p2, 0) + Seq::<u8>::empty() == encode_request(k2, a2, p2, 0));
    host_text_is_exact(k1, a1, a2);
}

} // verus!
