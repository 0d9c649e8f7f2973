//! The target of a SOCKS5 CONNECT request and its decoding from the wire.
//!
//! A request is `VER CMD RSV ATYP DST.ADDR DST.PORT`. The address is four
//! bytes (IPv4), sixteen bytes (IPv6) or a length byte followed by that many
//! name bytes (domain); the port is two bytes, most significant first.
//! Bytes after the port are not part of the request and are not looked at.

use vstd::prelude::*;
use crate::text::{domain_string, domain_text, ipv4_string, ipv4_text, ipv6_string, ipv6_text};

verus! {

/// Protocol version byte of SOCKS5.
pub const SOCKS_VERSION: u8 = 0x05;

/// Command byte of CONNECT, the one command that is served.
pub const CMD_CONNECT: u8 = 0x01;

/// Address type byte of an IPv4 address.
pub const ATYP_IPV4: u8 = 0x01;

/// Address type byte of a domain name.
pub const ATYP_DOMAIN: u8 = 0x03;

/// Address type byte of an IPv6 address.
pub const ATYP_IPV6: u8 = 0x04;

/// How the host of a target was given on the wire.
#[derive(Clone, Copy, Debug, PartialEq, Eq, Structural)]
pub enum AddressKind {
    IPv4,
    IPv6,
    Domain,
}

/// Why a client's message was refused.
#[derive(Clone, Copy, Debug, PartialEq, Eq, Structural)]
pub enum ProtocolError {
    /// The version byte is not `0x05`.
    UnsupportedVersion,
    /// The command byte is not CONNECT.
    UnsupportedCommand,
    /// The address type byte is none of IPv4, domain, IPv6.
    UnsupportedAddressType,
    /// The message ends before the field that is due.
    Truncated,
}

/// Where a client asks to be connected.
#[derive(Clone, Debug, PartialEq, Eq)]
pub struct Target {
    pub kind: AddressKind,
    pub host: String,
    pub port: u16,
}

/// A target as a mathematical value.
pub struct TargetView {
    pub kind: AddressKind,
    pub host: Seq<char>,
    pub port: u16,
}

impl TargetView {
    /// The host is the text of some address that the kind admits.
    pub open spec fn well_formed(self) -> bool {
        exists|addr: Seq<u8>| address_fits(self.kind, addr) && self.host == host_text(self.kind, addr)
    }
}

impl View for Target {
    type V = TargetView;

    open spec fn view(&self) -> TargetView {
        TargetView { kind: self.kind, host: self.host@, port: self.port }
    }
}

/// The kind of address that an address type byte announces, if any.
pub open spec fn kind_of(atyp: u8) -> Option<AddressKind> {
    if atyp == ATYP_IPV4 {
        Some(AddressKind::IPv4)
    } else if atyp == ATYP_DOMAIN {
        Some(AddressKind::Domain)
    } else if atyp == ATYP_IPV6 {
        Some(AddressKind::IPv6)
    } else {
        None
    }
}

/// Whether `addr` has a length that an address of the given kind can
/// have: four bytes, sixteen bytes, or what one length byte can count.
pub open spec fn address_fits(kind: AddressKind, addr: Seq<u8>) -> bool {
    match kind {
        AddressKind::IPv4 => addr.len() == 4,
        AddressKind::IPv6 => addr.len() == 16,
        AddressKind::Domain => addr.len() <= 255,
    }
}

/// Index of the first address byte in a request of the given kind: a
/// domain name is preceded by its length byte.
pub open spec fn address_start(kind: AddressKind) -> int {
    match kind {
        AddressKind::Domain => 5,
        _ => 4,
    }
}

/// Number of address bytes that the request `b` of the given kind
/// announces. A domain request too short to hold its length byte
/// announces none.
pub open spec fn address_len(kind: AddressKind, b: Seq<u8>) -> int {
    match kind {
        AddressKind::IPv4 => 4,
        AddressKind::IPv6 => 16,
        AddressKind::Domain => if b.len() > 4 {
            b[4] as int
        } else {
            0
        },
    }
}

/// Number of bytes that the request `b` of the given kind takes up, port
/// included.
pub open spec fn request_len(kind: AddressKind, b: Seq<u8>) -> int {
    address_start(kind) + address_len(kind, b) + 2
}

/// The port that two bytes spell, most significant byte first.
pub open spec fn port_of(high: u8, low: u8) -> u16 {
    (high as int * 256 + low as int) as u16
}

/// Host text of the address bytes `addr` of the given kind.
pub open spec fn host_text(kind: AddressKind, addr: Seq<u8>) -> Seq<char> {
    match kind {
        AddressKind::IPv4 => ipv4_text(addr),
        AddressKind::IPv6 => ipv6_text(addr),
        AddressKind::Domain => domain_text(addr),
    }
}

/// What a request decodes to.
///
/// The fields are examined in wire order and the first one that fails
/// decides the error: a field that is not there gives `Truncated`, a
/// version other than `0x05` gives `UnsupportedVersion`, a command other
/// than CONNECT gives `UnsupportedCommand`, an unknown address type gives
/// `UnsupportedAddressType`. The reserved byte is not examined.
pub open spec fn spec_parse_request(b: Seq<u8>) -> Result<TargetView, ProtocolError> {
    if b.len() < 1 {
        Err(ProtocolError::Truncated)
    } else if b[0] != SOCKS_VERSION {
        Err(ProtocolError::UnsupportedVersion)
    } else if b.len() < 2 {
        Err(ProtocolError::Truncated)
    } else if b[1] != CMD_CONNECT {
        Err(ProtocolError::UnsupportedCommand)
    } else if b.len() < 4 {
        Err(ProtocolError::Truncated)
    } else {
        match kind_of(b[3]) {
            None => Err(ProtocolError::UnsupportedAddressType),
            Some(kind) => {
                let start = address_start(kind);
                let end = start + address_len(kind, b);
                if b.len() < end + 2 {
                    Err(ProtocolError::Truncated)
                } else {
                    Ok(
                        TargetView {
                            kind,
                            host: host_text(kind, b.subrange(start, end)),
                            port: port_of(b[end], b[end + 1]),
                        },
                    )
                }
            },
        }
    }
}

/// A request that decodes gives a well-formed target: its host is the
/// text of the address bytes of the request.
pub proof fn parsed_target_is_well_formed(b: Seq<u8>)
    requires
        spec_parse_request(b) is Ok,
    ensures
        spec_parse_request(b)->Ok_0.well_formed(),
{
    let t = spec_parse_request(b)->Ok_0;
    let start = address_start(t.kind);
    let addr = b.subrange(start, start + address_len(t.kind, b));
    assert(address_fits(t.kind, addr) && t.host == host_text(t.kind, addr));
}

/// Reads the port from the two bytes at `at`.
fn read_port(buf: &[u8], at: usize) -> (port: u16)
    requires
        at + 2 <= buf.len(),
    ensures
        port == port_of(buf[at as int], buf[at + 1]),
{
    let high: u16 = buf[at] as u16;
    let low: u16 = buf[at + 1] as u16;
    high * 256 + low
}

/// Decodes a CONNECT request into its target.
///
/// Never reads past the end of `buf`, whatever a length byte claims.
pub fn parse_request(buf: &[u8]) -> (r: Result<Target, ProtocolError>)
    ensures
        match r {
            Ok(t) => spec_parse_request(buf@) == Ok::<TargetView, ProtocolError>(t@)
                && t@.well_formed(),
            Err(e) => spec_parse_request(buf@) == Err::<TargetView, ProtocolError>(e),
        },
        buf.len() >= 1 && buf[0] != SOCKS_VERSION ==> r == Err::<Target, ProtocolError>(
            ProtocolError::UnsupportedVersion,
        ),
        buf.len() >= 2 && buf[0] == SOCKS_VERSION && buf[1] != CMD_CONNECT ==> r == Err::<
            Target,
            ProtocolError,
        >(ProtocolError::UnsupportedCommand),
        buf.len() >= 5 && buf[0] == SOCKS_VERSION && buf[1] == CMD_CONNECT && buf[3] == ATYP_DOMAIN
            && buf.len() < 5 + buf[4] + 2 ==> r == Err::<Target, ProtocolError>(
            ProtocolError::Truncated,
        ),
{
    let n = buf.len();
    if n < 1 {
        return Err(ProtocolError::Truncated);
    }
    if buf[0] != SOCKS_VERSION {
        return Err(ProtocolError::UnsupportedVersion);
    }
    if n < 2 {
        return Err(ProtocolError::Truncated);
    }
    if buf[1] != CMD_CONNECT {
        return Err(ProtocolError::UnsupportedCommand);
    }
    if n < 4 {
        return Err(ProtocolError::Truncated);
    }
    let atyp = buf[3];
    proof {
        if spec_parse_request(buf@) is Ok {
            parsed_target_is_well_formed(buf@);
        }
    }
    if atyp == ATYP_IPV4 {
        if n < 10 {
            return Err(ProtocolError::Truncated);
        }
        Ok(Target { kind: AddressKind::IPv4, host: ipv4_string(buf, 4), port: read_port(buf, 8) })
    } else if atyp == ATYP_DOMAIN {
        if n < 5 {
            return Err(ProtocolError::Truncated);
        }
        let len = buf[4] as usize;
        if n < 5 + len + 2 {
            return Err(ProtocolError::Truncated);
        }
        Ok(
            Target {
                kind: AddressKind::Domain,
                host: domain_string(buf, 5, len),
                port: read_port(buf, 5 + len),
            },
        )
    } else if atyp == ATYP_IPV6 {
        if n < 22 {
            return Err(ProtocolError::Truncated);
        }
        Ok(Target { kind: AddressKind::IPv6, host: ipv6_string(buf, 4), port: read_port(buf, 20) })
    } else {
        Err(ProtocolError::UnsupportedAddressType)
    }
}

} // verus!
