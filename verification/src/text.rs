//! Rendering of address bytes as host text.
//!
//! An IPv4 address is written in dotted decimal, an IPv6 address as eight
//! groups of four lowercase hexadecimal digits, and a domain name byte for
//! byte. Each form is a sequence of characters defined here once, and the
//! executable renderers are proved to produce exactly that sequence.

use vstd::prelude::*;

verus! {

/// The character of a decimal or lowercase hexadecimal digit `d < 16`.
pub open spec fn digit_char(d: int) -> char {
    if d < 10 {
        (d + 48) as u8 as char
    } else {
        (d + 87) as u8 as char
    }
}

/// The decimal numeral of `n`, without leading zeros.
pub open spec fn decimal_text(n: nat) -> Seq<char>
    decreases n,
{
    if n < 10 {
        seq![digit_char(n as int)]
    } else {
        decimal_text(n / 10).push(digit_char((n % 10) as int))
    }
}

/// The two lowercase hexadecimal digits of one byte.
pub open spec fn hex_byte_text(b: u8) -> Seq<char> {
    seq![digit_char(b as int / 16), digit_char(b as int % 16)]
}

/// The first `count` bytes of `addr` in decimal, joined by dots.
pub open spec fn dotted_text(addr: Seq<u8>, count: nat) -> Seq<char>
    decreases count,
{
    if count == 0 {
        Seq::empty()
    } else if count == 1 {
        decimal_text(addr[0] as nat)
    } else {
        dotted_text(addr, (count - 1) as nat).push('.') + decimal_text(addr[count - 1] as nat)
    }
}

/// The first `count` two-byte groups of `addr` in hexadecimal, joined by
/// colons.
pub open spec fn grouped_text(addr: Seq<u8>, count: nat) -> Seq<char>
    decreases count,
{
    if count == 0 {
        Seq::empty()
    } else if count == 1 {
        hex_byte_text(addr[0]) + hex_byte_text(addr[1])
    } else {
        grouped_text(addr, (count - 1) as nat).push(':') + hex_byte_text(addr[2 * count - 2])
            + hex_byte_text(addr[2 * count - 1])
    }
}

/// Host text of the four bytes of an IPv4 address, as in `192.0.2.7`.
pub open spec fn ipv4_text(addr: Seq<u8>) -> Seq<char>
    recommends
        addr.len() == 4,
{
    dotted_text(addr, 4)
}

/// Host text of the sixteen bytes of an IPv6 address, as in
/// `2001:0db8:0000:0000:0000:0000:0000:0001`.
pub open spec fn ipv6_text(addr: Seq<u8>) -> Seq<char>
    recommends
        addr.len() == 16,
{
    grouped_text(addr, 8)
}

/// Host text of a domain name: one character per byte, with the byte's
/// value as its code point.
pub open spec fn domain_text(name: Seq<u8>) -> Seq<char> {
    Seq::new(name.len(), |i: int| name[i] as char)
}

/// `String::push` of the standard library: appends the one character `c`
/// to the end of `s` and leaves what was there before in place.
#[verifier::external_body]
fn push_char(s: &mut String, c: char)
    ensures
        final(s)@ == old(s)@.push(c),
{
    s.push(c)
}

/// The character of the digit `d`.
fn digit(d: u8) -> (c: char)
    requires
        d < 16,
    ensures
        c == digit_char(d as int),
{
    if d < 10 {
        (d + 48) as char
    } else {
        (d + 87) as char
    }
}

/// Appends the decimal numeral of `n` to `out`.
fn push_decimal(out: &mut String, n: u8)
    ensures
        final(out)@ == old(out)@ + decimal_text(n as nat),
{
    reveal_with_fuel(decimal_text, 3);
    if n >= 100 {
        push_char(out, digit(n / 100));
    }
    if n >= 10 {
        push_char(out, digit((n / 10) % 10));
    }
    push_char(out, digit(n % 10));
}

/// Appends the two hexadecimal digits of `b` to `out`.
fn push_hex_byte(out: &mut String, b: u8)
    ensures
        final(out)@ == old(out)@ + hex_byte_text(b),
{
    push_char(out, digit(b / 16));
    push_char(out, digit(b % 16));
}

/// Renders the four address bytes that start at `start` in dotted decimal.
pub(crate) fn ipv4_string(buf: &[u8], start: usize) -> (host: String)
    requires
        start + 4 <= buf.len(),
    ensures
        host@ == ipv4_text(buf@.subrange(start as int, start + 4)),
{
    let ghost addr = buf@.subrange(start as int, start + 4);
    let mut host = String::new();
    let mut i: usize = 0;
    while i < 4
        invariant
            i <= 4,
            start + 4 <= buf.len(),
            addr == buf@.subrange(start as int, start + 4),
            host@ == dotted_text(addr, i as nat),
        decreases 4 - i,
    {
        if i > 0 {
            push_char(&mut host, '.');
        }
        push_decimal(&mut host, buf[start + i]);
        i += 1;
    }
    host
}

/// Renders the sixteen address bytes that start at `start` as eight
/// hexadecimal groups.
pub(crate) fn ipv6_string(buf: &[u8], start: usize) -> (host: String)
    requires
        start + 16 <= buf.len(),
    ensures
        host@ == ipv6_text(buf@.subrange(start as int, start + 16)),
{
    let ghost addr = buf@.subrange(start as int, start + 16);
    let mut host = String::new();
    let mut g: usize = 0;
    while g < 8
        invariant
            g <= 8,
            start + 16 <= buf.len(),
            addr == buf@.subrange(start as int, start + 16),
            host@ == grouped_text(addr, g as nat),
        decreases 8 - g,
    {
        if g > 0 {
            push_char(&mut host, ':');
        }
        push_hex_byte(&mut host, buf[start + 2 * g]);
        push_hex_byte(&mut host, buf[start + 2 * g + 1]);
        g += 1;
    }
    host
}

/// Renders the `len` name bytes that start at `start`, one character each.
pub(crate) fn domain_string(buf: &[u8], start: usize, len: usize) -> (host: String)
    requires
        start + len <= buf.len(),
    ensures
        host@ == domain_text(buf@.subrange(start as int, start + len)),
{
    let ghost name = buf@.subrange(start as int, start + len);
    let mut host = String::new();
    let mut i: usize = 0;
    while i < len
        invariant
            i <= len,
            start + len <= buf.len(),
            name == buf@.subrange(start as int, start + len),
            host@ == domain_text(name.take(i as int)),
        decreases len - i,
    {
        push_char(&mut host, buf[start + i] as char);
        assert(name.take(i + 1) == name.take(i as int).push(name[i as int]));
        i += 1;
    }
    assert(name.take(len as int) == name);
    host
}

} // verus!
