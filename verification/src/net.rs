//! Internet addresses and socket addresses, and how they are written.
//!
//! An IPv4 address is its four octets, an IPv6 address its sixteen; a socket
//! address adds the port (and for IPv6 the flow info and scope id), and an
//! address of either family is preceded by the byte 4 or 6.
use vstd::prelude::*;

use crate::wire::{
    be_bytes, enc_u16, enc_u32, enc_u8, holds_at, lemma_be_at, lemma_be_bytes_len,
    lemma_be_value_bound, lemma_holds_split, lemma_primitives_extend, lemma_radix_values,
    lemma_u16_roundtrip, lemma_u32_roundtrip, lemma_u8_roundtrip, lift, parse_be, parse_u16,
    parse_u32, parse_u8, push_be, read_be, read_u16, read_u32, read_u8, stable, write_u16,
    write_u32, write_u8, Parsed, WireError,
};

verus! {

broadcast use crate::wire::group_enc_lens;

/// An IPv4 address, held as the number its four octets make, the first
/// octet most significant.
#[derive(Debug, Clone, Copy, PartialEq, Eq)]
pub struct Ipv4Addr {
    pub bits: u32,
}

/// An IPv6 address, held as the number its sixteen octets make, the first
/// octet most significant.
#[derive(Debug, Clone, Copy, PartialEq, Eq)]
pub struct Ipv6Addr {
    pub bits: u128,
}

/// An IPv4 socket address.
#[derive(Debug, Clone, Copy, PartialEq, Eq)]
pub struct SocketAddrV4 {
    pub ip: Ipv4Addr,
    pub port: u16,
}

/// An IPv6 socket address.
#[derive(Debug, Clone, Copy, PartialEq, Eq)]
pub struct SocketAddrV6 {
    pub ip: Ipv6Addr,
    pub port: u16,
    pub flowinfo: u32,
    pub scope_id: u32,
}

/// A socket address of either family.
#[derive(Debug, Clone, Copy, PartialEq, Eq)]
pub enum SocketAddr {
    V4(SocketAddrV4),
    V6(SocketAddrV6),
}

/// The four octets of the address.
pub open spec fn enc_ipv4(a: Ipv4Addr) -> Seq<u8> {
    enc_u32(a.bits)
}

/// The sixteen octets of the address.
pub open spec fn enc_ipv6(a: Ipv6Addr) -> Seq<u8> {
    be_bytes(a.bits as nat, 16)
}

/// The address, then the port.
pub open spec fn enc_socket_v4(a: SocketAddrV4) -> Seq<u8> {
    enc_ipv4(a.ip) + enc_u16(a.port)
}

/// The address, the port, the flow info and the scope id.
pub open spec fn enc_socket_v6(a: SocketAddrV6) -> Seq<u8> {
    enc_ipv6(a.ip) + enc_u16(a.port) + enc_u32(a.flowinfo) + enc_u32(a.scope_id)
}

/// The byte 4 and an IPv4 socket address, or the byte 6 and an IPv6 one.
pub open spec fn enc_socket_addr(a: SocketAddr) -> Seq<u8> {
    match a {
        SocketAddr::V4(v4) => enc_u8(4) + enc_socket_v4(v4),
        SocketAddr::V6(v6) => enc_u8(6) + enc_socket_v6(v6),
    }
}

pub open spec fn parse_ipv4(s: Seq<u8>, i: int) -> Parsed<Ipv4Addr> {
    match parse_u32(s, i) {
        Ok((bits, j)) => Ok((Ipv4Addr { bits }, j)),
        Err(e) => Err(e),
    }
}

pub open spec fn parse_ipv6(s: Seq<u8>, i: int) -> Parsed<Ipv6Addr> {
    match parse_be(s, i, 16) {
        Ok((bits, j)) => Ok((Ipv6Addr { bits: bits as u128 }, j)),
        Err(e) => Err(e),
    }
}

pub open spec fn parse_socket_v4(s: Seq<u8>, i: int) -> Parsed<SocketAddrV4> {
    match parse_ipv4(s, i) {
        Ok((ip, j)) => match parse_u16(s, j) {
            Ok((port, k)) => Ok((SocketAddrV4 { ip, port }, k)),
            Err(e) => Err(e),
        },
        Err(e) => Err(e),
    }
}

pub open spec fn parse_socket_v6(s: Seq<u8>, i: int) -> Parsed<SocketAddrV6> {
    match parse_ipv6(s, i) {
        Ok((ip, j)) => match parse_u16(s, j) {
            Ok((port, k)) => match parse_u32(s, k) {
                Ok((flowinfo, l)) => match parse_u32(s, l) {
                    Ok((scope_id, m)) => Ok((SocketAddrV6 { ip, port, flowinfo, scope_id }, m)),
                    Err(e) => Err(e),
                },
                Err(e) => Err(e),
            },
            Err(e) => Err(e),
        },
        Err(e) => Err(e),
    }
}

/// A family byte other than 4 or 6 is refused.
pub open spec fn parse_socket_addr(s: Seq<u8>, i: int) -> Parsed<SocketAddr> {
    match parse_u8(s, i) {
        Ok((tag, j)) => if tag == 4 {
            match parse_socket_v4(s, j) {
                Ok((a, k)) => Ok((SocketAddr::V4(a), k)),
                Err(e) => Err(e),
            }
        } else if tag == 6 {
            match parse_socket_v6(s, j) {
                Ok((a, k)) => Ok((SocketAddr::V6(a), k)),
                Err(e) => Err(e),
            }
        } else {
            Err(WireError::InvalidData)
        },
        Err(e) => Err(e),
    }
}

pub broadcast proof fn lemma_enc_ipv6_len(a: Ipv6Addr)
    ensures
        #[trigger] enc_ipv6(a).len() == 16,
{
    lemma_be_bytes_len(a.bits as nat, 16);
}

pub proof fn lemma_ipv4_roundtrip(a: Ipv4Addr, s: Seq<u8>, i: int)
    requires
        holds_at(s, i, enc_ipv4(a)),
    ensures
        parse_ipv4(s, i) == Ok::<(Ipv4Addr, int), WireError>((a, i + 4)),
{
    lemma_u32_roundtrip(a.bits, s, i);
}

pub proof fn lemma_ipv6_roundtrip(a: Ipv6Addr, s: Seq<u8>, i: int)
    requires
        holds_at(s, i, enc_ipv6(a)),
    ensures
        parse_ipv6(s, i) == Ok::<(Ipv6Addr, int), WireError>((a, i + 16)),
{
    lemma_radix_values();
    lemma_be_at(a.bits as nat, 16, s, i);
}

pub proof fn lemma_socket_v4_roundtrip(a: SocketAddrV4, s: Seq<u8>, i: int)
    requires
        holds_at(s, i, enc_socket_v4(a)),
    ensures
        parse_socket_v4(s, i) == Ok::<(SocketAddrV4, int), WireError>((a, i + 6)),
{
    lemma_holds_split(s, i, enc_ipv4(a.ip), enc_u16(a.port));
    lemma_ipv4_roundtrip(a.ip, s, i);
    lemma_u16_roundtrip(a.port, s, i + 4);
}

pub proof fn lemma_socket_v6_roundtrip(a: SocketAddrV6, s: Seq<u8>, i: int)
    requires
        holds_at(s, i, enc_socket_v6(a)),
    ensures
        parse_socket_v6(s, i) == Ok::<(SocketAddrV6, int), WireError>((a, i + 26)),
{
    lemma_enc_ipv6_len(a.ip);
    let p1 = enc_ipv6(a.ip);
    let p2 = enc_u16(a.port);
    let p3 = enc_u32(a.flowinfo);
    let p4 = enc_u32(a.scope_id);
    lemma_holds_split(s, i, p1 + p2 + p3, p4);
    lemma_holds_split(s, i, p1 + p2, p3);
    lemma_holds_split(s, i, p1, p2);
    lemma_ipv6_roundtrip(a.ip, s, i);
    lemma_u16_roundtrip(a.port, s, i + 16);
    lemma_u32_roundtrip(a.flowinfo, s, i + 18);
    lemma_u32_roundtrip(a.scope_id, s, i + 22);
}

/// A socket address reads back as itself.
pub proof fn lemma_socket_addr_roundtrip(a: SocketAddr, s: Seq<u8>, i: int)
    requires
        holds_at(s, i, enc_socket_addr(a)),
    ensures
        parse_socket_addr(s, i) == Ok::<(SocketAddr, int), WireError>(
            (a, i + enc_socket_addr(a).len()),
        ),
{
    lemma_enc_ipv6_len_all();
    match a {
        SocketAddr::V4(v4) => {
            lemma_holds_split(s, i, enc_u8(4), enc_socket_v4(v4));
            lemma_u8_roundtrip(4, s, i);
            lemma_socket_v4_roundtrip(v4, s, i + 1);
        },
        SocketAddr::V6(v6) => {
            lemma_holds_split(s, i, enc_u8(6), enc_socket_v6(v6));
            lemma_u8_roundtrip(6, s, i);
            lemma_socket_v6_roundtrip(v6, s, i + 1);
        },
    }
}

proof fn lemma_enc_ipv6_len_all()
    ensures
        forall|a: Ipv6Addr| #[trigger] enc_ipv6(a).len() == 16,
{
    assert forall|a: Ipv6Addr| #[trigger] enc_ipv6(a).len() == 16 by {
        lemma_enc_ipv6_len(a);
    }
}

/// The address reads never look past what they need.
pub proof fn lemma_net_extend(s: Seq<u8>, i: int, t: Seq<u8>)
    requires
        0 <= i,
    ensures
        stable(parse_ipv4(s, i), parse_ipv4(s + t, i)),
        stable(parse_ipv6(s, i), parse_ipv6(s + t, i)),
        stable(parse_socket_v4(s, i), parse_socket_v4(s + t, i)),
        stable(parse_socket_v6(s, i), parse_socket_v6(s + t, i)),
        stable(parse_socket_addr(s, i), parse_socket_addr(s + t, i)),
{
    lemma_socket_v4_extend(s, i, t);
    lemma_socket_v6_extend(s, i, t);
    lemma_primitives_extend(s, i, t);
    if let Ok((tag, j)) = parse_u8(s, i) {
        lemma_socket_v4_extend(s, j, t);
        lemma_socket_v6_extend(s, j, t);
    }
}

proof fn lemma_socket_v4_extend(s: Seq<u8>, i: int, t: Seq<u8>)
    requires
        0 <= i,
    ensures
        stable(parse_ipv4(s, i), parse_ipv4(s + t, i)),
        stable(parse_socket_v4(s, i), parse_socket_v4(s + t, i)),
{
    lemma_primitives_extend(s, i, t);
    if let Ok((ip, j)) = parse_ipv4(s, i) {
        lemma_primitives_extend(s, j, t);
    }
}

proof fn lemma_socket_v6_extend(s: Seq<u8>, i: int, t: Seq<u8>)
    requires
        0 <= i,
    ensures
        stable(parse_ipv6(s, i), parse_ipv6(s + t, i)),
        stable(parse_socket_v6(s, i), parse_socket_v6(s + t, i)),
{
    lemma_primitives_extend(s, i, t);
    if let Ok((ip, j)) = parse_ipv6(s, i) {
        lemma_primitives_extend(s, j, t);
        if let Ok((port, k)) = parse_u16(s, j) {
            lemma_primitives_extend(s, k, t);
            if let Ok((flowinfo, l)) = parse_u32(s, k) {
                lemma_primitives_extend(s, l, t);
            }
        }
    }
}

impl Ipv4Addr {
    pub fn write(&self, out: &mut Vec<u8>)
        ensures
            final(out)@ == old(out)@ + enc_ipv4(*self),
    {
        write_u32(self.bits, out);
    }

    pub fn read(buf: &[u8], pos: usize) -> (r: Result<(Ipv4Addr, usize), WireError>)
        requires
            pos <= buf@.len(),
        ensures
            lift(r) == parse_ipv4(buf@, pos as int),
            r matches Ok((_, end)) ==> pos <= end <= buf@.len(),
    {
        let (bits, p) = read_u32(buf, pos)?;
        Ok((Ipv4Addr { bits }, p))
    }
}

impl Ipv6Addr {
    pub fn write(&self, out: &mut Vec<u8>)
        ensures
            final(out)@ == old(out)@ + enc_ipv6(*self),
    {
        proof {
            lemma_radix_values();
        }
        push_be(out, self.bits, 16);
    }

    pub fn read(buf: &[u8], pos: usize) -> (r: Result<(Ipv6Addr, usize), WireError>)
        requires
            pos <= buf@.len(),
        ensures
            lift(r) == parse_ipv6(buf@, pos as int),
            r matches Ok((_, end)) ==> pos <= end <= buf@.len(),
    {
        if buf.len() - pos >= 16 {
            let bits = read_be(buf, pos, 16);
            Ok((Ipv6Addr { bits }, pos + 16))
        } else {
            Err(WireError::UnexpectedEof)
        }
    }
}

impl SocketAddrV4 {
    pub fn write(&self, out: &mut Vec<u8>)
        ensures
            final(out)@ == old(out)@ + enc_socket_v4(*self),
    {
        self.ip.write(out);
        write_u16(self.port, out);
    }

    pub fn read(buf: &[u8], pos: usize) -> (r: Result<(SocketAddrV4, usize), WireError>)
        requires
            pos <= buf@.len(),
        ensures
            lift(r) == parse_socket_v4(buf@, pos as int),
            r matches Ok((_, end)) ==> pos <= end <= buf@.len(),
    {
        let (ip, p) = Ipv4Addr::read(buf, pos)?;
        let (port, p) = read_u16(buf, p)?;
        Ok((SocketAddrV4 { ip, port }, p))
    }
}

impl SocketAddrV6 {
    pub fn write(&self, out: &mut Vec<u8>)
        ensures
            final(out)@ == old(out)@ + enc_socket_v6(*self),
    {
        self.ip.write(out);
        write_u16(self.port, out);
        write_u32(self.flowinfo, out);
        write_u32(self.scope_id, out);
    }

    pub fn read(buf: &[u8], pos: usize) -> (r: Result<(SocketAddrV6, usize), WireError>)
        requires
            pos <= buf@.len(),
        ensures
            lift(r) == parse_socket_v6(buf@, pos as int),
            r matches Ok((_, end)) ==> pos <= end <= buf@.len(),
    {
        let (ip, p) = Ipv6Addr::read(buf, pos)?;
        let (port, p) = read_u16(buf, p)?;
        let (flowinfo, p) = read_u32(buf, p)?;
        let (scope_id, p) = read_u32(buf, p)?;
        Ok((SocketAddrV6 { ip, port, flowinfo, scope_id }, p))
    }
}

impl SocketAddr {
    pub fn write(&self, out: &mut Vec<u8>)
        ensures
            final(out)@ == old(out)@ + enc_socket_addr(*self),
    {
        match self {
            SocketAddr::V4(v4) => {
                write_u8(4, out);
                v4.write(out);
            },
            SocketAddr::V6(v6) => {
                write_u8(6, out);
                v6.write(out);
            },
        }
    }

    pub fn read(buf: &[u8], pos: usize) -> (r: Result<(SocketAddr, usize), WireError>)
        requires
            pos <= buf@.len(),
        ensures
            lift(r) == parse_socket_addr(buf@, pos as int),
            r matches Ok((_, end)) ==> pos <= end <= buf@.len(),
    {
        let (tag, p) = read_u8(buf, pos)?;
        if tag == 4 {
            let (a, p) = SocketAddrV4::read(buf, p)?;
            Ok((SocketAddr::V4(a), p))
        } else if tag == 6 {
            let (a, p) = SocketAddrV6::read(buf, p)?;
            Ok((SocketAddr::V6(a), p))
        } else {
            Err(WireError::InvalidData)
        }
    }
}

} // verus!
