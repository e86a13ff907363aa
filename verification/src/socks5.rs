//! SOCKS5 values that the log reports: the authentication method a client
//! picked, and the destination it asked for.
use vstd::prelude::*;

use crate::net::{
    enc_ipv4, enc_ipv6, lemma_enc_ipv6_len, lemma_ipv4_roundtrip, lemma_ipv6_roundtrip,
    lemma_net_extend, parse_ipv4, parse_ipv6, Ipv4Addr, Ipv6Addr,
};
use crate::text::{
    emit_small_str, lemma_small_str_roundtrip, lemma_strings_extend, parse_small_string,
    read_small_string, write_small_str,
};
use crate::wire::{
    enc_u16, enc_u8, holds_at, lemma_holds_split, lemma_primitives_extend, lemma_u16_roundtrip,
    lemma_u8_roundtrip, lift, lift_view, parse_u16, parse_u8, read_u16, read_u8, stable,
    write_u16, write_u8, Emit, Parsed, WireError,
};

verus! {

broadcast use crate::wire::group_enc_lens;

/// The authentication methods of SOCKS5 that the server knows.
#[derive(Debug, Clone, Copy, PartialEq, Eq, Structural)]
pub enum AuthMethod {
    /// No authentication, code 0x00.
    NoAuth,
    /// Username and password, code 0x02.
    UsernameAndPassword,
}

/// The code of each method.
pub open spec fn auth_method_code(m: AuthMethod) -> u8 {
    match m {
        AuthMethod::NoAuth => 0x00,
        AuthMethod::UsernameAndPassword => 0x02,
    }
}

/// The method of each code, if it has one.
pub open spec fn auth_method_of(code: u8) -> Option<AuthMethod> {
    if code == 0x00 {
        Some(AuthMethod::NoAuth)
    } else if code == 0x02 {
        Some(AuthMethod::UsernameAndPassword)
    } else {
        None
    }
}

impl AuthMethod {
    /// The code of the method.
    pub fn code(&self) -> (r: u8)
        ensures
            r == auth_method_code(*self),
    {
        match self {
            AuthMethod::NoAuth => 0x00,
            AuthMethod::UsernameAndPassword => 0x02,
        }
    }

    /// The method whose code is `value`; `None` for any other code.
    pub fn from_u8(value: u8) -> (r: Option<AuthMethod>)
        ensures
            r == auth_method_of(value),
    {
        if value == 0x00 {
            Some(AuthMethod::NoAuth)
        } else if value == 0x02 {
            Some(AuthMethod::UsernameAndPassword)
        } else {
            None
        }
    }
}

/// The destination a client asked for.
#[derive(Debug, Clone, PartialEq, Eq)]
pub enum SocksRequestAddress {
    IPv4(Ipv4Addr),
    IPv6(Ipv6Addr),
    Domainname(String),
}

/// A destination, with the domain name as its characters.
pub enum SpecSocksRequestAddress {
    IPv4(Ipv4Addr),
    IPv6(Ipv6Addr),
    Domainname(Seq<char>),
}

impl View for SocksRequestAddress {
    type V = SpecSocksRequestAddress;

    open spec fn view(&self) -> SpecSocksRequestAddress {
        match self {
            SocksRequestAddress::IPv4(a) => SpecSocksRequestAddress::IPv4(*a),
            SocksRequestAddress::IPv6(a) => SpecSocksRequestAddress::IPv6(*a),
            SocksRequestAddress::Domainname(d) => SpecSocksRequestAddress::Domainname(d@),
        }
    }
}

/// A request to connect to `destination` at `port`.
#[derive(Debug, Clone, PartialEq, Eq)]
pub struct SocksRequest {
    pub destination: SocksRequestAddress,
    pub port: u16,
}

pub struct SpecSocksRequest {
    pub destination: SpecSocksRequestAddress,
    pub port: u16,
}

impl View for SocksRequest {
    type V = SpecSocksRequest;

    open spec fn view(&self) -> SpecSocksRequest {
        SpecSocksRequest { destination: self.destination@, port: self.port }
    }
}

impl SocksRequest {
    pub fn new(destination: SocksRequestAddress, port: u16) -> (r: SocksRequest)
        ensures
            r.destination == destination,
            r.port == port,
    {
        SocksRequest { destination, port }
    }
}

/// The code of the method, one byte.
pub open spec fn enc_auth_method(m: AuthMethod) -> Seq<u8> {
    enc_u8(auth_method_code(m))
}

/// A code that is no method is refused.
pub open spec fn parse_auth_method(s: Seq<u8>, i: int) -> Parsed<AuthMethod> {
    match parse_u8(s, i) {
        Ok((code, j)) => match auth_method_of(code) {
            Some(m) => Ok((m, j)),
            None => Err(WireError::InvalidData),
        },
        Err(e) => Err(e),
    }
}

/// The byte 4 and an IPv4 address, 6 and an IPv6 address, or 200 and a
/// domain name with a one-byte length (refused past 255 bytes, after the
/// 200 is out).
pub open spec fn emit_socks_address(a: SpecSocksRequestAddress) -> Emit {
    match a {
        SpecSocksRequestAddress::IPv4(v4) => Emit::done(enc_u8(4) + enc_ipv4(v4)),
        SpecSocksRequestAddress::IPv6(v6) => Emit::done(enc_u8(6) + enc_ipv6(v6)),
        SpecSocksRequestAddress::Domainname(d) => Emit::done(enc_u8(200)).followed_by(emit_small_str(d)),
    }
}

/// The destination, then the port.
pub open spec fn emit_socks_request(r: SpecSocksRequest) -> Emit {
    emit_socks_address(r.destination).followed_by(Emit::done(enc_u16(r.port)))
}

/// A tag other than 4, 6 or 200 is refused.
pub open spec fn parse_socks_address(s: Seq<u8>, i: int) -> Parsed<SpecSocksRequestAddress> {
    match parse_u8(s, i) {
        Ok((tag, j)) => if tag == 4 {
            match parse_ipv4(s, j) {
                Ok((a, k)) => Ok((SpecSocksRequestAddress::IPv4(a), k)),
                Err(e) => Err(e),
            }
        } else if tag == 6 {
            match parse_ipv6(s, j) {
                Ok((a, k)) => Ok((SpecSocksRequestAddress::IPv6(a), k)),
                Err(e) => Err(e),
            }
        } else if tag == 200 {
            match parse_small_string(s, j) {
                Ok((d, k)) => Ok((SpecSocksRequestAddress::Domainname(d), k)),
                Err(e) => Err(e),
            }
        } else {
            Err(WireError::InvalidData)
        },
        Err(e) => Err(e),
    }
}

pub open spec fn parse_socks_request(s: Seq<u8>, i: int) -> Parsed<SpecSocksRequest> {
    match parse_socks_address(s, i) {
        Ok((destination, j)) => match parse_u16(s, j) {
            Ok((port, k)) => Ok((SpecSocksRequest { destination, port }, k)),
            Err(e) => Err(e),
        },
        Err(e) => Err(e),
    }
}

pub proof fn lemma_auth_method_roundtrip(m: AuthMethod, s: Seq<u8>, i: int)
    requires
        holds_at(s, i, enc_auth_method(m)),
    ensures
        parse_auth_method(s, i) == Ok::<(AuthMethod, int), WireError>((m, i + 1)),
{
    lemma_u8_roundtrip(auth_method_code(m), s, i);
}

/// A destination that was written in full reads back as itself.
pub proof fn lemma_socks_address_roundtrip(a: SpecSocksRequestAddress, s: Seq<u8>, i: int)
    requires
        emit_socks_address(a).ok,
        holds_at(s, i, emit_socks_address(a).bytes),
    ensures
        parse_socks_address(s, i) == Ok::<(SpecSocksRequestAddress, int), WireError>(
            (a, i + emit_socks_address(a).bytes.len()),
        ),
{
    match a {
        SpecSocksRequestAddress::IPv4(v4) => {
            lemma_holds_split(s, i, enc_u8(4), enc_ipv4(v4));
            lemma_u8_roundtrip(4, s, i);
            lemma_ipv4_roundtrip(v4, s, i + 1);
        },
        SpecSocksRequestAddress::IPv6(v6) => {
            lemma_enc_ipv6_len(v6);
            lemma_holds_split(s, i, enc_u8(6), enc_ipv6(v6));
            lemma_u8_roundtrip(6, s, i);
            lemma_ipv6_roundtrip(v6, s, i + 1);
        },
        SpecSocksRequestAddress::Domainname(d) => {
            lemma_holds_split(s, i, enc_u8(200), emit_small_str(d).bytes);
            lemma_u8_roundtrip(200, s, i);
            lemma_small_str_roundtrip(d, s, i + 1);
        },
    }
}

/// A request that was written in full reads back as itself.
pub proof fn lemma_socks_request_roundtrip(r: SpecSocksRequest, s: Seq<u8>, i: int)
    requires
        emit_socks_request(r).ok,
        holds_at(s, i, emit_socks_request(r).bytes),
    ensures
        parse_socks_request(s, i) == Ok::<(SpecSocksRequest, int), WireError>(
            (r, i + emit_socks_request(r).bytes.len()),
        ),
{
    let a = emit_socks_address(r.destination).bytes;
    lemma_holds_split(s, i, a, enc_u16(r.port));
    lemma_socks_address_roundtrip(r.destination, s, i);
    lemma_u16_roundtrip(r.port, s, i + a.len());
}

pub proof fn lemma_socks5_extend(s: Seq<u8>, i: int, t: Seq<u8>)
    requires
        0 <= i,
    ensures
        stable(parse_auth_method(s, i), parse_auth_method(s + t, i)),
        stable(parse_socks_address(s, i), parse_socks_address(s + t, i)),
        stable(parse_socks_request(s, i), parse_socks_request(s + t, i)),
{
    lemma_socks_address_extend(s, i, t);
    lemma_primitives_extend(s, i, t);
    if let Ok((a, j)) = parse_socks_address(s, i) {
        lemma_primitives_extend(s, j, t);
    }
}

proof fn lemma_socks_address_extend(s: Seq<u8>, i: int, t: Seq<u8>)
    requires
        0 <= i,
    ensures
        stable(parse_socks_address(s, i), parse_socks_address(s + t, i)),
{
    lemma_primitives_extend(s, i, t);
    if let Ok((tag, j)) = parse_u8(s, i) {
        lemma_net_extend(s, j, t);
        lemma_strings_extend(s, j, t);
    }
}

impl AuthMethod {
    pub fn write(&self, out: &mut Vec<u8>)
        ensures
            final(out)@ == old(out)@ + enc_auth_method(*self),
    {
        write_u8(self.code(), out);
    }

    pub fn read(buf: &[u8], pos: usize) -> (r: Result<(AuthMethod, usize), WireError>)
        requires
            pos <= buf@.len(),
        ensures
            lift(r) == parse_auth_method(buf@, pos as int),
            r matches Ok((_, end)) ==> pos <= end <= buf@.len(),
    {
        let (code, p) = read_u8(buf, pos)?;
        match AuthMethod::from_u8(code) {
            Some(m) => Ok((m, p)),
            None => Err(WireError::InvalidData),
        }
    }
}

impl SocksRequestAddress {
    /// Writes the destination; a domain name longer than 255 bytes is
    /// refused with `InvalidData` once its tag is written.
    pub fn write(&self, out: &mut Vec<u8>) -> (r: Result<(), WireError>)
        ensures
            final(out)@ == old(out)@ + emit_socks_address(self@).bytes,
            r is Ok <==> emit_socks_address(self@).ok,
            r matches Err(e) ==> e == WireError::InvalidData,
    {
        match self {
            SocksRequestAddress::IPv4(a) => {
                write_u8(4, out);
                a.write(out);
                Ok(())
            },
            SocksRequestAddress::IPv6(a) => {
                write_u8(6, out);
                a.write(out);
                Ok(())
            },
            SocksRequestAddress::Domainname(d) => {
                write_u8(200, out);
                write_small_str(d.as_str(), out)
            },
        }
    }

    pub fn read(buf: &[u8], pos: usize) -> (r: Result<(SocksRequestAddress, usize), WireError>)
        requires
            pos <= buf@.len(),
        ensures
            lift_view(r) == parse_socks_address(buf@, pos as int),
            r matches Ok((_, end)) ==> pos <= end <= buf@.len(),
    {
        let (tag, p) = read_u8(buf, pos)?;
        if tag == 4 {
            let (a, p) = Ipv4Addr::read(buf, p)?;
            Ok((SocksRequestAddress::IPv4(a), p))
        } else if tag == 6 {
            let (a, p) = Ipv6Addr::read(buf, p)?;
            Ok((SocksRequestAddress::IPv6(a), p))
        } else if tag == 200 {
            let (d, p) = read_small_string(buf, p)?;
            Ok((SocksRequestAddress::Domainname(d), p))
        } else {
            Err(WireError::InvalidData)
        }
    }
}

impl SocksRequest {
    /// Writes the destination, then the port; refused as the destination is.
    pub fn write(&self, out: &mut Vec<u8>) -> (r: Result<(), WireError>)
        ensures
            final(out)@ == old(out)@ + emit_socks_request(self@).bytes,
            r is Ok <==> emit_socks_request(self@).ok,
            r matches Err(e) ==> e == WireError::InvalidData,
    {
        self.destination.write(out)?;
        write_u16(self.port, out);
        Ok(())
    }

    pub fn read(buf: &[u8], pos: usize) -> (r: Result<(SocksRequest, usize), WireError>)
        requires
            pos <= buf@.len(),
        ensures
            lift_view(r) == parse_socks_request(buf@, pos as int),
            r matches Ok((_, end)) ==> pos <= end <= buf@.len(),
    {
        let (destination, p) = SocksRequestAddress::read(buf, pos)?;
        let (port, p) = read_u16(buf, p)?;
        Ok((SocksRequest::new(destination, port), p))
    }
}

} // verus!
