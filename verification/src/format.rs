//! The byte layout of every value, stated against the integer encodings
//! alone: which byte a tag is, in which order fields come, how wide a
//! length is, and what a reader makes of bytes that no writer puts out.
use vstd::prelude::*;
use vstd::utf8::{decode_utf8, encode_utf8, valid_utf8};

use crate::io_error::{
    enc_io_error, io_kind_read_back, parse_io_error, IoErrorKind,
};
use crate::net::{
    enc_ipv4, enc_ipv6, enc_socket_addr, lemma_enc_ipv6_len, lemma_socket_addr_roundtrip,
    parse_socket_addr, Ipv4Addr, Ipv6Addr, SocketAddr, SocketAddrV4, SocketAddrV6,
};
use crate::socks5::{
    auth_method_code, auth_method_of, emit_socks_address, emit_socks_request, enc_auth_method,
    lemma_socks_request_roundtrip, parse_auth_method, parse_socks_address, parse_socks_request,
    AuthMethod, SocksRequest, SocksRequestAddress, SpecSocksRequest, SpecSocksRequestAddress,
};
use crate::text::{emit_small_str, emit_str, parse_small_string, parse_string};
use crate::users::{
    enc_user_role, enc_users_loading_error, lemma_users_loading_error_roundtrip,
    parse_user_role, parse_users_loading_error, users_error_read_back, UserRole,
    UsersLoadingError,
};
use crate::wire::{
    be_value, enc_bool, enc_char, enc_i64, enc_u16, enc_u32, enc_u64, enc_u8, lemma_be_roundtrip,
    holds_at, lemma_holds_prefix, lemma_holds_split, lemma_radix_values, lemma_u16_roundtrip,
    lemma_u32_roundtrip, lemma_u8_roundtrip, parse_bool, parse_char, parse_i64, parse_u16, parse_u32, parse_u64, parse_u8,
    WireError,
};

verus! {

broadcast use crate::wire::group_enc_lens;

proof fn lemma_be_value_prefix(b: Seq<u8>, k: int)
    requires
        0 < k <= b.len(),
    ensures
        be_value(b.take(k)) == be_value(b.take(k - 1)) * 256 + b[k - 1],
{
    assert(b.take(k).drop_last() =~= b.take(k - 1));
}

proof fn lemma_be_value_whole(b: Seq<u8>)
    ensures
        be_value(b.take(0)) == 0,
        b.take(b.len() as int) == b,
{
    assert(b.take(0) =~= Seq::<u8>::empty());
    assert(b.take(b.len() as int) =~= b);
}

/// A `u16` is written as two bytes, most significant first.
pub proof fn law_u16_layout(x: u16)
    ensures
        enc_u16(x).len() == 2,
        ({
            let b = enc_u16(x);
            x == b[0] * 256 + b[1]
        }),
{
    let b = enc_u16(x);
    lemma_radix_values();
    lemma_be_roundtrip(x as nat, 2);
    lemma_be_value_whole(b);
    lemma_be_value_prefix(b, 1);
    lemma_be_value_prefix(b, 2);
}

/// A `u32` is written as four bytes, most significant first.
pub proof fn law_u32_layout(x: u32)
    ensures
        enc_u32(x).len() == 4,
        ({
            let b = enc_u32(x);
            x == b[0] * 16777216 + b[1] * 65536 + b[2] * 256 + b[3]
        }),
{
    let b = enc_u32(x);
    lemma_radix_values();
    lemma_be_roundtrip(x as nat, 4);
    lemma_be_value_whole(b);
    lemma_be_value_prefix(b, 1);
    lemma_be_value_prefix(b, 2);
    lemma_be_value_prefix(b, 3);
    lemma_be_value_prefix(b, 4);
}

/// A `u64` is written as eight bytes, most significant first.
pub proof fn law_u64_layout(x: u64)
    ensures
        enc_u64(x).len() == 8,
        ({
            let b = enc_u64(x);
            x == b[0] * 72057594037927936 + b[1] * 281474976710656 + b[2] * 1099511627776 + b[3] * 4294967296 + b[4] * 16777216 + b[5] * 65536 + b[6] * 256 + b[7]
        }),
{
    let b = enc_u64(x);
    lemma_radix_values();
    lemma_be_roundtrip(x as nat, 8);
    lemma_be_value_whole(b);
    lemma_be_value_prefix(b, 1);
    lemma_be_value_prefix(b, 2);
    lemma_be_value_prefix(b, 3);
    lemma_be_value_prefix(b, 4);
    lemma_be_value_prefix(b, 5);
    lemma_be_value_prefix(b, 6);
    lemma_be_value_prefix(b, 7);
    lemma_be_value_prefix(b, 8);
}

/// An IPv6 address is written as its sixteen octets, the first octet (the
/// most significant) first.
pub proof fn law_ipv6_layout(a: Ipv6Addr)
    ensures
        enc_ipv6(a).len() == 16,
        ({
            let b = enc_ipv6(a);
            a.bits == b[0] * 1329227995784915872903807060280344576 + b[1] * 5192296858534827628530496329220096 + b[2] * 20282409603651670423947251286016 + b[3] * 79228162514264337593543950336 + b[4] * 309485009821345068724781056 + b[5] * 1208925819614629174706176 + b[6] * 4722366482869645213696 + b[7] * 18446744073709551616 + b[8] * 72057594037927936 + b[9] * 281474976710656 + b[10] * 1099511627776 + b[11] * 4294967296 + b[12] * 16777216 + b[13] * 65536 + b[14] * 256 + b[15]
        }),
{
    let b = enc_ipv6(a);
    lemma_radix_values();
    lemma_be_roundtrip(a.bits as nat, 16);
    lemma_be_value_whole(b);
    lemma_be_value_prefix(b, 1);
    lemma_be_value_prefix(b, 2);
    lemma_be_value_prefix(b, 3);
    lemma_be_value_prefix(b, 4);
    lemma_be_value_prefix(b, 5);
    lemma_be_value_prefix(b, 6);
    lemma_be_value_prefix(b, 7);
    lemma_be_value_prefix(b, 8);
    lemma_be_value_prefix(b, 9);
    lemma_be_value_prefix(b, 10);
    lemma_be_value_prefix(b, 11);
    lemma_be_value_prefix(b, 12);
    lemma_be_value_prefix(b, 13);
    lemma_be_value_prefix(b, 14);
    lemma_be_value_prefix(b, 15);
    lemma_be_value_prefix(b, 16);
}

/// An `i64` is written as the `u64` with the same bits, a `char` as its
/// scalar value, `true` as 1 and `false` as 0, an IPv4 address as the `u32`
/// of its octets.
pub proof fn law_small_layouts(x: i64, c: char, flag: bool, a: Ipv4Addr)
    ensures
        enc_i64(x) == enc_u64(x as u64),
        enc_char(c) == enc_u32(c as u32),
        enc_bool(flag) == seq![if flag { 1u8 } else { 0u8 }],
        enc_u8(7) == seq![7u8],
        enc_ipv4(a) == enc_u32(a.bits),
{
}

/// Any byte but 0 reads as `true`.
pub proof fn law_read_bool(b: u8, rest: Seq<u8>)
    ensures
        parse_bool(seq![b] + rest, 0) == Ok::<(bool, int), WireError>((b != 0, 1)),
{
    lemma_holds_prefix(seq![b], rest);
    lemma_u8_roundtrip(b, seq![b] + rest, 0);
}

/// A `u32` reads as the `char` with that scalar value, and is refused when
/// it is above `0x10FFFF` or a surrogate.
pub proof fn law_read_char(x: u32, rest: Seq<u8>)
    ensures
        (x <= 0x10FFFF && !(0xD800 <= x <= 0xDFFF)) ==> parse_char(enc_u32(x) + rest, 0) == Ok::<
            (char, int),
            WireError,
        >((x as char, 4)),
        !(x <= 0x10FFFF && !(0xD800 <= x <= 0xDFFF)) ==> parse_char(enc_u32(x) + rest, 0)
            == Err::<(char, int), WireError>(WireError::InvalidData),
{
    lemma_holds_prefix(enc_u32(x), rest);
    lemma_u32_roundtrip(x, enc_u32(x) + rest, 0);
}

/// A string is written as the two-byte length of its UTF-8 bytes, then
/// those bytes; one whose bytes are more than 65535 is refused with nothing
/// put out.
pub proof fn law_string_layout(c: Seq<char>)
    ensures
        emit_str(c).ok == (encode_utf8(c).len() <= 0xFFFF),
        emit_str(c).ok ==> emit_str(c).bytes == enc_u16(encode_utf8(c).len() as u16) + encode_utf8(
            c,
        ),
        !emit_str(c).ok ==> emit_str(c).bytes == Seq::<u8>::empty(),
{
}

/// A short string is written as the one-byte length of its UTF-8 bytes,
/// then those bytes; one whose bytes are more than 255 is refused with
/// nothing put out.
pub proof fn law_small_string_layout(c: Seq<char>)
    ensures
        emit_small_str(c).ok == (encode_utf8(c).len() <= 0xFF),
        emit_small_str(c).ok ==> emit_small_str(c).bytes == seq![encode_utf8(c).len() as u8]
            + encode_utf8(c),
        !emit_small_str(c).ok ==> emit_small_str(c).bytes == Seq::<u8>::empty(),
{
}

/// A two-byte length `n` and `n` bytes read as the text those bytes are in
/// UTF-8, and are refused when they are not UTF-8.
pub proof fn law_read_string(b: Seq<u8>, rest: Seq<u8>)
    requires
        b.len() <= 0xFFFF,
    ensures
        valid_utf8(b) ==> parse_string(enc_u16(b.len() as u16) + b + rest, 0) == Ok::<
            (Seq<char>, int),
            WireError,
        >((decode_utf8(b), (b.len() + 2) as int)),
        !valid_utf8(b) ==> parse_string(enc_u16(b.len() as u16) + b + rest, 0) == Err::<
            (Seq<char>, int),
            WireError,
        >(WireError::InvalidData),
{
    let s = enc_u16(b.len() as u16) + b + rest;
    lemma_holds_prefix(enc_u16(b.len() as u16) + b, rest);
    lemma_holds_split(s, 0, enc_u16(b.len() as u16), b);
    lemma_u16_roundtrip(b.len() as u16, s, 0);
}

/// A one-byte length `n` and `n` bytes read as the text those bytes are in
/// UTF-8, and are refused when they are not UTF-8.
pub proof fn law_read_small_string(b: Seq<u8>, rest: Seq<u8>)
    requires
        b.len() <= 0xFF,
    ensures
        valid_utf8(b) ==> parse_small_string(seq![b.len() as u8] + b + rest, 0) == Ok::<
            (Seq<char>, int),
            WireError,
        >((decode_utf8(b), (b.len() + 1) as int)),
        !valid_utf8(b) ==> parse_small_string(seq![b.len() as u8] + b + rest, 0) == Err::<
            (Seq<char>, int),
            WireError,
        >(WireError::InvalidData),
{
    let s = seq![b.len() as u8] + b + rest;
    lemma_holds_prefix(seq![b.len() as u8] + b, rest);
    lemma_holds_split(s, 0, seq![b.len() as u8], b);
    lemma_u8_roundtrip(b.len() as u8, s, 0);
}

/// A socket address is written as 4, the IPv4 address and the port, or as
/// 6, the IPv6 address, the port, the flow info and the scope id.
pub proof fn law_socket_addr_layout(v4: SocketAddrV4, v6: SocketAddrV6)
    ensures
        enc_socket_addr(SocketAddr::V4(v4)) == seq![4u8] + enc_u32(v4.ip.bits) + enc_u16(v4.port),
        enc_socket_addr(SocketAddr::V6(v6)) == seq![6u8] + enc_ipv6(v6.ip) + enc_u16(v6.port)
            + enc_u32(v6.flowinfo) + enc_u32(v6.scope_id),
{
}

/// A family byte other than 4 or 6 is refused.
pub proof fn law_read_socket_addr_bad_family(b: u8, rest: Seq<u8>)
    requires
        b != 4 && b != 6,
    ensures
        parse_socket_addr(seq![b] + rest, 0) == Err::<(SocketAddr, int), WireError>(
            WireError::InvalidData,
        ),
{
    lemma_holds_prefix(seq![b], rest);
    lemma_u8_roundtrip(b, seq![b] + rest, 0);
}

/// The number of each I/O error kind; a kind without one is written as 0.
pub proof fn law_io_error_numbers()
    ensures
        enc_io_error(IoErrorKind::NotFound) == seq![1u8],
        enc_io_error(IoErrorKind::PermissionDenied) == seq![2u8],
        enc_io_error(IoErrorKind::ConnectionRefused) == seq![3u8],
        enc_io_error(IoErrorKind::ConnectionReset) == seq![4u8],
        enc_io_error(IoErrorKind::ConnectionAborted) == seq![5u8],
        enc_io_error(IoErrorKind::NotConnected) == seq![6u8],
        enc_io_error(IoErrorKind::AddrInUse) == seq![7u8],
        enc_io_error(IoErrorKind::AddrNotAvailable) == seq![8u8],
        enc_io_error(IoErrorKind::BrokenPipe) == seq![9u8],
        enc_io_error(IoErrorKind::AlreadyExists) == seq![10u8],
        enc_io_error(IoErrorKind::WouldBlock) == seq![11u8],
        enc_io_error(IoErrorKind::InvalidInput) == seq![12u8],
        enc_io_error(IoErrorKind::InvalidData) == seq![13u8],
        enc_io_error(IoErrorKind::TimedOut) == seq![14u8],
        enc_io_error(IoErrorKind::WriteZero) == seq![15u8],
        enc_io_error(IoErrorKind::Interrupted) == seq![16u8],
        enc_io_error(IoErrorKind::Unsupported) == seq![17u8],
        enc_io_error(IoErrorKind::UnexpectedEof) == seq![18u8],
        enc_io_error(IoErrorKind::OutOfMemory) == seq![19u8],
        enc_io_error(IoErrorKind::Other) == seq![20u8],
        enc_io_error(IoErrorKind::Unrecognized) == seq![0u8],
        io_kind_read_back(IoErrorKind::Unrecognized) == IoErrorKind::Other,
{
}

/// Each number reads as its kind; 0 and the numbers past 20 read as `Other`.
pub proof fn law_read_io_error(b: u8, rest: Seq<u8>)
    ensures
        parse_io_error(seq![1u8] + rest, 0) == Ok::<(IoErrorKind, int), WireError>((IoErrorKind::NotFound, 1)),
        parse_io_error(seq![2u8] + rest, 0) == Ok::<(IoErrorKind, int), WireError>((IoErrorKind::PermissionDenied, 1)),
        parse_io_error(seq![3u8] + rest, 0) == Ok::<(IoErrorKind, int), WireError>((IoErrorKind::ConnectionRefused, 1)),
        parse_io_error(seq![4u8] + rest, 0) == Ok::<(IoErrorKind, int), WireError>((IoErrorKind::ConnectionReset, 1)),
        parse_io_error(seq![5u8] + rest, 0) == Ok::<(IoErrorKind, int), WireError>((IoErrorKind::ConnectionAborted, 1)),
        parse_io_error(seq![6u8] + rest, 0) == Ok::<(IoErrorKind, int), WireError>((IoErrorKind::NotConnected, 1)),
        parse_io_error(seq![7u8] + rest, 0) == Ok::<(IoErrorKind, int), WireError>((IoErrorKind::AddrInUse, 1)),
        parse_io_error(seq![8u8] + rest, 0) == Ok::<(IoErrorKind, int), WireError>((IoErrorKind::AddrNotAvailable, 1)),
        parse_io_error(seq![9u8] + rest, 0) == Ok::<(IoErrorKind, int), WireError>((IoErrorKind::BrokenPipe, 1)),
        parse_io_error(seq![10u8] + rest, 0) == Ok::<(IoErrorKind, int), WireError>((IoErrorKind::AlreadyExists, 1)),
        parse_io_error(seq![11u8] + rest, 0) == Ok::<(IoErrorKind, int), WireError>((IoErrorKind::WouldBlock, 1)),
        parse_io_error(seq![12u8] + rest, 0) == Ok::<(IoErrorKind, int), WireError>((IoErrorKind::InvalidInput, 1)),
        parse_io_error(seq![13u8] + rest, 0) == Ok::<(IoErrorKind, int), WireError>((IoErrorKind::InvalidData, 1)),
        parse_io_error(seq![14u8] + rest, 0) == Ok::<(IoErrorKind, int), WireError>((IoErrorKind::TimedOut, 1)),
        parse_io_error(seq![15u8] + rest, 0) == Ok::<(IoErrorKind, int), WireError>((IoErrorKind::WriteZero, 1)),
        parse_io_error(seq![16u8] + rest, 0) == Ok::<(IoErrorKind, int), WireError>((IoErrorKind::Interrupted, 1)),
        parse_io_error(seq![17u8] + rest, 0) == Ok::<(IoErrorKind, int), WireError>((IoErrorKind::Unsupported, 1)),
        parse_io_error(seq![18u8] + rest, 0) == Ok::<(IoErrorKind, int), WireError>((IoErrorKind::UnexpectedEof, 1)),
        parse_io_error(seq![19u8] + rest, 0) == Ok::<(IoErrorKind, int), WireError>((IoErrorKind::OutOfMemory, 1)),
        parse_io_error(seq![20u8] + rest, 0) == Ok::<(IoErrorKind, int), WireError>((IoErrorKind::Other, 1)),
        (b == 0 || b > 20) ==> parse_io_error(seq![b] + rest, 0) == Ok::<(IoErrorKind, int), WireError>(
            (IoErrorKind::Other, 1),
        ),
{
    lemma_read_io_error_byte(1, rest);
    lemma_read_io_error_byte(b, rest);
    lemma_read_io_error_byte(2, rest);
    lemma_read_io_error_byte(3, rest);
    lemma_read_io_error_byte(4, rest);
    lemma_read_io_error_byte(5, rest);
    lemma_read_io_error_byte(6, rest);
    lemma_read_io_error_byte(7, rest);
    lemma_read_io_error_byte(8, rest);
    lemma_read_io_error_byte(9, rest);
    lemma_read_io_error_byte(10, rest);
    lemma_read_io_error_byte(11, rest);
    lemma_read_io_error_byte(12, rest);
    lemma_read_io_error_byte(13, rest);
    lemma_read_io_error_byte(14, rest);
    lemma_read_io_error_byte(15, rest);
    lemma_read_io_error_byte(16, rest);
    lemma_read_io_error_byte(17, rest);
    lemma_read_io_error_byte(18, rest);
    lemma_read_io_error_byte(19, rest);
    lemma_read_io_error_byte(20, rest);
}

proof fn lemma_read_io_error_byte(b: u8, rest: Seq<u8>)
    ensures
        parse_io_error(seq![b] + rest, 0) == Ok::<(IoErrorKind, int), WireError>(
            (crate::io_error::io_kind_from_id(b), 1),
        ),
{
    lemma_holds_prefix(seq![b], rest);
    lemma_u8_roundtrip(b, seq![b] + rest, 0);
}

/// `Admin` is written as 1, `Regular` as 2; any other byte is refused.
pub proof fn law_user_role_layout(b: u8, rest: Seq<u8>)
    ensures
        enc_user_role(UserRole::Admin) == seq![1u8],
        enc_user_role(UserRole::Regular) == seq![2u8],
        b == 1 ==> parse_user_role(seq![b] + rest, 0) == Ok::<(UserRole, int), WireError>(
            (UserRole::Admin, 1),
        ),
        b == 2 ==> parse_user_role(seq![b] + rest, 0) == Ok::<(UserRole, int), WireError>(
            (UserRole::Regular, 1),
        ),
        (b != 1 && b != 2) ==> parse_user_role(seq![b] + rest, 0) == Err::<(UserRole, int), WireError>(
            WireError::InvalidData,
        ),
{
    lemma_holds_prefix(seq![b], rest);
    lemma_u8_roundtrip(b, seq![b] + rest, 0);
}

/// `NoAuth` is written as 0x00, `UsernameAndPassword` as 0x02; any other
/// byte is refused.
pub proof fn law_auth_method_layout(b: u8, rest: Seq<u8>)
    ensures
        enc_auth_method(AuthMethod::NoAuth) == seq![0u8],
        enc_auth_method(AuthMethod::UsernameAndPassword) == seq![2u8],
        auth_method_code(AuthMethod::NoAuth) == 0,
        auth_method_code(AuthMethod::UsernameAndPassword) == 2,
        auth_method_of(0) == Some(AuthMethod::NoAuth),
        auth_method_of(2) == Some(AuthMethod::UsernameAndPassword),
        (b != 0 && b != 2) ==> auth_method_of(b) == None::<AuthMethod>,
        b == 0 ==> parse_auth_method(seq![b] + rest, 0) == Ok::<(AuthMethod, int), WireError>(
            (AuthMethod::NoAuth, 1),
        ),
        b == 2 ==> parse_auth_method(seq![b] + rest, 0) == Ok::<(AuthMethod, int), WireError>(
            (AuthMethod::UsernameAndPassword, 1),
        ),
        (b != 0 && b != 2) ==> parse_auth_method(seq![b] + rest, 0) == Err::<
            (AuthMethod, int),
            WireError,
        >(WireError::InvalidData),
{
    lemma_holds_prefix(seq![b], rest);
    lemma_u8_roundtrip(b, seq![b] + rest, 0);
}

/// A destination is written as 4 and the IPv4 address, 6 and the IPv6
/// address, or 200 and the domain name as a short string; a domain name of
/// more than 255 bytes is refused after the 200. A request is the
/// destination, then the port.
pub proof fn law_socks_layout(a4: Ipv4Addr, a6: Ipv6Addr, d: Seq<char>, r: SpecSocksRequest)
    ensures
        emit_socks_address(SpecSocksRequestAddress::IPv4(a4)).ok,
        emit_socks_address(SpecSocksRequestAddress::IPv4(a4)).bytes == seq![4u8] + enc_u32(a4.bits),
        emit_socks_address(SpecSocksRequestAddress::IPv6(a6)).ok,
        emit_socks_address(SpecSocksRequestAddress::IPv6(a6)).bytes == seq![6u8] + enc_ipv6(a6),
        emit_socks_address(SpecSocksRequestAddress::Domainname(d)).ok == (encode_utf8(d).len()
            <= 0xFF),
        encode_utf8(d).len() <= 0xFF ==> emit_socks_address(
            SpecSocksRequestAddress::Domainname(d),
        ).bytes == seq![200u8] + seq![encode_utf8(d).len() as u8] + encode_utf8(d),
        encode_utf8(d).len() > 0xFF ==> emit_socks_address(
            SpecSocksRequestAddress::Domainname(d),
        ).bytes == seq![200u8],
        emit_socks_request(r).ok == emit_socks_address(r.destination).ok,
        emit_socks_address(r.destination).ok ==> emit_socks_request(r).bytes == emit_socks_address(
            r.destination,
        ).bytes + enc_u16(r.port),
        !emit_socks_address(r.destination).ok ==> emit_socks_request(r).bytes
            == emit_socks_address(r.destination).bytes,
{
}

/// A destination tag other than 4, 6 or 200 is refused.
pub proof fn law_read_socks_address_bad_tag(b: u8, rest: Seq<u8>)
    requires
        b != 4 && b != 6 && b != 200,
    ensures
        parse_socks_address(seq![b] + rest, 0) == Err::<(SpecSocksRequestAddress, int), WireError>(
            WireError::InvalidData,
        ),
{
    lemma_holds_prefix(seq![b], rest);
    lemma_u8_roundtrip(b, seq![b] + rest, 0);
}

/// Each error is written as its tag, then its fields in the order they are
/// declared: the line number before the position in it.
pub proof fn law_users_loading_error_layout(k: IoErrorKind, l: u32, c: u32, at: u64, ch: char)
    ensures
        enc_users_loading_error(UsersLoadingError::IO(k)) == seq![1u8] + enc_io_error(k),
        enc_users_loading_error(UsersLoadingError::InvalidUtf8 { line_number: l, byte_at: at })
            == seq![2u8] + enc_u32(l) + enc_u64(at),
        enc_users_loading_error(UsersLoadingError::LineTooLong { line_number: l, byte_at: at })
            == seq![3u8] + enc_u32(l) + enc_u64(at),
        enc_users_loading_error(UsersLoadingError::ExpectedRoleCharGotEOF(l, c)) == seq![4u8]
            + enc_u32(l) + enc_u32(c),
        enc_users_loading_error(UsersLoadingError::InvalidRoleChar(l, c, ch)) == seq![5u8] + enc_u32(
            l,
        ) + enc_u32(c) + enc_u32(ch as u32),
        enc_users_loading_error(UsersLoadingError::ExpectedColonGotEOF(l, c)) == seq![6u8]
            + enc_u32(l) + enc_u32(c),
        enc_users_loading_error(UsersLoadingError::EmptyUsername(l, c)) == seq![7u8] + enc_u32(l)
            + enc_u32(c),
        enc_users_loading_error(UsersLoadingError::UsernameTooLong(l, c)) == seq![8u8] + enc_u32(l)
            + enc_u32(c),
        enc_users_loading_error(UsersLoadingError::EmptyPassword(l, c)) == seq![9u8] + enc_u32(l)
            + enc_u32(c),
        enc_users_loading_error(UsersLoadingError::PasswordTooLong(l, c)) == seq![10u8] + enc_u32(l)
            + enc_u32(c),
        enc_users_loading_error(UsersLoadingError::NoUsers) == seq![11u8],
{
}

/// Reading a tag and two numbers gives the error of that tag with the first
/// number as the line and the second as the position; a tag outside
/// `1..=11` is refused.
pub proof fn law_read_users_loading_error(b: u8, l: u32, c: u32, rest: Seq<u8>)
    ensures
        b == 4 ==> parse_users_loading_error(seq![b] + enc_u32(l) + enc_u32(c) + rest, 0) == Ok::<
            (UsersLoadingError, int),
            WireError,
        >((UsersLoadingError::ExpectedRoleCharGotEOF(l, c), 9)),
        b == 6 ==> parse_users_loading_error(seq![b] + enc_u32(l) + enc_u32(c) + rest, 0) == Ok::<
            (UsersLoadingError, int),
            WireError,
        >((UsersLoadingError::ExpectedColonGotEOF(l, c), 9)),
        b == 7 ==> parse_users_loading_error(seq![b] + enc_u32(l) + enc_u32(c) + rest, 0) == Ok::<
            (UsersLoadingError, int),
            WireError,
        >((UsersLoadingError::EmptyUsername(l, c), 9)),
        b == 8 ==> parse_users_loading_error(seq![b] + enc_u32(l) + enc_u32(c) + rest, 0) == Ok::<
            (UsersLoadingError, int),
            WireError,
        >((UsersLoadingError::UsernameTooLong(l, c), 9)),
        b == 9 ==> parse_users_loading_error(seq![b] + enc_u32(l) + enc_u32(c) + rest, 0) == Ok::<
            (UsersLoadingError, int),
            WireError,
        >((UsersLoadingError::EmptyPassword(l, c), 9)),
        b == 10 ==> parse_users_loading_error(seq![b] + enc_u32(l) + enc_u32(c) + rest, 0) == Ok::<
            (UsersLoadingError, int),
            WireError,
        >((UsersLoadingError::PasswordTooLong(l, c), 9)),
        (b == 0 || b > 11) ==> parse_users_loading_error(seq![b] + rest, 0) == Err::<
            (UsersLoadingError, int),
            WireError,
        >(WireError::InvalidData),
{
    let s = seq![b] + enc_u32(l) + enc_u32(c) + rest;
    lemma_holds_prefix(seq![b] + enc_u32(l) + enc_u32(c), rest);
    lemma_holds_split(s, 0, seq![b] + enc_u32(l), enc_u32(c));
    lemma_holds_split(s, 0, seq![b], enc_u32(l));
    lemma_u8_roundtrip(b, s, 0);
    lemma_u32_roundtrip(l, s, 1);
    lemma_u32_roundtrip(c, s, 5);
    lemma_holds_prefix(seq![b], rest);
    lemma_u8_roundtrip(b, seq![b] + rest, 0);
}

/// The other errors read back from their layout: tag 1 and an error kind;
/// tags 2 and 3 with the line number, then the byte position as a `u64`;
/// tag 5 with the line number, the position and the character; tag 11
/// alone.
pub proof fn law_read_users_loading_error_others(
    k: IoErrorKind,
    l: u32,
    c: u32,
    at: u64,
    ch: char,
    rest: Seq<u8>,
)
    ensures
        k != IoErrorKind::Unrecognized ==> parse_users_loading_error(
            seq![1u8] + enc_io_error(k) + rest,
            0,
        ) == Ok::<(UsersLoadingError, int), WireError>((UsersLoadingError::IO(k), 2)),
        parse_users_loading_error(seq![2u8] + enc_u32(l) + enc_u64(at) + rest, 0) == Ok::<
            (UsersLoadingError, int),
            WireError,
        >((UsersLoadingError::InvalidUtf8 { line_number: l, byte_at: at }, 13)),
        parse_users_loading_error(seq![3u8] + enc_u32(l) + enc_u64(at) + rest, 0) == Ok::<
            (UsersLoadingError, int),
            WireError,
        >((UsersLoadingError::LineTooLong { line_number: l, byte_at: at }, 13)),
        parse_users_loading_error(seq![5u8] + enc_u32(l) + enc_u32(c) + enc_u32(ch as u32) + rest, 0)
            == Ok::<(UsersLoadingError, int), WireError>(
            (UsersLoadingError::InvalidRoleChar(l, c, ch), 13),
        ),
        parse_users_loading_error(seq![11u8] + rest, 0) == Ok::<(UsersLoadingError, int), WireError>(
            (UsersLoadingError::NoUsers, 1),
        ),
{
    lemma_read_users_loading_error_at(UsersLoadingError::IO(k), seq![1u8] + enc_io_error(k), rest);
    lemma_read_users_loading_error_at(
        UsersLoadingError::InvalidUtf8 { line_number: l, byte_at: at },
        seq![2u8] + enc_u32(l) + enc_u64(at),
        rest,
    );
    lemma_read_users_loading_error_at(
        UsersLoadingError::LineTooLong { line_number: l, byte_at: at },
        seq![3u8] + enc_u32(l) + enc_u64(at),
        rest,
    );
    lemma_read_users_loading_error_at(
        UsersLoadingError::InvalidRoleChar(l, c, ch),
        seq![5u8] + enc_u32(l) + enc_u32(c) + enc_u32(ch as u32),
        rest,
    );
    lemma_read_users_loading_error_at(UsersLoadingError::NoUsers, seq![11u8], rest);
}

proof fn lemma_read_users_loading_error_at(e: UsersLoadingError, b: Seq<u8>, rest: Seq<u8>)
    requires
        enc_users_loading_error(e) =~= b,
    ensures
        parse_users_loading_error(b + rest, 0) == Ok::<(UsersLoadingError, int), WireError>(
            (users_error_read_back(e), b.len() as int),
        ),
{
    lemma_holds_prefix(b, rest);
    lemma_users_loading_error_roundtrip(e, b + rest, 0);
}

/// An IPv4 socket address reads back from 4, the address and the port; an
/// IPv6 one from 6, the address, the port, the flow info and the scope id.
pub proof fn law_read_socket_addr(v4: SocketAddrV4, v6: SocketAddrV6, s: Seq<u8>, i: int)
    ensures
        holds_at(s, i, seq![4u8] + enc_u32(v4.ip.bits) + enc_u16(v4.port)) ==> parse_socket_addr(
            s,
            i,
        ) == Ok::<(SocketAddr, int), WireError>((SocketAddr::V4(v4), i + 7)),
        holds_at(
            s,
            i,
            seq![6u8] + enc_ipv6(v6.ip) + enc_u16(v6.port) + enc_u32(v6.flowinfo) + enc_u32(
                v6.scope_id,
            ),
        ) ==> parse_socket_addr(s, i) == Ok::<(SocketAddr, int), WireError>(
            (SocketAddr::V6(v6), i + 27),
        ),
{
    lemma_enc_ipv6_len(v6.ip);
    let b4 = seq![4u8] + enc_u32(v4.ip.bits) + enc_u16(v4.port);
    let b6 = seq![6u8] + enc_ipv6(v6.ip) + enc_u16(v6.port) + enc_u32(v6.flowinfo) + enc_u32(
        v6.scope_id,
    );
    if holds_at(s, i, b4) {
        assert(enc_socket_addr(SocketAddr::V4(v4)) =~= b4);
        lemma_socket_addr_roundtrip(SocketAddr::V4(v4), s, i);
    }
    if holds_at(s, i, b6) {
        assert(enc_socket_addr(SocketAddr::V6(v6)) =~= b6);
        lemma_socket_addr_roundtrip(SocketAddr::V6(v6), s, i);
    }
}

/// A request reads back from its layout: 4 and an IPv4 address, 6 and an
/// IPv6 address, or 200 and a domain name with a one-byte length, then the
/// port.
pub proof fn law_read_socks_request(
    a4: Ipv4Addr,
    a6: Ipv6Addr,
    d: Seq<char>,
    port: u16,
    s: Seq<u8>,
    i: int,
)
    ensures
        holds_at(s, i, seq![4u8] + enc_u32(a4.bits) + enc_u16(port)) ==> parse_socks_request(s, i)
            == Ok::<(SpecSocksRequest, int), WireError>(
            (SpecSocksRequest { destination: SpecSocksRequestAddress::IPv4(a4), port }, i + 7),
        ),
        holds_at(s, i, seq![6u8] + enc_ipv6(a6) + enc_u16(port)) ==> parse_socks_request(s, i)
            == Ok::<(SpecSocksRequest, int), WireError>(
            (SpecSocksRequest { destination: SpecSocksRequestAddress::IPv6(a6), port }, i + 19),
        ),
        encode_utf8(d).len() <= 0xFF && holds_at(
            s,
            i,
            seq![200u8] + seq![encode_utf8(d).len() as u8] + encode_utf8(d) + enc_u16(port),
        ) ==> parse_socks_request(s, i) == Ok::<(SpecSocksRequest, int), WireError>(
            (
                SpecSocksRequest { destination: SpecSocksRequestAddress::Domainname(d), port },
                i + encode_utf8(d).len() + 4,
            ),
        ),
{
    lemma_enc_ipv6_len(a6);
    let r4 = SpecSocksRequest { destination: SpecSocksRequestAddress::IPv4(a4), port };
    let r6 = SpecSocksRequest { destination: SpecSocksRequestAddress::IPv6(a6), port };
    let rd = SpecSocksRequest { destination: SpecSocksRequestAddress::Domainname(d), port };
    let b4 = seq![4u8] + enc_u32(a4.bits) + enc_u16(port);
    let b6 = seq![6u8] + enc_ipv6(a6) + enc_u16(port);
    let bd = seq![200u8] + seq![encode_utf8(d).len() as u8] + encode_utf8(d) + enc_u16(port);
    if holds_at(s, i, b4) {
        assert(emit_socks_request(r4).bytes =~= b4);
        lemma_socks_request_roundtrip(r4, s, i);
    }
    if holds_at(s, i, b6) {
        assert(emit_socks_request(r6).bytes =~= b6);
        lemma_socks_request_roundtrip(r6, s, i);
    }
    if encode_utf8(d).len() <= 0xFF && holds_at(s, i, bd) {
        assert(emit_socks_request(rd).bytes =~= bd);
        lemma_socks_request_roundtrip(rd, s, i);
    }
}

/// A number, a flag or a character that runs past the end of the input is
/// refused as unexpected end of input.
pub proof fn law_read_short_input(s: Seq<u8>, i: int)
    requires
        0 <= i,
    ensures
        i >= s.len() ==> parse_u8(s, i) == Err::<(u8, int), WireError>(WireError::UnexpectedEof),
        i >= s.len() ==> parse_bool(s, i) == Err::<(bool, int), WireError>(
            WireError::UnexpectedEof,
        ),
        i + 2 > s.len() ==> parse_u16(s, i) == Err::<(u16, int), WireError>(
            WireError::UnexpectedEof,
        ),
        i + 4 > s.len() ==> parse_u32(s, i) == Err::<(u32, int), WireError>(
            WireError::UnexpectedEof,
        ),
        i + 4 > s.len() ==> parse_char(s, i) == Err::<(char, int), WireError>(
            WireError::UnexpectedEof,
        ),
        i + 8 > s.len() ==> parse_u64(s, i) == Err::<(u64, int), WireError>(
            WireError::UnexpectedEof,
        ),
        i + 8 > s.len() ==> parse_i64(s, i) == Err::<(i64, int), WireError>(
            WireError::UnexpectedEof,
        ),
{
}

/// A string whose length says more bytes than are left is refused as
/// unexpected end of input.
pub proof fn law_read_string_short(n: u16, m: u8, s: Seq<u8>, i: int)
    ensures
        holds_at(s, i, enc_u16(n)) && i + 2 + n > s.len() ==> parse_string(s, i) == Err::<
            (Seq<char>, int),
            WireError,
        >(WireError::UnexpectedEof),
        holds_at(s, i, seq![m]) && i + 1 + m > s.len() ==> parse_small_string(s, i) == Err::<
            (Seq<char>, int),
            WireError,
        >(WireError::UnexpectedEof),
{
    if holds_at(s, i, enc_u16(n)) {
        lemma_u16_roundtrip(n, s, i);
    }
    if holds_at(s, i, seq![m]) {
        lemma_u8_roundtrip(m, s, i);
    }
}

/// The model of a request has its port and the model of its destination;
/// the model of a destination is the same address, a domain name taken as
/// its characters.
pub proof fn law_socks_model(r: SocksRequest, a: SocksRequestAddress)
    ensures
        r@.port == r.port,
        r@.destination == r.destination@,
        a matches SocksRequestAddress::IPv4(x) ==> a@ == SpecSocksRequestAddress::IPv4(x),
        a matches SocksRequestAddress::IPv6(x) ==> a@ == SpecSocksRequestAddress::IPv6(x),
        a matches SocksRequestAddress::Domainname(d) ==> a@ == SpecSocksRequestAddress::Domainname(
            d@,
        ),
{
}

} // verus!
