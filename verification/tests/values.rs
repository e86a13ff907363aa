use dust_devil_core::io_error::IoErrorKind;
use dust_devil_core::net::{Ipv4Addr, Ipv6Addr, SocketAddr, SocketAddrV4, SocketAddrV6};
use dust_devil_core::socks5::{AuthMethod, SocksRequest, SocksRequestAddress};
use dust_devil_core::users::{UserRole, UsersLoadingError};
use dust_devil_core::wire::WireError;

fn v4() -> SocketAddr {
    SocketAddr::V4(SocketAddrV4 { ip: Ipv4Addr { bits: 0x7F000001 }, port: 8080 })
}

fn v6() -> SocketAddr {
    SocketAddr::V6(SocketAddrV6 {
        ip: Ipv6Addr { bits: 1 },
        port: 1080,
        flowinfo: 7,
        scope_id: 0x01020304,
    })
}

#[test]
fn socket_addr_v4_bytes() {
    let mut out = Vec::new();
    v4().write(&mut out);
    assert_eq!(out, vec![4, 127, 0, 0, 1, 0x1F, 0x90]);
    assert_eq!(SocketAddr::read(&out, 0), Ok((v4(), 7)));
}

#[test]
fn socket_addr_v6_bytes() {
    let mut out = Vec::new();
    v6().write(&mut out);
    let mut expected = vec![6u8];
    expected.extend_from_slice(&[0; 15]);
    expected.push(1);
    expected.extend_from_slice(&[0x04, 0x38, 0, 0, 0, 7, 1, 2, 3, 4]);
    assert_eq!(out, expected);
    assert_eq!(SocketAddr::read(&out, 0), Ok((v6(), 27)));
}

#[test]
fn socket_addr_bad_family() {
    assert_eq!(SocketAddr::read(&[5, 1, 2, 3, 4, 5, 6], 0), Err(WireError::InvalidData));
    assert_eq!(SocketAddr::read(&[4, 1, 2, 3], 0), Err(WireError::UnexpectedEof));
}

#[test]
fn ipv6_reads_at_an_offset() {
    let mut out = vec![0xAA];
    Ipv6Addr { bits: 0x2001_0db8_0000_0000_0000_0000_0000_0001 }.write(&mut out);
    assert_eq!(out[1..3], [0x20, 0x01]);
    assert_eq!(
        Ipv6Addr::read(&out, 1),
        Ok((Ipv6Addr { bits: 0x2001_0db8_0000_0000_0000_0000_0000_0001 }, 17))
    );
}

#[test]
fn io_error_kind_numbers() {
    let kinds = [
        IoErrorKind::NotFound,
        IoErrorKind::PermissionDenied,
        IoErrorKind::ConnectionRefused,
        IoErrorKind::ConnectionReset,
        IoErrorKind::ConnectionAborted,
        IoErrorKind::NotConnected,
        IoErrorKind::AddrInUse,
        IoErrorKind::AddrNotAvailable,
        IoErrorKind::BrokenPipe,
        IoErrorKind::AlreadyExists,
        IoErrorKind::WouldBlock,
        IoErrorKind::InvalidInput,
        IoErrorKind::InvalidData,
        IoErrorKind::TimedOut,
        IoErrorKind::WriteZero,
        IoErrorKind::Interrupted,
        IoErrorKind::Unsupported,
        IoErrorKind::UnexpectedEof,
        IoErrorKind::OutOfMemory,
        IoErrorKind::Other,
    ];
    for (i, k) in kinds.iter().enumerate() {
        let mut out = Vec::new();
        k.write(&mut out);
        assert_eq!(out, vec![(i + 1) as u8]);
        assert_eq!(IoErrorKind::read(&out, 0), Ok((*k, 1)));
    }
}

#[test]
fn unrecognized_io_error_kind_reads_back_as_other() {
    let mut out = Vec::new();
    IoErrorKind::Unrecognized.write(&mut out);
    assert_eq!(out, vec![0]);
    assert_eq!(IoErrorKind::read(&out, 0), Ok((IoErrorKind::Other, 1)));
    assert_eq!(IoErrorKind::read(&[21], 0), Ok((IoErrorKind::Other, 1)));
    assert_eq!(IoErrorKind::read(&[255], 0), Ok((IoErrorKind::Other, 1)));
}

#[test]
fn user_roles() {
    let mut out = Vec::new();
    UserRole::Admin.write(&mut out);
    UserRole::Regular.write(&mut out);
    assert_eq!(out, vec![1, 2]);
    assert_eq!(UserRole::read(&out, 1), Ok((UserRole::Regular, 2)));
    assert_eq!(UserRole::read(&[0], 0), Err(WireError::InvalidData));
    assert_eq!(UserRole::read(&[3], 0), Err(WireError::InvalidData));
}

#[test]
fn users_loading_errors_roundtrip() {
    let errors = [
        UsersLoadingError::IO(IoErrorKind::NotFound),
        UsersLoadingError::InvalidUtf8 { line_number: 3, byte_at: 40 },
        UsersLoadingError::LineTooLong { line_number: 9, byte_at: 1 << 40 },
        UsersLoadingError::ExpectedRoleCharGotEOF(1, 2),
        UsersLoadingError::InvalidRoleChar(4, 5, 'x'),
        UsersLoadingError::ExpectedColonGotEOF(6, 7),
        UsersLoadingError::EmptyUsername(8, 9),
        UsersLoadingError::UsernameTooLong(10, 11),
        UsersLoadingError::EmptyPassword(12, 13),
        UsersLoadingError::PasswordTooLong(14, 15),
        UsersLoadingError::NoUsers,
    ];
    for (i, e) in errors.iter().enumerate() {
        let mut out = Vec::new();
        e.write(&mut out);
        assert_eq!(out[0], (i + 1) as u8);
        out.extend_from_slice(&[0xEE, 0xEE]);
        let (back, n) = UsersLoadingError::read(&out, 0).unwrap();
        assert_eq!(back, *e);
        assert_eq!(n, out.len() - 2);
    }
}

#[test]
fn users_loading_error_bytes() {
    let mut out = Vec::new();
    UsersLoadingError::InvalidRoleChar(1, 2, 'A').write(&mut out);
    assert_eq!(out, vec![5, 0, 0, 0, 1, 0, 0, 0, 2, 0, 0, 0, 0x41]);
    let mut out = Vec::new();
    UsersLoadingError::InvalidUtf8 { line_number: 1, byte_at: 2 }.write(&mut out);
    assert_eq!(out, vec![2, 0, 0, 0, 1, 0, 0, 0, 0, 0, 0, 0, 2]);
}

#[test]
fn users_loading_error_bad_tag() {
    assert_eq!(UsersLoadingError::read(&[0], 0), Err(WireError::InvalidData));
    assert_eq!(UsersLoadingError::read(&[12, 0, 0], 0), Err(WireError::InvalidData));
    assert_eq!(UsersLoadingError::read(&[4, 0, 0], 0), Err(WireError::UnexpectedEof));
    // a role character that is no char
    assert_eq!(
        UsersLoadingError::read(&[5, 0, 0, 0, 1, 0, 0, 0, 1, 0, 0, 0xD8, 0], 0),
        Err(WireError::InvalidData)
    );
}

#[test]
fn auth_methods() {
    let mut out = Vec::new();
    AuthMethod::NoAuth.write(&mut out);
    AuthMethod::UsernameAndPassword.write(&mut out);
    assert_eq!(out, vec![0, 2]);
    assert_eq!(AuthMethod::read(&out, 1), Ok((AuthMethod::UsernameAndPassword, 2)));
    assert_eq!(AuthMethod::read(&[1], 0), Err(WireError::InvalidData));
    assert_eq!(AuthMethod::from_u8(0xFF), None);
    assert_eq!(AuthMethod::from_u8(0), Some(AuthMethod::NoAuth));
}

#[test]
fn socks_request_with_domain() {
    let req = SocksRequest::new(SocksRequestAddress::Domainname("example.com".to_string()), 443);
    let mut out = Vec::new();
    assert_eq!(req.write(&mut out), Ok(()));
    let mut expected = vec![200u8, 11];
    expected.extend_from_slice(b"example.com");
    expected.extend_from_slice(&[0x01, 0xBB]);
    assert_eq!(out, expected);
    assert_eq!(SocksRequest::read(&out, 0), Ok((req, 15)));
}

#[test]
fn socks_request_with_addresses() {
    let req = SocksRequest::new(SocksRequestAddress::IPv4(Ipv4Addr { bits: 0x0A000001 }), 80);
    let mut out = Vec::new();
    assert_eq!(req.write(&mut out), Ok(()));
    assert_eq!(out, vec![4, 10, 0, 0, 1, 0, 80]);
    assert_eq!(SocksRequest::read(&out, 0), Ok((req, 7)));
    let req = SocksRequest::new(SocksRequestAddress::IPv6(Ipv6Addr { bits: u128::MAX }), 1);
    let mut out = Vec::new();
    assert_eq!(req.write(&mut out), Ok(()));
    assert_eq!(out.len(), 19);
    assert_eq!(SocksRequest::read(&out, 0), Ok((req, 19)));
}

#[test]
fn socks_request_too_long_domain_stops_after_tag() {
    let req = SocksRequest::new(SocksRequestAddress::Domainname("d".repeat(256)), 443);
    let mut out = Vec::new();
    assert_eq!(req.write(&mut out), Err(WireError::InvalidData));
    assert_eq!(out, vec![200]);
}

#[test]
fn socks_request_bad_tag() {
    assert_eq!(SocksRequest::read(&[3, 0, 0], 0), Err(WireError::InvalidData));
    assert_eq!(SocksRequest::read(&[200, 3, b'a'], 0), Err(WireError::UnexpectedEof));
}
