use dust_devil_core::io_error::IoErrorKind;
use dust_devil_core::logging::{LogEvent, LogEventType};
use dust_devil_core::net::{Ipv4Addr, SocketAddr, SocketAddrV4};
use dust_devil_core::socks5::{AuthMethod, SocksRequest, SocksRequestAddress};
use dust_devil_core::users::{UserRole, UsersLoadingError};
use dust_devil_core::wire::WireError;

fn addr() -> SocketAddr {
    SocketAddr::V4(SocketAddrV4 { ip: Ipv4Addr { bits: 0xC0A80001 }, port: 1080 })
}

fn all_types() -> Vec<LogEventType> {
    vec![
        LogEventType::NewListeningSocket(addr()),
        LogEventType::FailedBindListeningSocket(addr(), IoErrorKind::AddrInUse),
        LogEventType::FailedBindAnySocketAborting,
        LogEventType::RemovedListeningSocket(addr()),
        LogEventType::LoadingUsersFromFile("users.txt".to_string()),
        LogEventType::UsersLoadedFromFile("users.txt".to_string(), Ok(3)),
        LogEventType::UsersLoadedFromFile(
            "users.txt".to_string(),
            Err(UsersLoadingError::EmptyPassword(2, 7)),
        ),
        LogEventType::StartingUpWithSingleDefaultUser,
        LogEventType::SavingUsersToFile("out.txt".to_string()),
        LogEventType::UsersSavedToFile("out.txt".to_string(), Ok(12)),
        LogEventType::UsersSavedToFile("out.txt".to_string(), Err(IoErrorKind::PermissionDenied)),
        LogEventType::UserRegistered("alice".to_string(), UserRole::Admin),
        LogEventType::UserReplacedByArgs("bob".to_string(), UserRole::Regular),
        LogEventType::UserUpdated("carol".to_string(), UserRole::Regular, true),
        LogEventType::UserDeleted("dave".to_string(), UserRole::Admin),
        LogEventType::NewClientConnectionAccepted(1, addr()),
        LogEventType::ClientConnectionAcceptFailed(Some(addr()), IoErrorKind::ConnectionReset),
        LogEventType::ClientConnectionAcceptFailed(None, IoErrorKind::Other),
        LogEventType::ClientRequestedUnsupportedVersion(2, 4),
        LogEventType::ClientRequestedUnsupportedCommand(3, 2),
        LogEventType::ClientRequestedUnsupportedAtyp(4, 9),
        LogEventType::ClientSelectedAuthMethod(5, AuthMethod::UsernameAndPassword),
        LogEventType::ClientRequestedUnsupportedUserpassVersion(6, 0),
        LogEventType::ClientSocksRequest(
            7,
            SocksRequest::new(SocksRequestAddress::Domainname("example.org".to_string()), 80),
        ),
        LogEventType::ClientDnsLookup(8, "example.org".to_string()),
        LogEventType::ClientAttemptingConnect(9, addr()),
        LogEventType::ClientConnectionAttemptBindFailed(10, IoErrorKind::AddrNotAvailable),
        LogEventType::ClientConnectionAttemptConnectFailed(11, IoErrorKind::ConnectionRefused),
        LogEventType::ClientFailedToConnectToDestination(12),
        LogEventType::ClientConnectedToDestination(13, addr()),
        LogEventType::ClientBytesSent(14, 1 << 33),
        LogEventType::ClientBytesReceived(15, 99),
        LogEventType::ClientSourceShutdown(16),
        LogEventType::ClientDestinationShutdown(17),
        LogEventType::ClientConnectionFinished(18, 100, 200, Ok(())),
        LogEventType::ClientConnectionFinished(19, 0, 0, Err(IoErrorKind::TimedOut)),
    ]
}

#[test]
fn every_event_type_reads_back() {
    for data in all_types() {
        let mut out = Vec::new();
        assert_eq!(data.write(&mut out), Ok(()));
        let len = out.len();
        out.extend_from_slice(&[1, 2, 3]);
        let (back, n) = LogEventType::read(&out, 0).unwrap();
        assert_eq!(back, data);
        assert_eq!(n, len);
    }
}

#[test]
fn event_tags() {
    let mut out = Vec::new();
    LogEventType::FailedBindAnySocketAborting.write(&mut out).unwrap();
    assert_eq!(out, vec![3]);
    let mut out = Vec::new();
    LogEventType::ClientConnectionFinished(1, 2, 3, Ok(())).write(&mut out).unwrap();
    let mut expected = vec![33u8];
    for v in [1u64, 2, 3] {
        expected.extend_from_slice(&v.to_be_bytes());
    }
    expected.push(1);
    assert_eq!(out, expected);
}

#[test]
fn event_with_error_result_bytes() {
    let mut out = Vec::new();
    LogEventType::UsersSavedToFile("f".to_string(), Err(IoErrorKind::NotFound))
        .write(&mut out)
        .unwrap();
    assert_eq!(out, vec![9, 0, 1, b'f', 0, 1]);
}

#[test]
fn log_event_is_time_then_type() {
    let ev = LogEvent::new(-5, LogEventType::ClientSourceShutdown(0x0102));
    let mut out = Vec::new();
    assert_eq!(ev.write(&mut out), Ok(()));
    let mut expected = (-5i64).to_be_bytes().to_vec();
    expected.push(31);
    expected.extend_from_slice(&0x0102u64.to_be_bytes());
    assert_eq!(out, expected);
    assert_eq!(LogEvent::read(&out, 0), Ok((ev, 17)));
}

#[test]
fn every_strict_prefix_runs_out() {
    for data in all_types() {
        let ev = LogEvent::new(1_700_000_000, data);
        let mut out = Vec::new();
        ev.write(&mut out).unwrap();
        for k in 0..out.len() {
            assert_eq!(LogEvent::read(&out[..k], 0), Err(WireError::UnexpectedEof));
        }
        assert_eq!(LogEvent::read(&out, 0), Ok((ev, out.len())));
    }
}

#[test]
fn two_events_in_a_row() {
    let a = LogEvent::new(1, LogEventType::ClientDnsLookup(2, "a.b".to_string()));
    let b = LogEvent::new(3, LogEventType::UserDeleted("x".to_string(), UserRole::Regular));
    let mut out = Vec::new();
    a.write(&mut out).unwrap();
    let first = out.len();
    b.write(&mut out).unwrap();
    let (ra, p) = LogEvent::read(&out, 0).unwrap();
    assert_eq!(ra, a);
    assert_eq!(p, first);
    let (rb, q) = LogEvent::read(&out, p).unwrap();
    assert_eq!(rb, b);
    assert_eq!(q, out.len());
}

#[test]
fn unknown_event_tag_is_refused() {
    let mut buf = 0i64.to_be_bytes().to_vec();
    buf.push(34);
    assert_eq!(LogEvent::read(&buf, 0), Err(WireError::InvalidData));
    buf[8] = 0;
    assert_eq!(LogEvent::read(&buf, 0), Err(WireError::InvalidData));
}

#[test]
fn unrecognized_kind_reads_back_as_other() {
    let data = LogEventType::ClientConnectionAttemptBindFailed(4, IoErrorKind::Unrecognized);
    let mut out = Vec::new();
    data.write(&mut out).unwrap();
    assert_eq!(
        LogEventType::read(&out, 0),
        Ok((LogEventType::ClientConnectionAttemptBindFailed(4, IoErrorKind::Other), out.len()))
    );
}

#[test]
fn too_long_user_name_stops_after_tag() {
    let data = LogEventType::UserRegistered("u".repeat(300), UserRole::Admin);
    let mut out = Vec::new();
    assert_eq!(data.write(&mut out), Err(WireError::InvalidData));
    assert_eq!(out, vec![10]);
    let data = LogEventType::UsersLoadedFromFile("f".repeat(70000), Ok(1));
    let mut out = Vec::new();
    assert_eq!(data.write(&mut out), Err(WireError::InvalidData));
    assert_eq!(out, vec![6]);
}

#[test]
fn too_long_name_in_event_stops_after_time_and_tag() {
    let ev = LogEvent::new(7, LogEventType::ClientDnsLookup(1, "d".repeat(256)));
    let mut out = Vec::new();
    assert_eq!(ev.write(&mut out), Err(WireError::InvalidData));
    let mut expected = 7i64.to_be_bytes().to_vec();
    expected.push(23);
    expected.extend_from_slice(&1u64.to_be_bytes());
    assert_eq!(out, expected);
}

#[test]
fn userpass_name_is_written_short_and_read_long() {
    // The writer gives the user name a one-byte length, the reader expects
    // a two-byte one.
    let data = LogEventType::ClientAuthenticatedWithUserpass(1, "ab".to_string(), true);
    let mut out = Vec::new();
    data.write(&mut out).unwrap();
    let mut expected = vec![21u8];
    expected.extend_from_slice(&1u64.to_be_bytes());
    expected.extend_from_slice(&[2, b'a', b'b', 1]);
    assert_eq!(out, expected);
    // read: length 0x0261, far past the end
    assert_eq!(LogEventType::read(&out, 0), Err(WireError::UnexpectedEof));
    // bytes laid out for the reader
    let mut laid = vec![21u8];
    laid.extend_from_slice(&1u64.to_be_bytes());
    laid.extend_from_slice(&[0, 2, b'a', b'b', 0]);
    assert_eq!(
        LogEventType::read(&laid, 0),
        Ok((LogEventType::ClientAuthenticatedWithUserpass(1, "ab".to_string(), false), 14))
    );
}
