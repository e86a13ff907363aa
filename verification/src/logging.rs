//! Log events and how they are written: the time of the event, then a tag
//! byte naming what happened, then the fields of what happened in order.
use vstd::prelude::*;

use crate::io_error::{
    enc_io_error, io_kind_read_back, lemma_io_error_extend, lemma_io_error_roundtrip,
    parse_io_error, IoErrorKind,
};
use crate::net::{
    enc_socket_addr, lemma_net_extend, lemma_socket_addr_roundtrip, parse_socket_addr, SocketAddr,
};
use crate::socks5::{
    emit_socks_request, enc_auth_method, lemma_auth_method_roundtrip,
    lemma_socks_request_roundtrip, lemma_socks5_extend, parse_auth_method, parse_socks_request,
    AuthMethod, SocksRequest, SpecSocksRequest,
};
use crate::text::{
    emit_small_str, emit_str, lemma_small_str_roundtrip, lemma_str_roundtrip,
    lemma_strings_extend, parse_small_string, parse_string, read_small_string, read_string,
    write_small_str, write_str,
};
use crate::users::{
    enc_user_role, enc_users_loading_error, lemma_user_role_roundtrip,
    lemma_users_extend, lemma_users_loading_error_roundtrip, parse_user_role,
    parse_users_loading_error, users_error_read_back, UserRole, UsersLoadingError,
};
use crate::wire::{
    enc_bool, enc_i64, enc_u64, enc_u8, holds_at, lemma_bool_roundtrip, lemma_holds_split,
    lemma_i64_roundtrip, lemma_primitives_extend, lemma_u64_roundtrip, lemma_u8_roundtrip, lift,
    lift_view, parse_bool, parse_i64, parse_u64, parse_u8, read_bool, read_i64, read_u64, read_u8,
    stable, write_bool, write_i64, write_u64, write_u8, Emit, Parsed, WireError,
};

verus! {

broadcast use crate::wire::group_enc_lens;

// ---------------------------------------------------------------------------
// Optional addresses and results
// ---------------------------------------------------------------------------

/// `None` is written as 0; `Some` as 1 and the address.
pub open spec fn enc_opt_socket_addr(o: Option<SocketAddr>) -> Seq<u8> {
    match o {
        Some(a) => enc_u8(1) + enc_socket_addr(a),
        None => enc_u8(0),
    }
}

/// 0 reads as `None`; any other byte as `Some` with an address after it.
pub open spec fn parse_opt_socket_addr(s: Seq<u8>, i: int) -> Parsed<Option<SocketAddr>> {
    match parse_u8(s, i) {
        Ok((b, j)) => if b == 0 {
            Ok((None, j))
        } else {
            match parse_socket_addr(s, j) {
                Ok((a, k)) => Ok((Some(a), k)),
                Err(e) => Err(e),
            }
        },
        Err(e) => Err(e),
    }
}

/// `Ok` is written as 1 and the count, `Err` as 0 and the error.
pub open spec fn enc_users_result(r: Result<u64, UsersLoadingError>) -> Seq<u8> {
    match r {
        Ok(v) => enc_u8(1) + enc_u64(v),
        Err(e) => enc_u8(0) + enc_users_loading_error(e),
    }
}

/// 0 reads as `Err` with an error after it; any other byte as `Ok`.
pub open spec fn parse_users_result(s: Seq<u8>, i: int) -> Parsed<Result<u64, UsersLoadingError>> {
    match parse_u8(s, i) {
        Ok((b, j)) => if b == 0 {
            match parse_users_loading_error(s, j) {
                Ok((e, k)) => Ok((Err(e), k)),
                Err(x) => Err(x),
            }
        } else {
            match parse_u64(s, j) {
                Ok((v, k)) => Ok((Ok(v), k)),
                Err(x) => Err(x),
            }
        },
        Err(x) => Err(x),
    }
}

pub open spec fn users_result_read_back(r: Result<u64, UsersLoadingError>) -> Result<
    u64,
    UsersLoadingError,
> {
    match r {
        Ok(v) => Ok(v),
        Err(e) => Err(users_error_read_back(e)),
    }
}

/// `Ok` is written as 1 and the count, `Err` as 0 and the error kind.
pub open spec fn enc_io_result(r: Result<u64, IoErrorKind>) -> Seq<u8> {
    match r {
        Ok(v) => enc_u8(1) + enc_u64(v),
        Err(k) => enc_u8(0) + enc_io_error(k),
    }
}

/// 0 reads as `Err` with an error kind after it; any other byte as `Ok`.
pub open spec fn parse_io_result(s: Seq<u8>, i: int) -> Parsed<Result<u64, IoErrorKind>> {
    match parse_u8(s, i) {
        Ok((b, j)) => if b == 0 {
            match parse_io_error(s, j) {
                Ok((k, m)) => Ok((Err(k), m)),
                Err(x) => Err(x),
            }
        } else {
            match parse_u64(s, j) {
                Ok((v, m)) => Ok((Ok(v), m)),
                Err(x) => Err(x),
            }
        },
        Err(x) => Err(x),
    }
}

pub open spec fn io_result_read_back(r: Result<u64, IoErrorKind>) -> Result<u64, IoErrorKind> {
    match r {
        Ok(v) => Ok(v),
        Err(k) => Err(io_kind_read_back(k)),
    }
}

/// `Ok` is written as 1, `Err` as 0 and the error kind.
pub open spec fn enc_unit_result(r: Result<(), IoErrorKind>) -> Seq<u8> {
    match r {
        Ok(()) => enc_u8(1),
        Err(k) => enc_u8(0) + enc_io_error(k),
    }
}

/// 0 reads as `Err` with an error kind after it; any other byte as `Ok`.
pub open spec fn parse_unit_result(s: Seq<u8>, i: int) -> Parsed<Result<(), IoErrorKind>> {
    match parse_u8(s, i) {
        Ok((b, j)) => if b == 0 {
            match parse_io_error(s, j) {
                Ok((k, m)) => Ok((Err(k), m)),
                Err(x) => Err(x),
            }
        } else {
            Ok((Ok(()), j))
        },
        Err(x) => Err(x),
    }
}

pub open spec fn unit_result_read_back(r: Result<(), IoErrorKind>) -> Result<(), IoErrorKind> {
    match r {
        Ok(u) => Ok(u),
        Err(k) => Err(io_kind_read_back(k)),
    }
}

/// The error, if any, holds an I/O error only of a kind that has a number.
pub open spec fn users_result_kinds_listed(r: Result<u64, UsersLoadingError>) -> bool {
    r matches Err(UsersLoadingError::IO(k)) ==> k != IoErrorKind::Unrecognized
}

pub proof fn lemma_opt_socket_addr_roundtrip(o: Option<SocketAddr>, s: Seq<u8>, i: int)
    requires
        holds_at(s, i, enc_opt_socket_addr(o)),
    ensures
        parse_opt_socket_addr(s, i) == Ok::<(Option<SocketAddr>, int), WireError>(
            (o, i + enc_opt_socket_addr(o).len()),
        ),
{
    match o {
        Some(a) => {
            lemma_holds_split(s, i, enc_u8(1), enc_socket_addr(a));
            lemma_u8_roundtrip(1, s, i);
            lemma_socket_addr_roundtrip(a, s, i + 1);
        },
        None => lemma_u8_roundtrip(0, s, i),
    }
}

pub proof fn lemma_users_result_roundtrip(r: Result<u64, UsersLoadingError>, s: Seq<u8>, i: int)
    requires
        holds_at(s, i, enc_users_result(r)),
    ensures
        parse_users_result(s, i) == Ok::<(Result<u64, UsersLoadingError>, int), WireError>(
            (users_result_read_back(r), i + enc_users_result(r).len()),
        ),
{
    match r {
        Ok(v) => {
            lemma_holds_split(s, i, enc_u8(1), enc_u64(v));
            lemma_u8_roundtrip(1, s, i);
            lemma_u64_roundtrip(v, s, i + 1);
        },
        Err(e) => {
            lemma_holds_split(s, i, enc_u8(0), enc_users_loading_error(e));
            lemma_u8_roundtrip(0, s, i);
            lemma_users_loading_error_roundtrip(e, s, i + 1);
        },
    }
}

pub proof fn lemma_io_result_roundtrip(r: Result<u64, IoErrorKind>, s: Seq<u8>, i: int)
    requires
        holds_at(s, i, enc_io_result(r)),
    ensures
        parse_io_result(s, i) == Ok::<(Result<u64, IoErrorKind>, int), WireError>(
            (io_result_read_back(r), i + enc_io_result(r).len()),
        ),
{
    match r {
        Ok(v) => {
            lemma_holds_split(s, i, enc_u8(1), enc_u64(v));
            lemma_u8_roundtrip(1, s, i);
            lemma_u64_roundtrip(v, s, i + 1);
        },
        Err(k) => {
            lemma_holds_split(s, i, enc_u8(0), enc_io_error(k));
            lemma_u8_roundtrip(0, s, i);
            lemma_io_error_roundtrip(k, s, i + 1);
        },
    }
}

pub proof fn lemma_unit_result_roundtrip(r: Result<(), IoErrorKind>, s: Seq<u8>, i: int)
    requires
        holds_at(s, i, enc_unit_result(r)),
    ensures
        parse_unit_result(s, i) == Ok::<(Result<(), IoErrorKind>, int), WireError>(
            (unit_result_read_back(r), i + enc_unit_result(r).len()),
        ),
{
    match r {
        Ok(()) => lemma_u8_roundtrip(1, s, i),
        Err(k) => {
            lemma_holds_split(s, i, enc_u8(0), enc_io_error(k));
            lemma_u8_roundtrip(0, s, i);
            lemma_io_error_roundtrip(k, s, i + 1);
        },
    }
}

pub proof fn lemma_compound_extend(s: Seq<u8>, i: int, t: Seq<u8>)
    requires
        0 <= i,
    ensures
        stable(parse_opt_socket_addr(s, i), parse_opt_socket_addr(s + t, i)),
        stable(parse_users_result(s, i), parse_users_result(s + t, i)),
        stable(parse_io_result(s, i), parse_io_result(s + t, i)),
        stable(parse_unit_result(s, i), parse_unit_result(s + t, i)),
{
    lemma_primitives_extend(s, i, t);
    if let Ok((b, j)) = parse_u8(s, i) {
        lemma_net_extend(s, j, t);
        lemma_users_extend(s, j, t);
        lemma_io_error_extend(s, j, t);
        lemma_primitives_extend(s, j, t);
    }
}

pub fn write_opt_socket_addr(o: Option<SocketAddr>, out: &mut Vec<u8>)
    ensures
        final(out)@ == old(out)@ + enc_opt_socket_addr(o),
{
    match o {
        Some(a) => {
            write_u8(1, out);
            a.write(out);
        },
        None => write_u8(0, out),
    }
}

pub fn read_opt_socket_addr(buf: &[u8], pos: usize) -> (r: Result<
    (Option<SocketAddr>, usize),
    WireError,
>)
    requires
        pos <= buf@.len(),
    ensures
        lift(r) == parse_opt_socket_addr(buf@, pos as int),
        r matches Ok((_, end)) ==> pos <= end <= buf@.len(),
{
    let (b, p) = read_u8(buf, pos)?;
    if b == 0 {
        Ok((None, p))
    } else {
        let (a, p) = SocketAddr::read(buf, p)?;
        Ok((Some(a), p))
    }
}

pub fn write_users_result(r: Result<u64, UsersLoadingError>, out: &mut Vec<u8>)
    ensures
        final(out)@ == old(out)@ + enc_users_result(r),
{
    match r {
        Ok(v) => {
            write_u8(1, out);
            write_u64(v, out);
        },
        Err(e) => {
            write_u8(0, out);
            e.write(out);
        },
    }
}

pub fn read_users_result(buf: &[u8], pos: usize) -> (r: Result<
    (Result<u64, UsersLoadingError>, usize),
    WireError,
>)
    requires
        pos <= buf@.len(),
    ensures
        lift(r) == parse_users_result(buf@, pos as int),
        r matches Ok((_, end)) ==> pos <= end <= buf@.len(),
{
    let (b, p) = read_u8(buf, pos)?;
    if b == 0 {
        let (e, p) = UsersLoadingError::read(buf, p)?;
        Ok((Err(e), p))
    } else {
        let (v, p) = read_u64(buf, p)?;
        Ok((Ok(v), p))
    }
}

pub fn write_io_result(r: Result<u64, IoErrorKind>, out: &mut Vec<u8>)
    ensures
        final(out)@ == old(out)@ + enc_io_result(r),
{
    match r {
        Ok(v) => {
            write_u8(1, out);
            write_u64(v, out);
        },
        Err(k) => {
            write_u8(0, out);
            k.write(out);
        },
    }
}

pub fn read_io_result(buf: &[u8], pos: usize) -> (r: Result<
    (Result<u64, IoErrorKind>, usize),
    WireError,
>)
    requires
        pos <= buf@.len(),
    ensures
        lift(r) == parse_io_result(buf@, pos as int),
        r matches Ok((_, end)) ==> pos <= end <= buf@.len(),
{
    let (b, p) = read_u8(buf, pos)?;
    if b == 0 {
        let (k, p) = IoErrorKind::read(buf, p)?;
        Ok((Err(k), p))
    } else {
        let (v, p) = read_u64(buf, p)?;
        Ok((Ok(v), p))
    }
}

pub fn write_unit_result(r: Result<(), IoErrorKind>, out: &mut Vec<u8>)
    ensures
        final(out)@ == old(out)@ + enc_unit_result(r),
{
    match r {
        Ok(()) => write_u8(1, out),
        Err(k) => {
            write_u8(0, out);
            k.write(out);
        },
    }
}

pub fn read_unit_result(buf: &[u8], pos: usize) -> (r: Result<
    (Result<(), IoErrorKind>, usize),
    WireError,
>)
    requires
        pos <= buf@.len(),
    ensures
        lift(r) == parse_unit_result(buf@, pos as int),
        r matches Ok((_, end)) ==> pos <= end <= buf@.len(),
{
    let (b, p) = read_u8(buf, pos)?;
    if b == 0 {
        let (k, p) = IoErrorKind::read(buf, p)?;
        Ok((Err(k), p))
    } else {
        Ok((Ok(()), p))
    }
}

// ---------------------------------------------------------------------------
// Log event types
// ---------------------------------------------------------------------------

/// What a log event reports.
#[derive(Debug, PartialEq, Eq)]
pub enum LogEventType {
    NewListeningSocket(SocketAddr),
    FailedBindListeningSocket(SocketAddr, IoErrorKind),
    FailedBindAnySocketAborting,
    RemovedListeningSocket(SocketAddr),
    LoadingUsersFromFile(String),
    UsersLoadedFromFile(String, Result<u64, UsersLoadingError>),
    StartingUpWithSingleDefaultUser,
    SavingUsersToFile(String),
    UsersSavedToFile(String, Result<u64, IoErrorKind>),
    UserRegistered(String, UserRole),
    UserReplacedByArgs(String, UserRole),
    UserUpdated(String, UserRole, bool),
    UserDeleted(String, UserRole),
    NewClientConnectionAccepted(u64, SocketAddr),
    ClientConnectionAcceptFailed(Option<SocketAddr>, IoErrorKind),
    ClientRequestedUnsupportedVersion(u64, u8),
    ClientRequestedUnsupportedCommand(u64, u8),
    ClientRequestedUnsupportedAtyp(u64, u8),
    ClientSelectedAuthMethod(u64, AuthMethod),
    ClientRequestedUnsupportedUserpassVersion(u64, u8),
    ClientAuthenticatedWithUserpass(u64, String, bool),
    ClientSocksRequest(u64, SocksRequest),
    ClientDnsLookup(u64, String),
    ClientAttemptingConnect(u64, SocketAddr),
    ClientConnectionAttemptBindFailed(u64, IoErrorKind),
    ClientConnectionAttemptConnectFailed(u64, IoErrorKind),
    ClientFailedToConnectToDestination(u64),
    ClientConnectedToDestination(u64, SocketAddr),
    ClientBytesSent(u64, u64),
    ClientBytesReceived(u64, u64),
    ClientSourceShutdown(u64),
    ClientDestinationShutdown(u64),
    ClientConnectionFinished(u64, u64, u64, Result<(), IoErrorKind>),
}

/// A log event type, with its strings as characters and its request as
/// [`SpecSocksRequest`].
pub enum SpecLogEventType {
    NewListeningSocket(SocketAddr),
    FailedBindListeningSocket(SocketAddr, IoErrorKind),
    FailedBindAnySocketAborting,
    RemovedListeningSocket(SocketAddr),
    LoadingUsersFromFile(Seq<char>),
    UsersLoadedFromFile(Seq<char>, Result<u64, UsersLoadingError>),
    StartingUpWithSingleDefaultUser,
    SavingUsersToFile(Seq<char>),
    UsersSavedToFile(Seq<char>, Result<u64, IoErrorKind>),
    UserRegistered(Seq<char>, UserRole),
    UserReplacedByArgs(Seq<char>, UserRole),
    UserUpdated(Seq<char>, UserRole, bool),
    UserDeleted(Seq<char>, UserRole),
    NewClientConnectionAccepted(u64, SocketAddr),
    ClientConnectionAcceptFailed(Option<SocketAddr>, IoErrorKind),
    ClientRequestedUnsupportedVersion(u64, u8),
    ClientRequestedUnsupportedCommand(u64, u8),
    ClientRequestedUnsupportedAtyp(u64, u8),
    ClientSelectedAuthMethod(u64, AuthMethod),
    ClientRequestedUnsupportedUserpassVersion(u64, u8),
    ClientAuthenticatedWithUserpass(u64, Seq<char>, bool),
    ClientSocksRequest(u64, SpecSocksRequest),
    ClientDnsLookup(u64, Seq<char>),
    ClientAttemptingConnect(u64, SocketAddr),
    ClientConnectionAttemptBindFailed(u64, IoErrorKind),
    ClientConnectionAttemptConnectFailed(u64, IoErrorKind),
    ClientFailedToConnectToDestination(u64),
    ClientConnectedToDestination(u64, SocketAddr),
    ClientBytesSent(u64, u64),
    ClientBytesReceived(u64, u64),
    ClientSourceShutdown(u64),
    ClientDestinationShutdown(u64),
    ClientConnectionFinished(u64, u64, u64, Result<(), IoErrorKind>),
}

impl View for LogEventType {
    type V = SpecLogEventType;

    open spec fn view(&self) -> SpecLogEventType {
        match self {
            LogEventType::NewListeningSocket(a0) => SpecLogEventType::NewListeningSocket(*a0),
            LogEventType::FailedBindListeningSocket(a0, a1) => {
                SpecLogEventType::FailedBindListeningSocket(*a0, *a1)
            },
            LogEventType::FailedBindAnySocketAborting => {
                SpecLogEventType::FailedBindAnySocketAborting
            },
            LogEventType::RemovedListeningSocket(a0) => {
                SpecLogEventType::RemovedListeningSocket(*a0)
            },
            LogEventType::LoadingUsersFromFile(a0) => SpecLogEventType::LoadingUsersFromFile(a0@),
            LogEventType::UsersLoadedFromFile(a0, a1) => {
                SpecLogEventType::UsersLoadedFromFile(a0@, *a1)
            },
            LogEventType::StartingUpWithSingleDefaultUser => {
                SpecLogEventType::StartingUpWithSingleDefaultUser
            },
            LogEventType::SavingUsersToFile(a0) => SpecLogEventType::SavingUsersToFile(a0@),
            LogEventType::UsersSavedToFile(a0, a1) => SpecLogEventType::UsersSavedToFile(a0@, *a1),
            LogEventType::UserRegistered(a0, a1) => SpecLogEventType::UserRegistered(a0@, *a1),
            LogEventType::UserReplacedByArgs(a0, a1) => {
                SpecLogEventType::UserReplacedByArgs(a0@, *a1)
            },
            LogEventType::UserUpdated(a0, a1, a2) => SpecLogEventType::UserUpdated(a0@, *a1, *a2),
            LogEventType::UserDeleted(a0, a1) => SpecLogEventType::UserDeleted(a0@, *a1),
            LogEventType::NewClientConnectionAccepted(a0, a1) => {
                SpecLogEventType::NewClientConnectionAccepted(*a0, *a1)
            },
            LogEventType::ClientConnectionAcceptFailed(a0, a1) => {
                SpecLogEventType::ClientConnectionAcceptFailed(*a0, *a1)
            },
            LogEventType::ClientRequestedUnsupportedVersion(a0, a1) => {
                SpecLogEventType::ClientRequestedUnsupportedVersion(*a0, *a1)
            },
            LogEventType::ClientRequestedUnsupportedCommand(a0, a1) => {
                SpecLogEventType::ClientRequestedUnsupportedCommand(*a0, *a1)
            },
            LogEventType::ClientRequestedUnsupportedAtyp(a0, a1) => {
                SpecLogEventType::ClientRequestedUnsupportedAtyp(*a0, *a1)
            },
            LogEventType::ClientSelectedAuthMethod(a0, a1) => {
                SpecLogEventType::ClientSelectedAuthMethod(*a0, *a1)
            },
            LogEventType::ClientRequestedUnsupportedUserpassVersion(a0, a1) => {
                SpecLogEventType::ClientRequestedUnsupportedUserpassVersion(*a0, *a1)
            },
            LogEventType::ClientAuthenticatedWithUserpass(a0, a1, a2) => {
                SpecLogEventType::ClientAuthenticatedWithUserpass(*a0, a1@, *a2)
            },
            LogEventType::ClientSocksRequest(a0, a1) => {
                SpecLogEventType::ClientSocksRequest(*a0, a1@)
            },
            LogEventType::ClientDnsLookup(a0, a1) => SpecLogEventType::ClientDnsLookup(*a0, a1@),
            LogEventType::ClientAttemptingConnect(a0, a1) => {
                SpecLogEventType::ClientAttemptingConnect(*a0, *a1)
            },
            LogEventType::ClientConnectionAttemptBindFailed(a0, a1) => {
                SpecLogEventType::ClientConnectionAttemptBindFailed(*a0, *a1)
            },
            LogEventType::ClientConnectionAttemptConnectFailed(a0, a1) => {
                SpecLogEventType::ClientConnectionAttemptConnectFailed(*a0, *a1)
            },
            LogEventType::ClientFailedToConnectToDestination(a0) => {
                SpecLogEventType::ClientFailedToConnectToDestination(*a0)
            },
            LogEventType::ClientConnectedToDestination(a0, a1) => {
                SpecLogEventType::ClientConnectedToDestination(*a0, *a1)
            },
            LogEventType::ClientBytesSent(a0, a1) => SpecLogEventType::ClientBytesSent(*a0, *a1),
            LogEventType::ClientBytesReceived(a0, a1) => {
                SpecLogEventType::ClientBytesReceived(*a0, *a1)
            },
            LogEventType::ClientSourceShutdown(a0) => SpecLogEventType::ClientSourceShutdown(*a0),
            LogEventType::ClientDestinationShutdown(a0) => {
                SpecLogEventType::ClientDestinationShutdown(*a0)
            },
            LogEventType::ClientConnectionFinished(a0, a1, a2, a3) => {
                SpecLogEventType::ClientConnectionFinished(*a0, *a1, *a2, *a3)
            },
        }
    }
}

/// The tag of the event type, then its fields in order. A string too long
/// for its length stops the writing there, after the fields before it.
pub open spec fn emit_log_event_type(v: SpecLogEventType) -> Emit {
    match v {
        SpecLogEventType::NewListeningSocket(a0) => Emit::done(enc_u8(1) + enc_socket_addr(a0)),
        SpecLogEventType::FailedBindListeningSocket(a0, a1) => {
            Emit::done(enc_u8(2) + enc_socket_addr(a0) + enc_io_error(a1))
        },
        SpecLogEventType::FailedBindAnySocketAborting => Emit::done(enc_u8(3)),
        SpecLogEventType::RemovedListeningSocket(a0) => Emit::done(enc_u8(4) + enc_socket_addr(a0)),
        SpecLogEventType::LoadingUsersFromFile(a0) => Emit::done(enc_u8(5))
            .followed_by(emit_str(a0)),
        SpecLogEventType::UsersLoadedFromFile(a0, a1) => Emit::done(enc_u8(6))
            .followed_by(emit_str(a0))
            .followed_by(Emit::done(enc_users_result(a1))),
        SpecLogEventType::StartingUpWithSingleDefaultUser => Emit::done(enc_u8(7)),
        SpecLogEventType::SavingUsersToFile(a0) => Emit::done(enc_u8(8)).followed_by(emit_str(a0)),
        SpecLogEventType::UsersSavedToFile(a0, a1) => Emit::done(enc_u8(9))
            .followed_by(emit_str(a0))
            .followed_by(Emit::done(enc_io_result(a1))),
        SpecLogEventType::UserRegistered(a0, a1) => Emit::done(enc_u8(10))
            .followed_by(emit_small_str(a0))
            .followed_by(Emit::done(enc_user_role(a1))),
        SpecLogEventType::UserReplacedByArgs(a0, a1) => Emit::done(enc_u8(11))
            .followed_by(emit_small_str(a0))
            .followed_by(Emit::done(enc_user_role(a1))),
        SpecLogEventType::UserUpdated(a0, a1, a2) => Emit::done(enc_u8(12))
            .followed_by(emit_small_str(a0))
            .followed_by(Emit::done(enc_user_role(a1)))
            .followed_by(Emit::done(enc_bool(a2))),
        SpecLogEventType::UserDeleted(a0, a1) => Emit::done(enc_u8(13))
            .followed_by(emit_small_str(a0))
            .followed_by(Emit::done(enc_user_role(a1))),
        SpecLogEventType::NewClientConnectionAccepted(a0, a1) => {
            Emit::done(enc_u8(14) + enc_u64(a0) + enc_socket_addr(a1))
        },
        SpecLogEventType::ClientConnectionAcceptFailed(a0, a1) => {
            Emit::done(enc_u8(15) + enc_opt_socket_addr(a0) + enc_io_error(a1))
        },
        SpecLogEventType::ClientRequestedUnsupportedVersion(a0, a1) => {
            Emit::done(enc_u8(16) + enc_u64(a0) + enc_u8(a1))
        },
        SpecLogEventType::ClientRequestedUnsupportedCommand(a0, a1) => {
            Emit::done(enc_u8(17) + enc_u64(a0) + enc_u8(a1))
        },
        SpecLogEventType::ClientRequestedUnsupportedAtyp(a0, a1) => {
            Emit::done(enc_u8(18) + enc_u64(a0) + enc_u8(a1))
        },
        SpecLogEventType::ClientSelectedAuthMethod(a0, a1) => {
            Emit::done(enc_u8(19) + enc_u64(a0) + enc_auth_method(a1))
        },
        SpecLogEventType::ClientRequestedUnsupportedUserpassVersion(a0, a1) => {
            Emit::done(enc_u8(20) + enc_u64(a0) + enc_u8(a1))
        },
        SpecLogEventType::ClientAuthenticatedWithUserpass(a0, a1, a2) => Emit::done(enc_u8(21))
            .followed_by(Emit::done(enc_u64(a0)))
            .followed_by(emit_small_str(a1))
            .followed_by(Emit::done(enc_bool(a2))),
        SpecLogEventType::ClientSocksRequest(a0, a1) => Emit::done(enc_u8(22))
            .followed_by(Emit::done(enc_u64(a0)))
            .followed_by(emit_socks_request(a1)),
        SpecLogEventType::ClientDnsLookup(a0, a1) => Emit::done(enc_u8(23))
            .followed_by(Emit::done(enc_u64(a0)))
            .followed_by(emit_small_str(a1)),
        SpecLogEventType::ClientAttemptingConnect(a0, a1) => {
            Emit::done(enc_u8(24) + enc_u64(a0) + enc_socket_addr(a1))
        },
        SpecLogEventType::ClientConnectionAttemptBindFailed(a0, a1) => {
            Emit::done(enc_u8(25) + enc_u64(a0) + enc_io_error(a1))
        },
        SpecLogEventType::ClientConnectionAttemptConnectFailed(a0, a1) => {
            Emit::done(enc_u8(26) + enc_u64(a0) + enc_io_error(a1))
        },
        SpecLogEventType::ClientFailedToConnectToDestination(a0) => {
            Emit::done(enc_u8(27) + enc_u64(a0))
        },
        SpecLogEventType::ClientConnectedToDestination(a0, a1) => {
            Emit::done(enc_u8(28) + enc_u64(a0) + enc_socket_addr(a1))
        },
        SpecLogEventType::ClientBytesSent(a0, a1) => {
            Emit::done(enc_u8(29) + enc_u64(a0) + enc_u64(a1))
        },
        SpecLogEventType::ClientBytesReceived(a0, a1) => {
            Emit::done(enc_u8(30) + enc_u64(a0) + enc_u64(a1))
        },
        SpecLogEventType::ClientSourceShutdown(a0) => Emit::done(enc_u8(31) + enc_u64(a0)),
        SpecLogEventType::ClientDestinationShutdown(a0) => Emit::done(enc_u8(32) + enc_u64(a0)),
        SpecLogEventType::ClientConnectionFinished(a0, a1, a2, a3) => {
            Emit::done(enc_u8(33) + enc_u64(a0) + enc_u64(a1) + enc_u64(a2) + enc_unit_result(a3))
        },
    }
}

/// The event type after its tag `tag`, read from `j`; a tag outside `1..=33`
/// is refused.
pub open spec fn parse_log_event_type_body(s: Seq<u8>, tag: u8, j: int) -> Parsed<
    SpecLogEventType,
> {
    match tag {
        1u8 => match parse_socket_addr(s, j) {
            Ok((a0, k0)) => Ok((SpecLogEventType::NewListeningSocket(a0), k0)),
            Err(e) => Err(e),
        },
        2u8 => match parse_socket_addr(s, j) {
            Ok((a0, k0)) => match parse_io_error(s, k0) {
                Ok((a1, k1)) => Ok((SpecLogEventType::FailedBindListeningSocket(a0, a1), k1)),
                Err(e) => Err(e),
            },
            Err(e) => Err(e),
        },
        3u8 => Ok((SpecLogEventType::FailedBindAnySocketAborting, j)),
        4u8 => match parse_socket_addr(s, j) {
            Ok((a0, k0)) => Ok((SpecLogEventType::RemovedListeningSocket(a0), k0)),
            Err(e) => Err(e),
        },
        5u8 => match parse_string(s, j) {
            Ok((a0, k0)) => Ok((SpecLogEventType::LoadingUsersFromFile(a0), k0)),
            Err(e) => Err(e),
        },
        6u8 => match parse_string(s, j) {
            Ok((a0, k0)) => match parse_users_result(s, k0) {
                Ok((a1, k1)) => Ok((SpecLogEventType::UsersLoadedFromFile(a0, a1), k1)),
                Err(e) => Err(e),
            },
            Err(e) => Err(e),
        },
        7u8 => Ok((SpecLogEventType::StartingUpWithSingleDefaultUser, j)),
        8u8 => match parse_string(s, j) {
            Ok((a0, k0)) => Ok((SpecLogEventType::SavingUsersToFile(a0), k0)),
            Err(e) => Err(e),
        },
        9u8 => match parse_string(s, j) {
            Ok((a0, k0)) => match parse_io_result(s, k0) {
                Ok((a1, k1)) => Ok((SpecLogEventType::UsersSavedToFile(a0, a1), k1)),
                Err(e) => Err(e),
            },
            Err(e) => Err(e),
        },
        10u8 => match parse_small_string(s, j) {
            Ok((a0, k0)) => match parse_user_role(s, k0) {
                Ok((a1, k1)) => Ok((SpecLogEventType::UserRegistered(a0, a1), k1)),
                Err(e) => Err(e),
            },
            Err(e) => Err(e),
        },
        11u8 => match parse_small_string(s, j) {
            Ok((a0, k0)) => match parse_user_role(s, k0) {
                Ok((a1, k1)) => Ok((SpecLogEventType::UserReplacedByArgs(a0, a1), k1)),
                Err(e) => Err(e),
            },
            Err(e) => Err(e),
        },
        12u8 => match parse_small_string(s, j) {
            Ok((a0, k0)) => match parse_user_role(s, k0) {
                Ok((a1, k1)) => match parse_bool(s, k1) {
                    Ok((a2, k2)) => Ok((SpecLogEventType::UserUpdated(a0, a1, a2), k2)),
                    Err(e) => Err(e),
                },
                Err(e) => Err(e),
            },
            Err(e) => Err(e),
        },
        13u8 => match parse_small_string(s, j) {
            Ok((a0, k0)) => match parse_user_role(s, k0) {
                Ok((a1, k1)) => Ok((SpecLogEventType::UserDeleted(a0, a1), k1)),
                Err(e) => Err(e),
            },
            Err(e) => Err(e),
        },
        14u8 => match parse_u64(s, j) {
            Ok((a0, k0)) => match parse_socket_addr(s, k0) {
                Ok((a1, k1)) => Ok((SpecLogEventType::NewClientConnectionAccepted(a0, a1), k1)),
                Err(e) => Err(e),
            },
            Err(e) => Err(e),
        },
        15u8 => match parse_opt_socket_addr(s, j) {
            Ok((a0, k0)) => match parse_io_error(s, k0) {
                Ok((a1, k1)) => Ok((SpecLogEventType::ClientConnectionAcceptFailed(a0, a1), k1)),
                Err(e) => Err(e),
            },
            Err(e) => Err(e),
        },
        16u8 => match parse_u64(s, j) {
            Ok((a0, k0)) => match parse_u8(s, k0) {
                Ok((a1, k1)) => Ok((SpecLogEventType::ClientRequestedUnsupportedVersion(a0, a1), k1)),
                Err(e) => Err(e),
            },
            Err(e) => Err(e),
        },
        17u8 => match parse_u64(s, j) {
            Ok((a0, k0)) => match parse_u8(s, k0) {
                Ok((a1, k1)) => Ok((SpecLogEventType::ClientRequestedUnsupportedCommand(a0, a1), k1)),
                Err(e) => Err(e),
            },
            Err(e) => Err(e),
        },
        18u8 => match parse_u64(s, j) {
            Ok((a0, k0)) => match parse_u8(s, k0) {
                Ok((a1, k1)) => Ok((SpecLogEventType::ClientRequestedUnsupportedAtyp(a0, a1), k1)),
                Err(e) => Err(e),
            },
            Err(e) => Err(e),
        },
        19u8 => match parse_u64(s, j) {
            Ok((a0, k0)) => match parse_auth_method(s, k0) {
                Ok((a1, k1)) => Ok((SpecLogEventType::ClientSelectedAuthMethod(a0, a1), k1)),
                Err(e) => Err(e),
            },
            Err(e) => Err(e),
        },
        20u8 => match parse_u64(s, j) {
            Ok((a0, k0)) => match parse_u8(s, k0) {
                Ok((a1, k1)) => Ok((SpecLogEventType::ClientRequestedUnsupportedUserpassVersion(a0, a1), k1)),
                Err(e) => Err(e),
            },
            Err(e) => Err(e),
        },
        21u8 => match parse_u64(s, j) {
            Ok((a0, k0)) => match parse_string(s, k0) {
                Ok((a1, k1)) => match parse_bool(s, k1) {
                    Ok((a2, k2)) => Ok((SpecLogEventType::ClientAuthenticatedWithUserpass(a0, a1, a2), k2)),
                    Err(e) => Err(e),
                },
                Err(e) => Err(e),
            },
            Err(e) => Err(e),
        },
        22u8 => match parse_u64(s, j) {
            Ok((a0, k0)) => match parse_socks_request(s, k0) {
                Ok((a1, k1)) => Ok((SpecLogEventType::ClientSocksRequest(a0, a1), k1)),
                Err(e) => Err(e),
            },
            Err(e) => Err(e),
        },
        23u8 => match parse_u64(s, j) {
            Ok((a0, k0)) => match parse_small_string(s, k0) {
                Ok((a1, k1)) => Ok((SpecLogEventType::ClientDnsLookup(a0, a1), k1)),
                Err(e) => Err(e),
            },
            Err(e) => Err(e),
        },
        24u8 => match parse_u64(s, j) {
            Ok((a0, k0)) => match parse_socket_addr(s, k0) {
                Ok((a1, k1)) => Ok((SpecLogEventType::ClientAttemptingConnect(a0, a1), k1)),
                Err(e) => Err(e),
            },
            Err(e) => Err(e),
        },
        25u8 => match parse_u64(s, j) {
            Ok((a0, k0)) => match parse_io_error(s, k0) {
                Ok((a1, k1)) => Ok((SpecLogEventType::ClientConnectionAttemptBindFailed(a0, a1), k1)),
                Err(e) => Err(e),
            },
            Err(e) => Err(e),
        },
        26u8 => match parse_u64(s, j) {
            Ok((a0, k0)) => match parse_io_error(s, k0) {
                Ok((a1, k1)) => Ok((SpecLogEventType::ClientConnectionAttemptConnectFailed(a0, a1), k1)),
                Err(e) => Err(e),
            },
            Err(e) => Err(e),
        },
        27u8 => match parse_u64(s, j) {
            Ok((a0, k0)) => Ok((SpecLogEventType::ClientFailedToConnectToDestination(a0), k0)),
            Err(e) => Err(e),
        },
        28u8 => match parse_u64(s, j) {
            Ok((a0, k0)) => match parse_socket_addr(s, k0) {
                Ok((a1, k1)) => Ok((SpecLogEventType::ClientConnectedToDestination(a0, a1), k1)),
                Err(e) => Err(e),
            },
            Err(e) => Err(e),
        },
        29u8 => match parse_u64(s, j) {
            Ok((a0, k0)) => match parse_u64(s, k0) {
                Ok((a1, k1)) => Ok((SpecLogEventType::ClientBytesSent(a0, a1), k1)),
                Err(e) => Err(e),
            },
            Err(e) => Err(e),
        },
        30u8 => match parse_u64(s, j) {
            Ok((a0, k0)) => match parse_u64(s, k0) {
                Ok((a1, k1)) => Ok((SpecLogEventType::ClientBytesReceived(a0, a1), k1)),
                Err(e) => Err(e),
            },
            Err(e) => Err(e),
        },
        31u8 => match parse_u64(s, j) {
            Ok((a0, k0)) => Ok((SpecLogEventType::ClientSourceShutdown(a0), k0)),
            Err(e) => Err(e),
        },
        32u8 => match parse_u64(s, j) {
            Ok((a0, k0)) => Ok((SpecLogEventType::ClientDestinationShutdown(a0), k0)),
            Err(e) => Err(e),
        },
        33u8 => match parse_u64(s, j) {
            Ok((a0, k0)) => match parse_u64(s, k0) {
                Ok((a1, k1)) => match parse_u64(s, k1) {
                    Ok((a2, k2)) => match parse_unit_result(s, k2) {
                        Ok((a3, k3)) => Ok((SpecLogEventType::ClientConnectionFinished(a0, a1, a2, a3), k3)),
                        Err(e) => Err(e),
                    },
                    Err(e) => Err(e),
                },
                Err(e) => Err(e),
            },
            Err(e) => Err(e),
        },
        _ => Err(WireError::InvalidData),
    }
}

/// What an event type reads back as: itself, with the kind of each I/O
/// error read back as [`io_kind_read_back`] says.
pub open spec fn log_event_type_read_back(v: SpecLogEventType) -> SpecLogEventType {
    match v {
        SpecLogEventType::NewListeningSocket(a0) => SpecLogEventType::NewListeningSocket(a0),
        SpecLogEventType::FailedBindListeningSocket(a0, a1) => {
            SpecLogEventType::FailedBindListeningSocket(a0, io_kind_read_back(a1))
        },
        SpecLogEventType::FailedBindAnySocketAborting => {
            SpecLogEventType::FailedBindAnySocketAborting
        },
        SpecLogEventType::RemovedListeningSocket(a0) => {
            SpecLogEventType::RemovedListeningSocket(a0)
        },
        SpecLogEventType::LoadingUsersFromFile(a0) => SpecLogEventType::LoadingUsersFromFile(a0),
        SpecLogEventType::UsersLoadedFromFile(a0, a1) => {
            SpecLogEventType::UsersLoadedFromFile(a0, users_result_read_back(a1))
        },
        SpecLogEventType::StartingUpWithSingleDefaultUser => {
            SpecLogEventType::StartingUpWithSingleDefaultUser
        },
        SpecLogEventType::SavingUsersToFile(a0) => SpecLogEventType::SavingUsersToFile(a0),
        SpecLogEventType::UsersSavedToFile(a0, a1) => {
            SpecLogEventType::UsersSavedToFile(a0, io_result_read_back(a1))
        },
        SpecLogEventType::UserRegistered(a0, a1) => SpecLogEventType::UserRegistered(a0, a1),
        SpecLogEventType::UserReplacedByArgs(a0, a1) => {
            SpecLogEventType::UserReplacedByArgs(a0, a1)
        },
        SpecLogEventType::UserUpdated(a0, a1, a2) => SpecLogEventType::UserUpdated(a0, a1, a2),
        SpecLogEventType::UserDeleted(a0, a1) => SpecLogEventType::UserDeleted(a0, a1),
        SpecLogEventType::NewClientConnectionAccepted(a0, a1) => {
            SpecLogEventType::NewClientConnectionAccepted(a0, a1)
        },
        SpecLogEventType::ClientConnectionAcceptFailed(a0, a1) => {
            SpecLogEventType::ClientConnectionAcceptFailed(a0, io_kind_read_back(a1))
        },
        SpecLogEventType::ClientRequestedUnsupportedVersion(a0, a1) => {
            SpecLogEventType::ClientRequestedUnsupportedVersion(a0, a1)
        },
        SpecLogEventType::ClientRequestedUnsupportedCommand(a0, a1) => {
            SpecLogEventType::ClientRequestedUnsupportedCommand(a0, a1)
        },
        SpecLogEventType::ClientRequestedUnsupportedAtyp(a0, a1) => {
            SpecLogEventType::ClientRequestedUnsupportedAtyp(a0, a1)
        },
        SpecLogEventType::ClientSelectedAuthMethod(a0, a1) => {
            SpecLogEventType::ClientSelectedAuthMethod(a0, a1)
        },
        SpecLogEventType::ClientRequestedUnsupportedUserpassVersion(a0, a1) => {
            SpecLogEventType::ClientRequestedUnsupportedUserpassVersion(a0, a1)
        },
        SpecLogEventType::ClientAuthenticatedWithUserpass(a0, a1, a2) => {
            SpecLogEventType::ClientAuthenticatedWithUserpass(a0, a1, a2)
        },
        SpecLogEventType::ClientSocksRequest(a0, a1) => {
            SpecLogEventType::ClientSocksRequest(a0, a1)
        },
        SpecLogEventType::ClientDnsLookup(a0, a1) => SpecLogEventType::ClientDnsLookup(a0, a1),
        SpecLogEventType::ClientAttemptingConnect(a0, a1) => {
            SpecLogEventType::ClientAttemptingConnect(a0, a1)
        },
        SpecLogEventType::ClientConnectionAttemptBindFailed(a0, a1) => {
            SpecLogEventType::ClientConnectionAttemptBindFailed(a0, io_kind_read_back(a1))
        },
        SpecLogEventType::ClientConnectionAttemptConnectFailed(a0, a1) => {
            SpecLogEventType::ClientConnectionAttemptConnectFailed(a0, io_kind_read_back(a1))
        },
        SpecLogEventType::ClientFailedToConnectToDestination(a0) => {
            SpecLogEventType::ClientFailedToConnectToDestination(a0)
        },
        SpecLogEventType::ClientConnectedToDestination(a0, a1) => {
            SpecLogEventType::ClientConnectedToDestination(a0, a1)
        },
        SpecLogEventType::ClientBytesSent(a0, a1) => SpecLogEventType::ClientBytesSent(a0, a1),
        SpecLogEventType::ClientBytesReceived(a0, a1) => {
            SpecLogEventType::ClientBytesReceived(a0, a1)
        },
        SpecLogEventType::ClientSourceShutdown(a0) => SpecLogEventType::ClientSourceShutdown(a0),
        SpecLogEventType::ClientDestinationShutdown(a0) => {
            SpecLogEventType::ClientDestinationShutdown(a0)
        },
        SpecLogEventType::ClientConnectionFinished(a0, a1, a2, a3) => {
            SpecLogEventType::ClientConnectionFinished(a0, a1, a2, unit_result_read_back(a3))
        },
    }
}

/// The I/O errors that the event type holds are all of a kind the format
/// has a number for.
pub open spec fn log_event_type_kinds_listed(v: SpecLogEventType) -> bool {
    match v {
        SpecLogEventType::NewListeningSocket(a0) => true,
        SpecLogEventType::FailedBindListeningSocket(a0, a1) => a1 != IoErrorKind::Unrecognized,
        SpecLogEventType::FailedBindAnySocketAborting => true,
        SpecLogEventType::RemovedListeningSocket(a0) => true,
        SpecLogEventType::LoadingUsersFromFile(a0) => true,
        SpecLogEventType::UsersLoadedFromFile(a0, a1) => users_result_kinds_listed(a1),
        SpecLogEventType::StartingUpWithSingleDefaultUser => true,
        SpecLogEventType::SavingUsersToFile(a0) => true,
        SpecLogEventType::UsersSavedToFile(a0, a1) => {
            (a1 matches Err(k) ==> k != IoErrorKind::Unrecognized)
        },
        SpecLogEventType::UserRegistered(a0, a1) => true,
        SpecLogEventType::UserReplacedByArgs(a0, a1) => true,
        SpecLogEventType::UserUpdated(a0, a1, a2) => true,
        SpecLogEventType::UserDeleted(a0, a1) => true,
        SpecLogEventType::NewClientConnectionAccepted(a0, a1) => true,
        SpecLogEventType::ClientConnectionAcceptFailed(a0, a1) => a1 != IoErrorKind::Unrecognized,
        SpecLogEventType::ClientRequestedUnsupportedVersion(a0, a1) => true,
        SpecLogEventType::ClientRequestedUnsupportedCommand(a0, a1) => true,
        SpecLogEventType::ClientRequestedUnsupportedAtyp(a0, a1) => true,
        SpecLogEventType::ClientSelectedAuthMethod(a0, a1) => true,
        SpecLogEventType::ClientRequestedUnsupportedUserpassVersion(a0, a1) => true,
        SpecLogEventType::ClientAuthenticatedWithUserpass(a0, a1, a2) => true,
        SpecLogEventType::ClientSocksRequest(a0, a1) => true,
        SpecLogEventType::ClientDnsLookup(a0, a1) => true,
        SpecLogEventType::ClientAttemptingConnect(a0, a1) => true,
        SpecLogEventType::ClientConnectionAttemptBindFailed(a0, a1) => {
            a1 != IoErrorKind::Unrecognized
        },
        SpecLogEventType::ClientConnectionAttemptConnectFailed(a0, a1) => {
            a1 != IoErrorKind::Unrecognized
        },
        SpecLogEventType::ClientFailedToConnectToDestination(a0) => true,
        SpecLogEventType::ClientConnectedToDestination(a0, a1) => true,
        SpecLogEventType::ClientBytesSent(a0, a1) => true,
        SpecLogEventType::ClientBytesReceived(a0, a1) => true,
        SpecLogEventType::ClientSourceShutdown(a0) => true,
        SpecLogEventType::ClientDestinationShutdown(a0) => true,
        SpecLogEventType::ClientConnectionFinished(a0, a1, a2, a3) => {
            (a3 matches Err(k) ==> k != IoErrorKind::Unrecognized)
        },
    }
}

/// An event type whose I/O errors all have a number reads back as itself.
pub proof fn lemma_log_event_type_read_back_identity(v: SpecLogEventType)
    requires
        log_event_type_kinds_listed(v),
    ensures
        log_event_type_read_back(v) == v,
{
    match v {
        SpecLogEventType::UsersLoadedFromFile(_, r) => {
            match r {
                Err(UsersLoadingError::IO(k)) => {},
                _ => {},
            }
        },
        SpecLogEventType::ClientConnectionFinished(_, _, _, r) => {
            match r {
                Ok(u) => {},
                Err(k) => {},
            }
        },
        _ => {},
    }
}

/// A tag byte, then the event type it names.
pub open spec fn parse_log_event_type(s: Seq<u8>, i: int) -> Parsed<SpecLogEventType> {
    match parse_u8(s, i) {
        Ok((tag, j)) => parse_log_event_type_body(s, tag, j),
        Err(e) => Err(e),
    }
}

#[verifier::spinoff_prover]
#[verifier::rlimit(50)]
proof fn lemma_new_listening_socket_roundtrip(v: SpecLogEventType, s: Seq<u8>, i: int)
    requires
        v is NewListeningSocket,
        emit_log_event_type(v).ok,
        holds_at(s, i, emit_log_event_type(v).bytes),
    ensures
        parse_log_event_type(s, i) == Ok::<(SpecLogEventType, int), WireError>(
            (log_event_type_read_back(v), i + emit_log_event_type(v).bytes.len()),
        ),
{
    match v {
        SpecLogEventType::NewListeningSocket(a0) => {
            let p0 = enc_u8(1);
            let p1 = enc_socket_addr(a0);
            lemma_holds_split(s, i, p0, p1);
            lemma_u8_roundtrip(1, s, i);
            lemma_socket_addr_roundtrip(a0, s, i + p0.len());
        },
        _ => {},
    }
}

#[verifier::spinoff_prover]
#[verifier::rlimit(50)]
proof fn lemma_failed_bind_listening_socket_roundtrip(v: SpecLogEventType, s: Seq<u8>, i: int)
    requires
        v is FailedBindListeningSocket,
        emit_log_event_type(v).ok,
        holds_at(s, i, emit_log_event_type(v).bytes),
    ensures
        parse_log_event_type(s, i) == Ok::<(SpecLogEventType, int), WireError>(
            (log_event_type_read_back(v), i + emit_log_event_type(v).bytes.len()),
        ),
{
    match v {
        SpecLogEventType::FailedBindListeningSocket(a0, a1) => {
            let p0 = enc_u8(2);
            let p1 = enc_socket_addr(a0);
            let p2 = enc_io_error(a1);
            lemma_holds_split(s, i, p0 + p1, p2);
            lemma_holds_split(s, i, p0, p1);
            lemma_u8_roundtrip(2, s, i);
            lemma_socket_addr_roundtrip(a0, s, i + p0.len());
            lemma_io_error_roundtrip(a1, s, i + p0.len() + p1.len());
        },
        _ => {},
    }
}

#[verifier::spinoff_prover]
#[verifier::rlimit(50)]
proof fn lemma_failed_bind_any_socket_aborting_roundtrip(v: SpecLogEventType, s: Seq<u8>, i: int)
    requires
        v is FailedBindAnySocketAborting,
        emit_log_event_type(v).ok,
        holds_at(s, i, emit_log_event_type(v).bytes),
    ensures
        parse_log_event_type(s, i) == Ok::<(SpecLogEventType, int), WireError>(
            (log_event_type_read_back(v), i + emit_log_event_type(v).bytes.len()),
        ),
{
    let p0 = enc_u8(3);
    lemma_u8_roundtrip(3, s, i);
}

#[verifier::spinoff_prover]
#[verifier::rlimit(50)]
proof fn lemma_removed_listening_socket_roundtrip(v: SpecLogEventType, s: Seq<u8>, i: int)
    requires
        v is RemovedListeningSocket,
        emit_log_event_type(v).ok,
        holds_at(s, i, emit_log_event_type(v).bytes),
    ensures
        parse_log_event_type(s, i) == Ok::<(SpecLogEventType, int), WireError>(
            (log_event_type_read_back(v), i + emit_log_event_type(v).bytes.len()),
        ),
{
    match v {
        SpecLogEventType::RemovedListeningSocket(a0) => {
            let p0 = enc_u8(4);
            let p1 = enc_socket_addr(a0);
            lemma_holds_split(s, i, p0, p1);
            lemma_u8_roundtrip(4, s, i);
            lemma_socket_addr_roundtrip(a0, s, i + p0.len());
        },
        _ => {},
    }
}

#[verifier::spinoff_prover]
#[verifier::rlimit(50)]
proof fn lemma_loading_users_from_file_roundtrip(v: SpecLogEventType, s: Seq<u8>, i: int)
    requires
        v is LoadingUsersFromFile,
        emit_log_event_type(v).ok,
        holds_at(s, i, emit_log_event_type(v).bytes),
    ensures
        parse_log_event_type(s, i) == Ok::<(SpecLogEventType, int), WireError>(
            (log_event_type_read_back(v), i + emit_log_event_type(v).bytes.len()),
        ),
{
    match v {
        SpecLogEventType::LoadingUsersFromFile(a0) => {
            let p0 = enc_u8(5);
            let p1 = emit_str(a0).bytes;
            lemma_holds_split(s, i, p0, p1);
            lemma_u8_roundtrip(5, s, i);
            lemma_str_roundtrip(a0, s, i + p0.len());
        },
        _ => {},
    }
}

#[verifier::spinoff_prover]
#[verifier::rlimit(50)]
proof fn lemma_users_loaded_from_file_roundtrip(v: SpecLogEventType, s: Seq<u8>, i: int)
    requires
        v is UsersLoadedFromFile,
        emit_log_event_type(v).ok,
        holds_at(s, i, emit_log_event_type(v).bytes),
    ensures
        parse_log_event_type(s, i) == Ok::<(SpecLogEventType, int), WireError>(
            (log_event_type_read_back(v), i + emit_log_event_type(v).bytes.len()),
        ),
{
    match v {
        SpecLogEventType::UsersLoadedFromFile(a0, a1) => {
            let p0 = enc_u8(6);
            let p1 = emit_str(a0).bytes;
            let p2 = enc_users_result(a1);
            lemma_holds_split(s, i, p0 + p1, p2);
            lemma_holds_split(s, i, p0, p1);
            lemma_u8_roundtrip(6, s, i);
            lemma_str_roundtrip(a0, s, i + p0.len());
            lemma_users_result_roundtrip(a1, s, i + p0.len() + p1.len());
        },
        _ => {},
    }
}

#[verifier::spinoff_prover]
#[verifier::rlimit(50)]
proof fn lemma_starting_up_with_single_default_user_roundtrip(
    v: SpecLogEventType,
    s: Seq<u8>,
    i: int,
)
    requires
        v is StartingUpWithSingleDefaultUser,
        emit_log_event_type(v).ok,
        holds_at(s, i, emit_log_event_type(v).bytes),
    ensures
        parse_log_event_type(s, i) == Ok::<(SpecLogEventType, int), WireError>(
            (log_event_type_read_back(v), i + emit_log_event_type(v).bytes.len()),
        ),
{
    let p0 = enc_u8(7);
    lemma_u8_roundtrip(7, s, i);
}

#[verifier::spinoff_prover]
#[verifier::rlimit(50)]
proof fn lemma_saving_users_to_file_roundtrip(v: SpecLogEventType, s: Seq<u8>, i: int)
    requires
        v is SavingUsersToFile,
        emit_log_event_type(v).ok,
        holds_at(s, i, emit_log_event_type(v).bytes),
    ensures
        parse_log_event_type(s, i) == Ok::<(SpecLogEventType, int), WireError>(
            (log_event_type_read_back(v), i + emit_log_event_type(v).bytes.len()),
        ),
{
    match v {
        SpecLogEventType::SavingUsersToFile(a0) => {
            let p0 = enc_u8(8);
            let p1 = emit_str(a0).bytes;
            lemma_holds_split(s, i, p0, p1);
            lemma_u8_roundtrip(8, s, i);
            lemma_str_roundtrip(a0, s, i + p0.len());
        },
        _ => {},
    }
}

#[verifier::spinoff_prover]
#[verifier::rlimit(50)]
proof fn lemma_users_saved_to_file_roundtrip(v: SpecLogEventType, s: Seq<u8>, i: int)
    requires
        v is UsersSavedToFile,
        emit_log_event_type(v).ok,
        holds_at(s, i, emit_log_event_type(v).bytes),
    ensures
        parse_log_event_type(s, i) == Ok::<(SpecLogEventType, int), WireError>(
            (log_event_type_read_back(v), i + emit_log_event_type(v).bytes.len()),
        ),
{
    match v {
        SpecLogEventType::UsersSavedToFile(a0, a1) => {
            let p0 = enc_u8(9);
            let p1 = emit_str(a0).bytes;
            let p2 = enc_io_result(a1);
            lemma_holds_split(s, i, p0 + p1, p2);
            lemma_holds_split(s, i, p0, p1);
            lemma_u8_roundtrip(9, s, i);
            lemma_str_roundtrip(a0, s, i + p0.len());
            lemma_io_result_roundtrip(a1, s, i + p0.len() + p1.len());
        },
        _ => {},
    }
}

#[verifier::spinoff_prover]
#[verifier::rlimit(50)]
proof fn lemma_user_registered_roundtrip(v: SpecLogEventType, s: Seq<u8>, i: int)
    requires
        v is UserRegistered,
        emit_log_event_type(v).ok,
        holds_at(s, i, emit_log_event_type(v).bytes),
    ensures
        parse_log_event_type(s, i) == Ok::<(SpecLogEventType, int), WireError>(
            (log_event_type_read_back(v), i + emit_log_event_type(v).bytes.len()),
        ),
{
    match v {
        SpecLogEventType::UserRegistered(a0, a1) => {
            let p0 = enc_u8(10);
            let p1 = emit_small_str(a0).bytes;
            let p2 = enc_user_role(a1);
            lemma_holds_split(s, i, p0 + p1, p2);
            lemma_holds_split(s, i, p0, p1);
            lemma_u8_roundtrip(10, s, i);
            lemma_small_str_roundtrip(a0, s, i + p0.len());
            lemma_user_role_roundtrip(a1, s, i + p0.len() + p1.len());
        },
        _ => {},
    }
}

#[verifier::spinoff_prover]
#[verifier::rlimit(50)]
proof fn lemma_user_replaced_by_args_roundtrip(v: SpecLogEventType, s: Seq<u8>, i: int)
    requires
        v is UserReplacedByArgs,
        emit_log_event_type(v).ok,
        holds_at(s, i, emit_log_event_type(v).bytes),
    ensures
        parse_log_event_type(s, i) == Ok::<(SpecLogEventType, int), WireError>(
            (log_event_type_read_back(v), i + emit_log_event_type(v).bytes.len()),
        ),
{
    match v {
        SpecLogEventType::UserReplacedByArgs(a0, a1) => {
            let p0 = enc_u8(11);
            let p1 = emit_small_str(a0).bytes;
            let p2 = enc_user_role(a1);
            lemma_holds_split(s, i, p0 + p1, p2);
            lemma_holds_split(s, i, p0, p1);
            lemma_u8_roundtrip(11, s, i);
            lemma_small_str_roundtrip(a0, s, i + p0.len());
            lemma_user_role_roundtrip(a1, s, i + p0.len() + p1.len());
        },
        _ => {},
    }
}

#[verifier::spinoff_prover]
#[verifier::rlimit(50)]
proof fn lemma_user_updated_roundtrip(v: SpecLogEventType, s: Seq<u8>, i: int)
    requires
        v is UserUpdated,
        emit_log_event_type(v).ok,
        holds_at(s, i, emit_log_event_type(v).bytes),
    ensures
        parse_log_event_type(s, i) == Ok::<(SpecLogEventType, int), WireError>(
            (log_event_type_read_back(v), i + emit_log_event_type(v).bytes.len()),
        ),
{
    match v {
        SpecLogEventType::UserUpdated(a0, a1, a2) => {
            let p0 = enc_u8(12);
            let p1 = emit_small_str(a0).bytes;
            let p2 = enc_user_role(a1);
            let p3 = enc_bool(a2);
            lemma_holds_split(s, i, p0 + p1 + p2, p3);
            lemma_holds_split(s, i, p0 + p1, p2);
            lemma_holds_split(s, i, p0, p1);
            lemma_u8_roundtrip(12, s, i);
            lemma_small_str_roundtrip(a0, s, i + p0.len());
            lemma_user_role_roundtrip(a1, s, i + p0.len() + p1.len());
            lemma_bool_roundtrip(a2, s, i + p0.len() + p1.len() + p2.len());
        },
        _ => {},
    }
}

#[verifier::spinoff_prover]
#[verifier::rlimit(50)]
proof fn lemma_user_deleted_roundtrip(v: SpecLogEventType, s: Seq<u8>, i: int)
    requires
        v is UserDeleted,
        emit_log_event_type(v).ok,
        holds_at(s, i, emit_log_event_type(v).bytes),
    ensures
        parse_log_event_type(s, i) == Ok::<(SpecLogEventType, int), WireError>(
            (log_event_type_read_back(v), i + emit_log_event_type(v).bytes.len()),
        ),
{
    match v {
        SpecLogEventType::UserDeleted(a0, a1) => {
            let p0 = enc_u8(13);
            let p1 = emit_small_str(a0).bytes;
            let p2 = enc_user_role(a1);
            lemma_holds_split(s, i, p0 + p1, p2);
            lemma_holds_split(s, i, p0, p1);
            lemma_u8_roundtrip(13, s, i);
            lemma_small_str_roundtrip(a0, s, i + p0.len());
            lemma_user_role_roundtrip(a1, s, i + p0.len() + p1.len());
        },
        _ => {},
    }
}

#[verifier::spinoff_prover]
#[verifier::rlimit(50)]
proof fn lemma_new_client_connection_accepted_roundtrip(v: SpecLogEventType, s: Seq<u8>, i: int)
    requires
        v is NewClientConnectionAccepted,
        emit_log_event_type(v).ok,
        holds_at(s, i, emit_log_event_type(v).bytes),
    ensures
        parse_log_event_type(s, i) == Ok::<(SpecLogEventType, int), WireError>(
            (log_event_type_read_back(v), i + emit_log_event_type(v).bytes.len()),
        ),
{
    match v {
        SpecLogEventType::NewClientConnectionAccepted(a0, a1) => {
            let p0 = enc_u8(14);
            let p1 = enc_u64(a0);
            let p2 = enc_socket_addr(a1);
            lemma_holds_split(s, i, p0 + p1, p2);
            lemma_holds_split(s, i, p0, p1);
            lemma_u8_roundtrip(14, s, i);
            lemma_u64_roundtrip(a0, s, i + p0.len());
            lemma_socket_addr_roundtrip(a1, s, i + p0.len() + p1.len());
        },
        _ => {},
    }
}

#[verifier::spinoff_prover]
#[verifier::rlimit(50)]
proof fn lemma_client_connection_accept_failed_roundtrip(v: SpecLogEventType, s: Seq<u8>, i: int)
    requires
        v is ClientConnectionAcceptFailed,
        emit_log_event_type(v).ok,
        holds_at(s, i, emit_log_event_type(v).bytes),
    ensures
        parse_log_event_type(s, i) == Ok::<(SpecLogEventType, int), WireError>(
            (log_event_type_read_back(v), i + emit_log_event_type(v).bytes.len()),
        ),
{
    match v {
        SpecLogEventType::ClientConnectionAcceptFailed(a0, a1) => {
            let p0 = enc_u8(15);
            let p1 = enc_opt_socket_addr(a0);
            let p2 = enc_io_error(a1);
            lemma_holds_split(s, i, p0 + p1, p2);
            lemma_holds_split(s, i, p0, p1);
            lemma_u8_roundtrip(15, s, i);
            lemma_opt_socket_addr_roundtrip(a0, s, i + p0.len());
            lemma_io_error_roundtrip(a1, s, i + p0.len() + p1.len());
        },
        _ => {},
    }
}

#[verifier::spinoff_prover]
#[verifier::rlimit(50)]
proof fn lemma_client_requested_unsupported_version_roundtrip(
    v: SpecLogEventType,
    s: Seq<u8>,
    i: int,
)
    requires
        v is ClientRequestedUnsupportedVersion,
        emit_log_event_type(v).ok,
        holds_at(s, i, emit_log_event_type(v).bytes),
    ensures
        parse_log_event_type(s, i) == Ok::<(SpecLogEventType, int), WireError>(
            (log_event_type_read_back(v), i + emit_log_event_type(v).bytes.len()),
        ),
{
    match v {
        SpecLogEventType::ClientRequestedUnsupportedVersion(a0, a1) => {
            let p0 = enc_u8(16);
            let p1 = enc_u64(a0);
            let p2 = enc_u8(a1);
            lemma_holds_split(s, i, p0 + p1, p2);
            lemma_holds_split(s, i, p0, p1);
            lemma_u8_roundtrip(16, s, i);
            lemma_u64_roundtrip(a0, s, i + p0.len());
            lemma_u8_roundtrip(a1, s, i + p0.len() + p1.len());
        },
        _ => {},
    }
}

#[verifier::spinoff_prover]
#[verifier::rlimit(50)]
proof fn lemma_client_requested_unsupported_command_roundtrip(
    v: SpecLogEventType,
    s: Seq<u8>,
    i: int,
)
    requires
        v is ClientRequestedUnsupportedCommand,
        emit_log_event_type(v).ok,
        holds_at(s, i, emit_log_event_type(v).bytes),
    ensures
        parse_log_event_type(s, i) == Ok::<(SpecLogEventType, int), WireError>(
            (log_event_type_read_back(v), i + emit_log_event_type(v).bytes.len()),
        ),
{
    match v {
        SpecLogEventType::ClientRequestedUnsupportedCommand(a0, a1) => {
            let p0 = enc_u8(17);
            let p1 = enc_u64(a0);
            let p2 = enc_u8(a1);
            lemma_holds_split(s, i, p0 + p1, p2);
            lemma_holds_split(s, i, p0, p1);
            lemma_u8_roundtrip(17, s, i);
            lemma_u64_roundtrip(a0, s, i + p0.len());
            lemma_u8_roundtrip(a1, s, i + p0.len() + p1.len());
        },
        _ => {},
    }
}

#[verifier::spinoff_prover]
#[verifier::rlimit(50)]
proof fn lemma_client_requested_unsupported_atyp_roundtrip(v: SpecLogEventType, s: Seq<u8>, i: int)
    requires
        v is ClientRequestedUnsupportedAtyp,
        emit_log_event_type(v).ok,
        holds_at(s, i, emit_log_event_type(v).bytes),
    ensures
        parse_log_event_type(s, i) == Ok::<(SpecLogEventType, int), WireError>(
            (log_event_type_read_back(v), i + emit_log_event_type(v).bytes.len()),
        ),
{
    match v {
        SpecLogEventType::ClientRequestedUnsupportedAtyp(a0, a1) => {
            let p0 = enc_u8(18);
            let p1 = enc_u64(a0);
            let p2 = enc_u8(a1);
            lemma_holds_split(s, i, p0 + p1, p2);
            lemma_holds_split(s, i, p0, p1);
            lemma_u8_roundtrip(18, s, i);
            lemma_u64_roundtrip(a0, s, i + p0.len());
            lemma_u8_roundtrip(a1, s, i + p0.len() + p1.len());
        },
        _ => {},
    }
}

#[verifier::spinoff_prover]
#[verifier::rlimit(50)]
proof fn lemma_client_selected_auth_method_roundtrip(v: SpecLogEventType, s: Seq<u8>, i: int)
    requires
        v is ClientSelectedAuthMethod,
        emit_log_event_type(v).ok,
        holds_at(s, i, emit_log_event_type(v).bytes),
    ensures
        parse_log_event_type(s, i) == Ok::<(SpecLogEventType, int), WireError>(
            (log_event_type_read_back(v), i + emit_log_event_type(v).bytes.len()),
        ),
{
    match v {
        SpecLogEventType::ClientSelectedAuthMethod(a0, a1) => {
            let p0 = enc_u8(19);
            let p1 = enc_u64(a0);
            let p2 = enc_auth_method(a1);
            lemma_holds_split(s, i, p0 + p1, p2);
            lemma_holds_split(s, i, p0, p1);
            lemma_u8_roundtrip(19, s, i);
            lemma_u64_roundtrip(a0, s, i + p0.len());
            lemma_auth_method_roundtrip(a1, s, i + p0.len() + p1.len());
        },
        _ => {},
    }
}

#[verifier::spinoff_prover]
#[verifier::rlimit(50)]
proof fn lemma_client_requested_unsupported_userpass_version_roundtrip(
    v: SpecLogEventType,
    s: Seq<u8>,
    i: int,
)
    requires
        v is ClientRequestedUnsupportedUserpassVersion,
        emit_log_event_type(v).ok,
        holds_at(s, i, emit_log_event_type(v).bytes),
    ensures
        parse_log_event_type(s, i) == Ok::<(SpecLogEventType, int), WireError>(
            (log_event_type_read_back(v), i + emit_log_event_type(v).bytes.len()),
        ),
{
    match v {
        SpecLogEventType::ClientRequestedUnsupportedUserpassVersion(a0, a1) => {
            let p0 = enc_u8(20);
            let p1 = enc_u64(a0);
            let p2 = enc_u8(a1);
            lemma_holds_split(s, i, p0 + p1, p2);
            lemma_holds_split(s, i, p0, p1);
            lemma_u8_roundtrip(20, s, i);
            lemma_u64_roundtrip(a0, s, i + p0.len());
            lemma_u8_roundtrip(a1, s, i + p0.len() + p1.len());
        },
        _ => {},
    }
}

#[verifier::spinoff_prover]
#[verifier::rlimit(50)]
proof fn lemma_client_socks_request_roundtrip(v: SpecLogEventType, s: Seq<u8>, i: int)
    requires
        v is ClientSocksRequest,
        emit_log_event_type(v).ok,
        holds_at(s, i, emit_log_event_type(v).bytes),
    ensures
        parse_log_event_type(s, i) == Ok::<(SpecLogEventType, int), WireError>(
            (log_event_type_read_back(v), i + emit_log_event_type(v).bytes.len()),
        ),
{
    match v {
        SpecLogEventType::ClientSocksRequest(a0, a1) => {
            let p0 = enc_u8(22);
            let p1 = enc_u64(a0);
            let p2 = emit_socks_request(a1).bytes;
            lemma_holds_split(s, i, p0 + p1, p2);
            lemma_holds_split(s, i, p0, p1);
            lemma_u8_roundtrip(22, s, i);
            lemma_u64_roundtrip(a0, s, i + p0.len());
            lemma_socks_request_roundtrip(a1, s, i + p0.len() + p1.len());
        },
        _ => {},
    }
}

#[verifier::spinoff_prover]
#[verifier::rlimit(50)]
proof fn lemma_client_dns_lookup_roundtrip(v: SpecLogEventType, s: Seq<u8>, i: int)
    requires
        v is ClientDnsLookup,
        emit_log_event_type(v).ok,
        holds_at(s, i, emit_log_event_type(v).bytes),
    ensures
        parse_log_event_type(s, i) == Ok::<(SpecLogEventType, int), WireError>(
            (log_event_type_read_back(v), i + emit_log_event_type(v).bytes.len()),
        ),
{
    match v {
        SpecLogEventType::ClientDnsLookup(a0, a1) => {
            let p0 = enc_u8(23);
            let p1 = enc_u64(a0);
            let p2 = emit_small_str(a1).bytes;
            lemma_holds_split(s, i, p0 + p1, p2);
            lemma_holds_split(s, i, p0, p1);
            lemma_u8_roundtrip(23, s, i);
            lemma_u64_roundtrip(a0, s, i + p0.len());
            lemma_small_str_roundtrip(a1, s, i + p0.len() + p1.len());
        },
        _ => {},
    }
}

#[verifier::spinoff_prover]
#[verifier::rlimit(50)]
proof fn lemma_client_attempting_connect_roundtrip(v: SpecLogEventType, s: Seq<u8>, i: int)
    requires
        v is ClientAttemptingConnect,
        emit_log_event_type(v).ok,
        holds_at(s, i, emit_log_event_type(v).bytes),
    ensures
        parse_log_event_type(s, i) == Ok::<(SpecLogEventType, int), WireError>(
            (log_event_type_read_back(v), i + emit_log_event_type(v).bytes.len()),
        ),
{
    match v {
        SpecLogEventType::ClientAttemptingConnect(a0, a1) => {
            let p0 = enc_u8(24);
            let p1 = enc_u64(a0);
            let p2 = enc_socket_addr(a1);
            lemma_holds_split(s, i, p0 + p1, p2);
            lemma_holds_split(s, i, p0, p1);
            lemma_u8_roundtrip(24, s, i);
            lemma_u64_roundtrip(a0, s, i + p0.len());
            lemma_socket_addr_roundtrip(a1, s, i + p0.len() + p1.len());
        },
        _ => {},
    }
}

#[verifier::spinoff_prover]
#[verifier::rlimit(50)]
proof fn lemma_client_connection_attempt_bind_failed_roundtrip(
    v: SpecLogEventType,
    s: Seq<u8>,
    i: int,
)
    requires
        v is ClientConnectionAttemptBindFailed,
        emit_log_event_type(v).ok,
        holds_at(s, i, emit_log_event_type(v).bytes),
    ensures
        parse_log_event_type(s, i) == Ok::<(SpecLogEventType, int), WireError>(
            (log_event_type_read_back(v), i + emit_log_event_type(v).bytes.len()),
        ),
{
    match v {
        SpecLogEventType::ClientConnectionAttemptBindFailed(a0, a1) => {
            let p0 = enc_u8(25);
            let p1 = enc_u64(a0);
            let p2 = enc_io_error(a1);
            lemma_holds_split(s, i, p0 + p1, p2);
            lemma_holds_split(s, i, p0, p1);
            lemma_u8_roundtrip(25, s, i);
            lemma_u64_roundtrip(a0, s, i + p0.len());
            lemma_io_error_roundtrip(a1, s, i + p0.len() + p1.len());
        },
        _ => {},
    }
}

#[verifier::spinoff_prover]
#[verifier::rlimit(50)]
proof fn lemma_client_connection_attempt_connect_failed_roundtrip(
    v: SpecLogEventType,
    s: Seq<u8>,
    i: int,
)
    requires
        v is ClientConnectionAttemptConnectFailed,
        emit_log_event_type(v).ok,
        holds_at(s, i, emit_log_event_type(v).bytes),
    ensures
        parse_log_event_type(s, i) == Ok::<(SpecLogEventType, int), WireError>(
            (log_event_type_read_back(v), i + emit_log_event_type(v).bytes.len()),
        ),
{
    match v {
        SpecLogEventType::ClientConnectionAttemptConnectFailed(a0, a1) => {
            let p0 = enc_u8(26);
            let p1 = enc_u64(a0);
            let p2 = enc_io_error(a1);
            lemma_holds_split(s, i, p0 + p1, p2);
            lemma_holds_split(s, i, p0, p1);
            lemma_u8_roundtrip(26, s, i);
            lemma_u64_roundtrip(a0, s, i + p0.len());
            lemma_io_error_roundtrip(a1, s, i + p0.len() + p1.len());
        },
        _ => {},
    }
}

#[verifier::spinoff_prover]
#[verifier::rlimit(50)]
proof fn lemma_client_failed_to_connect_to_destination_roundtrip(
    v: SpecLogEventType,
    s: Seq<u8>,
    i: int,
)
    requires
        v is ClientFailedToConnectToDestination,
        emit_log_event_type(v).ok,
        holds_at(s, i, emit_log_event_type(v).bytes),
    ensures
        parse_log_event_type(s, i) == Ok::<(SpecLogEventType, int), WireError>(
            (log_event_type_read_back(v), i + emit_log_event_type(v).bytes.len()),
        ),
{
    match v {
        SpecLogEventType::ClientFailedToConnectToDestination(a0) => {
            let p0 = enc_u8(27);
            let p1 = enc_u64(a0);
            lemma_holds_split(s, i, p0, p1);
            lemma_u8_roundtrip(27, s, i);
            lemma_u64_roundtrip(a0, s, i + p0.len());
        },
        _ => {},
    }
}

#[verifier::spinoff_prover]
#[verifier::rlimit(50)]
proof fn lemma_client_connected_to_destination_roundtrip(v: SpecLogEventType, s: Seq<u8>, i: int)
    requires
        v is ClientConnectedToDestination,
        emit_log_event_type(v).ok,
        holds_at(s, i, emit_log_event_type(v).bytes),
    ensures
        parse_log_event_type(s, i) == Ok::<(SpecLogEventType, int), WireError>(
            (log_event_type_read_back(v), i + emit_log_event_type(v).bytes.len()),
        ),
{
    match v {
        SpecLogEventType::ClientConnectedToDestination(a0, a1) => {
            let p0 = enc_u8(28);
            let p1 = enc_u64(a0);
            let p2 = enc_socket_addr(a1);
            lemma_holds_split(s, i, p0 + p1, p2);
            lemma_holds_split(s, i, p0, p1);
            lemma_u8_roundtrip(28, s, i);
            lemma_u64_roundtrip(a0, s, i + p0.len());
            lemma_socket_addr_roundtrip(a1, s, i + p0.len() + p1.len());
        },
        _ => {},
    }
}

#[verifier::spinoff_prover]
#[verifier::rlimit(50)]
proof fn lemma_client_bytes_sent_roundtrip(v: SpecLogEventType, s: Seq<u8>, i: int)
    requires
        v is ClientBytesSent,
        emit_log_event_type(v).ok,
        holds_at(s, i, emit_log_event_type(v).bytes),
    ensures
        parse_log_event_type(s, i) == Ok::<(SpecLogEventType, int), WireError>(
            (log_event_type_read_back(v), i + emit_log_event_type(v).bytes.len()),
        ),
{
    match v {
        SpecLogEventType::ClientBytesSent(a0, a1) => {
            let p0 = enc_u8(29);
            let p1 = enc_u64(a0);
            let p2 = enc_u64(a1);
            lemma_holds_split(s, i, p0 + p1, p2);
            lemma_holds_split(s, i, p0, p1);
            lemma_u8_roundtrip(29, s, i);
            lemma_u64_roundtrip(a0, s, i + p0.len());
            lemma_u64_roundtrip(a1, s, i + p0.len() + p1.len());
        },
        _ => {},
    }
}

#[verifier::spinoff_prover]
#[verifier::rlimit(50)]
proof fn lemma_client_bytes_received_roundtrip(v: SpecLogEventType, s: Seq<u8>, i: int)
    requires
        v is ClientBytesReceived,
        emit_log_event_type(v).ok,
        holds_at(s, i, emit_log_event_type(v).bytes),
    ensures
        parse_log_event_type(s, i) == Ok::<(SpecLogEventType, int), WireError>(
            (log_event_type_read_back(v), i + emit_log_event_type(v).bytes.len()),
        ),
{
    match v {
        SpecLogEventType::ClientBytesReceived(a0, a1) => {
            let p0 = enc_u8(30);
            let p1 = enc_u64(a0);
            let p2 = enc_u64(a1);
            lemma_holds_split(s, i, p0 + p1, p2);
            lemma_holds_split(s, i, p0, p1);
            lemma_u8_roundtrip(30, s, i);
            lemma_u64_roundtrip(a0, s, i + p0.len());
            lemma_u64_roundtrip(a1, s, i + p0.len() + p1.len());
        },
        _ => {},
    }
}

#[verifier::spinoff_prover]
#[verifier::rlimit(50)]
proof fn lemma_client_source_shutdown_roundtrip(v: SpecLogEventType, s: Seq<u8>, i: int)
    requires
        v is ClientSourceShutdown,
        emit_log_event_type(v).ok,
        holds_at(s, i, emit_log_event_type(v).bytes),
    ensures
        parse_log_event_type(s, i) == Ok::<(SpecLogEventType, int), WireError>(
            (log_event_type_read_back(v), i + emit_log_event_type(v).bytes.len()),
        ),
{
    match v {
        SpecLogEventType::ClientSourceShutdown(a0) => {
            let p0 = enc_u8(31);
            let p1 = enc_u64(a0);
            lemma_holds_split(s, i, p0, p1);
            lemma_u8_roundtrip(31, s, i);
            lemma_u64_roundtrip(a0, s, i + p0.len());
        },
        _ => {},
    }
}

#[verifier::spinoff_prover]
#[verifier::rlimit(50)]
proof fn lemma_client_destination_shutdown_roundtrip(v: SpecLogEventType, s: Seq<u8>, i: int)
    requires
        v is ClientDestinationShutdown,
        emit_log_event_type(v).ok,
        holds_at(s, i, emit_log_event_type(v).bytes),
    ensures
        parse_log_event_type(s, i) == Ok::<(SpecLogEventType, int), WireError>(
            (log_event_type_read_back(v), i + emit_log_event_type(v).bytes.len()),
        ),
{
    match v {
        SpecLogEventType::ClientDestinationShutdown(a0) => {
            let p0 = enc_u8(32);
            let p1 = enc_u64(a0);
            lemma_holds_split(s, i, p0, p1);
            lemma_u8_roundtrip(32, s, i);
            lemma_u64_roundtrip(a0, s, i + p0.len());
        },
        _ => {},
    }
}

#[verifier::spinoff_prover]
#[verifier::rlimit(50)]
proof fn lemma_client_connection_finished_roundtrip(v: SpecLogEventType, s: Seq<u8>, i: int)
    requires
        v is ClientConnectionFinished,
        emit_log_event_type(v).ok,
        holds_at(s, i, emit_log_event_type(v).bytes),
    ensures
        parse_log_event_type(s, i) == Ok::<(SpecLogEventType, int), WireError>(
            (log_event_type_read_back(v), i + emit_log_event_type(v).bytes.len()),
        ),
{
    match v {
        SpecLogEventType::ClientConnectionFinished(a0, a1, a2, a3) => {
            let p0 = enc_u8(33);
            let p1 = enc_u64(a0);
            let p2 = enc_u64(a1);
            let p3 = enc_u64(a2);
            let p4 = enc_unit_result(a3);
            lemma_holds_split(s, i, p0 + p1 + p2 + p3, p4);
            lemma_holds_split(s, i, p0 + p1 + p2, p3);
            lemma_holds_split(s, i, p0 + p1, p2);
            lemma_holds_split(s, i, p0, p1);
            lemma_u8_roundtrip(33, s, i);
            lemma_u64_roundtrip(a0, s, i + p0.len());
            lemma_u64_roundtrip(a1, s, i + p0.len() + p1.len());
            lemma_u64_roundtrip(a2, s, i + p0.len() + p1.len() + p2.len());
            lemma_unit_result_roundtrip(a3, s, i + p0.len() + p1.len() + p2.len() + p3.len());
        },
        _ => {},
    }
}

/// An event type written in full reads back as [`log_event_type_read_back`]
/// of itself, but for `ClientAuthenticatedWithUserpass`, whose user name is
/// written with a one-byte length and read with a two-byte one.
pub proof fn lemma_log_event_type_roundtrip(v: SpecLogEventType, s: Seq<u8>, i: int)
    requires
        emit_log_event_type(v).ok,
        !(v is ClientAuthenticatedWithUserpass),
        holds_at(s, i, emit_log_event_type(v).bytes),
    ensures
        parse_log_event_type(s, i) == Ok::<(SpecLogEventType, int), WireError>(
            (log_event_type_read_back(v), i + emit_log_event_type(v).bytes.len()),
        ),
{
    match v {
        SpecLogEventType::NewListeningSocket(..) => lemma_new_listening_socket_roundtrip(v, s, i),
        SpecLogEventType::FailedBindListeningSocket(..) => {
            lemma_failed_bind_listening_socket_roundtrip(v, s, i)
        },
        SpecLogEventType::FailedBindAnySocketAborting => {
            lemma_failed_bind_any_socket_aborting_roundtrip(v, s, i)
        },
        SpecLogEventType::RemovedListeningSocket(..) => {
            lemma_removed_listening_socket_roundtrip(v, s, i)
        },
        SpecLogEventType::LoadingUsersFromFile(..) => {
            lemma_loading_users_from_file_roundtrip(v, s, i)
        },
        SpecLogEventType::UsersLoadedFromFile(..) => {
            lemma_users_loaded_from_file_roundtrip(v, s, i)
        },
        SpecLogEventType::StartingUpWithSingleDefaultUser => {
            lemma_starting_up_with_single_default_user_roundtrip(v, s, i)
        },
        SpecLogEventType::SavingUsersToFile(..) => lemma_saving_users_to_file_roundtrip(v, s, i),
        SpecLogEventType::UsersSavedToFile(..) => lemma_users_saved_to_file_roundtrip(v, s, i),
        SpecLogEventType::UserRegistered(..) => lemma_user_registered_roundtrip(v, s, i),
        SpecLogEventType::UserReplacedByArgs(..) => lemma_user_replaced_by_args_roundtrip(v, s, i),
        SpecLogEventType::UserUpdated(..) => lemma_user_updated_roundtrip(v, s, i),
        SpecLogEventType::UserDeleted(..) => lemma_user_deleted_roundtrip(v, s, i),
        SpecLogEventType::NewClientConnectionAccepted(..) => {
            lemma_new_client_connection_accepted_roundtrip(v, s, i)
        },
        SpecLogEventType::ClientConnectionAcceptFailed(..) => {
            lemma_client_connection_accept_failed_roundtrip(v, s, i)
        },
        SpecLogEventType::ClientRequestedUnsupportedVersion(..) => {
            lemma_client_requested_unsupported_version_roundtrip(v, s, i)
        },
        SpecLogEventType::ClientRequestedUnsupportedCommand(..) => {
            lemma_client_requested_unsupported_command_roundtrip(v, s, i)
        },
        SpecLogEventType::ClientRequestedUnsupportedAtyp(..) => {
            lemma_client_requested_unsupported_atyp_roundtrip(v, s, i)
        },
        SpecLogEventType::ClientSelectedAuthMethod(..) => {
            lemma_client_selected_auth_method_roundtrip(v, s, i)
        },
        SpecLogEventType::ClientRequestedUnsupportedUserpassVersion(..) => {
            lemma_client_requested_unsupported_userpass_version_roundtrip(v, s, i)
        },
        SpecLogEventType::ClientAuthenticatedWithUserpass(a0, a1, a2) => {},
        SpecLogEventType::ClientSocksRequest(..) => lemma_client_socks_request_roundtrip(v, s, i),
        SpecLogEventType::ClientDnsLookup(..) => lemma_client_dns_lookup_roundtrip(v, s, i),
        SpecLogEventType::ClientAttemptingConnect(..) => {
            lemma_client_attempting_connect_roundtrip(v, s, i)
        },
        SpecLogEventType::ClientConnectionAttemptBindFailed(..) => {
            lemma_client_connection_attempt_bind_failed_roundtrip(v, s, i)
        },
        SpecLogEventType::ClientConnectionAttemptConnectFailed(..) => {
            lemma_client_connection_attempt_connect_failed_roundtrip(v, s, i)
        },
        SpecLogEventType::ClientFailedToConnectToDestination(..) => {
            lemma_client_failed_to_connect_to_destination_roundtrip(v, s, i)
        },
        SpecLogEventType::ClientConnectedToDestination(..) => {
            lemma_client_connected_to_destination_roundtrip(v, s, i)
        },
        SpecLogEventType::ClientBytesSent(..) => lemma_client_bytes_sent_roundtrip(v, s, i),
        SpecLogEventType::ClientBytesReceived(..) => lemma_client_bytes_received_roundtrip(v, s, i),
        SpecLogEventType::ClientSourceShutdown(..) => {
            lemma_client_source_shutdown_roundtrip(v, s, i)
        },
        SpecLogEventType::ClientDestinationShutdown(..) => {
            lemma_client_destination_shutdown_roundtrip(v, s, i)
        },
        SpecLogEventType::ClientConnectionFinished(..) => {
            lemma_client_connection_finished_roundtrip(v, s, i)
        },
    }
}

#[verifier::spinoff_prover]
#[verifier::rlimit(100)]
proof fn lemma_log_event_type_body_extend(s: Seq<u8>, tag: u8, j: int, t: Seq<u8>)
    requires
        0 <= j,
    ensures
        stable(parse_log_event_type_body(s, tag, j), parse_log_event_type_body(s + t, tag, j)),
{
    match tag {
        1u8 => {
            lemma_net_extend(s, j, t);
        },
        2u8 => {
            lemma_net_extend(s, j, t);
            if let Ok((_, k0)) = parse_socket_addr(s, j) {
                lemma_io_error_extend(s, k0, t);
            }
        },
        3u8 => {},
        4u8 => {
            lemma_net_extend(s, j, t);
        },
        5u8 => {
            lemma_strings_extend(s, j, t);
        },
        6u8 => {
            lemma_strings_extend(s, j, t);
            if let Ok((_, k0)) = parse_string(s, j) {
                lemma_compound_extend(s, k0, t);
            }
        },
        7u8 => {},
        8u8 => {
            lemma_strings_extend(s, j, t);
        },
        9u8 => {
            lemma_strings_extend(s, j, t);
            if let Ok((_, k0)) = parse_string(s, j) {
                lemma_compound_extend(s, k0, t);
            }
        },
        10u8 => {
            lemma_strings_extend(s, j, t);
            if let Ok((_, k0)) = parse_small_string(s, j) {
                lemma_users_extend(s, k0, t);
            }
        },
        11u8 => {
            lemma_strings_extend(s, j, t);
            if let Ok((_, k0)) = parse_small_string(s, j) {
                lemma_users_extend(s, k0, t);
            }
        },
        12u8 => {
            lemma_strings_extend(s, j, t);
            if let Ok((_, k0)) = parse_small_string(s, j) {
                lemma_users_extend(s, k0, t);
                if let Ok((_, k1)) = parse_user_role(s, k0) {
                    lemma_primitives_extend(s, k1, t);
                }
            }
        },
        13u8 => {
            lemma_strings_extend(s, j, t);
            if let Ok((_, k0)) = parse_small_string(s, j) {
                lemma_users_extend(s, k0, t);
            }
        },
        14u8 => {
            lemma_primitives_extend(s, j, t);
            if let Ok((_, k0)) = parse_u64(s, j) {
                lemma_net_extend(s, k0, t);
            }
        },
        15u8 => {
            lemma_compound_extend(s, j, t);
            if let Ok((_, k0)) = parse_opt_socket_addr(s, j) {
                lemma_io_error_extend(s, k0, t);
            }
        },
        16u8 => {
            lemma_primitives_extend(s, j, t);
            if let Ok((_, k0)) = parse_u64(s, j) {
                lemma_primitives_extend(s, k0, t);
            }
        },
        17u8 => {
            lemma_primitives_extend(s, j, t);
            if let Ok((_, k0)) = parse_u64(s, j) {
                lemma_primitives_extend(s, k0, t);
            }
        },
        18u8 => {
            lemma_primitives_extend(s, j, t);
            if let Ok((_, k0)) = parse_u64(s, j) {
                lemma_primitives_extend(s, k0, t);
            }
        },
        19u8 => {
            lemma_primitives_extend(s, j, t);
            if let Ok((_, k0)) = parse_u64(s, j) {
                lemma_socks5_extend(s, k0, t);
            }
        },
        20u8 => {
            lemma_primitives_extend(s, j, t);
            if let Ok((_, k0)) = parse_u64(s, j) {
                lemma_primitives_extend(s, k0, t);
            }
        },
        21u8 => {
            lemma_primitives_extend(s, j, t);
            if let Ok((_, k0)) = parse_u64(s, j) {
                lemma_strings_extend(s, k0, t);
                if let Ok((_, k1)) = parse_string(s, k0) {
                    lemma_primitives_extend(s, k1, t);
                }
            }
        },
        22u8 => {
            lemma_primitives_extend(s, j, t);
            if let Ok((_, k0)) = parse_u64(s, j) {
                lemma_socks5_extend(s, k0, t);
            }
        },
        23u8 => {
            lemma_primitives_extend(s, j, t);
            if let Ok((_, k0)) = parse_u64(s, j) {
                lemma_strings_extend(s, k0, t);
            }
        },
        24u8 => {
            lemma_primitives_extend(s, j, t);
            if let Ok((_, k0)) = parse_u64(s, j) {
                lemma_net_extend(s, k0, t);
            }
        },
        25u8 => {
            lemma_primitives_extend(s, j, t);
            if let Ok((_, k0)) = parse_u64(s, j) {
                lemma_io_error_extend(s, k0, t);
            }
        },
        26u8 => {
            lemma_primitives_extend(s, j, t);
            if let Ok((_, k0)) = parse_u64(s, j) {
                lemma_io_error_extend(s, k0, t);
            }
        },
        27u8 => {
            lemma_primitives_extend(s, j, t);
        },
        28u8 => {
            lemma_primitives_extend(s, j, t);
            if let Ok((_, k0)) = parse_u64(s, j) {
                lemma_net_extend(s, k0, t);
            }
        },
        29u8 => {
            lemma_primitives_extend(s, j, t);
            if let Ok((_, k0)) = parse_u64(s, j) {
                lemma_primitives_extend(s, k0, t);
            }
        },
        30u8 => {
            lemma_primitives_extend(s, j, t);
            if let Ok((_, k0)) = parse_u64(s, j) {
                lemma_primitives_extend(s, k0, t);
            }
        },
        31u8 => {
            lemma_primitives_extend(s, j, t);
        },
        32u8 => {
            lemma_primitives_extend(s, j, t);
        },
        33u8 => {
            lemma_primitives_extend(s, j, t);
            if let Ok((_, k0)) = parse_u64(s, j) {
                lemma_primitives_extend(s, k0, t);
                if let Ok((_, k1)) = parse_u64(s, k0) {
                    lemma_primitives_extend(s, k1, t);
                    if let Ok((_, k2)) = parse_u64(s, k1) {
                        lemma_compound_extend(s, k2, t);
                    }
                }
            }
        },
        _ => {},
    }
}

pub proof fn lemma_log_event_type_extend(s: Seq<u8>, i: int, t: Seq<u8>)
    requires
        0 <= i,
    ensures
        stable(parse_log_event_type(s, i), parse_log_event_type(s + t, i)),
{
    lemma_primitives_extend(s, i, t);
    if let Ok((tag, j)) = parse_u8(s, i) {
        lemma_log_event_type_body_extend(s, tag, j, t);
    }
}

impl LogEventType {
    /// Writes the tag, then the fields in order; a string too long for its
    /// length is refused with `InvalidData` once the fields before it are
    /// written.
    #[verifier::spinoff_prover]
    #[verifier::rlimit(100)]
    pub fn write(&self, out: &mut Vec<u8>) -> (r: Result<(), WireError>)
        ensures
            final(out)@ == old(out)@ + emit_log_event_type(self@).bytes,
            r is Ok <==> emit_log_event_type(self@).ok,
            r matches Err(e) ==> e == WireError::InvalidData,
    {
        match self {
            LogEventType::NewListeningSocket(a0) => {
                write_u8(1, out);
                a0.write(out);
                Ok(())
            },
            LogEventType::FailedBindListeningSocket(a0, a1) => {
                write_u8(2, out);
                a0.write(out);
                a1.write(out);
                Ok(())
            },
            LogEventType::FailedBindAnySocketAborting => {
                write_u8(3, out);
                Ok(())
            },
            LogEventType::RemovedListeningSocket(a0) => {
                write_u8(4, out);
                a0.write(out);
                Ok(())
            },
            LogEventType::LoadingUsersFromFile(a0) => {
                write_u8(5, out);
                write_str(a0.as_str(), out)?;
                Ok(())
            },
            LogEventType::UsersLoadedFromFile(a0, a1) => {
                write_u8(6, out);
                write_str(a0.as_str(), out)?;
                write_users_result(*a1, out);
                Ok(())
            },
            LogEventType::StartingUpWithSingleDefaultUser => {
                write_u8(7, out);
                Ok(())
            },
            LogEventType::SavingUsersToFile(a0) => {
                write_u8(8, out);
                write_str(a0.as_str(), out)?;
                Ok(())
            },
            LogEventType::UsersSavedToFile(a0, a1) => {
                write_u8(9, out);
                write_str(a0.as_str(), out)?;
                write_io_result(*a1, out);
                Ok(())
            },
            LogEventType::UserRegistered(a0, a1) => {
                write_u8(10, out);
                write_small_str(a0.as_str(), out)?;
                a1.write(out);
                Ok(())
            },
            LogEventType::UserReplacedByArgs(a0, a1) => {
                write_u8(11, out);
                write_small_str(a0.as_str(), out)?;
                a1.write(out);
                Ok(())
            },
            LogEventType::UserUpdated(a0, a1, a2) => {
                write_u8(12, out);
                write_small_str(a0.as_str(), out)?;
                a1.write(out);
                write_bool(*a2, out);
                Ok(())
            },
            LogEventType::UserDeleted(a0, a1) => {
                write_u8(13, out);
                write_small_str(a0.as_str(), out)?;
                a1.write(out);
                Ok(())
            },
            LogEventType::NewClientConnectionAccepted(a0, a1) => {
                write_u8(14, out);
                write_u64(*a0, out);
                a1.write(out);
                Ok(())
            },
            LogEventType::ClientConnectionAcceptFailed(a0, a1) => {
                write_u8(15, out);
                write_opt_socket_addr(*a0, out);
                a1.write(out);
                Ok(())
            },
            LogEventType::ClientRequestedUnsupportedVersion(a0, a1) => {
                write_u8(16, out);
                write_u64(*a0, out);
                write_u8(*a1, out);
                Ok(())
            },
            LogEventType::ClientRequestedUnsupportedCommand(a0, a1) => {
                write_u8(17, out);
                write_u64(*a0, out);
                write_u8(*a1, out);
                Ok(())
            },
            LogEventType::ClientRequestedUnsupportedAtyp(a0, a1) => {
                write_u8(18, out);
                write_u64(*a0, out);
                write_u8(*a1, out);
                Ok(())
            },
            LogEventType::ClientSelectedAuthMethod(a0, a1) => {
                write_u8(19, out);
                write_u64(*a0, out);
                a1.write(out);
                Ok(())
            },
            LogEventType::ClientRequestedUnsupportedUserpassVersion(a0, a1) => {
                write_u8(20, out);
                write_u64(*a0, out);
                write_u8(*a1, out);
                Ok(())
            },
            LogEventType::ClientAuthenticatedWithUserpass(a0, a1, a2) => {
                write_u8(21, out);
                write_u64(*a0, out);
                write_small_str(a1.as_str(), out)?;
                write_bool(*a2, out);
                Ok(())
            },
            LogEventType::ClientSocksRequest(a0, a1) => {
                write_u8(22, out);
                write_u64(*a0, out);
                a1.write(out)?;
                Ok(())
            },
            LogEventType::ClientDnsLookup(a0, a1) => {
                write_u8(23, out);
                write_u64(*a0, out);
                write_small_str(a1.as_str(), out)?;
                Ok(())
            },
            LogEventType::ClientAttemptingConnect(a0, a1) => {
                write_u8(24, out);
                write_u64(*a0, out);
                a1.write(out);
                Ok(())
            },
            LogEventType::ClientConnectionAttemptBindFailed(a0, a1) => {
                write_u8(25, out);
                write_u64(*a0, out);
                a1.write(out);
                Ok(())
            },
            LogEventType::ClientConnectionAttemptConnectFailed(a0, a1) => {
                write_u8(26, out);
                write_u64(*a0, out);
                a1.write(out);
                Ok(())
            },
            LogEventType::ClientFailedToConnectToDestination(a0) => {
                write_u8(27, out);
                write_u64(*a0, out);
                Ok(())
            },
            LogEventType::ClientConnectedToDestination(a0, a1) => {
                write_u8(28, out);
                write_u64(*a0, out);
                a1.write(out);
                Ok(())
            },
            LogEventType::ClientBytesSent(a0, a1) => {
                write_u8(29, out);
                write_u64(*a0, out);
                write_u64(*a1, out);
                Ok(())
            },
            LogEventType::ClientBytesReceived(a0, a1) => {
                write_u8(30, out);
                write_u64(*a0, out);
                write_u64(*a1, out);
                Ok(())
            },
            LogEventType::ClientSourceShutdown(a0) => {
                write_u8(31, out);
                write_u64(*a0, out);
                Ok(())
            },
            LogEventType::ClientDestinationShutdown(a0) => {
                write_u8(32, out);
                write_u64(*a0, out);
                Ok(())
            },
            LogEventType::ClientConnectionFinished(a0, a1, a2, a3) => {
                write_u8(33, out);
                write_u64(*a0, out);
                write_u64(*a1, out);
                write_u64(*a2, out);
                write_unit_result(*a3, out);
                Ok(())
            },
        }
    }

    #[verifier::spinoff_prover]
    #[verifier::rlimit(100)]
    pub fn read(buf: &[u8], pos: usize) -> (r: Result<(LogEventType, usize), WireError>)
        requires
            pos <= buf@.len(),
        ensures
            lift_view(r) == parse_log_event_type(buf@, pos as int),
            r matches Ok((_, end)) ==> pos <= end <= buf@.len(),
    {
        let (tag, p) = read_u8(buf, pos)?;
        match tag {
            1 => {
                let (a0, p) = SocketAddr::read(buf, p)?;
                Ok((LogEventType::NewListeningSocket(a0), p))
            },
            2 => {
                let (a0, p) = SocketAddr::read(buf, p)?;
                let (a1, p) = IoErrorKind::read(buf, p)?;
                Ok((LogEventType::FailedBindListeningSocket(a0, a1), p))
            },
            3 => {
                Ok((LogEventType::FailedBindAnySocketAborting, p))
            },
            4 => {
                let (a0, p) = SocketAddr::read(buf, p)?;
                Ok((LogEventType::RemovedListeningSocket(a0), p))
            },
            5 => {
                let (a0, p) = read_string(buf, p)?;
                Ok((LogEventType::LoadingUsersFromFile(a0), p))
            },
            6 => {
                let (a0, p) = read_string(buf, p)?;
                let (a1, p) = read_users_result(buf, p)?;
                Ok((LogEventType::UsersLoadedFromFile(a0, a1), p))
            },
            7 => {
                Ok((LogEventType::StartingUpWithSingleDefaultUser, p))
            },
            8 => {
                let (a0, p) = read_string(buf, p)?;
                Ok((LogEventType::SavingUsersToFile(a0), p))
            },
            9 => {
                let (a0, p) = read_string(buf, p)?;
                let (a1, p) = read_io_result(buf, p)?;
                Ok((LogEventType::UsersSavedToFile(a0, a1), p))
            },
            10 => {
                let (a0, p) = read_small_string(buf, p)?;
                let (a1, p) = UserRole::read(buf, p)?;
                Ok((LogEventType::UserRegistered(a0, a1), p))
            },
            11 => {
                let (a0, p) = read_small_string(buf, p)?;
                let (a1, p) = UserRole::read(buf, p)?;
                Ok((LogEventType::UserReplacedByArgs(a0, a1), p))
            },
            12 => {
                let (a0, p) = read_small_string(buf, p)?;
                let (a1, p) = UserRole::read(buf, p)?;
                let (a2, p) = read_bool(buf, p)?;
                Ok((LogEventType::UserUpdated(a0, a1, a2), p))
            },
            13 => {
                let (a0, p) = read_small_string(buf, p)?;
                let (a1, p) = UserRole::read(buf, p)?;
                Ok((LogEventType::UserDeleted(a0, a1), p))
            },
            14 => {
                let (a0, p) = read_u64(buf, p)?;
                let (a1, p) = SocketAddr::read(buf, p)?;
                Ok((LogEventType::NewClientConnectionAccepted(a0, a1), p))
            },
            15 => {
                let (a0, p) = read_opt_socket_addr(buf, p)?;
                let (a1, p) = IoErrorKind::read(buf, p)?;
                Ok((LogEventType::ClientConnectionAcceptFailed(a0, a1), p))
            },
            16 => {
                let (a0, p) = read_u64(buf, p)?;
                let (a1, p) = read_u8(buf, p)?;
                Ok((LogEventType::ClientRequestedUnsupportedVersion(a0, a1), p))
            },
            17 => {
                let (a0, p) = read_u64(buf, p)?;
                let (a1, p) = read_u8(buf, p)?;
                Ok((LogEventType::ClientRequestedUnsupportedCommand(a0, a1), p))
            },
            18 => {
                let (a0, p) = read_u64(buf, p)?;
                let (a1, p) = read_u8(buf, p)?;
                Ok((LogEventType::ClientRequestedUnsupportedAtyp(a0, a1), p))
            },
            19 => {
                let (a0, p) = read_u64(buf, p)?;
                let (a1, p) = AuthMethod::read(buf, p)?;
                Ok((LogEventType::ClientSelectedAuthMethod(a0, a1), p))
            },
            20 => {
                let (a0, p) = read_u64(buf, p)?;
                let (a1, p) = read_u8(buf, p)?;
                Ok((LogEventType::ClientRequestedUnsupportedUserpassVersion(a0, a1), p))
            },
            21 => {
                let (a0, p) = read_u64(buf, p)?;
                let (a1, p) = read_string(buf, p)?;
                let (a2, p) = read_bool(buf, p)?;
                Ok((LogEventType::ClientAuthenticatedWithUserpass(a0, a1, a2), p))
            },
            22 => {
                let (a0, p) = read_u64(buf, p)?;
                let (a1, p) = SocksRequest::read(buf, p)?;
                Ok((LogEventType::ClientSocksRequest(a0, a1), p))
            },
            23 => {
                let (a0, p) = read_u64(buf, p)?;
                let (a1, p) = read_small_string(buf, p)?;
                Ok((LogEventType::ClientDnsLookup(a0, a1), p))
            },
            24 => {
                let (a0, p) = read_u64(buf, p)?;
                let (a1, p) = SocketAddr::read(buf, p)?;
                Ok((LogEventType::ClientAttemptingConnect(a0, a1), p))
            },
            25 => {
                let (a0, p) = read_u64(buf, p)?;
                let (a1, p) = IoErrorKind::read(buf, p)?;
                Ok((LogEventType::ClientConnectionAttemptBindFailed(a0, a1), p))
            },
            26 => {
                let (a0, p) = read_u64(buf, p)?;
                let (a1, p) = IoErrorKind::read(buf, p)?;
                Ok((LogEventType::ClientConnectionAttemptConnectFailed(a0, a1), p))
            },
            27 => {
                let (a0, p) = read_u64(buf, p)?;
                Ok((LogEventType::ClientFailedToConnectToDestination(a0), p))
            },
            28 => {
                let (a0, p) = read_u64(buf, p)?;
                let (a1, p) = SocketAddr::read(buf, p)?;
                Ok((LogEventType::ClientConnectedToDestination(a0, a1), p))
            },
            29 => {
                let (a0, p) = read_u64(buf, p)?;
                let (a1, p) = read_u64(buf, p)?;
                Ok((LogEventType::ClientBytesSent(a0, a1), p))
            },
            30 => {
                let (a0, p) = read_u64(buf, p)?;
                let (a1, p) = read_u64(buf, p)?;
                Ok((LogEventType::ClientBytesReceived(a0, a1), p))
            },
            31 => {
                let (a0, p) = read_u64(buf, p)?;
                Ok((LogEventType::ClientSourceShutdown(a0), p))
            },
            32 => {
                let (a0, p) = read_u64(buf, p)?;
                Ok((LogEventType::ClientDestinationShutdown(a0), p))
            },
            33 => {
                let (a0, p) = read_u64(buf, p)?;
                let (a1, p) = read_u64(buf, p)?;
                let (a2, p) = read_u64(buf, p)?;
                let (a3, p) = read_unit_result(buf, p)?;
                Ok((LogEventType::ClientConnectionFinished(a0, a1, a2, a3), p))
            },
            _ => Err(WireError::InvalidData),
        }
    }
}

// ---------------------------------------------------------------------------
// Log events
// ---------------------------------------------------------------------------

/// Something that happened in the server, at `timestamp` (seconds since the
/// Unix epoch).
#[derive(Debug, PartialEq, Eq)]
pub struct LogEvent {
    pub timestamp: i64,
    pub data: LogEventType,
}

pub struct SpecLogEvent {
    pub timestamp: i64,
    pub data: SpecLogEventType,
}

impl View for LogEvent {
    type V = SpecLogEvent;

    open spec fn view(&self) -> SpecLogEvent {
        SpecLogEvent { timestamp: self.timestamp, data: self.data@ }
    }
}

/// The time, then the event type.
pub open spec fn emit_log_event(e: SpecLogEvent) -> Emit {
    Emit::done(enc_i64(e.timestamp)).followed_by(emit_log_event_type(e.data))
}

pub open spec fn parse_log_event(s: Seq<u8>, i: int) -> Parsed<SpecLogEvent> {
    match parse_i64(s, i) {
        Ok((timestamp, j)) => match parse_log_event_type(s, j) {
            Ok((data, k)) => Ok((SpecLogEvent { timestamp, data }, k)),
            Err(e) => Err(e),
        },
        Err(e) => Err(e),
    }
}

/// What an event reads back as: the same time, and its type read back as
/// [`log_event_type_read_back`] says.
pub open spec fn log_event_read_back(e: SpecLogEvent) -> SpecLogEvent {
    SpecLogEvent { timestamp: e.timestamp, data: log_event_type_read_back(e.data) }
}

pub proof fn lemma_log_event_roundtrip(e: SpecLogEvent, s: Seq<u8>, i: int)
    requires
        emit_log_event(e).ok,
        !(e.data is ClientAuthenticatedWithUserpass),
        holds_at(s, i, emit_log_event(e).bytes),
    ensures
        parse_log_event(s, i) == Ok::<(SpecLogEvent, int), WireError>(
            (log_event_read_back(e), i + emit_log_event(e).bytes.len()),
        ),
{
    lemma_holds_split(s, i, enc_i64(e.timestamp), emit_log_event_type(e.data).bytes);
    lemma_i64_roundtrip(e.timestamp, s, i);
    lemma_log_event_type_roundtrip(e.data, s, i + 8);
}

pub proof fn lemma_log_event_extend(s: Seq<u8>, i: int, t: Seq<u8>)
    requires
        0 <= i,
    ensures
        stable(parse_log_event(s, i), parse_log_event(s + t, i)),
{
    lemma_primitives_extend(s, i, t);
    if let Ok((ts, j)) = parse_i64(s, i) {
        lemma_log_event_type_extend(s, j, t);
    }
}

impl LogEvent {
    pub fn new(timestamp: i64, data: LogEventType) -> (r: LogEvent)
        ensures
            r.timestamp == timestamp,
            r.data == data,
    {
        LogEvent { timestamp, data }
    }

    /// Writes the time, then the event type; refused as the event type is.
    pub fn write(&self, out: &mut Vec<u8>) -> (r: Result<(), WireError>)
        ensures
            final(out)@ == old(out)@ + emit_log_event(self@).bytes,
            r is Ok <==> emit_log_event(self@).ok,
            r matches Err(e) ==> e == WireError::InvalidData,
    {
        write_i64(self.timestamp, out);
        self.data.write(out)
    }

    pub fn read(buf: &[u8], pos: usize) -> (r: Result<(LogEvent, usize), WireError>)
        requires
            pos <= buf@.len(),
        ensures
            lift_view(r) == parse_log_event(buf@, pos as int),
            r matches Ok((_, end)) ==> pos <= end <= buf@.len(),
    {
        let (timestamp, p) = read_i64(buf, pos)?;
        let (data, p) = LogEventType::read(buf, p)?;
        Ok((LogEvent::new(timestamp, data), p))
    }
}

} // verus!
