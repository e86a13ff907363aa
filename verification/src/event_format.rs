//! The byte layout of every log event, stated against the integer and
//! string encodings alone: the tag byte of each event type, the order of
//! its fields and the width of each string's length, for writing and for
//! reading.
use vstd::prelude::*;
use vstd::utf8::encode_utf8;

use crate::io_error::{enc_io_error, lemma_io_error_roundtrip, parse_io_error, IoErrorKind};
use crate::logging::{
    emit_log_event, emit_log_event_type, enc_io_result, enc_opt_socket_addr, enc_unit_result,
    enc_users_result, lemma_log_event_type_read_back_identity, lemma_log_event_type_roundtrip,
    lemma_opt_socket_addr_roundtrip, parse_io_result, parse_log_event, parse_log_event_type,
    parse_opt_socket_addr, parse_unit_result, parse_users_result, LogEvent, LogEventType,
    SpecLogEvent, SpecLogEventType,
};
use crate::net::{enc_socket_addr, lemma_socket_addr_roundtrip, parse_socket_addr, SocketAddr};
use crate::socks5::{
    emit_socks_request, enc_auth_method, parse_auth_method, parse_socks_request, AuthMethod,
    SpecSocksRequest,
};
use crate::text::{
    emit_str, lemma_small_str_roundtrip, lemma_str_roundtrip, parse_small_string, parse_string,
};
use crate::users::{
    enc_user_role, enc_users_loading_error, lemma_user_role_roundtrip,
    lemma_users_loading_error_roundtrip, parse_user_role, UserRole, UsersLoadingError,
};
use crate::wire::{
    enc_u16, enc_u64, holds_at, lemma_bool_roundtrip, lemma_holds_split, lemma_i64_roundtrip,
    lemma_u64_roundtrip, lemma_u8_roundtrip, parse_bool, parse_u64, parse_u8, WireError,
};

verus! {

broadcast use crate::wire::group_enc_lens;

/// `NewListeningSocket` is written as the tag byte 1, then `a0` as a socket
/// address.
#[verifier::spinoff_prover]
pub proof fn law_write_new_listening_socket(a0: SocketAddr)
    ensures
        emit_log_event_type(SpecLogEventType::NewListeningSocket(a0)).ok,
        emit_log_event_type(SpecLogEventType::NewListeningSocket(a0)).bytes ==
            seq![1u8] + enc_socket_addr(a0),
{
    assert(emit_log_event_type(SpecLogEventType::NewListeningSocket(a0)).bytes =~=
        seq![1u8] + enc_socket_addr(a0));
}

/// The tag byte 1 followed by the fields of `NewListeningSocket` in order reads
/// as `NewListeningSocket` of those fields.
#[verifier::spinoff_prover]
pub proof fn law_read_new_listening_socket(a0: SocketAddr, s: Seq<u8>, i: int)
    requires
        holds_at(s, i, seq![1u8] + enc_socket_addr(a0)),
    ensures
        parse_log_event_type(s, i) == Ok::<(SpecLogEventType, int), WireError>(
            (SpecLogEventType::NewListeningSocket(a0), i + (seq![1u8] + enc_socket_addr(a0)).len()),
        ),
{
    let v = SpecLogEventType::NewListeningSocket(a0);
    assert(emit_log_event_type(v).bytes =~= seq![1u8] + enc_socket_addr(a0));
    lemma_log_event_type_roundtrip(v, s, i);
    lemma_log_event_type_read_back_identity(v);
}

/// `FailedBindListeningSocket` is written as the tag byte 2, then `a0` as a
/// socket address; `a1` as the number of an I/O error kind.
#[verifier::spinoff_prover]
pub proof fn law_write_failed_bind_listening_socket(a0: SocketAddr, a1: IoErrorKind)
    ensures
        emit_log_event_type(SpecLogEventType::FailedBindListeningSocket(a0, a1)).ok,
        emit_log_event_type(SpecLogEventType::FailedBindListeningSocket(a0, a1)).bytes ==
            seq![2u8] + enc_socket_addr(a0) + enc_io_error(a1),
{
    assert(emit_log_event_type(SpecLogEventType::FailedBindListeningSocket(a0, a1)).bytes =~=
        seq![2u8] + enc_socket_addr(a0) + enc_io_error(a1));
}

/// The tag byte 2 followed by the fields of `FailedBindListeningSocket` in
/// order reads as `FailedBindListeningSocket` of those fields.
#[verifier::spinoff_prover]
pub proof fn law_read_failed_bind_listening_socket(a0: SocketAddr, a1: IoErrorKind, s: Seq<u8>,
    i: int)
    requires
        a1 != IoErrorKind::Unrecognized,
        holds_at(s, i, seq![2u8] + enc_socket_addr(a0) + enc_io_error(a1)),
    ensures
        parse_log_event_type(s, i) == Ok::<(SpecLogEventType, int), WireError>(
            (SpecLogEventType::FailedBindListeningSocket(a0, a1), i + (seq![2u8]
                + enc_socket_addr(a0) + enc_io_error(a1)).len()),
        ),
{
    let v = SpecLogEventType::FailedBindListeningSocket(a0, a1);
    assert(emit_log_event_type(v).bytes =~= seq![2u8] + enc_socket_addr(a0) + enc_io_error(a1));
    lemma_log_event_type_roundtrip(v, s, i);
    lemma_log_event_type_read_back_identity(v);
}

/// `FailedBindAnySocketAborting` is written as the tag byte 3, with nothing
/// after it.
#[verifier::spinoff_prover]
pub proof fn law_write_failed_bind_any_socket_aborting()
    ensures
        emit_log_event_type(SpecLogEventType::FailedBindAnySocketAborting).ok,
        emit_log_event_type(SpecLogEventType::FailedBindAnySocketAborting).bytes == seq![3u8],
{
    assert(emit_log_event_type(SpecLogEventType::FailedBindAnySocketAborting).bytes =~= seq![3u8]);
}

/// The tag byte 3 reads as `FailedBindAnySocketAborting`.
#[verifier::spinoff_prover]
pub proof fn law_read_failed_bind_any_socket_aborting(s: Seq<u8>, i: int)
    requires
        holds_at(s, i, seq![3u8]),
    ensures
        parse_log_event_type(s, i) == Ok::<(SpecLogEventType, int), WireError>(
            (SpecLogEventType::FailedBindAnySocketAborting, i + (seq![3u8]).len()),
        ),
{
    let v = SpecLogEventType::FailedBindAnySocketAborting;
    assert(emit_log_event_type(v).bytes =~= seq![3u8]);
    lemma_log_event_type_roundtrip(v, s, i);
    lemma_log_event_type_read_back_identity(v);
}

/// `RemovedListeningSocket` is written as the tag byte 4, then `a0` as a socket
/// address.
#[verifier::spinoff_prover]
pub proof fn law_write_removed_listening_socket(a0: SocketAddr)
    ensures
        emit_log_event_type(SpecLogEventType::RemovedListeningSocket(a0)).ok,
        emit_log_event_type(SpecLogEventType::RemovedListeningSocket(a0)).bytes ==
            seq![4u8] + enc_socket_addr(a0),
{
    assert(emit_log_event_type(SpecLogEventType::RemovedListeningSocket(a0)).bytes =~=
        seq![4u8] + enc_socket_addr(a0));
}

/// The tag byte 4 followed by the fields of `RemovedListeningSocket` in order
/// reads as `RemovedListeningSocket` of those fields.
#[verifier::spinoff_prover]
pub proof fn law_read_removed_listening_socket(a0: SocketAddr, s: Seq<u8>, i: int)
    requires
        holds_at(s, i, seq![4u8] + enc_socket_addr(a0)),
    ensures
        parse_log_event_type(s, i) == Ok::<(SpecLogEventType, int), WireError>(
            (SpecLogEventType::RemovedListeningSocket(a0), i + (seq![4u8]
                + enc_socket_addr(a0)).len()),
        ),
{
    let v = SpecLogEventType::RemovedListeningSocket(a0);
    assert(emit_log_event_type(v).bytes =~= seq![4u8] + enc_socket_addr(a0));
    lemma_log_event_type_roundtrip(v, s, i);
    lemma_log_event_type_read_back_identity(v);
}

/// `LoadingUsersFromFile` is written as the tag byte 5, then `a0` as a string
/// with a two-byte length.
/// A string too long for its length, or a request that is refused, stops
/// the writing there.
#[verifier::spinoff_prover]
pub proof fn law_write_loading_users_from_file(a0: Seq<char>)
    ensures
        emit_log_event_type(SpecLogEventType::LoadingUsersFromFile(a0)).ok ==
            (encode_utf8(a0).len() <= 0xFFFF),
        (encode_utf8(a0).len() <= 0xFFFF) ==>
            emit_log_event_type(SpecLogEventType::LoadingUsersFromFile(a0)).bytes == seq![5u8]
                + enc_u16(encode_utf8(a0).len() as u16) + encode_utf8(a0),
        !(encode_utf8(a0).len() <= 0xFFFF) ==>
            emit_log_event_type(SpecLogEventType::LoadingUsersFromFile(a0)).bytes == seq![5u8],
{
    if encode_utf8(a0).len() <= 0xFFFF {
        assert(emit_log_event_type(SpecLogEventType::LoadingUsersFromFile(a0)).bytes =~=
            seq![5u8] + enc_u16(encode_utf8(a0).len() as u16) + encode_utf8(a0));
    } else {
        assert(emit_log_event_type(SpecLogEventType::LoadingUsersFromFile(a0)).bytes =~= seq![5u8]);
    }
}

/// The tag byte 5 followed by the fields of `LoadingUsersFromFile` in order
/// reads as `LoadingUsersFromFile` of those fields.
#[verifier::spinoff_prover]
pub proof fn law_read_loading_users_from_file(a0: Seq<char>, s: Seq<u8>, i: int)
    requires
        encode_utf8(a0).len() <= 0xFFFF,
        holds_at(s, i, seq![5u8] + enc_u16(encode_utf8(a0).len() as u16) + encode_utf8(a0)),
    ensures
        parse_log_event_type(s, i) == Ok::<(SpecLogEventType, int), WireError>(
            (SpecLogEventType::LoadingUsersFromFile(a0), i + (seq![5u8]
                + enc_u16(encode_utf8(a0).len() as u16) + encode_utf8(a0)).len()),
        ),
{
    let v = SpecLogEventType::LoadingUsersFromFile(a0);
    assert(emit_log_event_type(v).bytes =~=
        seq![5u8] + enc_u16(encode_utf8(a0).len() as u16) + encode_utf8(a0));
    lemma_log_event_type_roundtrip(v, s, i);
    lemma_log_event_type_read_back_identity(v);
}

/// `UsersLoadedFromFile` is written as the tag byte 6, then `a0` as a string
/// with a two-byte length; `a1` as a user count or a loading error.
/// A string too long for its length, or a request that is refused, stops
/// the writing there.
#[verifier::spinoff_prover]
pub proof fn law_write_users_loaded_from_file(a0: Seq<char>, a1: Result<u64, UsersLoadingError>)
    ensures
        emit_log_event_type(SpecLogEventType::UsersLoadedFromFile(a0, a1)).ok ==
            (encode_utf8(a0).len() <= 0xFFFF),
        (encode_utf8(a0).len() <= 0xFFFF) ==>
            emit_log_event_type(SpecLogEventType::UsersLoadedFromFile(a0, a1)).bytes == seq![6u8]
                + enc_u16(encode_utf8(a0).len() as u16) + encode_utf8(a0) + enc_users_result(a1),
        !(encode_utf8(a0).len() <= 0xFFFF) ==>
            emit_log_event_type(SpecLogEventType::UsersLoadedFromFile(a0, a1)).bytes == seq![6u8],
{
    if encode_utf8(a0).len() <= 0xFFFF {
        assert(emit_log_event_type(SpecLogEventType::UsersLoadedFromFile(a0, a1)).bytes =~=
            seq![6u8] + enc_u16(encode_utf8(a0).len() as u16) + encode_utf8(a0)
                + enc_users_result(a1));
    } else {
        assert(emit_log_event_type(SpecLogEventType::UsersLoadedFromFile(a0, a1)).bytes =~=
            seq![6u8]);
    }
}

/// The tag byte 6 followed by the fields of `UsersLoadedFromFile` in order
/// reads as `UsersLoadedFromFile` of those fields.
#[verifier::spinoff_prover]
pub proof fn law_read_users_loaded_from_file(a0: Seq<char>, a1: Result<u64, UsersLoadingError>,
    s: Seq<u8>, i: int)
    requires
        !(a1 matches Err(UsersLoadingError::IO(IoErrorKind::Unrecognized))),
        encode_utf8(a0).len() <= 0xFFFF,
        holds_at(s, i, seq![6u8] + enc_u16(encode_utf8(a0).len() as u16) + encode_utf8(a0)
            + enc_users_result(a1)),
    ensures
        parse_log_event_type(s, i) == Ok::<(SpecLogEventType, int), WireError>(
            (SpecLogEventType::UsersLoadedFromFile(a0, a1), i + (seq![6u8]
                + enc_u16(encode_utf8(a0).len() as u16) + encode_utf8(a0)
                + enc_users_result(a1)).len()),
        ),
{
    let v = SpecLogEventType::UsersLoadedFromFile(a0, a1);
    assert(emit_log_event_type(v).bytes =~=
        seq![6u8] + enc_u16(encode_utf8(a0).len() as u16) + encode_utf8(a0) + enc_users_result(a1));
    lemma_log_event_type_roundtrip(v, s, i);
    lemma_log_event_type_read_back_identity(v);
}

/// `StartingUpWithSingleDefaultUser` is written as the tag byte 7, with nothing
/// after it.
#[verifier::spinoff_prover]
pub proof fn law_write_starting_up_with_single_default_user()
    ensures
        emit_log_event_type(SpecLogEventType::StartingUpWithSingleDefaultUser).ok,
        emit_log_event_type(SpecLogEventType::StartingUpWithSingleDefaultUser).bytes == seq![7u8],
{
    assert(emit_log_event_type(SpecLogEventType::StartingUpWithSingleDefaultUser).bytes =~=
        seq![7u8]);
}

/// The tag byte 7 reads as `StartingUpWithSingleDefaultUser`.
#[verifier::spinoff_prover]
pub proof fn law_read_starting_up_with_single_default_user(s: Seq<u8>, i: int)
    requires
        holds_at(s, i, seq![7u8]),
    ensures
        parse_log_event_type(s, i) == Ok::<(SpecLogEventType, int), WireError>(
            (SpecLogEventType::StartingUpWithSingleDefaultUser, i + (seq![7u8]).len()),
        ),
{
    let v = SpecLogEventType::StartingUpWithSingleDefaultUser;
    assert(emit_log_event_type(v).bytes =~= seq![7u8]);
    lemma_log_event_type_roundtrip(v, s, i);
    lemma_log_event_type_read_back_identity(v);
}

/// `SavingUsersToFile` is written as the tag byte 8, then `a0` as a string with
/// a two-byte length.
/// A string too long for its length, or a request that is refused, stops
/// the writing there.
#[verifier::spinoff_prover]
pub proof fn law_write_saving_users_to_file(a0: Seq<char>)
    ensures
        emit_log_event_type(SpecLogEventType::SavingUsersToFile(a0)).ok ==
            (encode_utf8(a0).len() <= 0xFFFF),
        (encode_utf8(a0).len() <= 0xFFFF) ==>
            emit_log_event_type(SpecLogEventType::SavingUsersToFile(a0)).bytes == seq![8u8]
                + enc_u16(encode_utf8(a0).len() as u16) + encode_utf8(a0),
        !(encode_utf8(a0).len() <= 0xFFFF) ==>
            emit_log_event_type(SpecLogEventType::SavingUsersToFile(a0)).bytes == seq![8u8],
{
    if encode_utf8(a0).len() <= 0xFFFF {
        assert(emit_log_event_type(SpecLogEventType::SavingUsersToFile(a0)).bytes =~=
            seq![8u8] + enc_u16(encode_utf8(a0).len() as u16) + encode_utf8(a0));
    } else {
        assert(emit_log_event_type(SpecLogEventType::SavingUsersToFile(a0)).bytes =~= seq![8u8]);
    }
}

/// The tag byte 8 followed by the fields of `SavingUsersToFile` in order reads
/// as `SavingUsersToFile` of those fields.
#[verifier::spinoff_prover]
pub proof fn law_read_saving_users_to_file(a0: Seq<char>, s: Seq<u8>, i: int)
    requires
        encode_utf8(a0).len() <= 0xFFFF,
        holds_at(s, i, seq![8u8] + enc_u16(encode_utf8(a0).len() as u16) + encode_utf8(a0)),
    ensures
        parse_log_event_type(s, i) == Ok::<(SpecLogEventType, int), WireError>(
            (SpecLogEventType::SavingUsersToFile(a0), i + (seq![8u8]
                + enc_u16(encode_utf8(a0).len() as u16) + encode_utf8(a0)).len()),
        ),
{
    let v = SpecLogEventType::SavingUsersToFile(a0);
    assert(emit_log_event_type(v).bytes =~=
        seq![8u8] + enc_u16(encode_utf8(a0).len() as u16) + encode_utf8(a0));
    lemma_log_event_type_roundtrip(v, s, i);
    lemma_log_event_type_read_back_identity(v);
}

/// `UsersSavedToFile` is written as the tag byte 9, then `a0` as a string with
/// a two-byte length; `a1` as a count or an I/O error kind.
/// A string too long for its length, or a request that is refused, stops
/// the writing there.
#[verifier::spinoff_prover]
pub proof fn law_write_users_saved_to_file(a0: Seq<char>, a1: Result<u64, IoErrorKind>)
    ensures
        emit_log_event_type(SpecLogEventType::UsersSavedToFile(a0, a1)).ok ==
            (encode_utf8(a0).len() <= 0xFFFF),
        (encode_utf8(a0).len() <= 0xFFFF) ==>
            emit_log_event_type(SpecLogEventType::UsersSavedToFile(a0, a1)).bytes == seq![9u8]
                + enc_u16(encode_utf8(a0).len() as u16) + encode_utf8(a0) + enc_io_result(a1),
        !(encode_utf8(a0).len() <= 0xFFFF) ==>
            emit_log_event_type(SpecLogEventType::UsersSavedToFile(a0, a1)).bytes == seq![9u8],
{
    if encode_utf8(a0).len() <= 0xFFFF {
        assert(emit_log_event_type(SpecLogEventType::UsersSavedToFile(a0, a1)).bytes =~=
            seq![9u8] + enc_u16(encode_utf8(a0).len() as u16) + encode_utf8(a0)
                + enc_io_result(a1));
    } else {
        assert(emit_log_event_type(SpecLogEventType::UsersSavedToFile(a0, a1)).bytes =~= seq![9u8]);
    }
}

/// The tag byte 9 followed by the fields of `UsersSavedToFile` in order reads
/// as `UsersSavedToFile` of those fields.
#[verifier::spinoff_prover]
pub proof fn law_read_users_saved_to_file(a0: Seq<char>, a1: Result<u64, IoErrorKind>, s: Seq<u8>,
    i: int)
    requires
        (a1 matches Err(k) ==> k != IoErrorKind::Unrecognized),
        encode_utf8(a0).len() <= 0xFFFF,
        holds_at(s, i, seq![9u8] + enc_u16(encode_utf8(a0).len() as u16) + encode_utf8(a0)
            + enc_io_result(a1)),
    ensures
        parse_log_event_type(s, i) == Ok::<(SpecLogEventType, int), WireError>(
            (SpecLogEventType::UsersSavedToFile(a0, a1), i + (seq![9u8]
                + enc_u16(encode_utf8(a0).len() as u16) + encode_utf8(a0)
                + enc_io_result(a1)).len()),
        ),
{
    let v = SpecLogEventType::UsersSavedToFile(a0, a1);
    assert(emit_log_event_type(v).bytes =~=
        seq![9u8] + enc_u16(encode_utf8(a0).len() as u16) + encode_utf8(a0) + enc_io_result(a1));
    lemma_log_event_type_roundtrip(v, s, i);
    lemma_log_event_type_read_back_identity(v);
}

/// `UserRegistered` is written as the tag byte 10, then `a0` as a string with a
/// one-byte length; `a1` as a role byte.
/// A string too long for its length, or a request that is refused, stops
/// the writing there.
#[verifier::spinoff_prover]
pub proof fn law_write_user_registered(a0: Seq<char>, a1: UserRole)
    ensures
        emit_log_event_type(SpecLogEventType::UserRegistered(a0, a1)).ok ==
            (encode_utf8(a0).len() <= 0xFF),
        (encode_utf8(a0).len() <= 0xFF) ==>
            emit_log_event_type(SpecLogEventType::UserRegistered(a0, a1)).bytes == seq![10u8]
                + seq![encode_utf8(a0).len() as u8] + encode_utf8(a0) + enc_user_role(a1),
        !(encode_utf8(a0).len() <= 0xFF) ==>
            emit_log_event_type(SpecLogEventType::UserRegistered(a0, a1)).bytes == seq![10u8],
{
    if encode_utf8(a0).len() <= 0xFF {
        assert(emit_log_event_type(SpecLogEventType::UserRegistered(a0, a1)).bytes =~=
            seq![10u8] + seq![encode_utf8(a0).len() as u8] + encode_utf8(a0) + enc_user_role(a1));
    } else {
        assert(emit_log_event_type(SpecLogEventType::UserRegistered(a0, a1)).bytes =~= seq![10u8]);
    }
}

/// The tag byte 10 followed by the fields of `UserRegistered` in order reads as
/// `UserRegistered` of those fields.
#[verifier::spinoff_prover]
pub proof fn law_read_user_registered(a0: Seq<char>, a1: UserRole, s: Seq<u8>, i: int)
    requires
        encode_utf8(a0).len() <= 0xFF,
        holds_at(s, i, seq![10u8] + seq![encode_utf8(a0).len() as u8] + encode_utf8(a0)
            + enc_user_role(a1)),
    ensures
        parse_log_event_type(s, i) == Ok::<(SpecLogEventType, int), WireError>(
            (SpecLogEventType::UserRegistered(a0, a1), i + (seq![10u8]
                + seq![encode_utf8(a0).len() as u8] + encode_utf8(a0) + enc_user_role(a1)).len()),
        ),
{
    let v = SpecLogEventType::UserRegistered(a0, a1);
    assert(emit_log_event_type(v).bytes =~=
        seq![10u8] + seq![encode_utf8(a0).len() as u8] + encode_utf8(a0) + enc_user_role(a1));
    lemma_log_event_type_roundtrip(v, s, i);
    lemma_log_event_type_read_back_identity(v);
}

/// `UserReplacedByArgs` is written as the tag byte 11, then `a0` as a string
/// with a one-byte length; `a1` as a role byte.
/// A string too long for its length, or a request that is refused, stops
/// the writing there.
#[verifier::spinoff_prover]
pub proof fn law_write_user_replaced_by_args(a0: Seq<char>, a1: UserRole)
    ensures
        emit_log_event_type(SpecLogEventType::UserReplacedByArgs(a0, a1)).ok ==
            (encode_utf8(a0).len() <= 0xFF),
        (encode_utf8(a0).len() <= 0xFF) ==>
            emit_log_event_type(SpecLogEventType::UserReplacedByArgs(a0, a1)).bytes == seq![11u8]
                + seq![encode_utf8(a0).len() as u8] + encode_utf8(a0) + enc_user_role(a1),
        !(encode_utf8(a0).len() <= 0xFF) ==>
            emit_log_event_type(SpecLogEventType::UserReplacedByArgs(a0, a1)).bytes == seq![11u8],
{
    if encode_utf8(a0).len() <= 0xFF {
        assert(emit_log_event_type(SpecLogEventType::UserReplacedByArgs(a0, a1)).bytes =~=
            seq![11u8] + seq![encode_utf8(a0).len() as u8] + encode_utf8(a0) + enc_user_role(a1));
    } else {
        assert(emit_log_event_type(SpecLogEventType::UserReplacedByArgs(a0, a1)).bytes =~=
            seq![11u8]);
    }
}

/// The tag byte 11 followed by the fields of `UserReplacedByArgs` in order
/// reads as `UserReplacedByArgs` of those fields.
#[verifier::spinoff_prover]
pub proof fn law_read_user_replaced_by_args(a0: Seq<char>, a1: UserRole, s: Seq<u8>, i: int)
    requires
        encode_utf8(a0).len() <= 0xFF,
        holds_at(s, i, seq![11u8] + seq![encode_utf8(a0).len() as u8] + encode_utf8(a0)
            + enc_user_role(a1)),
    ensures
        parse_log_event_type(s, i) == Ok::<(SpecLogEventType, int), WireError>(
            (SpecLogEventType::UserReplacedByArgs(a0, a1), i + (seq![11u8]
                + seq![encode_utf8(a0).len() as u8] + encode_utf8(a0) + enc_user_role(a1)).len()),
        ),
{
    let v = SpecLogEventType::UserReplacedByArgs(a0, a1);
    assert(emit_log_event_type(v).bytes =~=
        seq![11u8] + seq![encode_utf8(a0).len() as u8] + encode_utf8(a0) + enc_user_role(a1));
    lemma_log_event_type_roundtrip(v, s, i);
    lemma_log_event_type_read_back_identity(v);
}

/// `UserUpdated` is written as the tag byte 12, then `a0` as a string with a
/// one-byte length; `a1` as a role byte; `a2` as 1 for `true`, 0 for `false`.
/// A string too long for its length, or a request that is refused, stops
/// the writing there.
#[verifier::spinoff_prover]
pub proof fn law_write_user_updated(a0: Seq<char>, a1: UserRole, a2: bool)
    ensures
        emit_log_event_type(SpecLogEventType::UserUpdated(a0, a1, a2)).ok ==
            (encode_utf8(a0).len() <= 0xFF),
        (encode_utf8(a0).len() <= 0xFF) ==>
            emit_log_event_type(SpecLogEventType::UserUpdated(a0, a1, a2)).bytes == seq![12u8]
                + seq![encode_utf8(a0).len() as u8] + encode_utf8(a0) + enc_user_role(a1)
                + seq![if a2 {{ 1u8 }} else {{ 0u8 }}],
        !(encode_utf8(a0).len() <= 0xFF) ==>
            emit_log_event_type(SpecLogEventType::UserUpdated(a0, a1, a2)).bytes == seq![12u8],
{
    if encode_utf8(a0).len() <= 0xFF {
        assert(emit_log_event_type(SpecLogEventType::UserUpdated(a0, a1, a2)).bytes =~=
            seq![12u8] + seq![encode_utf8(a0).len() as u8] + encode_utf8(a0) + enc_user_role(a1)
                + seq![if a2 {{ 1u8 }} else {{ 0u8 }}]);
    } else {
        assert(emit_log_event_type(SpecLogEventType::UserUpdated(a0, a1, a2)).bytes =~= seq![12u8]);
    }
}

/// The tag byte 12 followed by the fields of `UserUpdated` in order reads as
/// `UserUpdated` of those fields.
#[verifier::spinoff_prover]
pub proof fn law_read_user_updated(a0: Seq<char>, a1: UserRole, a2: bool, s: Seq<u8>, i: int)
    requires
        encode_utf8(a0).len() <= 0xFF,
        holds_at(s, i, seq![12u8] + seq![encode_utf8(a0).len() as u8] + encode_utf8(a0)
            + enc_user_role(a1) + seq![if a2 {{ 1u8 }} else {{ 0u8 }}]),
    ensures
        parse_log_event_type(s, i) == Ok::<(SpecLogEventType, int), WireError>(
            (SpecLogEventType::UserUpdated(a0, a1, a2), i + (seq![12u8]
                + seq![encode_utf8(a0).len() as u8] + encode_utf8(a0) + enc_user_role(a1)
                + seq![if a2 {{ 1u8 }} else {{ 0u8 }}]).len()),
        ),
{
    let v = SpecLogEventType::UserUpdated(a0, a1, a2);
    assert(emit_log_event_type(v).bytes =~=
        seq![12u8] + seq![encode_utf8(a0).len() as u8] + encode_utf8(a0) + enc_user_role(a1)
            + seq![if a2 {{ 1u8 }} else {{ 0u8 }}]);
    lemma_log_event_type_roundtrip(v, s, i);
    lemma_log_event_type_read_back_identity(v);
}

/// `UserDeleted` is written as the tag byte 13, then `a0` as a string with a
/// one-byte length; `a1` as a role byte.
/// A string too long for its length, or a request that is refused, stops
/// the writing there.
#[verifier::spinoff_prover]
pub proof fn law_write_user_deleted(a0: Seq<char>, a1: UserRole)
    ensures
        emit_log_event_type(SpecLogEventType::UserDeleted(a0, a1)).ok ==
            (encode_utf8(a0).len() <= 0xFF),
        (encode_utf8(a0).len() <= 0xFF) ==>
            emit_log_event_type(SpecLogEventType::UserDeleted(a0, a1)).bytes == seq![13u8]
                + seq![encode_utf8(a0).len() as u8] + encode_utf8(a0) + enc_user_role(a1),
        !(encode_utf8(a0).len() <= 0xFF) ==>
            emit_log_event_type(SpecLogEventType::UserDeleted(a0, a1)).bytes == seq![13u8],
{
    if encode_utf8(a0).len() <= 0xFF {
        assert(emit_log_event_type(SpecLogEventType::UserDeleted(a0, a1)).bytes =~=
            seq![13u8] + seq![encode_utf8(a0).len() as u8] + encode_utf8(a0) + enc_user_role(a1));
    } else {
        assert(emit_log_event_type(SpecLogEventType::UserDeleted(a0, a1)).bytes =~= seq![13u8]);
    }
}

/// The tag byte 13 followed by the fields of `UserDeleted` in order reads as
/// `UserDeleted` of those fields.
#[verifier::spinoff_prover]
pub proof fn law_read_user_deleted(a0: Seq<char>, a1: UserRole, s: Seq<u8>, i: int)
    requires
        encode_utf8(a0).len() <= 0xFF,
        holds_at(s, i, seq![13u8] + seq![encode_utf8(a0).len() as u8] + encode_utf8(a0)
            + enc_user_role(a1)),
    ensures
        parse_log_event_type(s, i) == Ok::<(SpecLogEventType, int), WireError>(
            (SpecLogEventType::UserDeleted(a0, a1), i + (seq![13u8]
                + seq![encode_utf8(a0).len() as u8] + encode_utf8(a0) + enc_user_role(a1)).len()),
        ),
{
    let v = SpecLogEventType::UserDeleted(a0, a1);
    assert(emit_log_event_type(v).bytes =~=
        seq![13u8] + seq![encode_utf8(a0).len() as u8] + encode_utf8(a0) + enc_user_role(a1));
    lemma_log_event_type_roundtrip(v, s, i);
    lemma_log_event_type_read_back_identity(v);
}

/// `NewClientConnectionAccepted` is written as the tag byte 14, then `a0` as
/// eight bytes, most significant first; `a1` as a socket address.
#[verifier::spinoff_prover]
pub proof fn law_write_new_client_connection_accepted(a0: u64, a1: SocketAddr)
    ensures
        emit_log_event_type(SpecLogEventType::NewClientConnectionAccepted(a0, a1)).ok,
        emit_log_event_type(SpecLogEventType::NewClientConnectionAccepted(a0, a1)).bytes ==
            seq![14u8] + enc_u64(a0) + enc_socket_addr(a1),
{
    assert(emit_log_event_type(SpecLogEventType::NewClientConnectionAccepted(a0, a1)).bytes =~=
        seq![14u8] + enc_u64(a0) + enc_socket_addr(a1));
}

/// The tag byte 14 followed by the fields of `NewClientConnectionAccepted` in
/// order reads as `NewClientConnectionAccepted` of those fields.
#[verifier::spinoff_prover]
pub proof fn law_read_new_client_connection_accepted(a0: u64, a1: SocketAddr, s: Seq<u8>, i: int)
    requires
        holds_at(s, i, seq![14u8] + enc_u64(a0) + enc_socket_addr(a1)),
    ensures
        parse_log_event_type(s, i) == Ok::<(SpecLogEventType, int), WireError>(
            (SpecLogEventType::NewClientConnectionAccepted(a0, a1), i + (seq![14u8] + enc_u64(a0)
                + enc_socket_addr(a1)).len()),
        ),
{
    let v = SpecLogEventType::NewClientConnectionAccepted(a0, a1);
    assert(emit_log_event_type(v).bytes =~= seq![14u8] + enc_u64(a0) + enc_socket_addr(a1));
    lemma_log_event_type_roundtrip(v, s, i);
    lemma_log_event_type_read_back_identity(v);
}

/// `ClientConnectionAcceptFailed` is written as the tag byte 15, then `a0` as
/// an optional socket address; `a1` as the number of an I/O error kind.
#[verifier::spinoff_prover]
pub proof fn law_write_client_connection_accept_failed(a0: Option<SocketAddr>, a1: IoErrorKind)
    ensures
        emit_log_event_type(SpecLogEventType::ClientConnectionAcceptFailed(a0, a1)).ok,
        emit_log_event_type(SpecLogEventType::ClientConnectionAcceptFailed(a0, a1)).bytes ==
            seq![15u8] + enc_opt_socket_addr(a0) + enc_io_error(a1),
{
    assert(emit_log_event_type(SpecLogEventType::ClientConnectionAcceptFailed(a0, a1)).bytes =~=
        seq![15u8] + enc_opt_socket_addr(a0) + enc_io_error(a1));
}

/// The tag byte 15 followed by the fields of `ClientConnectionAcceptFailed` in
/// order reads as `ClientConnectionAcceptFailed` of those fields.
#[verifier::spinoff_prover]
pub proof fn law_read_client_connection_accept_failed(a0: Option<SocketAddr>, a1: IoErrorKind,
    s: Seq<u8>, i: int)
    requires
        a1 != IoErrorKind::Unrecognized,
        holds_at(s, i, seq![15u8] + enc_opt_socket_addr(a0) + enc_io_error(a1)),
    ensures
        parse_log_event_type(s, i) == Ok::<(SpecLogEventType, int), WireError>(
            (SpecLogEventType::ClientConnectionAcceptFailed(a0, a1), i + (seq![15u8]
                + enc_opt_socket_addr(a0) + enc_io_error(a1)).len()),
        ),
{
    let v = SpecLogEventType::ClientConnectionAcceptFailed(a0, a1);
    assert(emit_log_event_type(v).bytes =~=
        seq![15u8] + enc_opt_socket_addr(a0) + enc_io_error(a1));
    lemma_log_event_type_roundtrip(v, s, i);
    lemma_log_event_type_read_back_identity(v);
}

/// `ClientRequestedUnsupportedVersion` is written as the tag byte 16, then `a0`
/// as eight bytes, most significant first; `a1` as a byte.
#[verifier::spinoff_prover]
pub proof fn law_write_client_requested_unsupported_version(a0: u64, a1: u8)
    ensures
        emit_log_event_type(SpecLogEventType::ClientRequestedUnsupportedVersion(a0, a1)).ok,
        emit_log_event_type(SpecLogEventType::ClientRequestedUnsupportedVersion(a0, a1)).bytes ==
            seq![16u8] + enc_u64(a0) + seq![a1],
{
    assert(emit_log_event_type(SpecLogEventType::ClientRequestedUnsupportedVersion(a0,
        a1)).bytes =~=
        seq![16u8] + enc_u64(a0) + seq![a1]);
}

/// The tag byte 16 followed by the fields of
/// `ClientRequestedUnsupportedVersion` in order reads as
/// `ClientRequestedUnsupportedVersion` of those fields.
#[verifier::spinoff_prover]
pub proof fn law_read_client_requested_unsupported_version(a0: u64, a1: u8, s: Seq<u8>, i: int)
    requires
        holds_at(s, i, seq![16u8] + enc_u64(a0) + seq![a1]),
    ensures
        parse_log_event_type(s, i) == Ok::<(SpecLogEventType, int), WireError>(
            (SpecLogEventType::ClientRequestedUnsupportedVersion(a0, a1), i + (seq![16u8]
                + enc_u64(a0) + seq![a1]).len()),
        ),
{
    let v = SpecLogEventType::ClientRequestedUnsupportedVersion(a0, a1);
    assert(emit_log_event_type(v).bytes =~= seq![16u8] + enc_u64(a0) + seq![a1]);
    lemma_log_event_type_roundtrip(v, s, i);
    lemma_log_event_type_read_back_identity(v);
}

/// `ClientRequestedUnsupportedCommand` is written as the tag byte 17, then `a0`
/// as eight bytes, most significant first; `a1` as a byte.
#[verifier::spinoff_prover]
pub proof fn law_write_client_requested_unsupported_command(a0: u64, a1: u8)
    ensures
        emit_log_event_type(SpecLogEventType::ClientRequestedUnsupportedCommand(a0, a1)).ok,
        emit_log_event_type(SpecLogEventType::ClientRequestedUnsupportedCommand(a0, a1)).bytes ==
            seq![17u8] + enc_u64(a0) + seq![a1],
{
    assert(emit_log_event_type(SpecLogEventType::ClientRequestedUnsupportedCommand(a0,
        a1)).bytes =~=
        seq![17u8] + enc_u64(a0) + seq![a1]);
}

/// The tag byte 17 followed by the fields of
/// `ClientRequestedUnsupportedCommand` in order reads as
/// `ClientRequestedUnsupportedCommand` of those fields.
#[verifier::spinoff_prover]
pub proof fn law_read_client_requested_unsupported_command(a0: u64, a1: u8, s: Seq<u8>, i: int)
    requires
        holds_at(s, i, seq![17u8] + enc_u64(a0) + seq![a1]),
    ensures
        parse_log_event_type(s, i) == Ok::<(SpecLogEventType, int), WireError>(
            (SpecLogEventType::ClientRequestedUnsupportedCommand(a0, a1), i + (seq![17u8]
                + enc_u64(a0) + seq![a1]).len()),
        ),
{
    let v = SpecLogEventType::ClientRequestedUnsupportedCommand(a0, a1);
    assert(emit_log_event_type(v).bytes =~= seq![17u8] + enc_u64(a0) + seq![a1]);
    lemma_log_event_type_roundtrip(v, s, i);
    lemma_log_event_type_read_back_identity(v);
}

/// `ClientRequestedUnsupportedAtyp` is written as the tag byte 18, then `a0` as
/// eight bytes, most significant first; `a1` as a byte.
#[verifier::spinoff_prover]
pub proof fn law_write_client_requested_unsupported_atyp(a0: u64, a1: u8)
    ensures
        emit_log_event_type(SpecLogEventType::ClientRequestedUnsupportedAtyp(a0, a1)).ok,
        emit_log_event_type(SpecLogEventType::ClientRequestedUnsupportedAtyp(a0, a1)).bytes ==
            seq![18u8] + enc_u64(a0) + seq![a1],
{
    assert(emit_log_event_type(SpecLogEventType::ClientRequestedUnsupportedAtyp(a0, a1)).bytes =~=
        seq![18u8] + enc_u64(a0) + seq![a1]);
}

/// The tag byte 18 followed by the fields of `ClientRequestedUnsupportedAtyp`
/// in order reads as `ClientRequestedUnsupportedAtyp` of those fields.
#[verifier::spinoff_prover]
pub proof fn law_read_client_requested_unsupported_atyp(a0: u64, a1: u8, s: Seq<u8>, i: int)
    requires
        holds_at(s, i, seq![18u8] + enc_u64(a0) + seq![a1]),
    ensures
        parse_log_event_type(s, i) == Ok::<(SpecLogEventType, int), WireError>(
            (SpecLogEventType::ClientRequestedUnsupportedAtyp(a0, a1), i + (seq![18u8]
                + enc_u64(a0) + seq![a1]).len()),
        ),
{
    let v = SpecLogEventType::ClientRequestedUnsupportedAtyp(a0, a1);
    assert(emit_log_event_type(v).bytes =~= seq![18u8] + enc_u64(a0) + seq![a1]);
    lemma_log_event_type_roundtrip(v, s, i);
    lemma_log_event_type_read_back_identity(v);
}

/// `ClientSelectedAuthMethod` is written as the tag byte 19, then `a0` as eight
/// bytes, most significant first; `a1` as an authentication method byte.
#[verifier::spinoff_prover]
pub proof fn law_write_client_selected_auth_method(a0: u64, a1: AuthMethod)
    ensures
        emit_log_event_type(SpecLogEventType::ClientSelectedAuthMethod(a0, a1)).ok,
        emit_log_event_type(SpecLogEventType::ClientSelectedAuthMethod(a0, a1)).bytes ==
            seq![19u8] + enc_u64(a0) + enc_auth_method(a1),
{
    assert(emit_log_event_type(SpecLogEventType::ClientSelectedAuthMethod(a0, a1)).bytes =~=
        seq![19u8] + enc_u64(a0) + enc_auth_method(a1));
}

/// The tag byte 19 followed by the fields of `ClientSelectedAuthMethod` in
/// order reads as `ClientSelectedAuthMethod` of those fields.
#[verifier::spinoff_prover]
pub proof fn law_read_client_selected_auth_method(a0: u64, a1: AuthMethod, s: Seq<u8>, i: int)
    requires
        holds_at(s, i, seq![19u8] + enc_u64(a0) + enc_auth_method(a1)),
    ensures
        parse_log_event_type(s, i) == Ok::<(SpecLogEventType, int), WireError>(
            (SpecLogEventType::ClientSelectedAuthMethod(a0, a1), i + (seq![19u8] + enc_u64(a0)
                + enc_auth_method(a1)).len()),
        ),
{
    let v = SpecLogEventType::ClientSelectedAuthMethod(a0, a1);
    assert(emit_log_event_type(v).bytes =~= seq![19u8] + enc_u64(a0) + enc_auth_method(a1));
    lemma_log_event_type_roundtrip(v, s, i);
    lemma_log_event_type_read_back_identity(v);
}

/// `ClientRequestedUnsupportedUserpassVersion` is written as the tag byte 20,
/// then `a0` as eight bytes, most significant first; `a1` as a byte.
#[verifier::spinoff_prover]
pub proof fn law_write_client_requested_unsupported_userpass_version(a0: u64, a1: u8)
    ensures
        emit_log_event_type(SpecLogEventType::ClientRequestedUnsupportedUserpassVersion(a0, a1)).ok,
        emit_log_event_type(SpecLogEventType::ClientRequestedUnsupportedUserpassVersion(a0,
            a1)).bytes ==
            seq![20u8] + enc_u64(a0) + seq![a1],
{
    assert(emit_log_event_type(SpecLogEventType::ClientRequestedUnsupportedUserpassVersion(a0,
        a1)).bytes =~=
        seq![20u8] + enc_u64(a0) + seq![a1]);
}

/// The tag byte 20 followed by the fields of
/// `ClientRequestedUnsupportedUserpassVersion` in order reads as
/// `ClientRequestedUnsupportedUserpassVersion` of those fields.
#[verifier::spinoff_prover]
pub proof fn law_read_client_requested_unsupported_userpass_version(a0: u64, a1: u8, s: Seq<u8>,
    i: int)
    requires
        holds_at(s, i, seq![20u8] + enc_u64(a0) + seq![a1]),
    ensures
        parse_log_event_type(s, i) == Ok::<(SpecLogEventType, int), WireError>(
            (SpecLogEventType::ClientRequestedUnsupportedUserpassVersion(a0, a1), i + (seq![20u8]
                + enc_u64(a0) + seq![a1]).len()),
        ),
{
    let v = SpecLogEventType::ClientRequestedUnsupportedUserpassVersion(a0, a1);
    assert(emit_log_event_type(v).bytes =~= seq![20u8] + enc_u64(a0) + seq![a1]);
    lemma_log_event_type_roundtrip(v, s, i);
    lemma_log_event_type_read_back_identity(v);
}

/// `ClientAuthenticatedWithUserpass` is written as the tag byte 21, then `a0`
/// as eight bytes, most significant first; `a1` as a string with a one-byte
/// length; `a2` as 1 for `true`, 0 for `false`.
/// A string too long for its length, or a request that is refused, stops
/// the writing there.
#[verifier::spinoff_prover]
pub proof fn law_write_client_authenticated_with_userpass(a0: u64, a1: Seq<char>, a2: bool)
    ensures
        emit_log_event_type(SpecLogEventType::ClientAuthenticatedWithUserpass(a0, a1, a2)).ok ==
            (encode_utf8(a1).len() <= 0xFF),
        (encode_utf8(a1).len() <= 0xFF) ==>
            emit_log_event_type(SpecLogEventType::ClientAuthenticatedWithUserpass(a0, a1,
                a2)).bytes == seq![21u8] + enc_u64(a0) + seq![encode_utf8(a1).len() as u8]
                + encode_utf8(a1) + seq![if a2 {{ 1u8 }} else {{ 0u8 }}],
        !(encode_utf8(a1).len() <= 0xFF) ==>
            emit_log_event_type(SpecLogEventType::ClientAuthenticatedWithUserpass(a0, a1,
                a2)).bytes == seq![21u8] + enc_u64(a0),
{
    if encode_utf8(a1).len() <= 0xFF {
        assert(emit_log_event_type(SpecLogEventType::ClientAuthenticatedWithUserpass(a0, a1,
            a2)).bytes =~=
            seq![21u8] + enc_u64(a0) + seq![encode_utf8(a1).len() as u8] + encode_utf8(a1)
                + seq![if a2 {{ 1u8 }} else {{ 0u8 }}]);
    } else {
        assert(emit_log_event_type(SpecLogEventType::ClientAuthenticatedWithUserpass(a0, a1,
            a2)).bytes =~=
            seq![21u8] + enc_u64(a0));
    }
}

/// The tag byte 21 followed by the fields of `ClientAuthenticatedWithUserpass`
/// in order reads as `ClientAuthenticatedWithUserpass` of those fields.
/// The user name is read with a two-byte length, though it is written with a
/// one-byte one.
#[verifier::spinoff_prover]
pub proof fn law_read_client_authenticated_with_userpass(a0: u64, a1: Seq<char>, a2: bool,
    s: Seq<u8>, i: int)
    requires
        encode_utf8(a1).len() <= 0xFFFF,
        holds_at(s, i, seq![21u8] + enc_u64(a0) + enc_u16(encode_utf8(a1).len() as u16)
            + encode_utf8(a1) + seq![if a2 {{ 1u8 }} else {{ 0u8 }}]),
    ensures
        parse_log_event_type(s, i) == Ok::<(SpecLogEventType, int), WireError>(
            (SpecLogEventType::ClientAuthenticatedWithUserpass(a0, a1, a2), i + (seq![21u8]
                + enc_u64(a0) + enc_u16(encode_utf8(a1).len() as u16) + encode_utf8(a1)
                + seq![if a2 {{ 1u8 }} else {{ 0u8 }}]).len()),
        ),
{
    let p0 = seq![21u8];
    let p1 = enc_u64(a0);
    let p2 = emit_str(a1).bytes;
    let p3 = seq![if a2 { 1u8 } else { 0u8 }];
    assert(seq![21u8] + enc_u64(a0) + enc_u16(encode_utf8(a1).len() as u16) + encode_utf8(a1)
        + seq![if a2 {{ 1u8 }} else {{ 0u8 }}] =~=
        p0 + p1 + p2 + p3);
    lemma_holds_split(s, i, p0 + p1 + p2, p3);
    lemma_holds_split(s, i, p0 + p1, p2);
    lemma_holds_split(s, i, p0, p1);
    lemma_u8_roundtrip(21, s, i);
    lemma_u64_roundtrip(a0, s, i + 1);
    lemma_str_roundtrip(a1, s, i + 9);
    lemma_bool_roundtrip(a2, s, i + 9 + p2.len());
}

/// `ClientSocksRequest` is written as the tag byte 22, then `a0` as eight
/// bytes, most significant first; `a1` as a SOCKS request.
/// A string too long for its length, or a request that is refused, stops
/// the writing there.
#[verifier::spinoff_prover]
pub proof fn law_write_client_socks_request(a0: u64, a1: SpecSocksRequest)
    ensures
        emit_log_event_type(SpecLogEventType::ClientSocksRequest(a0, a1)).ok ==
            (emit_socks_request(a1).ok),
        emit_log_event_type(SpecLogEventType::ClientSocksRequest(a0, a1)).bytes ==
            seq![22u8] + enc_u64(a0) + emit_socks_request(a1).bytes,
{
    assert(emit_log_event_type(SpecLogEventType::ClientSocksRequest(a0, a1)).bytes =~=
        seq![22u8] + enc_u64(a0) + emit_socks_request(a1).bytes);
}

/// The tag byte 22 followed by the fields of `ClientSocksRequest` in order
/// reads as `ClientSocksRequest` of those fields.
#[verifier::spinoff_prover]
pub proof fn law_read_client_socks_request(a0: u64, a1: SpecSocksRequest, s: Seq<u8>, i: int)
    requires
        emit_socks_request(a1).ok,
        holds_at(s, i, seq![22u8] + enc_u64(a0) + emit_socks_request(a1).bytes),
    ensures
        parse_log_event_type(s, i) == Ok::<(SpecLogEventType, int), WireError>(
            (SpecLogEventType::ClientSocksRequest(a0, a1), i + (seq![22u8] + enc_u64(a0)
                + emit_socks_request(a1).bytes).len()),
        ),
{
    let v = SpecLogEventType::ClientSocksRequest(a0, a1);
    assert(emit_log_event_type(v).bytes =~=
        seq![22u8] + enc_u64(a0) + emit_socks_request(a1).bytes);
    lemma_log_event_type_roundtrip(v, s, i);
    lemma_log_event_type_read_back_identity(v);
}

/// `ClientDnsLookup` is written as the tag byte 23, then `a0` as eight bytes,
/// most significant first; `a1` as a string with a one-byte length.
/// A string too long for its length, or a request that is refused, stops
/// the writing there.
#[verifier::spinoff_prover]
pub proof fn law_write_client_dns_lookup(a0: u64, a1: Seq<char>)
    ensures
        emit_log_event_type(SpecLogEventType::ClientDnsLookup(a0, a1)).ok ==
            (encode_utf8(a1).len() <= 0xFF),
        (encode_utf8(a1).len() <= 0xFF) ==>
            emit_log_event_type(SpecLogEventType::ClientDnsLookup(a0, a1)).bytes == seq![23u8]
                + enc_u64(a0) + seq![encode_utf8(a1).len() as u8] + encode_utf8(a1),
        !(encode_utf8(a1).len() <= 0xFF) ==>
            emit_log_event_type(SpecLogEventType::ClientDnsLookup(a0, a1)).bytes == seq![23u8]
                + enc_u64(a0),
{
    if encode_utf8(a1).len() <= 0xFF {
        assert(emit_log_event_type(SpecLogEventType::ClientDnsLookup(a0, a1)).bytes =~=
            seq![23u8] + enc_u64(a0) + seq![encode_utf8(a1).len() as u8] + encode_utf8(a1));
    } else {
        assert(emit_log_event_type(SpecLogEventType::ClientDnsLookup(a0, a1)).bytes =~=
            seq![23u8] + enc_u64(a0));
    }
}

/// The tag byte 23 followed by the fields of `ClientDnsLookup` in order reads
/// as `ClientDnsLookup` of those fields.
#[verifier::spinoff_prover]
pub proof fn law_read_client_dns_lookup(a0: u64, a1: Seq<char>, s: Seq<u8>, i: int)
    requires
        encode_utf8(a1).len() <= 0xFF,
        holds_at(s, i, seq![23u8] + enc_u64(a0) + seq![encode_utf8(a1).len() as u8]
            + encode_utf8(a1)),
    ensures
        parse_log_event_type(s, i) == Ok::<(SpecLogEventType, int), WireError>(
            (SpecLogEventType::ClientDnsLookup(a0, a1), i + (seq![23u8] + enc_u64(a0)
                + seq![encode_utf8(a1).len() as u8] + encode_utf8(a1)).len()),
        ),
{
    let v = SpecLogEventType::ClientDnsLookup(a0, a1);
    assert(emit_log_event_type(v).bytes =~=
        seq![23u8] + enc_u64(a0) + seq![encode_utf8(a1).len() as u8] + encode_utf8(a1));
    lemma_log_event_type_roundtrip(v, s, i);
    lemma_log_event_type_read_back_identity(v);
}

/// `ClientAttemptingConnect` is written as the tag byte 24, then `a0` as eight
/// bytes, most significant first; `a1` as a socket address.
#[verifier::spinoff_prover]
pub proof fn law_write_client_attempting_connect(a0: u64, a1: SocketAddr)
    ensures
        emit_log_event_type(SpecLogEventType::ClientAttemptingConnect(a0, a1)).ok,
        emit_log_event_type(SpecLogEventType::ClientAttemptingConnect(a0, a1)).bytes ==
            seq![24u8] + enc_u64(a0) + enc_socket_addr(a1),
{
    assert(emit_log_event_type(SpecLogEventType::ClientAttemptingConnect(a0, a1)).bytes =~=
        seq![24u8] + enc_u64(a0) + enc_socket_addr(a1));
}

/// The tag byte 24 followed by the fields of `ClientAttemptingConnect` in order
/// reads as `ClientAttemptingConnect` of those fields.
#[verifier::spinoff_prover]
pub proof fn law_read_client_attempting_connect(a0: u64, a1: SocketAddr, s: Seq<u8>, i: int)
    requires
        holds_at(s, i, seq![24u8] + enc_u64(a0) + enc_socket_addr(a1)),
    ensures
        parse_log_event_type(s, i) == Ok::<(SpecLogEventType, int), WireError>(
            (SpecLogEventType::ClientAttemptingConnect(a0, a1), i + (seq![24u8] + enc_u64(a0)
                + enc_socket_addr(a1)).len()),
        ),
{
    let v = SpecLogEventType::ClientAttemptingConnect(a0, a1);
    assert(emit_log_event_type(v).bytes =~= seq![24u8] + enc_u64(a0) + enc_socket_addr(a1));
    lemma_log_event_type_roundtrip(v, s, i);
    lemma_log_event_type_read_back_identity(v);
}

/// `ClientConnectionAttemptBindFailed` is written as the tag byte 25, then `a0`
/// as eight bytes, most significant first; `a1` as the number of an I/O error
/// kind.
#[verifier::spinoff_prover]
pub proof fn law_write_client_connection_attempt_bind_failed(a0: u64, a1: IoErrorKind)
    ensures
        emit_log_event_type(SpecLogEventType::ClientConnectionAttemptBindFailed(a0, a1)).ok,
        emit_log_event_type(SpecLogEventType::ClientConnectionAttemptBindFailed(a0, a1)).bytes ==
            seq![25u8] + enc_u64(a0) + enc_io_error(a1),
{
    assert(emit_log_event_type(SpecLogEventType::ClientConnectionAttemptBindFailed(a0,
        a1)).bytes =~=
        seq![25u8] + enc_u64(a0) + enc_io_error(a1));
}

/// The tag byte 25 followed by the fields of
/// `ClientConnectionAttemptBindFailed` in order reads as
/// `ClientConnectionAttemptBindFailed` of those fields.
#[verifier::spinoff_prover]
pub proof fn law_read_client_connection_attempt_bind_failed(a0: u64, a1: IoErrorKind, s: Seq<u8>,
    i: int)
    requires
        a1 != IoErrorKind::Unrecognized,
        holds_at(s, i, seq![25u8] + enc_u64(a0) + enc_io_error(a1)),
    ensures
        parse_log_event_type(s, i) == Ok::<(SpecLogEventType, int), WireError>(
            (SpecLogEventType::ClientConnectionAttemptBindFailed(a0, a1), i + (seq![25u8]
                + enc_u64(a0) + enc_io_error(a1)).len()),
        ),
{
    let v = SpecLogEventType::ClientConnectionAttemptBindFailed(a0, a1);
    assert(emit_log_event_type(v).bytes =~= seq![25u8] + enc_u64(a0) + enc_io_error(a1));
    lemma_log_event_type_roundtrip(v, s, i);
    lemma_log_event_type_read_back_identity(v);
}

/// `ClientConnectionAttemptConnectFailed` is written as the tag byte 26, then
/// `a0` as eight bytes, most significant first; `a1` as the number of an I/O
/// error kind.
#[verifier::spinoff_prover]
pub proof fn law_write_client_connection_attempt_connect_failed(a0: u64, a1: IoErrorKind)
    ensures
        emit_log_event_type(SpecLogEventType::ClientConnectionAttemptConnectFailed(a0, a1)).ok,
        emit_log_event_type(SpecLogEventType::ClientConnectionAttemptConnectFailed(a0, a1)).bytes ==
            seq![26u8] + enc_u64(a0) + enc_io_error(a1),
{
    assert(emit_log_event_type(SpecLogEventType::ClientConnectionAttemptConnectFailed(a0,
        a1)).bytes =~=
        seq![26u8] + enc_u64(a0) + enc_io_error(a1));
}

/// The tag byte 26 followed by the fields of
/// `ClientConnectionAttemptConnectFailed` in order reads as
/// `ClientConnectionAttemptConnectFailed` of those fields.
#[verifier::spinoff_prover]
pub proof fn law_read_client_connection_attempt_connect_failed(a0: u64, a1: IoErrorKind,
    s: Seq<u8>, i: int)
    requires
        a1 != IoErrorKind::Unrecognized,
        holds_at(s, i, seq![26u8] + enc_u64(a0) + enc_io_error(a1)),
    ensures
        parse_log_event_type(s, i) == Ok::<(SpecLogEventType, int), WireError>(
            (SpecLogEventType::ClientConnectionAttemptConnectFailed(a0, a1), i + (seq![26u8]
                + enc_u64(a0) + enc_io_error(a1)).len()),
        ),
{
    let v = SpecLogEventType::ClientConnectionAttemptConnectFailed(a0, a1);
    assert(emit_log_event_type(v).bytes =~= seq![26u8] + enc_u64(a0) + enc_io_error(a1));
    lemma_log_event_type_roundtrip(v, s, i);
    lemma_log_event_type_read_back_identity(v);
}

/// `ClientFailedToConnectToDestination` is written as the tag byte 27, then
/// `a0` as eight bytes, most significant first.
#[verifier::spinoff_prover]
pub proof fn law_write_client_failed_to_connect_to_destination(a0: u64)
    ensures
        emit_log_event_type(SpecLogEventType::ClientFailedToConnectToDestination(a0)).ok,
        emit_log_event_type(SpecLogEventType::ClientFailedToConnectToDestination(a0)).bytes ==
            seq![27u8] + enc_u64(a0),
{
    assert(emit_log_event_type(SpecLogEventType::ClientFailedToConnectToDestination(a0)).bytes =~=
        seq![27u8] + enc_u64(a0));
}

/// The tag byte 27 followed by the fields of
/// `ClientFailedToConnectToDestination` in order reads as
/// `ClientFailedToConnectToDestination` of those fields.
#[verifier::spinoff_prover]
pub proof fn law_read_client_failed_to_connect_to_destination(a0: u64, s: Seq<u8>, i: int)
    requires
        holds_at(s, i, seq![27u8] + enc_u64(a0)),
    ensures
        parse_log_event_type(s, i) == Ok::<(SpecLogEventType, int), WireError>(
            (SpecLogEventType::ClientFailedToConnectToDestination(a0), i + (seq![27u8]
                + enc_u64(a0)).len()),
        ),
{
    let v = SpecLogEventType::ClientFailedToConnectToDestination(a0);
    assert(emit_log_event_type(v).bytes =~= seq![27u8] + enc_u64(a0));
    lemma_log_event_type_roundtrip(v, s, i);
    lemma_log_event_type_read_back_identity(v);
}

/// `ClientConnectedToDestination` is written as the tag byte 28, then `a0` as
/// eight bytes, most significant first; `a1` as a socket address.
#[verifier::spinoff_prover]
pub proof fn law_write_client_connected_to_destination(a0: u64, a1: SocketAddr)
    ensures
        emit_log_event_type(SpecLogEventType::ClientConnectedToDestination(a0, a1)).ok,
        emit_log_event_type(SpecLogEventType::ClientConnectedToDestination(a0, a1)).bytes ==
            seq![28u8] + enc_u64(a0) + enc_socket_addr(a1),
{
    assert(emit_log_event_type(SpecLogEventType::ClientConnectedToDestination(a0, a1)).bytes =~=
        seq![28u8] + enc_u64(a0) + enc_socket_addr(a1));
}

/// The tag byte 28 followed by the fields of `ClientConnectedToDestination` in
/// order reads as `ClientConnectedToDestination` of those fields.
#[verifier::spinoff_prover]
pub proof fn law_read_client_connected_to_destination(a0: u64, a1: SocketAddr, s: Seq<u8>, i: int)
    requires
        holds_at(s, i, seq![28u8] + enc_u64(a0) + enc_socket_addr(a1)),
    ensures
        parse_log_event_type(s, i) == Ok::<(SpecLogEventType, int), WireError>(
            (SpecLogEventType::ClientConnectedToDestination(a0, a1), i + (seq![28u8]
                + enc_u64(a0) + enc_socket_addr(a1)).len()),
        ),
{
    let v = SpecLogEventType::ClientConnectedToDestination(a0, a1);
    assert(emit_log_event_type(v).bytes =~= seq![28u8] + enc_u64(a0) + enc_socket_addr(a1));
    lemma_log_event_type_roundtrip(v, s, i);
    lemma_log_event_type_read_back_identity(v);
}

/// `ClientBytesSent` is written as the tag byte 29, then `a0` as eight bytes,
/// most significant first; `a1` as eight bytes, most significant first.
#[verifier::spinoff_prover]
pub proof fn law_write_client_bytes_sent(a0: u64, a1: u64)
    ensures
        emit_log_event_type(SpecLogEventType::ClientBytesSent(a0, a1)).ok,
        emit_log_event_type(SpecLogEventType::ClientBytesSent(a0, a1)).bytes ==
            seq![29u8] + enc_u64(a0) + enc_u64(a1),
{
    assert(emit_log_event_type(SpecLogEventType::ClientBytesSent(a0, a1)).bytes =~=
        seq![29u8] + enc_u64(a0) + enc_u64(a1));
}

/// The tag byte 29 followed by the fields of `ClientBytesSent` in order reads
/// as `ClientBytesSent` of those fields.
#[verifier::spinoff_prover]
pub proof fn law_read_client_bytes_sent(a0: u64, a1: u64, s: Seq<u8>, i: int)
    requires
        holds_at(s, i, seq![29u8] + enc_u64(a0) + enc_u64(a1)),
    ensures
        parse_log_event_type(s, i) == Ok::<(SpecLogEventType, int), WireError>(
            (SpecLogEventType::ClientBytesSent(a0, a1), i + (seq![29u8] + enc_u64(a0)
                + enc_u64(a1)).len()),
        ),
{
    let v = SpecLogEventType::ClientBytesSent(a0, a1);
    assert(emit_log_event_type(v).bytes =~= seq![29u8] + enc_u64(a0) + enc_u64(a1));
    lemma_log_event_type_roundtrip(v, s, i);
    lemma_log_event_type_read_back_identity(v);
}

/// `ClientBytesReceived` is written as the tag byte 30, then `a0` as eight
/// bytes, most significant first; `a1` as eight bytes, most significant first.
#[verifier::spinoff_prover]
pub proof fn law_write_client_bytes_received(a0: u64, a1: u64)
    ensures
        emit_log_event_type(SpecLogEventType::ClientBytesReceived(a0, a1)).ok,
        emit_log_event_type(SpecLogEventType::ClientBytesReceived(a0, a1)).bytes ==
            seq![30u8] + enc_u64(a0) + enc_u64(a1),
{
    assert(emit_log_event_type(SpecLogEventType::ClientBytesReceived(a0, a1)).bytes =~=
        seq![30u8] + enc_u64(a0) + enc_u64(a1));
}

/// The tag byte 30 followed by the fields of `ClientBytesReceived` in order
/// reads as `ClientBytesReceived` of those fields.
#[verifier::spinoff_prover]
pub proof fn law_read_client_bytes_received(a0: u64, a1: u64, s: Seq<u8>, i: int)
    requires
        holds_at(s, i, seq![30u8] + enc_u64(a0) + enc_u64(a1)),
    ensures
        parse_log_event_type(s, i) == Ok::<(SpecLogEventType, int), WireError>(
            (SpecLogEventType::ClientBytesReceived(a0, a1), i + (seq![30u8] + enc_u64(a0)
                + enc_u64(a1)).len()),
        ),
{
    let v = SpecLogEventType::ClientBytesReceived(a0, a1);
    assert(emit_log_event_type(v).bytes =~= seq![30u8] + enc_u64(a0) + enc_u64(a1));
    lemma_log_event_type_roundtrip(v, s, i);
    lemma_log_event_type_read_back_identity(v);
}

/// `ClientSourceShutdown` is written as the tag byte 31, then `a0` as eight
/// bytes, most significant first.
#[verifier::spinoff_prover]
pub proof fn law_write_client_source_shutdown(a0: u64)
    ensures
        emit_log_event_type(SpecLogEventType::ClientSourceShutdown(a0)).ok,
        emit_log_event_type(SpecLogEventType::ClientSourceShutdown(a0)).bytes ==
            seq![31u8] + enc_u64(a0),
{
    assert(emit_log_event_type(SpecLogEventType::ClientSourceShutdown(a0)).bytes =~=
        seq![31u8] + enc_u64(a0));
}

/// The tag byte 31 followed by the fields of `ClientSourceShutdown` in order
/// reads as `ClientSourceShutdown` of those fields.
#[verifier::spinoff_prover]
pub proof fn law_read_client_source_shutdown(a0: u64, s: Seq<u8>, i: int)
    requires
        holds_at(s, i, seq![31u8] + enc_u64(a0)),
    ensures
        parse_log_event_type(s, i) == Ok::<(SpecLogEventType, int), WireError>(
            (SpecLogEventType::ClientSourceShutdown(a0), i + (seq![31u8] + enc_u64(a0)).len()),
        ),
{
    let v = SpecLogEventType::ClientSourceShutdown(a0);
    assert(emit_log_event_type(v).bytes =~= seq![31u8] + enc_u64(a0));
    lemma_log_event_type_roundtrip(v, s, i);
    lemma_log_event_type_read_back_identity(v);
}

/// `ClientDestinationShutdown` is written as the tag byte 32, then `a0` as
/// eight bytes, most significant first.
#[verifier::spinoff_prover]
pub proof fn law_write_client_destination_shutdown(a0: u64)
    ensures
        emit_log_event_type(SpecLogEventType::ClientDestinationShutdown(a0)).ok,
        emit_log_event_type(SpecLogEventType::ClientDestinationShutdown(a0)).bytes ==
            seq![32u8] + enc_u64(a0),
{
    assert(emit_log_event_type(SpecLogEventType::ClientDestinationShutdown(a0)).bytes =~=
        seq![32u8] + enc_u64(a0));
}

/// The tag byte 32 followed by the fields of `ClientDestinationShutdown` in
/// order reads as `ClientDestinationShutdown` of those fields.
#[verifier::spinoff_prover]
pub proof fn law_read_client_destination_shutdown(a0: u64, s: Seq<u8>, i: int)
    requires
        holds_at(s, i, seq![32u8] + enc_u64(a0)),
    ensures
        parse_log_event_type(s, i) == Ok::<(SpecLogEventType, int), WireError>(
            (SpecLogEventType::ClientDestinationShutdown(a0), i + (seq![32u8] + enc_u64(a0)).len()),
        ),
{
    let v = SpecLogEventType::ClientDestinationShutdown(a0);
    assert(emit_log_event_type(v).bytes =~= seq![32u8] + enc_u64(a0));
    lemma_log_event_type_roundtrip(v, s, i);
    lemma_log_event_type_read_back_identity(v);
}

/// `ClientConnectionFinished` is written as the tag byte 33, then `a0` as eight
/// bytes, most significant first; `a1` as eight bytes, most significant first;
/// `a2` as eight bytes, most significant first; `a3` as success or an I/O error
/// kind.
#[verifier::spinoff_prover]
pub proof fn law_write_client_connection_finished(a0: u64, a1: u64, a2: u64, a3: Result<(),
    IoErrorKind>)
    ensures
        emit_log_event_type(SpecLogEventType::ClientConnectionFinished(a0, a1, a2, a3)).ok,
        emit_log_event_type(SpecLogEventType::ClientConnectionFinished(a0, a1, a2, a3)).bytes ==
            seq![33u8] + enc_u64(a0) + enc_u64(a1) + enc_u64(a2) + enc_unit_result(a3),
{
    assert(emit_log_event_type(SpecLogEventType::ClientConnectionFinished(a0, a1, a2, a3)).bytes =~=
        seq![33u8] + enc_u64(a0) + enc_u64(a1) + enc_u64(a2) + enc_unit_result(a3));
}

/// The tag byte 33 followed by the fields of `ClientConnectionFinished` in
/// order reads as `ClientConnectionFinished` of those fields.
#[verifier::spinoff_prover]
pub proof fn law_read_client_connection_finished(a0: u64, a1: u64, a2: u64, a3: Result<(),
    IoErrorKind>, s: Seq<u8>, i: int)
    requires
        (a3 matches Err(k) ==> k != IoErrorKind::Unrecognized),
        holds_at(s, i, seq![33u8] + enc_u64(a0) + enc_u64(a1) + enc_u64(a2) + enc_unit_result(a3)),
    ensures
        parse_log_event_type(s, i) == Ok::<(SpecLogEventType, int), WireError>(
            (SpecLogEventType::ClientConnectionFinished(a0, a1, a2, a3), i + (seq![33u8]
                + enc_u64(a0) + enc_u64(a1) + enc_u64(a2) + enc_unit_result(a3)).len()),
        ),
{
    let v = SpecLogEventType::ClientConnectionFinished(a0, a1, a2, a3);
    assert(emit_log_event_type(v).bytes =~=
        seq![33u8] + enc_u64(a0) + enc_u64(a1) + enc_u64(a2) + enc_unit_result(a3));
    lemma_log_event_type_roundtrip(v, s, i);
    lemma_log_event_type_read_back_identity(v);
}

/// Reading `NewListeningSocket` stops at the first of its fields that cannot be
/// read,
/// with the error of that field.
#[verifier::spinoff_prover]
#[verifier::rlimit(50)]
pub proof fn law_read_new_listening_socket_field_error(s: Seq<u8>, i: int)
    ensures
        holds_at(s, i, seq![1u8]) ==> (parse_socket_addr(s, i + (seq![1u8]).len()) matches Err(x)
            ==> parse_log_event_type(s, i) == Err::<(SpecLogEventType, int), WireError>(x)),
{
    if holds_at(s, i, seq![1u8]) {
        lemma_u8_roundtrip(1, s, i);
    }
}

/// Reading `FailedBindListeningSocket` stops at the first of its fields that
/// cannot be read,
/// with the error of that field.
#[verifier::spinoff_prover]
#[verifier::rlimit(50)]
pub proof fn law_read_failed_bind_listening_socket_field_error(a0: SocketAddr, s: Seq<u8>, i: int)
    ensures
        holds_at(s, i, seq![2u8]) ==> (parse_socket_addr(s, i + (seq![2u8]).len()) matches Err(x)
            ==> parse_log_event_type(s, i) == Err::<(SpecLogEventType, int), WireError>(x)),
        holds_at(s, i, seq![2u8] + enc_socket_addr(a0)) ==>
            (parse_io_error(s, i + (seq![2u8] + enc_socket_addr(a0)).len()) matches Err(x)
            ==> parse_log_event_type(s, i) == Err::<(SpecLogEventType, int), WireError>(x)),
{
    if holds_at(s, i, seq![2u8]) {
        lemma_u8_roundtrip(2, s, i);
    }
    if holds_at(s, i, seq![2u8] + enc_socket_addr(a0)) {
        lemma_holds_split(s, i, seq![2u8], enc_socket_addr(a0));
        lemma_u8_roundtrip(2, s, i);
        lemma_socket_addr_roundtrip(a0, s, i + (seq![2u8]).len());
    }
}

/// Reading `RemovedListeningSocket` stops at the first of its fields that
/// cannot be read,
/// with the error of that field.
#[verifier::spinoff_prover]
#[verifier::rlimit(50)]
pub proof fn law_read_removed_listening_socket_field_error(s: Seq<u8>, i: int)
    ensures
        holds_at(s, i, seq![4u8]) ==> (parse_socket_addr(s, i + (seq![4u8]).len()) matches Err(x)
            ==> parse_log_event_type(s, i) == Err::<(SpecLogEventType, int), WireError>(x)),
{
    if holds_at(s, i, seq![4u8]) {
        lemma_u8_roundtrip(4, s, i);
    }
}

/// Reading `LoadingUsersFromFile` stops at the first of its fields that cannot
/// be read,
/// with the error of that field.
#[verifier::spinoff_prover]
#[verifier::rlimit(50)]
pub proof fn law_read_loading_users_from_file_field_error(s: Seq<u8>, i: int)
    ensures
        holds_at(s, i, seq![5u8]) ==> (parse_string(s, i + (seq![5u8]).len()) matches Err(x)
            ==> parse_log_event_type(s, i) == Err::<(SpecLogEventType, int), WireError>(x)),
{
    if holds_at(s, i, seq![5u8]) {
        lemma_u8_roundtrip(5, s, i);
    }
}

/// Reading `UsersLoadedFromFile` stops at the first of its fields that cannot
/// be read,
/// with the error of that field.
#[verifier::spinoff_prover]
#[verifier::rlimit(50)]
pub proof fn law_read_users_loaded_from_file_field_error(a0: Seq<char>, s: Seq<u8>, i: int)
    requires
        encode_utf8(a0).len() <= 0xFFFF,
    ensures
        holds_at(s, i, seq![6u8]) ==> (parse_string(s, i + (seq![6u8]).len()) matches Err(x)
            ==> parse_log_event_type(s, i) == Err::<(SpecLogEventType, int), WireError>(x)),
        holds_at(s, i, seq![6u8] + (enc_u16(encode_utf8(a0).len() as u16) + encode_utf8(a0))) ==>
            (parse_users_result(s, i + (seq![6u8] + (enc_u16(encode_utf8(a0).len() as u16)
                + encode_utf8(a0))).len()) matches Err(x)
            ==> parse_log_event_type(s, i) == Err::<(SpecLogEventType, int), WireError>(x)),
{
    if holds_at(s, i, seq![6u8]) {
        lemma_u8_roundtrip(6, s, i);
    }
    if holds_at(s, i, seq![6u8] + (enc_u16(encode_utf8(a0).len() as u16) + encode_utf8(a0))) {
        lemma_holds_split(s, i, seq![6u8], (enc_u16(encode_utf8(a0).len() as u16)
            + encode_utf8(a0)));
        lemma_u8_roundtrip(6, s, i);
        lemma_str_roundtrip(a0, s, i + (seq![6u8]).len());
    }
}

/// Reading `SavingUsersToFile` stops at the first of its fields that cannot be
/// read,
/// with the error of that field.
#[verifier::spinoff_prover]
#[verifier::rlimit(50)]
pub proof fn law_read_saving_users_to_file_field_error(s: Seq<u8>, i: int)
    ensures
        holds_at(s, i, seq![8u8]) ==> (parse_string(s, i + (seq![8u8]).len()) matches Err(x)
            ==> parse_log_event_type(s, i) == Err::<(SpecLogEventType, int), WireError>(x)),
{
    if holds_at(s, i, seq![8u8]) {
        lemma_u8_roundtrip(8, s, i);
    }
}

/// Reading `UsersSavedToFile` stops at the first of its fields that cannot be
/// read,
/// with the error of that field.
#[verifier::spinoff_prover]
#[verifier::rlimit(50)]
pub proof fn law_read_users_saved_to_file_field_error(a0: Seq<char>, s: Seq<u8>, i: int)
    requires
        encode_utf8(a0).len() <= 0xFFFF,
    ensures
        holds_at(s, i, seq![9u8]) ==> (parse_string(s, i + (seq![9u8]).len()) matches Err(x)
            ==> parse_log_event_type(s, i) == Err::<(SpecLogEventType, int), WireError>(x)),
        holds_at(s, i, seq![9u8] + (enc_u16(encode_utf8(a0).len() as u16) + encode_utf8(a0))) ==>
            (parse_io_result(s, i + (seq![9u8] + (enc_u16(encode_utf8(a0).len() as u16)
                + encode_utf8(a0))).len()) matches Err(x)
            ==> parse_log_event_type(s, i) == Err::<(SpecLogEventType, int), WireError>(x)),
{
    if holds_at(s, i, seq![9u8]) {
        lemma_u8_roundtrip(9, s, i);
    }
    if holds_at(s, i, seq![9u8] + (enc_u16(encode_utf8(a0).len() as u16) + encode_utf8(a0))) {
        lemma_holds_split(s, i, seq![9u8], (enc_u16(encode_utf8(a0).len() as u16)
            + encode_utf8(a0)));
        lemma_u8_roundtrip(9, s, i);
        lemma_str_roundtrip(a0, s, i + (seq![9u8]).len());
    }
}

/// Reading `UserRegistered` stops at the first of its fields that cannot be
/// read,
/// with the error of that field.
#[verifier::spinoff_prover]
#[verifier::rlimit(50)]
pub proof fn law_read_user_registered_field_error(a0: Seq<char>, s: Seq<u8>, i: int)
    requires
        encode_utf8(a0).len() <= 0xFF,
    ensures
        holds_at(s, i, seq![10u8]) ==> (parse_small_string(s, i + (seq![10u8]).len()) matches Err(x)
            ==> parse_log_event_type(s, i) == Err::<(SpecLogEventType, int), WireError>(x)),
        holds_at(s, i, seq![10u8] + (seq![encode_utf8(a0).len() as u8] + encode_utf8(a0))) ==>
            (parse_user_role(s, i + (seq![10u8] + (seq![encode_utf8(a0).len() as u8]
                + encode_utf8(a0))).len()) matches Err(x)
            ==> parse_log_event_type(s, i) == Err::<(SpecLogEventType, int), WireError>(x)),
{
    if holds_at(s, i, seq![10u8]) {
        lemma_u8_roundtrip(10, s, i);
    }
    if holds_at(s, i, seq![10u8] + (seq![encode_utf8(a0).len() as u8] + encode_utf8(a0))) {
        lemma_holds_split(s, i, seq![10u8], (seq![encode_utf8(a0).len() as u8] + encode_utf8(a0)));
        lemma_u8_roundtrip(10, s, i);
        lemma_small_str_roundtrip(a0, s, i + (seq![10u8]).len());
    }
}

/// Reading `UserReplacedByArgs` stops at the first of its fields that cannot be
/// read,
/// with the error of that field.
#[verifier::spinoff_prover]
#[verifier::rlimit(50)]
pub proof fn law_read_user_replaced_by_args_field_error(a0: Seq<char>, s: Seq<u8>, i: int)
    requires
        encode_utf8(a0).len() <= 0xFF,
    ensures
        holds_at(s, i, seq![11u8]) ==> (parse_small_string(s, i + (seq![11u8]).len()) matches Err(x)
            ==> parse_log_event_type(s, i) == Err::<(SpecLogEventType, int), WireError>(x)),
        holds_at(s, i, seq![11u8] + (seq![encode_utf8(a0).len() as u8] + encode_utf8(a0))) ==>
            (parse_user_role(s, i + (seq![11u8] + (seq![encode_utf8(a0).len() as u8]
                + encode_utf8(a0))).len()) matches Err(x)
            ==> parse_log_event_type(s, i) == Err::<(SpecLogEventType, int), WireError>(x)),
{
    if holds_at(s, i, seq![11u8]) {
        lemma_u8_roundtrip(11, s, i);
    }
    if holds_at(s, i, seq![11u8] + (seq![encode_utf8(a0).len() as u8] + encode_utf8(a0))) {
        lemma_holds_split(s, i, seq![11u8], (seq![encode_utf8(a0).len() as u8] + encode_utf8(a0)));
        lemma_u8_roundtrip(11, s, i);
        lemma_small_str_roundtrip(a0, s, i + (seq![11u8]).len());
    }
}

/// Reading `UserUpdated` stops at the first of its fields that cannot be read,
/// with the error of that field.
#[verifier::spinoff_prover]
#[verifier::rlimit(50)]
pub proof fn law_read_user_updated_field_error(a0: Seq<char>, a1: UserRole, s: Seq<u8>, i: int)
    requires
        encode_utf8(a0).len() <= 0xFF,
    ensures
        holds_at(s, i, seq![12u8]) ==> (parse_small_string(s, i + (seq![12u8]).len()) matches Err(x)
            ==> parse_log_event_type(s, i) == Err::<(SpecLogEventType, int), WireError>(x)),
        holds_at(s, i, seq![12u8] + (seq![encode_utf8(a0).len() as u8] + encode_utf8(a0))) ==>
            (parse_user_role(s, i + (seq![12u8] + (seq![encode_utf8(a0).len() as u8]
                + encode_utf8(a0))).len()) matches Err(x)
            ==> parse_log_event_type(s, i) == Err::<(SpecLogEventType, int), WireError>(x)),
        holds_at(s, i, seq![12u8] + (seq![encode_utf8(a0).len() as u8] + encode_utf8(a0))
            + enc_user_role(a1)) ==>
            (parse_bool(s, i + (seq![12u8] + (seq![encode_utf8(a0).len() as u8]
                + encode_utf8(a0)) + enc_user_role(a1)).len()) matches Err(x)
            ==> parse_log_event_type(s, i) == Err::<(SpecLogEventType, int), WireError>(x)),
{
    if holds_at(s, i, seq![12u8]) {
        lemma_u8_roundtrip(12, s, i);
    }
    if holds_at(s, i, seq![12u8] + (seq![encode_utf8(a0).len() as u8] + encode_utf8(a0))) {
        lemma_holds_split(s, i, seq![12u8], (seq![encode_utf8(a0).len() as u8] + encode_utf8(a0)));
        lemma_u8_roundtrip(12, s, i);
        lemma_small_str_roundtrip(a0, s, i + (seq![12u8]).len());
    }
    if holds_at(s, i, seq![12u8] + (seq![encode_utf8(a0).len() as u8] + encode_utf8(a0))
        + enc_user_role(a1)) {
        lemma_holds_split(s, i, seq![12u8] + (seq![encode_utf8(a0).len() as u8] + encode_utf8(a0)),
            enc_user_role(a1));
        lemma_holds_split(s, i, seq![12u8], (seq![encode_utf8(a0).len() as u8] + encode_utf8(a0)));
        lemma_u8_roundtrip(12, s, i);
        lemma_small_str_roundtrip(a0, s, i + (seq![12u8]).len());
        lemma_user_role_roundtrip(a1, s, i + (seq![12u8] + (seq![encode_utf8(a0).len() as u8]
            + encode_utf8(a0))).len());
    }
}

/// Reading `UserDeleted` stops at the first of its fields that cannot be read,
/// with the error of that field.
#[verifier::spinoff_prover]
#[verifier::rlimit(50)]
pub proof fn law_read_user_deleted_field_error(a0: Seq<char>, s: Seq<u8>, i: int)
    requires
        encode_utf8(a0).len() <= 0xFF,
    ensures
        holds_at(s, i, seq![13u8]) ==> (parse_small_string(s, i + (seq![13u8]).len()) matches Err(x)
            ==> parse_log_event_type(s, i) == Err::<(SpecLogEventType, int), WireError>(x)),
        holds_at(s, i, seq![13u8] + (seq![encode_utf8(a0).len() as u8] + encode_utf8(a0))) ==>
            (parse_user_role(s, i + (seq![13u8] + (seq![encode_utf8(a0).len() as u8]
                + encode_utf8(a0))).len()) matches Err(x)
            ==> parse_log_event_type(s, i) == Err::<(SpecLogEventType, int), WireError>(x)),
{
    if holds_at(s, i, seq![13u8]) {
        lemma_u8_roundtrip(13, s, i);
    }
    if holds_at(s, i, seq![13u8] + (seq![encode_utf8(a0).len() as u8] + encode_utf8(a0))) {
        lemma_holds_split(s, i, seq![13u8], (seq![encode_utf8(a0).len() as u8] + encode_utf8(a0)));
        lemma_u8_roundtrip(13, s, i);
        lemma_small_str_roundtrip(a0, s, i + (seq![13u8]).len());
    }
}

/// Reading `NewClientConnectionAccepted` stops at the first of its fields that
/// cannot be read,
/// with the error of that field.
#[verifier::spinoff_prover]
#[verifier::rlimit(50)]
pub proof fn law_read_new_client_connection_accepted_field_error(a0: u64, s: Seq<u8>, i: int)
    ensures
        holds_at(s, i, seq![14u8]) ==> (parse_u64(s, i + (seq![14u8]).len()) matches Err(x)
            ==> parse_log_event_type(s, i) == Err::<(SpecLogEventType, int), WireError>(x)),
        holds_at(s, i, seq![14u8] + enc_u64(a0)) ==>
            (parse_socket_addr(s, i + (seq![14u8] + enc_u64(a0)).len()) matches Err(x)
            ==> parse_log_event_type(s, i) == Err::<(SpecLogEventType, int), WireError>(x)),
{
    if holds_at(s, i, seq![14u8]) {
        lemma_u8_roundtrip(14, s, i);
    }
    if holds_at(s, i, seq![14u8] + enc_u64(a0)) {
        lemma_holds_split(s, i, seq![14u8], enc_u64(a0));
        lemma_u8_roundtrip(14, s, i);
        lemma_u64_roundtrip(a0, s, i + (seq![14u8]).len());
    }
}

/// Reading `ClientConnectionAcceptFailed` stops at the first of its fields that
/// cannot be read,
/// with the error of that field.
#[verifier::spinoff_prover]
#[verifier::rlimit(50)]
pub proof fn law_read_client_connection_accept_failed_field_error(a0: Option<SocketAddr>,
    s: Seq<u8>, i: int)
    ensures
        holds_at(s, i, seq![15u8]) ==>
            (parse_opt_socket_addr(s, i + (seq![15u8]).len()) matches Err(x)
            ==> parse_log_event_type(s, i) == Err::<(SpecLogEventType, int), WireError>(x)),
        holds_at(s, i, seq![15u8] + enc_opt_socket_addr(a0)) ==>
            (parse_io_error(s, i + (seq![15u8] + enc_opt_socket_addr(a0)).len()) matches Err(x)
            ==> parse_log_event_type(s, i) == Err::<(SpecLogEventType, int), WireError>(x)),
{
    if holds_at(s, i, seq![15u8]) {
        lemma_u8_roundtrip(15, s, i);
    }
    if holds_at(s, i, seq![15u8] + enc_opt_socket_addr(a0)) {
        lemma_holds_split(s, i, seq![15u8], enc_opt_socket_addr(a0));
        lemma_u8_roundtrip(15, s, i);
        lemma_opt_socket_addr_roundtrip(a0, s, i + (seq![15u8]).len());
    }
}

/// Reading `ClientRequestedUnsupportedVersion` stops at the first of its fields
/// that cannot be read,
/// with the error of that field.
#[verifier::spinoff_prover]
#[verifier::rlimit(50)]
pub proof fn law_read_client_requested_unsupported_version_field_error(a0: u64, s: Seq<u8>, i: int)
    ensures
        holds_at(s, i, seq![16u8]) ==> (parse_u64(s, i + (seq![16u8]).len()) matches Err(x)
            ==> parse_log_event_type(s, i) == Err::<(SpecLogEventType, int), WireError>(x)),
        holds_at(s, i, seq![16u8] + enc_u64(a0)) ==>
            (parse_u8(s, i + (seq![16u8] + enc_u64(a0)).len()) matches Err(x)
            ==> parse_log_event_type(s, i) == Err::<(SpecLogEventType, int), WireError>(x)),
{
    if holds_at(s, i, seq![16u8]) {
        lemma_u8_roundtrip(16, s, i);
    }
    if holds_at(s, i, seq![16u8] + enc_u64(a0)) {
        lemma_holds_split(s, i, seq![16u8], enc_u64(a0));
        lemma_u8_roundtrip(16, s, i);
        lemma_u64_roundtrip(a0, s, i + (seq![16u8]).len());
    }
}

/// Reading `ClientRequestedUnsupportedCommand` stops at the first of its fields
/// that cannot be read,
/// with the error of that field.
#[verifier::spinoff_prover]
#[verifier::rlimit(50)]
pub proof fn law_read_client_requested_unsupported_command_field_error(a0: u64, s: Seq<u8>, i: int)
    ensures
        holds_at(s, i, seq![17u8]) ==> (parse_u64(s, i + (seq![17u8]).len()) matches Err(x)
            ==> parse_log_event_type(s, i) == Err::<(SpecLogEventType, int), WireError>(x)),
        holds_at(s, i, seq![17u8] + enc_u64(a0)) ==>
            (parse_u8(s, i + (seq![17u8] + enc_u64(a0)).len()) matches Err(x)
            ==> parse_log_event_type(s, i) == Err::<(SpecLogEventType, int), WireError>(x)),
{
    if holds_at(s, i, seq![17u8]) {
        lemma_u8_roundtrip(17, s, i);
    }
    if holds_at(s, i, seq![17u8] + enc_u64(a0)) {
        lemma_holds_split(s, i, seq![17u8], enc_u64(a0));
        lemma_u8_roundtrip(17, s, i);
        lemma_u64_roundtrip(a0, s, i + (seq![17u8]).len());
    }
}

/// Reading `ClientRequestedUnsupportedAtyp` stops at the first of its fields
/// that cannot be read,
/// with the error of that field.
#[verifier::spinoff_prover]
#[verifier::rlimit(50)]
pub proof fn law_read_client_requested_unsupported_atyp_field_error(a0: u64, s: Seq<u8>, i: int)
    ensures
        holds_at(s, i, seq![18u8]) ==> (parse_u64(s, i + (seq![18u8]).len()) matches Err(x)
            ==> parse_log_event_type(s, i) == Err::<(SpecLogEventType, int), WireError>(x)),
        holds_at(s, i, seq![18u8] + enc_u64(a0)) ==>
            (parse_u8(s, i + (seq![18u8] + enc_u64(a0)).len()) matches Err(x)
            ==> parse_log_event_type(s, i) == Err::<(SpecLogEventType, int), WireError>(x)),
{
    if holds_at(s, i, seq![18u8]) {
        lemma_u8_roundtrip(18, s, i);
    }
    if holds_at(s, i, seq![18u8] + enc_u64(a0)) {
        lemma_holds_split(s, i, seq![18u8], enc_u64(a0));
        lemma_u8_roundtrip(18, s, i);
        lemma_u64_roundtrip(a0, s, i + (seq![18u8]).len());
    }
}

/// Reading `ClientSelectedAuthMethod` stops at the first of its fields that
/// cannot be read,
/// with the error of that field.
#[verifier::spinoff_prover]
#[verifier::rlimit(50)]
pub proof fn law_read_client_selected_auth_method_field_error(a0: u64, s: Seq<u8>, i: int)
    ensures
        holds_at(s, i, seq![19u8]) ==> (parse_u64(s, i + (seq![19u8]).len()) matches Err(x)
            ==> parse_log_event_type(s, i) == Err::<(SpecLogEventType, int), WireError>(x)),
        holds_at(s, i, seq![19u8] + enc_u64(a0)) ==>
            (parse_auth_method(s, i + (seq![19u8] + enc_u64(a0)).len()) matches Err(x)
            ==> parse_log_event_type(s, i) == Err::<(SpecLogEventType, int), WireError>(x)),
{
    if holds_at(s, i, seq![19u8]) {
        lemma_u8_roundtrip(19, s, i);
    }
    if holds_at(s, i, seq![19u8] + enc_u64(a0)) {
        lemma_holds_split(s, i, seq![19u8], enc_u64(a0));
        lemma_u8_roundtrip(19, s, i);
        lemma_u64_roundtrip(a0, s, i + (seq![19u8]).len());
    }
}

/// Reading `ClientRequestedUnsupportedUserpassVersion` stops at the first of
/// its fields that cannot be read,
/// with the error of that field.
#[verifier::spinoff_prover]
#[verifier::rlimit(50)]
pub proof fn law_read_client_requested_unsupported_userpass_version_field_error(a0: u64,
    s: Seq<u8>, i: int)
    ensures
        holds_at(s, i, seq![20u8]) ==> (parse_u64(s, i + (seq![20u8]).len()) matches Err(x)
            ==> parse_log_event_type(s, i) == Err::<(SpecLogEventType, int), WireError>(x)),
        holds_at(s, i, seq![20u8] + enc_u64(a0)) ==>
            (parse_u8(s, i + (seq![20u8] + enc_u64(a0)).len()) matches Err(x)
            ==> parse_log_event_type(s, i) == Err::<(SpecLogEventType, int), WireError>(x)),
{
    if holds_at(s, i, seq![20u8]) {
        lemma_u8_roundtrip(20, s, i);
    }
    if holds_at(s, i, seq![20u8] + enc_u64(a0)) {
        lemma_holds_split(s, i, seq![20u8], enc_u64(a0));
        lemma_u8_roundtrip(20, s, i);
        lemma_u64_roundtrip(a0, s, i + (seq![20u8]).len());
    }
}

/// Reading `ClientAuthenticatedWithUserpass` stops at the first of its fields
/// that cannot be read,
/// with the error of that field.
#[verifier::spinoff_prover]
#[verifier::rlimit(50)]
pub proof fn law_read_client_authenticated_with_userpass_field_error(a0: u64, a1: Seq<char>,
    s: Seq<u8>, i: int)
    requires
        encode_utf8(a1).len() <= 0xFFFF,
    ensures
        holds_at(s, i, seq![21u8]) ==> (parse_u64(s, i + (seq![21u8]).len()) matches Err(x)
            ==> parse_log_event_type(s, i) == Err::<(SpecLogEventType, int), WireError>(x)),
        holds_at(s, i, seq![21u8] + enc_u64(a0)) ==>
            (parse_string(s, i + (seq![21u8] + enc_u64(a0)).len()) matches Err(x)
            ==> parse_log_event_type(s, i) == Err::<(SpecLogEventType, int), WireError>(x)),
        holds_at(s, i, seq![21u8] + enc_u64(a0) + (enc_u16(encode_utf8(a1).len() as u16)
            + encode_utf8(a1))) ==>
            (parse_bool(s, i + (seq![21u8] + enc_u64(a0) + (enc_u16(encode_utf8(a1).len() as u16)
                + encode_utf8(a1))).len()) matches Err(x)
            ==> parse_log_event_type(s, i) == Err::<(SpecLogEventType, int), WireError>(x)),
{
    if holds_at(s, i, seq![21u8]) {
        lemma_u8_roundtrip(21, s, i);
    }
    if holds_at(s, i, seq![21u8] + enc_u64(a0)) {
        lemma_holds_split(s, i, seq![21u8], enc_u64(a0));
        lemma_u8_roundtrip(21, s, i);
        lemma_u64_roundtrip(a0, s, i + (seq![21u8]).len());
    }
    if holds_at(s, i, seq![21u8] + enc_u64(a0) + (enc_u16(encode_utf8(a1).len() as u16)
        + encode_utf8(a1))) {
        lemma_holds_split(s, i, seq![21u8] + enc_u64(a0), (enc_u16(encode_utf8(a1).len() as u16)
            + encode_utf8(a1)));
        lemma_holds_split(s, i, seq![21u8], enc_u64(a0));
        lemma_u8_roundtrip(21, s, i);
        lemma_u64_roundtrip(a0, s, i + (seq![21u8]).len());
        lemma_str_roundtrip(a1, s, i + (seq![21u8] + enc_u64(a0)).len());
    }
}

/// Reading `ClientSocksRequest` stops at the first of its fields that cannot be
/// read,
/// with the error of that field.
#[verifier::spinoff_prover]
#[verifier::rlimit(50)]
pub proof fn law_read_client_socks_request_field_error(a0: u64, s: Seq<u8>, i: int)
    ensures
        holds_at(s, i, seq![22u8]) ==> (parse_u64(s, i + (seq![22u8]).len()) matches Err(x)
            ==> parse_log_event_type(s, i) == Err::<(SpecLogEventType, int), WireError>(x)),
        holds_at(s, i, seq![22u8] + enc_u64(a0)) ==>
            (parse_socks_request(s, i + (seq![22u8] + enc_u64(a0)).len()) matches Err(x)
            ==> parse_log_event_type(s, i) == Err::<(SpecLogEventType, int), WireError>(x)),
{
    if holds_at(s, i, seq![22u8]) {
        lemma_u8_roundtrip(22, s, i);
    }
    if holds_at(s, i, seq![22u8] + enc_u64(a0)) {
        lemma_holds_split(s, i, seq![22u8], enc_u64(a0));
        lemma_u8_roundtrip(22, s, i);
        lemma_u64_roundtrip(a0, s, i + (seq![22u8]).len());
    }
}

/// Reading `ClientDnsLookup` stops at the first of its fields that cannot be
/// read,
/// with the error of that field.
#[verifier::spinoff_prover]
#[verifier::rlimit(50)]
pub proof fn law_read_client_dns_lookup_field_error(a0: u64, s: Seq<u8>, i: int)
    ensures
        holds_at(s, i, seq![23u8]) ==> (parse_u64(s, i + (seq![23u8]).len()) matches Err(x)
            ==> parse_log_event_type(s, i) == Err::<(SpecLogEventType, int), WireError>(x)),
        holds_at(s, i, seq![23u8] + enc_u64(a0)) ==>
            (parse_small_string(s, i + (seq![23u8] + enc_u64(a0)).len()) matches Err(x)
            ==> parse_log_event_type(s, i) == Err::<(SpecLogEventType, int), WireError>(x)),
{
    if holds_at(s, i, seq![23u8]) {
        lemma_u8_roundtrip(23, s, i);
    }
    if holds_at(s, i, seq![23u8] + enc_u64(a0)) {
        lemma_holds_split(s, i, seq![23u8], enc_u64(a0));
        lemma_u8_roundtrip(23, s, i);
        lemma_u64_roundtrip(a0, s, i + (seq![23u8]).len());
    }
}

/// Reading `ClientAttemptingConnect` stops at the first of its fields that
/// cannot be read,
/// with the error of that field.
#[verifier::spinoff_prover]
#[verifier::rlimit(50)]
pub proof fn law_read_client_attempting_connect_field_error(a0: u64, s: Seq<u8>, i: int)
    ensures
        holds_at(s, i, seq![24u8]) ==> (parse_u64(s, i + (seq![24u8]).len()) matches Err(x)
            ==> parse_log_event_type(s, i) == Err::<(SpecLogEventType, int), WireError>(x)),
        holds_at(s, i, seq![24u8] + enc_u64(a0)) ==>
            (parse_socket_addr(s, i + (seq![24u8] + enc_u64(a0)).len()) matches Err(x)
            ==> parse_log_event_type(s, i) == Err::<(SpecLogEventType, int), WireError>(x)),
{
    if holds_at(s, i, seq![24u8]) {
        lemma_u8_roundtrip(24, s, i);
    }
    if holds_at(s, i, seq![24u8] + enc_u64(a0)) {
        lemma_holds_split(s, i, seq![24u8], enc_u64(a0));
        lemma_u8_roundtrip(24, s, i);
        lemma_u64_roundtrip(a0, s, i + (seq![24u8]).len());
    }
}

/// Reading `ClientConnectionAttemptBindFailed` stops at the first of its fields
/// that cannot be read,
/// with the error of that field.
#[verifier::spinoff_prover]
#[verifier::rlimit(50)]
pub proof fn law_read_client_connection_attempt_bind_failed_field_error(a0: u64, s: Seq<u8>, i: int)
    ensures
        holds_at(s, i, seq![25u8]) ==> (parse_u64(s, i + (seq![25u8]).len()) matches Err(x)
            ==> parse_log_event_type(s, i) == Err::<(SpecLogEventType, int), WireError>(x)),
        holds_at(s, i, seq![25u8] + enc_u64(a0)) ==>
            (parse_io_error(s, i + (seq![25u8] + enc_u64(a0)).len()) matches Err(x)
            ==> parse_log_event_type(s, i) == Err::<(SpecLogEventType, int), WireError>(x)),
{
    if holds_at(s, i, seq![25u8]) {
        lemma_u8_roundtrip(25, s, i);
    }
    if holds_at(s, i, seq![25u8] + enc_u64(a0)) {
        lemma_holds_split(s, i, seq![25u8], enc_u64(a0));
        lemma_u8_roundtrip(25, s, i);
        lemma_u64_roundtrip(a0, s, i + (seq![25u8]).len());
    }
}

/// Reading `ClientConnectionAttemptConnectFailed` stops at the first of its
/// fields that cannot be read,
/// with the error of that field.
#[verifier::spinoff_prover]
#[verifier::rlimit(50)]
pub proof fn law_read_client_connection_attempt_connect_failed_field_error(a0: u64, s: Seq<u8>,
    i: int)
    ensures
        holds_at(s, i, seq![26u8]) ==> (parse_u64(s, i + (seq![26u8]).len()) matches Err(x)
            ==> parse_log_event_type(s, i) == Err::<(SpecLogEventType, int), WireError>(x)),
        holds_at(s, i, seq![26u8] + enc_u64(a0)) ==>
            (parse_io_error(s, i + (seq![26u8] + enc_u64(a0)).len()) matches Err(x)
            ==> parse_log_event_type(s, i) == Err::<(SpecLogEventType, int), WireError>(x)),
{
    if holds_at(s, i, seq![26u8]) {
        lemma_u8_roundtrip(26, s, i);
    }
    if holds_at(s, i, seq![26u8] + enc_u64(a0)) {
        lemma_holds_split(s, i, seq![26u8], enc_u64(a0));
        lemma_u8_roundtrip(26, s, i);
        lemma_u64_roundtrip(a0, s, i + (seq![26u8]).len());
    }
}

/// Reading `ClientFailedToConnectToDestination` stops at the first of its
/// fields that cannot be read,
/// with the error of that field.
#[verifier::spinoff_prover]
#[verifier::rlimit(50)]
pub proof fn law_read_client_failed_to_connect_to_destination_field_error(s: Seq<u8>, i: int)
    ensures
        holds_at(s, i, seq![27u8]) ==> (parse_u64(s, i + (seq![27u8]).len()) matches Err(x)
            ==> parse_log_event_type(s, i) == Err::<(SpecLogEventType, int), WireError>(x)),
{
    if holds_at(s, i, seq![27u8]) {
        lemma_u8_roundtrip(27, s, i);
    }
}

/// Reading `ClientConnectedToDestination` stops at the first of its fields that
/// cannot be read,
/// with the error of that field.
#[verifier::spinoff_prover]
#[verifier::rlimit(50)]
pub proof fn law_read_client_connected_to_destination_field_error(a0: u64, s: Seq<u8>, i: int)
    ensures
        holds_at(s, i, seq![28u8]) ==> (parse_u64(s, i + (seq![28u8]).len()) matches Err(x)
            ==> parse_log_event_type(s, i) == Err::<(SpecLogEventType, int), WireError>(x)),
        holds_at(s, i, seq![28u8] + enc_u64(a0)) ==>
            (parse_socket_addr(s, i + (seq![28u8] + enc_u64(a0)).len()) matches Err(x)
            ==> parse_log_event_type(s, i) == Err::<(SpecLogEventType, int), WireError>(x)),
{
    if holds_at(s, i, seq![28u8]) {
        lemma_u8_roundtrip(28, s, i);
    }
    if holds_at(s, i, seq![28u8] + enc_u64(a0)) {
        lemma_holds_split(s, i, seq![28u8], enc_u64(a0));
        lemma_u8_roundtrip(28, s, i);
        lemma_u64_roundtrip(a0, s, i + (seq![28u8]).len());
    }
}

/// Reading `ClientBytesSent` stops at the first of its fields that cannot be
/// read,
/// with the error of that field.
#[verifier::spinoff_prover]
#[verifier::rlimit(50)]
pub proof fn law_read_client_bytes_sent_field_error(a0: u64, s: Seq<u8>, i: int)
    ensures
        holds_at(s, i, seq![29u8]) ==> (parse_u64(s, i + (seq![29u8]).len()) matches Err(x)
            ==> parse_log_event_type(s, i) == Err::<(SpecLogEventType, int), WireError>(x)),
        holds_at(s, i, seq![29u8] + enc_u64(a0)) ==>
            (parse_u64(s, i + (seq![29u8] + enc_u64(a0)).len()) matches Err(x)
            ==> parse_log_event_type(s, i) == Err::<(SpecLogEventType, int), WireError>(x)),
{
    if holds_at(s, i, seq![29u8]) {
        lemma_u8_roundtrip(29, s, i);
    }
    if holds_at(s, i, seq![29u8] + enc_u64(a0)) {
        lemma_holds_split(s, i, seq![29u8], enc_u64(a0));
        lemma_u8_roundtrip(29, s, i);
        lemma_u64_roundtrip(a0, s, i + (seq![29u8]).len());
    }
}

/// Reading `ClientBytesReceived` stops at the first of its fields that cannot
/// be read,
/// with the error of that field.
#[verifier::spinoff_prover]
#[verifier::rlimit(50)]
pub proof fn law_read_client_bytes_received_field_error(a0: u64, s: Seq<u8>, i: int)
    ensures
        holds_at(s, i, seq![30u8]) ==> (parse_u64(s, i + (seq![30u8]).len()) matches Err(x)
            ==> parse_log_event_type(s, i) == Err::<(SpecLogEventType, int), WireError>(x)),
        holds_at(s, i, seq![30u8] + enc_u64(a0)) ==>
            (parse_u64(s, i + (seq![30u8] + enc_u64(a0)).len()) matches Err(x)
            ==> parse_log_event_type(s, i) == Err::<(SpecLogEventType, int), WireError>(x)),
{
    if holds_at(s, i, seq![30u8]) {
        lemma_u8_roundtrip(30, s, i);
    }
    if holds_at(s, i, seq![30u8] + enc_u64(a0)) {
        lemma_holds_split(s, i, seq![30u8], enc_u64(a0));
        lemma_u8_roundtrip(30, s, i);
        lemma_u64_roundtrip(a0, s, i + (seq![30u8]).len());
    }
}

/// Reading `ClientSourceShutdown` stops at the first of its fields that cannot
/// be read,
/// with the error of that field.
#[verifier::spinoff_prover]
#[verifier::rlimit(50)]
pub proof fn law_read_client_source_shutdown_field_error(s: Seq<u8>, i: int)
    ensures
        holds_at(s, i, seq![31u8]) ==> (parse_u64(s, i + (seq![31u8]).len()) matches Err(x)
            ==> parse_log_event_type(s, i) == Err::<(SpecLogEventType, int), WireError>(x)),
{
    if holds_at(s, i, seq![31u8]) {
        lemma_u8_roundtrip(31, s, i);
    }
}

/// Reading `ClientDestinationShutdown` stops at the first of its fields that
/// cannot be read,
/// with the error of that field.
#[verifier::spinoff_prover]
#[verifier::rlimit(50)]
pub proof fn law_read_client_destination_shutdown_field_error(s: Seq<u8>, i: int)
    ensures
        holds_at(s, i, seq![32u8]) ==> (parse_u64(s, i + (seq![32u8]).len()) matches Err(x)
            ==> parse_log_event_type(s, i) == Err::<(SpecLogEventType, int), WireError>(x)),
{
    if holds_at(s, i, seq![32u8]) {
        lemma_u8_roundtrip(32, s, i);
    }
}

/// Reading `ClientConnectionFinished` stops at the first of its fields that
/// cannot be read,
/// with the error of that field.
#[verifier::spinoff_prover]
#[verifier::rlimit(50)]
pub proof fn law_read_client_connection_finished_field_error(a0: u64, a1: u64, a2: u64, s: Seq<u8>,
    i: int)
    ensures
        holds_at(s, i, seq![33u8]) ==> (parse_u64(s, i + (seq![33u8]).len()) matches Err(x)
            ==> parse_log_event_type(s, i) == Err::<(SpecLogEventType, int), WireError>(x)),
        holds_at(s, i, seq![33u8] + enc_u64(a0)) ==>
            (parse_u64(s, i + (seq![33u8] + enc_u64(a0)).len()) matches Err(x)
            ==> parse_log_event_type(s, i) == Err::<(SpecLogEventType, int), WireError>(x)),
        holds_at(s, i, seq![33u8] + enc_u64(a0) + enc_u64(a1)) ==>
            (parse_u64(s, i + (seq![33u8] + enc_u64(a0) + enc_u64(a1)).len()) matches Err(x)
            ==> parse_log_event_type(s, i) == Err::<(SpecLogEventType, int), WireError>(x)),
        holds_at(s, i, seq![33u8] + enc_u64(a0) + enc_u64(a1) + enc_u64(a2)) ==>
            (parse_unit_result(s, i + (seq![33u8] + enc_u64(a0) + enc_u64(a1)
                + enc_u64(a2)).len()) matches Err(x)
            ==> parse_log_event_type(s, i) == Err::<(SpecLogEventType, int), WireError>(x)),
{
    if holds_at(s, i, seq![33u8]) {
        lemma_u8_roundtrip(33, s, i);
    }
    if holds_at(s, i, seq![33u8] + enc_u64(a0)) {
        lemma_holds_split(s, i, seq![33u8], enc_u64(a0));
        lemma_u8_roundtrip(33, s, i);
        lemma_u64_roundtrip(a0, s, i + (seq![33u8]).len());
    }
    if holds_at(s, i, seq![33u8] + enc_u64(a0) + enc_u64(a1)) {
        lemma_holds_split(s, i, seq![33u8] + enc_u64(a0), enc_u64(a1));
        lemma_holds_split(s, i, seq![33u8], enc_u64(a0));
        lemma_u8_roundtrip(33, s, i);
        lemma_u64_roundtrip(a0, s, i + (seq![33u8]).len());
        lemma_u64_roundtrip(a1, s, i + (seq![33u8] + enc_u64(a0)).len());
    }
    if holds_at(s, i, seq![33u8] + enc_u64(a0) + enc_u64(a1) + enc_u64(a2)) {
        lemma_holds_split(s, i, seq![33u8] + enc_u64(a0) + enc_u64(a1), enc_u64(a2));
        lemma_holds_split(s, i, seq![33u8] + enc_u64(a0), enc_u64(a1));
        lemma_holds_split(s, i, seq![33u8], enc_u64(a0));
        lemma_u8_roundtrip(33, s, i);
        lemma_u64_roundtrip(a0, s, i + (seq![33u8]).len());
        lemma_u64_roundtrip(a1, s, i + (seq![33u8] + enc_u64(a0)).len());
        lemma_u64_roundtrip(a2, s, i + (seq![33u8] + enc_u64(a0) + enc_u64(a1)).len());
    }
}

/// The model of an event type is the same event type with the same fields,
/// each string taken as its characters and a request by its model; the model
/// of an event has its time and the model of its type.
pub proof fn law_event_model(v: LogEventType, e: LogEvent)
    ensures
        v matches LogEventType::NewListeningSocket(a0) ==>
            v@ == SpecLogEventType::NewListeningSocket(a0),
        v matches LogEventType::FailedBindListeningSocket(a0, a1) ==>
            v@ == SpecLogEventType::FailedBindListeningSocket(a0, a1),
        v matches LogEventType::FailedBindAnySocketAborting ==>
            v@ == SpecLogEventType::FailedBindAnySocketAborting,
        v matches LogEventType::RemovedListeningSocket(a0) ==>
            v@ == SpecLogEventType::RemovedListeningSocket(a0),
        v matches LogEventType::LoadingUsersFromFile(a0) ==>
            v@ == SpecLogEventType::LoadingUsersFromFile(a0@),
        v matches LogEventType::UsersLoadedFromFile(a0, a1) ==>
            v@ == SpecLogEventType::UsersLoadedFromFile(a0@, a1),
        v matches LogEventType::StartingUpWithSingleDefaultUser ==>
            v@ == SpecLogEventType::StartingUpWithSingleDefaultUser,
        v matches LogEventType::SavingUsersToFile(a0) ==>
            v@ == SpecLogEventType::SavingUsersToFile(a0@),
        v matches LogEventType::UsersSavedToFile(a0, a1) ==>
            v@ == SpecLogEventType::UsersSavedToFile(a0@, a1),
        v matches LogEventType::UserRegistered(a0, a1) ==>
            v@ == SpecLogEventType::UserRegistered(a0@, a1),
        v matches LogEventType::UserReplacedByArgs(a0, a1) ==>
            v@ == SpecLogEventType::UserReplacedByArgs(a0@, a1),
        v matches LogEventType::UserUpdated(a0, a1, a2) ==>
            v@ == SpecLogEventType::UserUpdated(a0@, a1, a2),
        v matches LogEventType::UserDeleted(a0, a1) ==>
            v@ == SpecLogEventType::UserDeleted(a0@, a1),
        v matches LogEventType::NewClientConnectionAccepted(a0, a1) ==>
            v@ == SpecLogEventType::NewClientConnectionAccepted(a0, a1),
        v matches LogEventType::ClientConnectionAcceptFailed(a0, a1) ==>
            v@ == SpecLogEventType::ClientConnectionAcceptFailed(a0, a1),
        v matches LogEventType::ClientRequestedUnsupportedVersion(a0, a1) ==>
            v@ == SpecLogEventType::ClientRequestedUnsupportedVersion(a0, a1),
        v matches LogEventType::ClientRequestedUnsupportedCommand(a0, a1) ==>
            v@ == SpecLogEventType::ClientRequestedUnsupportedCommand(a0, a1),
        v matches LogEventType::ClientRequestedUnsupportedAtyp(a0, a1) ==>
            v@ == SpecLogEventType::ClientRequestedUnsupportedAtyp(a0, a1),
        v matches LogEventType::ClientSelectedAuthMethod(a0, a1) ==>
            v@ == SpecLogEventType::ClientSelectedAuthMethod(a0, a1),
        v matches LogEventType::ClientRequestedUnsupportedUserpassVersion(a0, a1) ==>
            v@ == SpecLogEventType::ClientRequestedUnsupportedUserpassVersion(a0, a1),
        v matches LogEventType::ClientAuthenticatedWithUserpass(a0, a1, a2) ==>
            v@ == SpecLogEventType::ClientAuthenticatedWithUserpass(a0, a1@, a2),
        v matches LogEventType::ClientSocksRequest(a0, a1) ==>
            v@ == SpecLogEventType::ClientSocksRequest(a0, a1@),
        v matches LogEventType::ClientDnsLookup(a0, a1) ==>
            v@ == SpecLogEventType::ClientDnsLookup(a0, a1@),
        v matches LogEventType::ClientAttemptingConnect(a0, a1) ==>
            v@ == SpecLogEventType::ClientAttemptingConnect(a0, a1),
        v matches LogEventType::ClientConnectionAttemptBindFailed(a0, a1) ==>
            v@ == SpecLogEventType::ClientConnectionAttemptBindFailed(a0, a1),
        v matches LogEventType::ClientConnectionAttemptConnectFailed(a0, a1) ==>
            v@ == SpecLogEventType::ClientConnectionAttemptConnectFailed(a0, a1),
        v matches LogEventType::ClientFailedToConnectToDestination(a0) ==>
            v@ == SpecLogEventType::ClientFailedToConnectToDestination(a0),
        v matches LogEventType::ClientConnectedToDestination(a0, a1) ==>
            v@ == SpecLogEventType::ClientConnectedToDestination(a0, a1),
        v matches LogEventType::ClientBytesSent(a0, a1) ==>
            v@ == SpecLogEventType::ClientBytesSent(a0, a1),
        v matches LogEventType::ClientBytesReceived(a0, a1) ==>
            v@ == SpecLogEventType::ClientBytesReceived(a0, a1),
        v matches LogEventType::ClientSourceShutdown(a0) ==>
            v@ == SpecLogEventType::ClientSourceShutdown(a0),
        v matches LogEventType::ClientDestinationShutdown(a0) ==>
            v@ == SpecLogEventType::ClientDestinationShutdown(a0),
        v matches LogEventType::ClientConnectionFinished(a0, a1, a2, a3) ==>
            v@ == SpecLogEventType::ClientConnectionFinished(a0, a1, a2, a3),
        e@.timestamp == e.timestamp,
        e@.data == e.data@,
{
}

/// A tag byte of 0 or past 33 names no event type and is refused.
pub proof fn law_read_bad_tag(s: Seq<u8>, i: int)
    requires
        0 <= i < s.len(),
        s[i] == 0 || s[i] > 33,
    ensures
        parse_log_event_type(s, i) == Err::<(SpecLogEventType, int), WireError>(
            WireError::InvalidData,
        ),
{
}

/// An event is written as its time, the eight bytes of the `i64` most
/// significant first, then its type; it is written in full exactly when its
/// type is.
pub proof fn law_write_log_event(e: SpecLogEvent)
    ensures
        emit_log_event(e).ok == emit_log_event_type(e.data).ok,
        emit_log_event(e).bytes == enc_u64(e.timestamp as u64) + emit_log_event_type(e.data).bytes,
{
}

/// Reading an event reads its time from the first eight bytes, then its
/// type from the bytes after them, and ends where the type ends.
pub proof fn law_read_log_event(t: i64, s: Seq<u8>, i: int)
    requires
        holds_at(s, i, enc_u64(t as u64)),
    ensures
        parse_log_event(s, i) == match parse_log_event_type(s, i + 8) {
            Ok((v, k)) => Ok::<(SpecLogEvent, int), WireError>(
                (SpecLogEvent { timestamp: t, data: v }, k),
            ),
            Err(x) => Err(x),
        },
{
    lemma_i64_roundtrip(t, s, i);
}

/// The optional and result fields of events: `None`, and each `Err`, as 0
/// and then what it holds; `Some`, and each `Ok`, as 1 and then what it
/// holds.
pub proof fn law_optional_field_layouts(a: SocketAddr, n: u64, e: UsersLoadingError, k: IoErrorKind)
    ensures
        enc_opt_socket_addr(None) == seq![0u8],
        enc_opt_socket_addr(Some(a)) == seq![1u8] + enc_socket_addr(a),
        enc_users_result(Ok(n)) == seq![1u8] + enc_u64(n),
        enc_users_result(Err(e)) == seq![0u8] + enc_users_loading_error(e),
        enc_io_result(Ok(n)) == seq![1u8] + enc_u64(n),
        enc_io_result(Err(k)) == seq![0u8] + enc_io_error(k),
        enc_unit_result(Ok(())) == seq![1u8],
        enc_unit_result(Err(k)) == seq![0u8] + enc_io_error(k),
{
}

/// 0 reads as `None`; any other byte as `Some` of the address after it.
pub proof fn law_read_opt_socket_addr(b: u8, a: SocketAddr, s: Seq<u8>, i: int)
    requires
        holds_at(s, i, seq![b]),
    ensures
        b == 0 ==> parse_opt_socket_addr(s, i) == Ok::<(Option<SocketAddr>, int), WireError>(
            (None, i + 1),
        ),
        b != 0 && holds_at(s, i + 1, enc_socket_addr(a)) ==> parse_opt_socket_addr(s, i) == Ok::<
            (Option<SocketAddr>, int),
            WireError,
        >((Some(a), i + 1 + enc_socket_addr(a).len())),
{
    lemma_u8_roundtrip(b, s, i);
    if b != 0 && holds_at(s, i + 1, enc_socket_addr(a)) {
        lemma_socket_addr_roundtrip(a, s, i + 1);
    }
}

/// 0 reads as `Err` of the loading error after it; any other byte as `Ok`
/// of the count after it.
pub proof fn law_read_users_result(b: u8, n: u64, e: UsersLoadingError, s: Seq<u8>, i: int)
    requires
        holds_at(s, i, seq![b]),
    ensures
        b != 0 && holds_at(s, i + 1, enc_u64(n)) ==> parse_users_result(s, i) == Ok::<
            (Result<u64, UsersLoadingError>, int),
            WireError,
        >((Ok(n), i + 9)),
        b ==
            0 && holds_at(s, i + 1, enc_users_loading_error(e))
                && !(e matches UsersLoadingError::IO(
            IoErrorKind::Unrecognized,
        )) ==> parse_users_result(s, i) == Ok::<(Result<u64, UsersLoadingError>, int), WireError>(
            (Err(e), i + 1 + enc_users_loading_error(e).len()),
        ),
{
    lemma_u8_roundtrip(b, s, i);
    if b != 0 && holds_at(s, i + 1, enc_u64(n)) {
        lemma_u64_roundtrip(n, s, i + 1);
    }
    if b == 0 && holds_at(s, i + 1, enc_users_loading_error(e)) {
        lemma_users_loading_error_roundtrip(e, s, i + 1);
    }
}

/// 0 reads as `Err` of the error kind after it; any other byte as `Ok` of
/// the count after it.
pub proof fn law_read_io_result(b: u8, n: u64, k: IoErrorKind, s: Seq<u8>, i: int)
    requires
        holds_at(s, i, seq![b]),
    ensures
        b != 0 && holds_at(s, i + 1, enc_u64(n)) ==> parse_io_result(s, i) == Ok::<
            (Result<u64, IoErrorKind>, int),
            WireError,
        >((Ok(n), i + 9)),
        b == 0 && holds_at(s, i + 1, enc_io_error(k)) && k != IoErrorKind::Unrecognized
            ==> parse_io_result(s, i) == Ok::<(Result<u64, IoErrorKind>, int), WireError>(
            (Err(k), i + 2),
        ),
{
    lemma_u8_roundtrip(b, s, i);
    if b != 0 && holds_at(s, i + 1, enc_u64(n)) {
        lemma_u64_roundtrip(n, s, i + 1);
    }
    if b == 0 && holds_at(s, i + 1, enc_io_error(k)) {
        lemma_io_error_roundtrip(k, s, i + 1);
    }
}

/// 0 reads as `Err` of the error kind after it; any other byte as `Ok`.
pub proof fn law_read_unit_result(b: u8, k: IoErrorKind, s: Seq<u8>, i: int)
    requires
        holds_at(s, i, seq![b]),
    ensures
        b != 0 ==> parse_unit_result(s, i) == Ok::<(Result<(), IoErrorKind>, int), WireError>(
            (Ok(()), i + 1),
        ),
        b == 0 && holds_at(s, i + 1, enc_io_error(k)) && k != IoErrorKind::Unrecognized
            ==> parse_unit_result(s, i) == Ok::<(Result<(), IoErrorKind>, int), WireError>(
            (Err(k), i + 2),
        ),
{
    lemma_u8_roundtrip(b, s, i);
    if b == 0 && holds_at(s, i + 1, enc_io_error(k)) {
        lemma_io_error_roundtrip(k, s, i + 1);
    }
}

} // verus!
