//! What a reader answers when its input stops part way through a value
//! that was written in full: it reports the end of the input, never bad
//! data and never a value.
use vstd::prelude::*;
use vstd::utf8::encode_utf8;

use crate::io_error::{enc_io_error, IoErrorKind};
use crate::logging::{
    emit_log_event, emit_log_event_type, enc_io_result, enc_opt_socket_addr, enc_unit_result,
    enc_users_result, lemma_opt_socket_addr_roundtrip, parse_io_result, parse_log_event,
    parse_log_event_type, parse_opt_socket_addr, parse_unit_result, parse_users_result,
    SpecLogEvent, SpecLogEventType,
};
use crate::net::{
    enc_ipv4, enc_ipv6, enc_socket_addr, enc_socket_v4, enc_socket_v6, lemma_enc_ipv6_len,
    lemma_ipv4_roundtrip, lemma_ipv6_roundtrip, lemma_socket_addr_roundtrip, parse_socket_addr,
    SocketAddr,
};
use crate::socks5::{
    emit_socks_address, emit_socks_request, enc_auth_method, parse_socks_request, SpecSocksRequest,
    SpecSocksRequestAddress,
};
use crate::text::{
    emit_small_str, emit_str, lemma_small_str_roundtrip, lemma_str_roundtrip, parse_small_string,
    parse_string,
};
use crate::users::{
    enc_u32_pair, enc_user_role, enc_users_loading_error, lemma_user_role_roundtrip,
    parse_users_loading_error, UsersLoadingError,
};
use crate::wire::{
    enc_bool, enc_char, enc_i64, enc_u16, enc_u32, enc_u64, enc_u8, holds_at, lemma_holds_split,
    lemma_i64_roundtrip, lemma_u16_roundtrip, lemma_u32_roundtrip, lemma_u64_roundtrip,
    lemma_u8_roundtrip, WireError,
};

verus! {

broadcast use crate::wire::group_enc_lens;

/// The input `s` stops part way through the bytes `b` placed at `i`: all
/// that is left of it from `i` on is a strict prefix of `b`.
pub open spec fn ends_within(s: Seq<u8>, i: int, b: Seq<u8>) -> bool {
    &&& 0 <= i <= s.len() < i + b.len()
    &&& s.subrange(i, s.len() as int) == b.take(s.len() - i)
}

/// Input that stops inside `p + q` stops inside `p`, or holds `p` and
/// stops inside `q`.
proof fn lemma_cut_cases(s: Seq<u8>, i: int, p: Seq<u8>, q: Seq<u8>)
    requires
        ends_within(s, i, p + q),
    ensures
        ends_within(s, i, p) || (holds_at(s, i, p) && ends_within(s, i + p.len(), q)),
{
    let l = s.len() - i;
    let pq = p + q;
    assert(s.subrange(i, s.len() as int) == pq.take(l));
    if l < p.len() {
        assert(pq.take(l) =~= p.take(l));
    } else {
        assert(s.subrange(i, i + p.len()) =~= p) by {
            assert forall|k: int| 0 <= k < p.len() implies s.subrange(i, i + p.len())[k]
                == p[k] by {
                assert(s.subrange(i, s.len() as int)[k] == pq.take(l)[k]);
            }
        }
        assert(s.subrange(i + p.len(), s.len() as int) =~= q.take(l - p.len())) by {
            assert forall|k: int| 0 <= k < l - p.len() implies #[trigger] s.subrange(
                i + p.len(),
                s.len() as int,
            )[k] == q.take(l - p.len())[k] by {
                assert(s.subrange(i, s.len() as int)[k + p.len()] == pq.take(l)[k + p.len()]);
            }
        }
    }
}

/// A socket address cut short reads as the end of the input.
pub proof fn lemma_socket_addr_cut(a: SocketAddr, s: Seq<u8>, i: int)
    requires
        ends_within(s, i, enc_socket_addr(a)),
    ensures
        parse_socket_addr(s, i) == Err::<(SocketAddr, int), WireError>(WireError::UnexpectedEof),
{
    match a {
        SocketAddr::V4(v4) => {
            lemma_cut_cases(s, i, enc_u8(4), enc_socket_v4(v4));
            if !ends_within(s, i, enc_u8(4)) {
                lemma_u8_roundtrip(4, s, i);
                lemma_cut_cases(s, i + 1, enc_ipv4(v4.ip), enc_u16(v4.port));
                if !ends_within(s, i + 1, enc_ipv4(v4.ip)) {
                    lemma_ipv4_roundtrip(v4.ip, s, i + 1);
                }
            }
        },
        SocketAddr::V6(v6) => {
            lemma_enc_ipv6_len(v6.ip);
            let p1 = enc_ipv6(v6.ip);
            let p2 = enc_u16(v6.port);
            let p3 = enc_u32(v6.flowinfo);
            let p4 = enc_u32(v6.scope_id);
            lemma_cut_cases(s, i, enc_u8(6), enc_socket_v6(v6));
            if !ends_within(s, i, enc_u8(6)) {
                lemma_u8_roundtrip(6, s, i);
                let j = i + 1;
                if ends_within(s, j, p1) {
                } else if ends_within(s, j, p1 + p2) {
                    lemma_cut_cases(s, j, p1, p2);
                    lemma_ipv6_roundtrip(v6.ip, s, j);
                } else if ends_within(s, j, p1 + p2 + p3) {
                    lemma_cut_cases(s, j, p1 + p2, p3);
                    lemma_holds_split(s, j, p1, p2);
                    lemma_ipv6_roundtrip(v6.ip, s, j);
                    lemma_u16_roundtrip(v6.port, s, j + 16);
                } else {
                    lemma_cut_cases(s, j, p1 + p2 + p3, p4);
                    lemma_holds_split(s, j, p1 + p2, p3);
                    lemma_holds_split(s, j, p1, p2);
                    lemma_ipv6_roundtrip(v6.ip, s, j);
                    lemma_u16_roundtrip(v6.port, s, j + 16);
                    lemma_u32_roundtrip(v6.flowinfo, s, j + 18);
                }
            }
        },
    }
}

/// A string cut short reads as the end of the input.
pub proof fn lemma_str_cut(c: Seq<char>, s: Seq<u8>, i: int)
    requires
        emit_str(c).ok,
        ends_within(s, i, emit_str(c).bytes),
    ensures
        parse_string(s, i) == Err::<(Seq<char>, int), WireError>(WireError::UnexpectedEof),
{
    let b = encode_utf8(c);
    lemma_cut_cases(s, i, enc_u16(b.len() as u16), b);
    if !ends_within(s, i, enc_u16(b.len() as u16)) {
        lemma_u16_roundtrip(b.len() as u16, s, i);
    }
}

/// A short string cut short reads as the end of the input.
pub proof fn lemma_small_str_cut(c: Seq<char>, s: Seq<u8>, i: int)
    requires
        emit_small_str(c).ok,
        ends_within(s, i, emit_small_str(c).bytes),
    ensures
        parse_small_string(s, i) == Err::<(Seq<char>, int), WireError>(WireError::UnexpectedEof),
{
    let b = encode_utf8(c);
    lemma_cut_cases(s, i, enc_u8(b.len() as u8), b);
    if !ends_within(s, i, enc_u8(b.len() as u8)) {
        lemma_u8_roundtrip(b.len() as u8, s, i);
    }
}

/// A SOCKS request cut short reads as the end of the input.
pub proof fn lemma_socks_request_cut(r: SpecSocksRequest, s: Seq<u8>, i: int)
    requires
        emit_socks_request(r).ok,
        ends_within(s, i, emit_socks_request(r).bytes),
    ensures
        parse_socks_request(s, i) == Err::<(SpecSocksRequest, int), WireError>(
            WireError::UnexpectedEof,
        ),
{
    let a = emit_socks_address(r.destination).bytes;
    lemma_cut_cases(s, i, a, enc_u16(r.port));
    if ends_within(s, i, a) {
        match r.destination {
            SpecSocksRequestAddress::IPv4(v4) => {
                lemma_cut_cases(s, i, enc_u8(4), enc_ipv4(v4));
                if !ends_within(s, i, enc_u8(4)) {
                    lemma_u8_roundtrip(4, s, i);
                }
            },
            SpecSocksRequestAddress::IPv6(v6) => {
                lemma_enc_ipv6_len(v6);
                lemma_cut_cases(s, i, enc_u8(6), enc_ipv6(v6));
                if !ends_within(s, i, enc_u8(6)) {
                    lemma_u8_roundtrip(6, s, i);
                }
            },
            SpecSocksRequestAddress::Domainname(d) => {
                lemma_cut_cases(s, i, enc_u8(200), emit_small_str(d).bytes);
                if !ends_within(s, i, enc_u8(200)) {
                    lemma_u8_roundtrip(200, s, i);
                    lemma_small_str_cut(d, s, i + 1);
                }
            },
        }
    } else {
        crate::socks5::lemma_socks_address_roundtrip(r.destination, s, i);
    }
}

/// A users-file loading error cut short reads as the end of the input.
pub proof fn lemma_users_loading_error_cut(e: UsersLoadingError, s: Seq<u8>, i: int)
    requires
        ends_within(s, i, enc_users_loading_error(e)),
    ensures
        parse_users_loading_error(s, i) == Err::<(UsersLoadingError, int), WireError>(
            WireError::UnexpectedEof,
        ),
{
    match e {
        UsersLoadingError::IO(k) => {
            lemma_cut_cases(s, i, enc_u8(1), enc_io_error(k));
            if !ends_within(s, i, enc_u8(1)) {
                lemma_u8_roundtrip(1, s, i);
            }
        },
        UsersLoadingError::InvalidUtf8 { line_number, byte_at } => {
            lemma_number_pair_cut(2, line_number, enc_u64(byte_at), enc_users_loading_error(e), s,
                i);
        },
        UsersLoadingError::LineTooLong { line_number, byte_at } => {
            lemma_number_pair_cut(3, line_number, enc_u64(byte_at), enc_users_loading_error(e), s,
                i);
        },
        UsersLoadingError::ExpectedRoleCharGotEOF(l, c) => {
            lemma_number_pair_cut(4, l, enc_u32(c), enc_users_loading_error(e), s, i);
        },
        UsersLoadingError::InvalidRoleChar(l, c, ch) => {
            lemma_cut_cases(s, i, enc_u8(5) + enc_u32_pair(l, c), enc_char(ch));
            if ends_within(s, i, enc_u8(5) + enc_u32_pair(l, c)) {
                lemma_number_pair_cut(5, l, enc_u32(c), enc_u8(5) + enc_u32_pair(l, c), s, i);
            } else {
                lemma_holds_split(s, i, enc_u8(5), enc_u32_pair(l, c));
                lemma_holds_split(s, i + 1, enc_u32(l), enc_u32(c));
                lemma_u8_roundtrip(5, s, i);
                lemma_u32_roundtrip(l, s, i + 1);
                lemma_u32_roundtrip(c, s, i + 5);
            }
        },
        UsersLoadingError::ExpectedColonGotEOF(l, c) => {
            lemma_number_pair_cut(6, l, enc_u32(c), enc_users_loading_error(e), s, i);
        },
        UsersLoadingError::EmptyUsername(l, c) => {
            lemma_number_pair_cut(7, l, enc_u32(c), enc_users_loading_error(e), s, i);
        },
        UsersLoadingError::UsernameTooLong(l, c) => {
            lemma_number_pair_cut(8, l, enc_u32(c), enc_users_loading_error(e), s, i);
        },
        UsersLoadingError::EmptyPassword(l, c) => {
            lemma_number_pair_cut(9, l, enc_u32(c), enc_users_loading_error(e), s, i);
        },
        UsersLoadingError::PasswordTooLong(l, c) => {
            lemma_number_pair_cut(10, l, enc_u32(c), enc_users_loading_error(e), s, i);
        },
        UsersLoadingError::NoUsers => {},
    }
}

/// A tag, a line number and a second number of `rest.len()` bytes, cut
/// short: the reader stops at the end of the input.
proof fn lemma_number_pair_cut(tag: u8, l: u32, rest: Seq<u8>, b: Seq<u8>, s: Seq<u8>, i: int)
    requires
        2 <= tag <= 10,
        rest.len() == 4 || rest.len() == 8,
        tag == 2 || tag == 3 <==> rest.len() == 8,
        b =~= enc_u8(tag) + enc_u32(l) + rest,
        ends_within(s, i, b),
    ensures
        parse_users_loading_error(s, i) == Err::<(UsersLoadingError, int), WireError>(
            WireError::UnexpectedEof,
        ),
{
    if ends_within(s, i, enc_u8(tag)) {
    } else if ends_within(s, i, enc_u8(tag) + enc_u32(l)) {
        lemma_cut_cases(s, i, enc_u8(tag), enc_u32(l));
        lemma_u8_roundtrip(tag, s, i);
    } else {
        lemma_cut_cases(s, i, enc_u8(tag) + enc_u32(l), rest);
        lemma_holds_split(s, i, enc_u8(tag), enc_u32(l));
        lemma_u8_roundtrip(tag, s, i);
        lemma_u32_roundtrip(l, s, i + 1);
    }
}

/// An optional socket address cut short reads as the end of the input.
pub proof fn lemma_opt_socket_addr_cut(o: Option<SocketAddr>, s: Seq<u8>, i: int)
    requires
        ends_within(s, i, enc_opt_socket_addr(o)),
    ensures
        parse_opt_socket_addr(s, i) == Err::<(Option<SocketAddr>, int), WireError>(
            WireError::UnexpectedEof,
        ),
{
    if let Some(a) = o {
        lemma_cut_cases(s, i, enc_u8(1), enc_socket_addr(a));
        if !ends_within(s, i, enc_u8(1)) {
            lemma_u8_roundtrip(1, s, i);
            lemma_socket_addr_cut(a, s, i + 1);
        }
    }
}

/// A count or a loading error cut short reads as the end of the input.
pub proof fn lemma_users_result_cut(r: Result<u64, UsersLoadingError>, s: Seq<u8>, i: int)
    requires
        ends_within(s, i, enc_users_result(r)),
    ensures
        parse_users_result(s, i) == Err::<(Result<u64, UsersLoadingError>, int), WireError>(
            WireError::UnexpectedEof,
        ),
{
    match r {
        Ok(n) => {
            lemma_cut_cases(s, i, enc_u8(1), enc_u64(n));
            if !ends_within(s, i, enc_u8(1)) {
                lemma_u8_roundtrip(1, s, i);
            }
        },
        Err(e) => {
            lemma_cut_cases(s, i, enc_u8(0), enc_users_loading_error(e));
            if !ends_within(s, i, enc_u8(0)) {
                lemma_u8_roundtrip(0, s, i);
                lemma_users_loading_error_cut(e, s, i + 1);
            }
        },
    }
}

/// A count or an error kind cut short reads as the end of the input.
pub proof fn lemma_io_result_cut(r: Result<u64, IoErrorKind>, s: Seq<u8>, i: int)
    requires
        ends_within(s, i, enc_io_result(r)),
    ensures
        parse_io_result(s, i) == Err::<(Result<u64, IoErrorKind>, int), WireError>(
            WireError::UnexpectedEof,
        ),
{
    match r {
        Ok(n) => {
            lemma_cut_cases(s, i, enc_u8(1), enc_u64(n));
            if !ends_within(s, i, enc_u8(1)) {
                lemma_u8_roundtrip(1, s, i);
            }
        },
        Err(k) => {
            lemma_cut_cases(s, i, enc_u8(0), enc_io_error(k));
            if !ends_within(s, i, enc_u8(0)) {
                lemma_u8_roundtrip(0, s, i);
            }
        },
    }
}

/// Success or an error kind cut short reads as the end of the input.
pub proof fn lemma_unit_result_cut(r: Result<(), IoErrorKind>, s: Seq<u8>, i: int)
    requires
        ends_within(s, i, enc_unit_result(r)),
    ensures
        parse_unit_result(s, i) == Err::<(Result<(), IoErrorKind>, int), WireError>(
            WireError::UnexpectedEof,
        ),
{
    if let Err(k) = r {
        lemma_cut_cases(s, i, enc_u8(0), enc_io_error(k));
        if !ends_within(s, i, enc_u8(0)) {
            lemma_u8_roundtrip(0, s, i);
        }
    }
}

#[verifier::spinoff_prover]
#[verifier::rlimit(50)]
proof fn lemma_new_listening_socket_cut(v: SpecLogEventType, s: Seq<u8>, i: int)
    requires
        v is NewListeningSocket,
        emit_log_event_type(v).ok,
        ends_within(s, i, emit_log_event_type(v).bytes),
    ensures
        parse_log_event_type(s, i) == Err::<(SpecLogEventType, int), WireError>(
            WireError::UnexpectedEof,
        ),
{
    match v {
        SpecLogEventType::NewListeningSocket(a0) => {
            let p0 = enc_u8(1);
            let p1 = enc_socket_addr(a0);
            assert(emit_log_event_type(v).bytes =~= p0 + p1);
            if ends_within(s, i, p0) {
            } else {
                lemma_cut_cases(s, i, p0, p1);
                lemma_u8_roundtrip(1, s, i);
                lemma_socket_addr_cut(a0, s, i + p0.len());
            }
        },
        _ => {},
    }
}

#[verifier::spinoff_prover]
#[verifier::rlimit(50)]
proof fn lemma_failed_bind_listening_socket_cut(v: SpecLogEventType, s: Seq<u8>, i: int)
    requires
        v is FailedBindListeningSocket,
        emit_log_event_type(v).ok,
        ends_within(s, i, emit_log_event_type(v).bytes),
    ensures
        parse_log_event_type(s, i) == Err::<(SpecLogEventType, int), WireError>(
            WireError::UnexpectedEof,
        ),
{
    match v {
        SpecLogEventType::FailedBindListeningSocket(a0, a1) => {
            let p0 = enc_u8(2);
            let p1 = enc_socket_addr(a0);
            let p2 = enc_io_error(a1);
            assert(emit_log_event_type(v).bytes =~= p0 + p1 + p2);
            if ends_within(s, i, p0) {
            } else if ends_within(s, i, p0 + p1) {
                lemma_cut_cases(s, i, p0, p1);
                lemma_u8_roundtrip(2, s, i);
                lemma_socket_addr_cut(a0, s, i + p0.len());
            } else {
                lemma_cut_cases(s, i, p0 + p1, p2);
                lemma_holds_split(s, i, p0, p1);
                lemma_u8_roundtrip(2, s, i);
                lemma_socket_addr_roundtrip(a0, s, i + p0.len());
            }
        },
        _ => {},
    }
}

#[verifier::spinoff_prover]
#[verifier::rlimit(50)]
proof fn lemma_failed_bind_any_socket_aborting_cut(v: SpecLogEventType, s: Seq<u8>, i: int)
    requires
        v is FailedBindAnySocketAborting,
        emit_log_event_type(v).ok,
        ends_within(s, i, emit_log_event_type(v).bytes),
    ensures
        parse_log_event_type(s, i) == Err::<(SpecLogEventType, int), WireError>(
            WireError::UnexpectedEof,
        ),
{
}

#[verifier::spinoff_prover]
#[verifier::rlimit(50)]
proof fn lemma_removed_listening_socket_cut(v: SpecLogEventType, s: Seq<u8>, i: int)
    requires
        v is RemovedListeningSocket,
        emit_log_event_type(v).ok,
        ends_within(s, i, emit_log_event_type(v).bytes),
    ensures
        parse_log_event_type(s, i) == Err::<(SpecLogEventType, int), WireError>(
            WireError::UnexpectedEof,
        ),
{
    match v {
        SpecLogEventType::RemovedListeningSocket(a0) => {
            let p0 = enc_u8(4);
            let p1 = enc_socket_addr(a0);
            assert(emit_log_event_type(v).bytes =~= p0 + p1);
            if ends_within(s, i, p0) {
            } else {
                lemma_cut_cases(s, i, p0, p1);
                lemma_u8_roundtrip(4, s, i);
                lemma_socket_addr_cut(a0, s, i + p0.len());
            }
        },
        _ => {},
    }
}

#[verifier::spinoff_prover]
#[verifier::rlimit(50)]
proof fn lemma_loading_users_from_file_cut(v: SpecLogEventType, s: Seq<u8>, i: int)
    requires
        v is LoadingUsersFromFile,
        emit_log_event_type(v).ok,
        ends_within(s, i, emit_log_event_type(v).bytes),
    ensures
        parse_log_event_type(s, i) == Err::<(SpecLogEventType, int), WireError>(
            WireError::UnexpectedEof,
        ),
{
    match v {
        SpecLogEventType::LoadingUsersFromFile(a0) => {
            let p0 = enc_u8(5);
            let p1 = emit_str(a0).bytes;
            assert(emit_log_event_type(v).bytes =~= p0 + p1);
            if ends_within(s, i, p0) {
            } else {
                lemma_cut_cases(s, i, p0, p1);
                lemma_u8_roundtrip(5, s, i);
                lemma_str_cut(a0, s, i + p0.len());
            }
        },
        _ => {},
    }
}

#[verifier::spinoff_prover]
#[verifier::rlimit(50)]
proof fn lemma_users_loaded_from_file_cut(v: SpecLogEventType, s: Seq<u8>, i: int)
    requires
        v is UsersLoadedFromFile,
        emit_log_event_type(v).ok,
        ends_within(s, i, emit_log_event_type(v).bytes),
    ensures
        parse_log_event_type(s, i) == Err::<(SpecLogEventType, int), WireError>(
            WireError::UnexpectedEof,
        ),
{
    match v {
        SpecLogEventType::UsersLoadedFromFile(a0, a1) => {
            let p0 = enc_u8(6);
            let p1 = emit_str(a0).bytes;
            let p2 = enc_users_result(a1);
            assert(emit_log_event_type(v).bytes =~= p0 + p1 + p2);
            if ends_within(s, i, p0) {
            } else if ends_within(s, i, p0 + p1) {
                lemma_cut_cases(s, i, p0, p1);
                lemma_u8_roundtrip(6, s, i);
                lemma_str_cut(a0, s, i + p0.len());
            } else {
                lemma_cut_cases(s, i, p0 + p1, p2);
                lemma_holds_split(s, i, p0, p1);
                lemma_u8_roundtrip(6, s, i);
                lemma_str_roundtrip(a0, s, i + p0.len());
                lemma_users_result_cut(a1, s, i + p0.len() + p1.len());
            }
        },
        _ => {},
    }
}

#[verifier::spinoff_prover]
#[verifier::rlimit(50)]
proof fn lemma_starting_up_with_single_default_user_cut(v: SpecLogEventType, s: Seq<u8>, i: int)
    requires
        v is StartingUpWithSingleDefaultUser,
        emit_log_event_type(v).ok,
        ends_within(s, i, emit_log_event_type(v).bytes),
    ensures
        parse_log_event_type(s, i) == Err::<(SpecLogEventType, int), WireError>(
            WireError::UnexpectedEof,
        ),
{
}

#[verifier::spinoff_prover]
#[verifier::rlimit(50)]
proof fn lemma_saving_users_to_file_cut(v: SpecLogEventType, s: Seq<u8>, i: int)
    requires
        v is SavingUsersToFile,
        emit_log_event_type(v).ok,
        ends_within(s, i, emit_log_event_type(v).bytes),
    ensures
        parse_log_event_type(s, i) == Err::<(SpecLogEventType, int), WireError>(
            WireError::UnexpectedEof,
        ),
{
    match v {
        SpecLogEventType::SavingUsersToFile(a0) => {
            let p0 = enc_u8(8);
            let p1 = emit_str(a0).bytes;
            assert(emit_log_event_type(v).bytes =~= p0 + p1);
            if ends_within(s, i, p0) {
            } else {
                lemma_cut_cases(s, i, p0, p1);
                lemma_u8_roundtrip(8, s, i);
                lemma_str_cut(a0, s, i + p0.len());
            }
        },
        _ => {},
    }
}

#[verifier::spinoff_prover]
#[verifier::rlimit(50)]
proof fn lemma_users_saved_to_file_cut(v: SpecLogEventType, s: Seq<u8>, i: int)
    requires
        v is UsersSavedToFile,
        emit_log_event_type(v).ok,
        ends_within(s, i, emit_log_event_type(v).bytes),
    ensures
        parse_log_event_type(s, i) == Err::<(SpecLogEventType, int), WireError>(
            WireError::UnexpectedEof,
        ),
{
    match v {
        SpecLogEventType::UsersSavedToFile(a0, a1) => {
            let p0 = enc_u8(9);
            let p1 = emit_str(a0).bytes;
            let p2 = enc_io_result(a1);
            assert(emit_log_event_type(v).bytes =~= p0 + p1 + p2);
            if ends_within(s, i, p0) {
            } else if ends_within(s, i, p0 + p1) {
                lemma_cut_cases(s, i, p0, p1);
                lemma_u8_roundtrip(9, s, i);
                lemma_str_cut(a0, s, i + p0.len());
            } else {
                lemma_cut_cases(s, i, p0 + p1, p2);
                lemma_holds_split(s, i, p0, p1);
                lemma_u8_roundtrip(9, s, i);
                lemma_str_roundtrip(a0, s, i + p0.len());
                lemma_io_result_cut(a1, s, i + p0.len() + p1.len());
            }
        },
        _ => {},
    }
}

#[verifier::spinoff_prover]
#[verifier::rlimit(50)]
proof fn lemma_user_registered_cut(v: SpecLogEventType, s: Seq<u8>, i: int)
    requires
        v is UserRegistered,
        emit_log_event_type(v).ok,
        ends_within(s, i, emit_log_event_type(v).bytes),
    ensures
        parse_log_event_type(s, i) == Err::<(SpecLogEventType, int), WireError>(
            WireError::UnexpectedEof,
        ),
{
    match v {
        SpecLogEventType::UserRegistered(a0, a1) => {
            let p0 = enc_u8(10);
            let p1 = emit_small_str(a0).bytes;
            let p2 = enc_user_role(a1);
            assert(emit_log_event_type(v).bytes =~= p0 + p1 + p2);
            if ends_within(s, i, p0) {
            } else if ends_within(s, i, p0 + p1) {
                lemma_cut_cases(s, i, p0, p1);
                lemma_u8_roundtrip(10, s, i);
                lemma_small_str_cut(a0, s, i + p0.len());
            } else {
                lemma_cut_cases(s, i, p0 + p1, p2);
                lemma_holds_split(s, i, p0, p1);
                lemma_u8_roundtrip(10, s, i);
                lemma_small_str_roundtrip(a0, s, i + p0.len());
            }
        },
        _ => {},
    }
}

#[verifier::spinoff_prover]
#[verifier::rlimit(50)]
proof fn lemma_user_replaced_by_args_cut(v: SpecLogEventType, s: Seq<u8>, i: int)
    requires
        v is UserReplacedByArgs,
        emit_log_event_type(v).ok,
        ends_within(s, i, emit_log_event_type(v).bytes),
    ensures
        parse_log_event_type(s, i) == Err::<(SpecLogEventType, int), WireError>(
            WireError::UnexpectedEof,
        ),
{
    match v {
        SpecLogEventType::UserReplacedByArgs(a0, a1) => {
            let p0 = enc_u8(11);
            let p1 = emit_small_str(a0).bytes;
            let p2 = enc_user_role(a1);
            assert(emit_log_event_type(v).bytes =~= p0 + p1 + p2);
            if ends_within(s, i, p0) {
            } else if ends_within(s, i, p0 + p1) {
                lemma_cut_cases(s, i, p0, p1);
                lemma_u8_roundtrip(11, s, i);
                lemma_small_str_cut(a0, s, i + p0.len());
            } else {
                lemma_cut_cases(s, i, p0 + p1, p2);
                lemma_holds_split(s, i, p0, p1);
                lemma_u8_roundtrip(11, s, i);
                lemma_small_str_roundtrip(a0, s, i + p0.len());
            }
        },
        _ => {},
    }
}

#[verifier::spinoff_prover]
#[verifier::rlimit(50)]
proof fn lemma_user_updated_cut(v: SpecLogEventType, s: Seq<u8>, i: int)
    requires
        v is UserUpdated,
        emit_log_event_type(v).ok,
        ends_within(s, i, emit_log_event_type(v).bytes),
    ensures
        parse_log_event_type(s, i) == Err::<(SpecLogEventType, int), WireError>(
            WireError::UnexpectedEof,
        ),
{
    match v {
        SpecLogEventType::UserUpdated(a0, a1, a2) => {
            let p0 = enc_u8(12);
            let p1 = emit_small_str(a0).bytes;
            let p2 = enc_user_role(a1);
            let p3 = enc_bool(a2);
            assert(emit_log_event_type(v).bytes =~= p0 + p1 + p2 + p3);
            if ends_within(s, i, p0) {
            } else if ends_within(s, i, p0 + p1) {
                lemma_cut_cases(s, i, p0, p1);
                lemma_u8_roundtrip(12, s, i);
                lemma_small_str_cut(a0, s, i + p0.len());
            } else if ends_within(s, i, p0 + p1 + p2) {
                lemma_cut_cases(s, i, p0 + p1, p2);
                lemma_holds_split(s, i, p0, p1);
                lemma_u8_roundtrip(12, s, i);
                lemma_small_str_roundtrip(a0, s, i + p0.len());
            } else {
                lemma_cut_cases(s, i, p0 + p1 + p2, p3);
                lemma_holds_split(s, i, p0 + p1, p2);
                lemma_holds_split(s, i, p0, p1);
                lemma_u8_roundtrip(12, s, i);
                lemma_small_str_roundtrip(a0, s, i + p0.len());
                lemma_user_role_roundtrip(a1, s, i + p0.len() + p1.len());
            }
        },
        _ => {},
    }
}

#[verifier::spinoff_prover]
#[verifier::rlimit(50)]
proof fn lemma_user_deleted_cut(v: SpecLogEventType, s: Seq<u8>, i: int)
    requires
        v is UserDeleted,
        emit_log_event_type(v).ok,
        ends_within(s, i, emit_log_event_type(v).bytes),
    ensures
        parse_log_event_type(s, i) == Err::<(SpecLogEventType, int), WireError>(
            WireError::UnexpectedEof,
        ),
{
    match v {
        SpecLogEventType::UserDeleted(a0, a1) => {
            let p0 = enc_u8(13);
            let p1 = emit_small_str(a0).bytes;
            let p2 = enc_user_role(a1);
            assert(emit_log_event_type(v).bytes =~= p0 + p1 + p2);
            if ends_within(s, i, p0) {
            } else if ends_within(s, i, p0 + p1) {
                lemma_cut_cases(s, i, p0, p1);
                lemma_u8_roundtrip(13, s, i);
                lemma_small_str_cut(a0, s, i + p0.len());
            } else {
                lemma_cut_cases(s, i, p0 + p1, p2);
                lemma_holds_split(s, i, p0, p1);
                lemma_u8_roundtrip(13, s, i);
                lemma_small_str_roundtrip(a0, s, i + p0.len());
            }
        },
        _ => {},
    }
}

#[verifier::spinoff_prover]
#[verifier::rlimit(50)]
proof fn lemma_new_client_connection_accepted_cut(v: SpecLogEventType, s: Seq<u8>, i: int)
    requires
        v is NewClientConnectionAccepted,
        emit_log_event_type(v).ok,
        ends_within(s, i, emit_log_event_type(v).bytes),
    ensures
        parse_log_event_type(s, i) == Err::<(SpecLogEventType, int), WireError>(
            WireError::UnexpectedEof,
        ),
{
    match v {
        SpecLogEventType::NewClientConnectionAccepted(a0, a1) => {
            let p0 = enc_u8(14);
            let p1 = enc_u64(a0);
            let p2 = enc_socket_addr(a1);
            assert(emit_log_event_type(v).bytes =~= p0 + p1 + p2);
            if ends_within(s, i, p0) {
            } else if ends_within(s, i, p0 + p1) {
                lemma_cut_cases(s, i, p0, p1);
                lemma_u8_roundtrip(14, s, i);
            } else {
                lemma_cut_cases(s, i, p0 + p1, p2);
                lemma_holds_split(s, i, p0, p1);
                lemma_u8_roundtrip(14, s, i);
                lemma_u64_roundtrip(a0, s, i + p0.len());
                lemma_socket_addr_cut(a1, s, i + p0.len() + p1.len());
            }
        },
        _ => {},
    }
}

#[verifier::spinoff_prover]
#[verifier::rlimit(50)]
proof fn lemma_client_connection_accept_failed_cut(v: SpecLogEventType, s: Seq<u8>, i: int)
    requires
        v is ClientConnectionAcceptFailed,
        emit_log_event_type(v).ok,
        ends_within(s, i, emit_log_event_type(v).bytes),
    ensures
        parse_log_event_type(s, i) == Err::<(SpecLogEventType, int), WireError>(
            WireError::UnexpectedEof,
        ),
{
    match v {
        SpecLogEventType::ClientConnectionAcceptFailed(a0, a1) => {
            let p0 = enc_u8(15);
            let p1 = enc_opt_socket_addr(a0);
            let p2 = enc_io_error(a1);
            assert(emit_log_event_type(v).bytes =~= p0 + p1 + p2);
            if ends_within(s, i, p0) {
            } else if ends_within(s, i, p0 + p1) {
                lemma_cut_cases(s, i, p0, p1);
                lemma_u8_roundtrip(15, s, i);
                lemma_opt_socket_addr_cut(a0, s, i + p0.len());
            } else {
                lemma_cut_cases(s, i, p0 + p1, p2);
                lemma_holds_split(s, i, p0, p1);
                lemma_u8_roundtrip(15, s, i);
                lemma_opt_socket_addr_roundtrip(a0, s, i + p0.len());
            }
        },
        _ => {},
    }
}

#[verifier::spinoff_prover]
#[verifier::rlimit(50)]
proof fn lemma_client_requested_unsupported_version_cut(v: SpecLogEventType, s: Seq<u8>, i: int)
    requires
        v is ClientRequestedUnsupportedVersion,
        emit_log_event_type(v).ok,
        ends_within(s, i, emit_log_event_type(v).bytes),
    ensures
        parse_log_event_type(s, i) == Err::<(SpecLogEventType, int), WireError>(
            WireError::UnexpectedEof,
        ),
{
    match v {
        SpecLogEventType::ClientRequestedUnsupportedVersion(a0, a1) => {
            let p0 = enc_u8(16);
            let p1 = enc_u64(a0);
            let p2 = enc_u8(a1);
            assert(emit_log_event_type(v).bytes =~= p0 + p1 + p2);
            if ends_within(s, i, p0) {
            } else if ends_within(s, i, p0 + p1) {
                lemma_cut_cases(s, i, p0, p1);
                lemma_u8_roundtrip(16, s, i);
            } else {
                lemma_cut_cases(s, i, p0 + p1, p2);
                lemma_holds_split(s, i, p0, p1);
                lemma_u8_roundtrip(16, s, i);
                lemma_u64_roundtrip(a0, s, i + p0.len());
            }
        },
        _ => {},
    }
}

#[verifier::spinoff_prover]
#[verifier::rlimit(50)]
proof fn lemma_client_requested_unsupported_command_cut(v: SpecLogEventType, s: Seq<u8>, i: int)
    requires
        v is ClientRequestedUnsupportedCommand,
        emit_log_event_type(v).ok,
        ends_within(s, i, emit_log_event_type(v).bytes),
    ensures
        parse_log_event_type(s, i) == Err::<(SpecLogEventType, int), WireError>(
            WireError::UnexpectedEof,
        ),
{
    match v {
        SpecLogEventType::ClientRequestedUnsupportedCommand(a0, a1) => {
            let p0 = enc_u8(17);
            let p1 = enc_u64(a0);
            let p2 = enc_u8(a1);
            assert(emit_log_event_type(v).bytes =~= p0 + p1 + p2);
            if ends_within(s, i, p0) {
            } else if ends_within(s, i, p0 + p1) {
                lemma_cut_cases(s, i, p0, p1);
                lemma_u8_roundtrip(17, s, i);
            } else {
                lemma_cut_cases(s, i, p0 + p1, p2);
                lemma_holds_split(s, i, p0, p1);
                lemma_u8_roundtrip(17, s, i);
                lemma_u64_roundtrip(a0, s, i + p0.len());
            }
        },
        _ => {},
    }
}

#[verifier::spinoff_prover]
#[verifier::rlimit(50)]
proof fn lemma_client_requested_unsupported_atyp_cut(v: SpecLogEventType, s: Seq<u8>, i: int)
    requires
        v is ClientRequestedUnsupportedAtyp,
        emit_log_event_type(v).ok,
        ends_within(s, i, emit_log_event_type(v).bytes),
    ensures
        parse_log_event_type(s, i) == Err::<(SpecLogEventType, int), WireError>(
            WireError::UnexpectedEof,
        ),
{
    match v {
        SpecLogEventType::ClientRequestedUnsupportedAtyp(a0, a1) => {
            let p0 = enc_u8(18);
            let p1 = enc_u64(a0);
            let p2 = enc_u8(a1);
            assert(emit_log_event_type(v).bytes =~= p0 + p1 + p2);
            if ends_within(s, i, p0) {
            } else if ends_within(s, i, p0 + p1) {
                lemma_cut_cases(s, i, p0, p1);
                lemma_u8_roundtrip(18, s, i);
            } else {
                lemma_cut_cases(s, i, p0 + p1, p2);
                lemma_holds_split(s, i, p0, p1);
                lemma_u8_roundtrip(18, s, i);
                lemma_u64_roundtrip(a0, s, i + p0.len());
            }
        },
        _ => {},
    }
}

#[verifier::spinoff_prover]
#[verifier::rlimit(50)]
proof fn lemma_client_selected_auth_method_cut(v: SpecLogEventType, s: Seq<u8>, i: int)
    requires
        v is ClientSelectedAuthMethod,
        emit_log_event_type(v).ok,
        ends_within(s, i, emit_log_event_type(v).bytes),
    ensures
        parse_log_event_type(s, i) == Err::<(SpecLogEventType, int), WireError>(
            WireError::UnexpectedEof,
        ),
{
    match v {
        SpecLogEventType::ClientSelectedAuthMethod(a0, a1) => {
            let p0 = enc_u8(19);
            let p1 = enc_u64(a0);
            let p2 = enc_auth_method(a1);
            assert(emit_log_event_type(v).bytes =~= p0 + p1 + p2);
            if ends_within(s, i, p0) {
            } else if ends_within(s, i, p0 + p1) {
                lemma_cut_cases(s, i, p0, p1);
                lemma_u8_roundtrip(19, s, i);
            } else {
                lemma_cut_cases(s, i, p0 + p1, p2);
                lemma_holds_split(s, i, p0, p1);
                lemma_u8_roundtrip(19, s, i);
                lemma_u64_roundtrip(a0, s, i + p0.len());
            }
        },
        _ => {},
    }
}

#[verifier::spinoff_prover]
#[verifier::rlimit(50)]
proof fn lemma_client_requested_unsupported_userpass_version_cut(v: SpecLogEventType, s: Seq<u8>,
    i: int)
    requires
        v is ClientRequestedUnsupportedUserpassVersion,
        emit_log_event_type(v).ok,
        ends_within(s, i, emit_log_event_type(v).bytes),
    ensures
        parse_log_event_type(s, i) == Err::<(SpecLogEventType, int), WireError>(
            WireError::UnexpectedEof,
        ),
{
    match v {
        SpecLogEventType::ClientRequestedUnsupportedUserpassVersion(a0, a1) => {
            let p0 = enc_u8(20);
            let p1 = enc_u64(a0);
            let p2 = enc_u8(a1);
            assert(emit_log_event_type(v).bytes =~= p0 + p1 + p2);
            if ends_within(s, i, p0) {
            } else if ends_within(s, i, p0 + p1) {
                lemma_cut_cases(s, i, p0, p1);
                lemma_u8_roundtrip(20, s, i);
            } else {
                lemma_cut_cases(s, i, p0 + p1, p2);
                lemma_holds_split(s, i, p0, p1);
                lemma_u8_roundtrip(20, s, i);
                lemma_u64_roundtrip(a0, s, i + p0.len());
            }
        },
        _ => {},
    }
}

#[verifier::spinoff_prover]
#[verifier::rlimit(50)]
proof fn lemma_client_authenticated_with_userpass_cut(v: SpecLogEventType, s: Seq<u8>, i: int)
    requires
        v is ClientAuthenticatedWithUserpass,
        emit_log_event_type(v).ok,
        ends_within(s, i, emit_log_event_type(v).bytes),
    ensures
        parse_log_event_type(s, i) == Err::<(SpecLogEventType, int), WireError>(
            WireError::UnexpectedEof,
        ),
{
    match v {
        SpecLogEventType::ClientAuthenticatedWithUserpass(a0, a1, a2) => {
            let p0 = enc_u8(21);
            let p1 = enc_u64(a0);
            let p2 = emit_small_str(a1).bytes + enc_bool(a2);
            assert(emit_log_event_type(v).bytes =~= p0 + p1 + p2);
            if ends_within(s, i, p0) {
            } else if ends_within(s, i, p0 + p1) {
                lemma_cut_cases(s, i, p0, p1);
                lemma_u8_roundtrip(21, s, i);
            } else {
                lemma_cut_cases(s, i, p0 + p1, p2);
                lemma_holds_split(s, i, p0, p1);
                lemma_u8_roundtrip(21, s, i);
                lemma_u64_roundtrip(a0, s, i + 1);
                lemma_short_length_read_as_long(p2, encode_utf8(a1).len(), s, i + 9);
            }
        },
        _ => {},
    }
}

#[verifier::spinoff_prover]
#[verifier::rlimit(50)]
proof fn lemma_client_socks_request_cut(v: SpecLogEventType, s: Seq<u8>, i: int)
    requires
        v is ClientSocksRequest,
        emit_log_event_type(v).ok,
        ends_within(s, i, emit_log_event_type(v).bytes),
    ensures
        parse_log_event_type(s, i) == Err::<(SpecLogEventType, int), WireError>(
            WireError::UnexpectedEof,
        ),
{
    match v {
        SpecLogEventType::ClientSocksRequest(a0, a1) => {
            let p0 = enc_u8(22);
            let p1 = enc_u64(a0);
            let p2 = emit_socks_request(a1).bytes;
            assert(emit_log_event_type(v).bytes =~= p0 + p1 + p2);
            if ends_within(s, i, p0) {
            } else if ends_within(s, i, p0 + p1) {
                lemma_cut_cases(s, i, p0, p1);
                lemma_u8_roundtrip(22, s, i);
            } else {
                lemma_cut_cases(s, i, p0 + p1, p2);
                lemma_holds_split(s, i, p0, p1);
                lemma_u8_roundtrip(22, s, i);
                lemma_u64_roundtrip(a0, s, i + p0.len());
                lemma_socks_request_cut(a1, s, i + p0.len() + p1.len());
            }
        },
        _ => {},
    }
}

#[verifier::spinoff_prover]
#[verifier::rlimit(50)]
proof fn lemma_client_dns_lookup_cut(v: SpecLogEventType, s: Seq<u8>, i: int)
    requires
        v is ClientDnsLookup,
        emit_log_event_type(v).ok,
        ends_within(s, i, emit_log_event_type(v).bytes),
    ensures
        parse_log_event_type(s, i) == Err::<(SpecLogEventType, int), WireError>(
            WireError::UnexpectedEof,
        ),
{
    match v {
        SpecLogEventType::ClientDnsLookup(a0, a1) => {
            let p0 = enc_u8(23);
            let p1 = enc_u64(a0);
            let p2 = emit_small_str(a1).bytes;
            assert(emit_log_event_type(v).bytes =~= p0 + p1 + p2);
            if ends_within(s, i, p0) {
            } else if ends_within(s, i, p0 + p1) {
                lemma_cut_cases(s, i, p0, p1);
                lemma_u8_roundtrip(23, s, i);
            } else {
                lemma_cut_cases(s, i, p0 + p1, p2);
                lemma_holds_split(s, i, p0, p1);
                lemma_u8_roundtrip(23, s, i);
                lemma_u64_roundtrip(a0, s, i + p0.len());
                lemma_small_str_cut(a1, s, i + p0.len() + p1.len());
            }
        },
        _ => {},
    }
}

#[verifier::spinoff_prover]
#[verifier::rlimit(50)]
proof fn lemma_client_attempting_connect_cut(v: SpecLogEventType, s: Seq<u8>, i: int)
    requires
        v is ClientAttemptingConnect,
        emit_log_event_type(v).ok,
        ends_within(s, i, emit_log_event_type(v).bytes),
    ensures
        parse_log_event_type(s, i) == Err::<(SpecLogEventType, int), WireError>(
            WireError::UnexpectedEof,
        ),
{
    match v {
        SpecLogEventType::ClientAttemptingConnect(a0, a1) => {
            let p0 = enc_u8(24);
            let p1 = enc_u64(a0);
            let p2 = enc_socket_addr(a1);
            assert(emit_log_event_type(v).bytes =~= p0 + p1 + p2);
            if ends_within(s, i, p0) {
            } else if ends_within(s, i, p0 + p1) {
                lemma_cut_cases(s, i, p0, p1);
                lemma_u8_roundtrip(24, s, i);
            } else {
                lemma_cut_cases(s, i, p0 + p1, p2);
                lemma_holds_split(s, i, p0, p1);
                lemma_u8_roundtrip(24, s, i);
                lemma_u64_roundtrip(a0, s, i + p0.len());
                lemma_socket_addr_cut(a1, s, i + p0.len() + p1.len());
            }
        },
        _ => {},
    }
}

#[verifier::spinoff_prover]
#[verifier::rlimit(50)]
proof fn lemma_client_connection_attempt_bind_failed_cut(v: SpecLogEventType, s: Seq<u8>, i: int)
    requires
        v is ClientConnectionAttemptBindFailed,
        emit_log_event_type(v).ok,
        ends_within(s, i, emit_log_event_type(v).bytes),
    ensures
        parse_log_event_type(s, i) == Err::<(SpecLogEventType, int), WireError>(
            WireError::UnexpectedEof,
        ),
{
    match v {
        SpecLogEventType::ClientConnectionAttemptBindFailed(a0, a1) => {
            let p0 = enc_u8(25);
            let p1 = enc_u64(a0);
            let p2 = enc_io_error(a1);
            assert(emit_log_event_type(v).bytes =~= p0 + p1 + p2);
            if ends_within(s, i, p0) {
            } else if ends_within(s, i, p0 + p1) {
                lemma_cut_cases(s, i, p0, p1);
                lemma_u8_roundtrip(25, s, i);
            } else {
                lemma_cut_cases(s, i, p0 + p1, p2);
                lemma_holds_split(s, i, p0, p1);
                lemma_u8_roundtrip(25, s, i);
                lemma_u64_roundtrip(a0, s, i + p0.len());
            }
        },
        _ => {},
    }
}

#[verifier::spinoff_prover]
#[verifier::rlimit(50)]
proof fn lemma_client_connection_attempt_connect_failed_cut(v: SpecLogEventType, s: Seq<u8>, i: int)
    requires
        v is ClientConnectionAttemptConnectFailed,
        emit_log_event_type(v).ok,
        ends_within(s, i, emit_log_event_type(v).bytes),
    ensures
        parse_log_event_type(s, i) == Err::<(SpecLogEventType, int), WireError>(
            WireError::UnexpectedEof,
        ),
{
    match v {
        SpecLogEventType::ClientConnectionAttemptConnectFailed(a0, a1) => {
            let p0 = enc_u8(26);
            let p1 = enc_u64(a0);
            let p2 = enc_io_error(a1);
            assert(emit_log_event_type(v).bytes =~= p0 + p1 + p2);
            if ends_within(s, i, p0) {
            } else if ends_within(s, i, p0 + p1) {
                lemma_cut_cases(s, i, p0, p1);
                lemma_u8_roundtrip(26, s, i);
            } else {
                lemma_cut_cases(s, i, p0 + p1, p2);
                lemma_holds_split(s, i, p0, p1);
                lemma_u8_roundtrip(26, s, i);
                lemma_u64_roundtrip(a0, s, i + p0.len());
            }
        },
        _ => {},
    }
}

#[verifier::spinoff_prover]
#[verifier::rlimit(50)]
proof fn lemma_client_failed_to_connect_to_destination_cut(v: SpecLogEventType, s: Seq<u8>, i: int)
    requires
        v is ClientFailedToConnectToDestination,
        emit_log_event_type(v).ok,
        ends_within(s, i, emit_log_event_type(v).bytes),
    ensures
        parse_log_event_type(s, i) == Err::<(SpecLogEventType, int), WireError>(
            WireError::UnexpectedEof,
        ),
{
    match v {
        SpecLogEventType::ClientFailedToConnectToDestination(a0) => {
            let p0 = enc_u8(27);
            let p1 = enc_u64(a0);
            assert(emit_log_event_type(v).bytes =~= p0 + p1);
            if ends_within(s, i, p0) {
            } else {
                lemma_cut_cases(s, i, p0, p1);
                lemma_u8_roundtrip(27, s, i);
            }
        },
        _ => {},
    }
}

#[verifier::spinoff_prover]
#[verifier::rlimit(50)]
proof fn lemma_client_connected_to_destination_cut(v: SpecLogEventType, s: Seq<u8>, i: int)
    requires
        v is ClientConnectedToDestination,
        emit_log_event_type(v).ok,
        ends_within(s, i, emit_log_event_type(v).bytes),
    ensures
        parse_log_event_type(s, i) == Err::<(SpecLogEventType, int), WireError>(
            WireError::UnexpectedEof,
        ),
{
    match v {
        SpecLogEventType::ClientConnectedToDestination(a0, a1) => {
            let p0 = enc_u8(28);
            let p1 = enc_u64(a0);
            let p2 = enc_socket_addr(a1);
            assert(emit_log_event_type(v).bytes =~= p0 + p1 + p2);
            if ends_within(s, i, p0) {
            } else if ends_within(s, i, p0 + p1) {
                lemma_cut_cases(s, i, p0, p1);
                lemma_u8_roundtrip(28, s, i);
            } else {
                lemma_cut_cases(s, i, p0 + p1, p2);
                lemma_holds_split(s, i, p0, p1);
                lemma_u8_roundtrip(28, s, i);
                lemma_u64_roundtrip(a0, s, i + p0.len());
                lemma_socket_addr_cut(a1, s, i + p0.len() + p1.len());
            }
        },
        _ => {},
    }
}

#[verifier::spinoff_prover]
#[verifier::rlimit(50)]
proof fn lemma_client_bytes_sent_cut(v: SpecLogEventType, s: Seq<u8>, i: int)
    requires
        v is ClientBytesSent,
        emit_log_event_type(v).ok,
        ends_within(s, i, emit_log_event_type(v).bytes),
    ensures
        parse_log_event_type(s, i) == Err::<(SpecLogEventType, int), WireError>(
            WireError::UnexpectedEof,
        ),
{
    match v {
        SpecLogEventType::ClientBytesSent(a0, a1) => {
            let p0 = enc_u8(29);
            let p1 = enc_u64(a0);
            let p2 = enc_u64(a1);
            assert(emit_log_event_type(v).bytes =~= p0 + p1 + p2);
            if ends_within(s, i, p0) {
            } else if ends_within(s, i, p0 + p1) {
                lemma_cut_cases(s, i, p0, p1);
                lemma_u8_roundtrip(29, s, i);
            } else {
                lemma_cut_cases(s, i, p0 + p1, p2);
                lemma_holds_split(s, i, p0, p1);
                lemma_u8_roundtrip(29, s, i);
                lemma_u64_roundtrip(a0, s, i + p0.len());
            }
        },
        _ => {},
    }
}

#[verifier::spinoff_prover]
#[verifier::rlimit(50)]
proof fn lemma_client_bytes_received_cut(v: SpecLogEventType, s: Seq<u8>, i: int)
    requires
        v is ClientBytesReceived,
        emit_log_event_type(v).ok,
        ends_within(s, i, emit_log_event_type(v).bytes),
    ensures
        parse_log_event_type(s, i) == Err::<(SpecLogEventType, int), WireError>(
            WireError::UnexpectedEof,
        ),
{
    match v {
        SpecLogEventType::ClientBytesReceived(a0, a1) => {
            let p0 = enc_u8(30);
            let p1 = enc_u64(a0);
            let p2 = enc_u64(a1);
            assert(emit_log_event_type(v).bytes =~= p0 + p1 + p2);
            if ends_within(s, i, p0) {
            } else if ends_within(s, i, p0 + p1) {
                lemma_cut_cases(s, i, p0, p1);
                lemma_u8_roundtrip(30, s, i);
            } else {
                lemma_cut_cases(s, i, p0 + p1, p2);
                lemma_holds_split(s, i, p0, p1);
                lemma_u8_roundtrip(30, s, i);
                lemma_u64_roundtrip(a0, s, i + p0.len());
            }
        },
        _ => {},
    }
}

#[verifier::spinoff_prover]
#[verifier::rlimit(50)]
proof fn lemma_client_source_shutdown_cut(v: SpecLogEventType, s: Seq<u8>, i: int)
    requires
        v is ClientSourceShutdown,
        emit_log_event_type(v).ok,
        ends_within(s, i, emit_log_event_type(v).bytes),
    ensures
        parse_log_event_type(s, i) == Err::<(SpecLogEventType, int), WireError>(
            WireError::UnexpectedEof,
        ),
{
    match v {
        SpecLogEventType::ClientSourceShutdown(a0) => {
            let p0 = enc_u8(31);
            let p1 = enc_u64(a0);
            assert(emit_log_event_type(v).bytes =~= p0 + p1);
            if ends_within(s, i, p0) {
            } else {
                lemma_cut_cases(s, i, p0, p1);
                lemma_u8_roundtrip(31, s, i);
            }
        },
        _ => {},
    }
}

#[verifier::spinoff_prover]
#[verifier::rlimit(50)]
proof fn lemma_client_destination_shutdown_cut(v: SpecLogEventType, s: Seq<u8>, i: int)
    requires
        v is ClientDestinationShutdown,
        emit_log_event_type(v).ok,
        ends_within(s, i, emit_log_event_type(v).bytes),
    ensures
        parse_log_event_type(s, i) == Err::<(SpecLogEventType, int), WireError>(
            WireError::UnexpectedEof,
        ),
{
    match v {
        SpecLogEventType::ClientDestinationShutdown(a0) => {
            let p0 = enc_u8(32);
            let p1 = enc_u64(a0);
            assert(emit_log_event_type(v).bytes =~= p0 + p1);
            if ends_within(s, i, p0) {
            } else {
                lemma_cut_cases(s, i, p0, p1);
                lemma_u8_roundtrip(32, s, i);
            }
        },
        _ => {},
    }
}

#[verifier::spinoff_prover]
#[verifier::rlimit(50)]
proof fn lemma_client_connection_finished_cut(v: SpecLogEventType, s: Seq<u8>, i: int)
    requires
        v is ClientConnectionFinished,
        emit_log_event_type(v).ok,
        ends_within(s, i, emit_log_event_type(v).bytes),
    ensures
        parse_log_event_type(s, i) == Err::<(SpecLogEventType, int), WireError>(
            WireError::UnexpectedEof,
        ),
{
    match v {
        SpecLogEventType::ClientConnectionFinished(a0, a1, a2, a3) => {
            let p0 = enc_u8(33);
            let p1 = enc_u64(a0);
            let p2 = enc_u64(a1);
            let p3 = enc_u64(a2);
            let p4 = enc_unit_result(a3);
            assert(emit_log_event_type(v).bytes =~= p0 + p1 + p2 + p3 + p4);
            if ends_within(s, i, p0) {
            } else if ends_within(s, i, p0 + p1) {
                lemma_cut_cases(s, i, p0, p1);
                lemma_u8_roundtrip(33, s, i);
            } else if ends_within(s, i, p0 + p1 + p2) {
                lemma_cut_cases(s, i, p0 + p1, p2);
                lemma_holds_split(s, i, p0, p1);
                lemma_u8_roundtrip(33, s, i);
                lemma_u64_roundtrip(a0, s, i + p0.len());
            } else if ends_within(s, i, p0 + p1 + p2 + p3) {
                lemma_cut_cases(s, i, p0 + p1 + p2, p3);
                lemma_holds_split(s, i, p0 + p1, p2);
                lemma_holds_split(s, i, p0, p1);
                lemma_u8_roundtrip(33, s, i);
                lemma_u64_roundtrip(a0, s, i + p0.len());
                lemma_u64_roundtrip(a1, s, i + p0.len() + p1.len());
            } else {
                lemma_cut_cases(s, i, p0 + p1 + p2 + p3, p4);
                lemma_holds_split(s, i, p0 + p1 + p2, p3);
                lemma_holds_split(s, i, p0 + p1, p2);
                lemma_holds_split(s, i, p0, p1);
                lemma_u8_roundtrip(33, s, i);
                lemma_u64_roundtrip(a0, s, i + p0.len());
                lemma_u64_roundtrip(a1, s, i + p0.len() + p1.len());
                lemma_u64_roundtrip(a2, s, i + p0.len() + p1.len() + p2.len());
                lemma_unit_result_cut(a3, s, i + p0.len() + p1.len() + p2.len() + p3.len());
            }
        },
        _ => {},
    }
}

/// An event type that was written in full, read from input that stops part
/// way through it, is refused as unexpected end of input: the reader neither
/// reports bad data for it nor makes up a value.
pub proof fn law_truncated_log_event_type(v: SpecLogEventType, s: Seq<u8>, i: int)
    requires
        emit_log_event_type(v).ok,
        ends_within(s, i, emit_log_event_type(v).bytes),
    ensures
        parse_log_event_type(s, i) == Err::<(SpecLogEventType, int), WireError>(
            WireError::UnexpectedEof,
        ),
{
    match v {
        SpecLogEventType::NewListeningSocket(..) => lemma_new_listening_socket_cut(v, s, i),
        SpecLogEventType::FailedBindListeningSocket(..) => lemma_failed_bind_listening_socket_cut(v, s, i),
        SpecLogEventType::FailedBindAnySocketAborting => lemma_failed_bind_any_socket_aborting_cut(v, s, i),
        SpecLogEventType::RemovedListeningSocket(..) => lemma_removed_listening_socket_cut(v, s, i),
        SpecLogEventType::LoadingUsersFromFile(..) => lemma_loading_users_from_file_cut(v, s, i),
        SpecLogEventType::UsersLoadedFromFile(..) => lemma_users_loaded_from_file_cut(v, s, i),
        SpecLogEventType::StartingUpWithSingleDefaultUser => lemma_starting_up_with_single_default_user_cut(v, s, i),
        SpecLogEventType::SavingUsersToFile(..) => lemma_saving_users_to_file_cut(v, s, i),
        SpecLogEventType::UsersSavedToFile(..) => lemma_users_saved_to_file_cut(v, s, i),
        SpecLogEventType::UserRegistered(..) => lemma_user_registered_cut(v, s, i),
        SpecLogEventType::UserReplacedByArgs(..) => lemma_user_replaced_by_args_cut(v, s, i),
        SpecLogEventType::UserUpdated(..) => lemma_user_updated_cut(v, s, i),
        SpecLogEventType::UserDeleted(..) => lemma_user_deleted_cut(v, s, i),
        SpecLogEventType::NewClientConnectionAccepted(..) => lemma_new_client_connection_accepted_cut(v, s, i),
        SpecLogEventType::ClientConnectionAcceptFailed(..) => lemma_client_connection_accept_failed_cut(v, s, i),
        SpecLogEventType::ClientRequestedUnsupportedVersion(..) => lemma_client_requested_unsupported_version_cut(v, s, i),
        SpecLogEventType::ClientRequestedUnsupportedCommand(..) => lemma_client_requested_unsupported_command_cut(v, s, i),
        SpecLogEventType::ClientRequestedUnsupportedAtyp(..) => lemma_client_requested_unsupported_atyp_cut(v, s, i),
        SpecLogEventType::ClientSelectedAuthMethod(..) => lemma_client_selected_auth_method_cut(v,
            s, i),
        SpecLogEventType::ClientRequestedUnsupportedUserpassVersion(..) => lemma_client_requested_unsupported_userpass_version_cut(v, s, i),
        SpecLogEventType::ClientAuthenticatedWithUserpass(..) => lemma_client_authenticated_with_userpass_cut(v, s, i),
        SpecLogEventType::ClientSocksRequest(..) => lemma_client_socks_request_cut(v, s, i),
        SpecLogEventType::ClientDnsLookup(..) => lemma_client_dns_lookup_cut(v, s, i),
        SpecLogEventType::ClientAttemptingConnect(..) => lemma_client_attempting_connect_cut(v, s,
            i),
        SpecLogEventType::ClientConnectionAttemptBindFailed(..) => lemma_client_connection_attempt_bind_failed_cut(v, s, i),
        SpecLogEventType::ClientConnectionAttemptConnectFailed(..) => lemma_client_connection_attempt_connect_failed_cut(v, s, i),
        SpecLogEventType::ClientFailedToConnectToDestination(..) => lemma_client_failed_to_connect_to_destination_cut(v, s, i),
        SpecLogEventType::ClientConnectedToDestination(..) => lemma_client_connected_to_destination_cut(v, s, i),
        SpecLogEventType::ClientBytesSent(..) => lemma_client_bytes_sent_cut(v, s, i),
        SpecLogEventType::ClientBytesReceived(..) => lemma_client_bytes_received_cut(v, s, i),
        SpecLogEventType::ClientSourceShutdown(..) => lemma_client_source_shutdown_cut(v, s, i),
        SpecLogEventType::ClientDestinationShutdown(..) => lemma_client_destination_shutdown_cut(v,
            s, i),
        SpecLogEventType::ClientConnectionFinished(..) => lemma_client_connection_finished_cut(v,
            s, i),
    }
}

/// A whole event written in full, read from input that stops part way
/// through it, is refused as unexpected end of input.
pub proof fn law_truncated_log_event(e: SpecLogEvent, s: Seq<u8>, i: int)
    requires
        emit_log_event(e).ok,
        ends_within(s, i, emit_log_event(e).bytes),
    ensures
        parse_log_event(s, i) == Err::<(SpecLogEvent, int), WireError>(WireError::UnexpectedEof),
{
    lemma_cut_cases(s, i, enc_i64(e.timestamp), emit_log_event_type(e.data).bytes);
    if !ends_within(s, i, enc_i64(e.timestamp)) {
        lemma_i64_roundtrip(e.timestamp, s, i);
        law_truncated_log_event_type(e.data, s, i + 8);
    }
}

/// The user name of a successful or failed login is written with a one-byte
/// length `n` and read with a two-byte one: the length then reads as at
/// least `256 * n`, more than the bytes written, so input that stops before
/// the end still reads as its end.
proof fn lemma_short_length_read_as_long(b: Seq<u8>, n: nat, s: Seq<u8>, j: int)
    requires
        b.len() == n + 2,
        b[0] == n,
        ends_within(s, j, b),
    ensures
        parse_string(s, j) == Err::<(Seq<char>, int), WireError>(WireError::UnexpectedEof),
{
    if j + 2 <= s.len() {
        let w = s.subrange(j, j + 2);
        assert(w[0] == s.subrange(j, s.len() as int)[0]);
        assert(w[0] == b[0]);
        assert(w.drop_last().drop_last() =~= Seq::<u8>::empty());
        assert(w.drop_last().last() == w[0]);
        reveal_with_fuel(crate::wire::be_value, 3);
        assert(crate::wire::be_value(w) == w[0] * 256 + w[1]);
    }
}

} // verus!
