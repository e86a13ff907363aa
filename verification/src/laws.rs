//! What holds of writing and reading as a whole: what is written reads back,
//! and a reader never looks past the value it reads.
//!
//! Each law is stated on a buffer that starts with what was written and may
//! go on with anything (`rest`), the way a stream holds one value after
//! another.
use vstd::prelude::*;
use vstd::utf8::encode_utf8;

use crate::io_error::{
    enc_io_error, io_kind_read_back, lemma_io_error_roundtrip, parse_io_error, IoErrorKind,
};
use crate::logging::{
    emit_log_event, lemma_log_event_extend, lemma_log_event_roundtrip,
    lemma_log_event_type_read_back_identity, log_event_read_back, log_event_type_kinds_listed,
    parse_log_event, SpecLogEvent,
};
use crate::net::{enc_socket_addr, lemma_socket_addr_roundtrip, parse_socket_addr, SocketAddr};
use crate::socks5::{
    emit_socks_request, lemma_socks5_extend, lemma_socks_request_roundtrip, parse_socks_request,
    SpecSocksRequest,
};
use crate::text::{
    emit_small_str, emit_str, lemma_small_str_roundtrip, lemma_str_roundtrip, parse_small_string,
    parse_string,
};
use crate::users::{
    enc_users_loading_error, lemma_users_loading_error_roundtrip, parse_users_loading_error,
    users_error_read_back, UsersLoadingError,
};
use crate::wire::{lemma_holds_prefix, stable, WireError};

verus! {

/// A log event written in full reads back from the start of the buffer as
/// the event it was, its I/O error kinds read back as
/// [`crate::io_error::io_kind_read_back`] says, and the read ends where the
/// event's bytes end. `ClientAuthenticatedWithUserpass` is left out: its user
/// name is written with a one-byte length and read with a two-byte one.
pub proof fn law_log_event_roundtrip(e: SpecLogEvent, rest: Seq<u8>)
    requires
        emit_log_event(e).ok,
        !(e.data is ClientAuthenticatedWithUserpass),
    ensures
        parse_log_event(emit_log_event(e).bytes + rest, 0) == Ok::<(SpecLogEvent, int), WireError>(
            (log_event_read_back(e), emit_log_event(e).bytes.len() as int),
        ),
{
    lemma_holds_prefix(emit_log_event(e).bytes, rest);
    lemma_log_event_roundtrip(e, emit_log_event(e).bytes + rest, 0);
}

/// A log event written in full whose I/O errors all have a number reads back
/// as itself (`ClientAuthenticatedWithUserpass` left out as above).
pub proof fn law_log_event_reads_back_itself(e: SpecLogEvent, rest: Seq<u8>)
    requires
        emit_log_event(e).ok,
        !(e.data is ClientAuthenticatedWithUserpass),
        log_event_type_kinds_listed(e.data),
    ensures
        parse_log_event(emit_log_event(e).bytes + rest, 0) == Ok::<(SpecLogEvent, int), WireError>(
            (e, emit_log_event(e).bytes.len() as int),
        ),
{
    law_log_event_roundtrip(e, rest);
    lemma_log_event_type_read_back_identity(e.data);
}

/// A log event read that did not run out of input gives the same answer,
/// value and end or refusal, whatever follows in the stream.
pub proof fn law_log_event_no_lookahead(s: Seq<u8>, t: Seq<u8>)
    ensures
        stable(parse_log_event(s, 0), parse_log_event(s + t, 0)),
{
    lemma_log_event_extend(s, 0, t);
}

/// A SOCKS request written in full reads back as itself.
pub proof fn law_socks_request_roundtrip(r: SpecSocksRequest, rest: Seq<u8>)
    requires
        emit_socks_request(r).ok,
    ensures
        parse_socks_request(emit_socks_request(r).bytes + rest, 0) == Ok::<
            (SpecSocksRequest, int),
            WireError,
        >((r, emit_socks_request(r).bytes.len() as int)),
{
    lemma_holds_prefix(emit_socks_request(r).bytes, rest);
    lemma_socks_request_roundtrip(r, emit_socks_request(r).bytes + rest, 0);
}

/// A SOCKS request read that did not run out of input gives the same answer
/// whatever follows.
pub proof fn law_socks_request_no_lookahead(s: Seq<u8>, t: Seq<u8>)
    ensures
        stable(parse_socks_request(s, 0), parse_socks_request(s + t, 0)),
{
    lemma_socks5_extend(s, 0, t);
}

/// A socket address reads back as itself.
pub proof fn law_socket_addr_roundtrip(a: SocketAddr, rest: Seq<u8>)
    ensures
        parse_socket_addr(enc_socket_addr(a) + rest, 0) == Ok::<(SocketAddr, int), WireError>(
            (a, enc_socket_addr(a).len() as int),
        ),
{
    lemma_holds_prefix(enc_socket_addr(a), rest);
    lemma_socket_addr_roundtrip(a, enc_socket_addr(a) + rest, 0);
}

/// An error of loading users reads back as itself, its I/O error kind, if
/// any, read back as [`crate::io_error::io_kind_read_back`] says.
pub proof fn law_users_loading_error_roundtrip(e: UsersLoadingError, rest: Seq<u8>)
    ensures
        parse_users_loading_error(enc_users_loading_error(e) + rest, 0) == Ok::<
            (UsersLoadingError, int),
            WireError,
        >((users_error_read_back(e), enc_users_loading_error(e).len() as int)),
{
    lemma_holds_prefix(enc_users_loading_error(e), rest);
    lemma_users_loading_error_roundtrip(e, enc_users_loading_error(e) + rest, 0);
}

/// An I/O error kind reads back as itself, but for `Unrecognized`, which
/// has no number and reads back as `Other`.
pub proof fn law_io_error_roundtrip(k: IoErrorKind, rest: Seq<u8>)
    ensures
        parse_io_error(enc_io_error(k) + rest, 0) == Ok::<(IoErrorKind, int), WireError>(
            (io_kind_read_back(k), 1),
        ),
        io_kind_read_back(k) == k <==> k != IoErrorKind::Unrecognized,
{
    lemma_holds_prefix(enc_io_error(k), rest);
    lemma_io_error_roundtrip(k, enc_io_error(k) + rest, 0);
}

/// A string is written in full exactly when its UTF-8 encoding fits a
/// two-byte length, and then reads back as itself.
pub proof fn law_string_roundtrip(c: Seq<char>, rest: Seq<u8>)
    ensures
        emit_str(c).ok <==> encode_utf8(c).len() <= 0xFFFF,
        emit_str(c).ok ==> parse_string(emit_str(c).bytes + rest, 0) == Ok::<
            (Seq<char>, int),
            WireError,
        >((c, emit_str(c).bytes.len() as int)),
{
    if emit_str(c).ok {
        lemma_holds_prefix(emit_str(c).bytes, rest);
        lemma_str_roundtrip(c, emit_str(c).bytes + rest, 0);
    }
}

/// A short string is written in full exactly when its UTF-8 encoding fits a
/// one-byte length, and then reads back as itself.
pub proof fn law_small_string_roundtrip(c: Seq<char>, rest: Seq<u8>)
    ensures
        emit_small_str(c).ok <==> encode_utf8(c).len() <= 0xFF,
        emit_small_str(c).ok ==> parse_small_string(emit_small_str(c).bytes + rest, 0) == Ok::<
            (Seq<char>, int),
            WireError,
        >((c, emit_small_str(c).bytes.len() as int)),
{
    if emit_small_str(c).ok {
        lemma_holds_prefix(emit_small_str(c).bytes, rest);
        lemma_small_str_roundtrip(c, emit_small_str(c).bytes + rest, 0);
    }
}

} // verus!
