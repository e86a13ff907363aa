//! The kind of an I/O error, the only part of an error that the format
//! keeps: it is written as one byte, a number from a fixed table.
use vstd::prelude::*;

use crate::wire::{
    enc_u8, holds_at, lemma_primitives_extend, lemma_u8_roundtrip, lift, parse_u8, read_u8, stable,
    write_u8, Parsed, WireError,
};

verus! {

/// The kind of an I/O error. `Unrecognized` stands for every kind the table
/// has no number for.
#[derive(Debug, Clone, Copy, PartialEq, Eq, Structural)]
pub enum IoErrorKind {
    NotFound,
    PermissionDenied,
    ConnectionRefused,
    ConnectionReset,
    ConnectionAborted,
    NotConnected,
    AddrInUse,
    AddrNotAvailable,
    BrokenPipe,
    AlreadyExists,
    WouldBlock,
    InvalidInput,
    InvalidData,
    TimedOut,
    WriteZero,
    Interrupted,
    Unsupported,
    UnexpectedEof,
    OutOfMemory,
    Other,
    Unrecognized,
}

/// The number of each kind; a kind without a number is written as 0.
pub open spec fn io_kind_id(k: IoErrorKind) -> u8 {
    match k {
        IoErrorKind::NotFound => 1,
        IoErrorKind::PermissionDenied => 2,
        IoErrorKind::ConnectionRefused => 3,
        IoErrorKind::ConnectionReset => 4,
        IoErrorKind::ConnectionAborted => 5,
        IoErrorKind::NotConnected => 6,
        IoErrorKind::AddrInUse => 7,
        IoErrorKind::AddrNotAvailable => 8,
        IoErrorKind::BrokenPipe => 9,
        IoErrorKind::AlreadyExists => 10,
        IoErrorKind::WouldBlock => 11,
        IoErrorKind::InvalidInput => 12,
        IoErrorKind::InvalidData => 13,
        IoErrorKind::TimedOut => 14,
        IoErrorKind::WriteZero => 15,
        IoErrorKind::Interrupted => 16,
        IoErrorKind::Unsupported => 17,
        IoErrorKind::UnexpectedEof => 18,
        IoErrorKind::OutOfMemory => 19,
        IoErrorKind::Other => 20,
        IoErrorKind::Unrecognized => 0,
    }
}

/// The kind of each number; 0 and the numbers past the table read as `Other`.
pub open spec fn io_kind_from_id(id: u8) -> IoErrorKind {
    match id {
        1u8 => IoErrorKind::NotFound,
        2u8 => IoErrorKind::PermissionDenied,
        3u8 => IoErrorKind::ConnectionRefused,
        4u8 => IoErrorKind::ConnectionReset,
        5u8 => IoErrorKind::ConnectionAborted,
        6u8 => IoErrorKind::NotConnected,
        7u8 => IoErrorKind::AddrInUse,
        8u8 => IoErrorKind::AddrNotAvailable,
        9u8 => IoErrorKind::BrokenPipe,
        10u8 => IoErrorKind::AlreadyExists,
        11u8 => IoErrorKind::WouldBlock,
        12u8 => IoErrorKind::InvalidInput,
        13u8 => IoErrorKind::InvalidData,
        14u8 => IoErrorKind::TimedOut,
        15u8 => IoErrorKind::WriteZero,
        16u8 => IoErrorKind::Interrupted,
        17u8 => IoErrorKind::Unsupported,
        18u8 => IoErrorKind::UnexpectedEof,
        19u8 => IoErrorKind::OutOfMemory,
        _ => IoErrorKind::Other,
    }
}

/// What a kind reads back as: itself, but `Other` for `Unrecognized`.
pub open spec fn io_kind_read_back(k: IoErrorKind) -> IoErrorKind {
    if k == IoErrorKind::Unrecognized {
        IoErrorKind::Other
    } else {
        k
    }
}

pub open spec fn enc_io_error(k: IoErrorKind) -> Seq<u8> {
    enc_u8(io_kind_id(k))
}

/// Every byte reads as some kind: a read never refuses one.
pub open spec fn parse_io_error(s: Seq<u8>, i: int) -> Parsed<IoErrorKind> {
    match parse_u8(s, i) {
        Ok((id, j)) => Ok((io_kind_from_id(id), j)),
        Err(e) => Err(e),
    }
}

/// An error kind reads back as itself, or as `Other` when it has no number.
pub proof fn lemma_io_error_roundtrip(k: IoErrorKind, s: Seq<u8>, i: int)
    requires
        holds_at(s, i, enc_io_error(k)),
    ensures
        parse_io_error(s, i) == Ok::<(IoErrorKind, int), WireError>((io_kind_read_back(k), i + 1)),
{
    lemma_u8_roundtrip(io_kind_id(k), s, i);
}

pub proof fn lemma_io_error_extend(s: Seq<u8>, i: int, t: Seq<u8>)
    requires
        0 <= i,
    ensures
        stable(parse_io_error(s, i), parse_io_error(s + t, i)),
{
    lemma_primitives_extend(s, i, t);
}

impl IoErrorKind {
    /// The number of the kind.
    pub fn id(&self) -> (r: u8)
        ensures
            r == io_kind_id(*self),
    {
        match self {
            IoErrorKind::NotFound => 1,
            IoErrorKind::PermissionDenied => 2,
            IoErrorKind::ConnectionRefused => 3,
            IoErrorKind::ConnectionReset => 4,
            IoErrorKind::ConnectionAborted => 5,
            IoErrorKind::NotConnected => 6,
            IoErrorKind::AddrInUse => 7,
            IoErrorKind::AddrNotAvailable => 8,
            IoErrorKind::BrokenPipe => 9,
            IoErrorKind::AlreadyExists => 10,
            IoErrorKind::WouldBlock => 11,
            IoErrorKind::InvalidInput => 12,
            IoErrorKind::InvalidData => 13,
            IoErrorKind::TimedOut => 14,
            IoErrorKind::WriteZero => 15,
            IoErrorKind::Interrupted => 16,
            IoErrorKind::Unsupported => 17,
            IoErrorKind::UnexpectedEof => 18,
            IoErrorKind::OutOfMemory => 19,
            IoErrorKind::Other => 20,
            IoErrorKind::Unrecognized => 0,
        }
    }

    /// The kind of a number.
    pub fn from_id(id: u8) -> (r: IoErrorKind)
        ensures
            r == io_kind_from_id(id),
    {
        match id {
            1u8 => IoErrorKind::NotFound,
            2u8 => IoErrorKind::PermissionDenied,
            3u8 => IoErrorKind::ConnectionRefused,
            4u8 => IoErrorKind::ConnectionReset,
            5u8 => IoErrorKind::ConnectionAborted,
            6u8 => IoErrorKind::NotConnected,
            7u8 => IoErrorKind::AddrInUse,
            8u8 => IoErrorKind::AddrNotAvailable,
            9u8 => IoErrorKind::BrokenPipe,
            10u8 => IoErrorKind::AlreadyExists,
            11u8 => IoErrorKind::WouldBlock,
            12u8 => IoErrorKind::InvalidInput,
            13u8 => IoErrorKind::InvalidData,
            14u8 => IoErrorKind::TimedOut,
            15u8 => IoErrorKind::WriteZero,
            16u8 => IoErrorKind::Interrupted,
            17u8 => IoErrorKind::Unsupported,
            18u8 => IoErrorKind::UnexpectedEof,
            19u8 => IoErrorKind::OutOfMemory,
            _ => IoErrorKind::Other,
        }
    }

    pub fn write(&self, out: &mut Vec<u8>)
        ensures
            final(out)@ == old(out)@ + enc_io_error(*self),
    {
        write_u8(self.id(), out);
    }

    pub fn read(buf: &[u8], pos: usize) -> (r: Result<(IoErrorKind, usize), WireError>)
        requires
            pos <= buf@.len(),
        ensures
            lift(r) == parse_io_error(buf@, pos as int),
            r matches Ok((_, end)) ==> pos <= end <= buf@.len(),
    {
        let (id, p) = read_u8(buf, pos)?;
        Ok((IoErrorKind::from_id(id), p))
    }
}

} // verus!
