//! User roles and the errors of loading a users file, and how they are
//! written: a tag byte, then the fields in order.
use vstd::prelude::*;

use crate::io_error::{
    enc_io_error, io_kind_read_back, lemma_io_error_extend, lemma_io_error_roundtrip,
    parse_io_error, IoErrorKind,
};
use crate::wire::{
    enc_char, enc_u32, enc_u64, enc_u8, holds_at, lemma_char_roundtrip, lemma_holds_split,
    lemma_primitives_extend, lemma_u32_roundtrip, lemma_u64_roundtrip, lemma_u8_roundtrip, lift,
    parse_char, parse_u32, parse_u64, parse_u8, read_char, read_u32, read_u64, read_u8, stable,
    write_char, write_u32, write_u64, write_u8, Parsed, WireError,
};

verus! {

broadcast use crate::wire::group_enc_lens;

/// The role of a user.
#[derive(Debug, Clone, Copy, PartialEq, Eq, Structural)]
pub enum UserRole {
    Admin,
    Regular,
}

/// Why a users file could not be loaded; line numbers and positions are
/// those in the file.
#[derive(Debug, Clone, Copy, PartialEq, Eq, Structural)]
pub enum UsersLoadingError {
    IO(IoErrorKind),
    InvalidUtf8 { line_number: u32, byte_at: u64 },
    LineTooLong { line_number: u32, byte_at: u64 },
    ExpectedRoleCharGotEOF(u32, u32),
    InvalidRoleChar(u32, u32, char),
    ExpectedColonGotEOF(u32, u32),
    EmptyUsername(u32, u32),
    UsernameTooLong(u32, u32),
    EmptyPassword(u32, u32),
    PasswordTooLong(u32, u32),
    NoUsers,
}

/// `Admin` is written as 1, `Regular` as 2.
pub open spec fn enc_user_role(r: UserRole) -> Seq<u8> {
    match r {
        UserRole::Admin => enc_u8(1),
        UserRole::Regular => enc_u8(2),
    }
}

/// A byte other than 1 or 2 is refused.
pub open spec fn parse_user_role(s: Seq<u8>, i: int) -> Parsed<UserRole> {
    match parse_u8(s, i) {
        Ok((b, j)) => if b == 1 {
            Ok((UserRole::Admin, j))
        } else if b == 2 {
            Ok((UserRole::Regular, j))
        } else {
            Err(WireError::InvalidData)
        },
        Err(e) => Err(e),
    }
}

/// Two numbers, such as a line and a position in it.
pub open spec fn enc_u32_pair(a: u32, b: u32) -> Seq<u8> {
    enc_u32(a) + enc_u32(b)
}

/// The tag byte of each error, then its fields in order.
pub open spec fn enc_users_loading_error(e: UsersLoadingError) -> Seq<u8> {
    match e {
        UsersLoadingError::IO(k) => enc_u8(1) + enc_io_error(k),
        UsersLoadingError::InvalidUtf8 { line_number, byte_at } => enc_u8(2) + enc_u32(line_number)
            + enc_u64(byte_at),
        UsersLoadingError::LineTooLong { line_number, byte_at } => enc_u8(3) + enc_u32(line_number)
            + enc_u64(byte_at),
        UsersLoadingError::ExpectedRoleCharGotEOF(l, c) => enc_u8(4) + enc_u32_pair(l, c),
        UsersLoadingError::InvalidRoleChar(l, c, ch) => enc_u8(5) + enc_u32_pair(l, c) + enc_char(
            ch,
        ),
        UsersLoadingError::ExpectedColonGotEOF(l, c) => enc_u8(6) + enc_u32_pair(l, c),
        UsersLoadingError::EmptyUsername(l, c) => enc_u8(7) + enc_u32_pair(l, c),
        UsersLoadingError::UsernameTooLong(l, c) => enc_u8(8) + enc_u32_pair(l, c),
        UsersLoadingError::EmptyPassword(l, c) => enc_u8(9) + enc_u32_pair(l, c),
        UsersLoadingError::PasswordTooLong(l, c) => enc_u8(10) + enc_u32_pair(l, c),
        UsersLoadingError::NoUsers => enc_u8(11),
    }
}

pub open spec fn parse_u32_pair(s: Seq<u8>, i: int) -> Parsed<(u32, u32)> {
    match parse_u32(s, i) {
        Ok((a, j)) => match parse_u32(s, j) {
            Ok((b, k)) => Ok(((a, b), k)),
            Err(e) => Err(e),
        },
        Err(e) => Err(e),
    }
}

pub open spec fn parse_u32_u64(s: Seq<u8>, i: int) -> Parsed<(u32, u64)> {
    match parse_u32(s, i) {
        Ok((a, j)) => match parse_u64(s, j) {
            Ok((b, k)) => Ok(((a, b), k)),
            Err(e) => Err(e),
        },
        Err(e) => Err(e),
    }
}

pub open spec fn parse_u32_pair_char(s: Seq<u8>, i: int) -> Parsed<(u32, u32, char)> {
    match parse_u32_pair(s, i) {
        Ok(((a, b), j)) => match parse_char(s, j) {
            Ok((c, k)) => Ok(((a, b, c), k)),
            Err(e) => Err(e),
        },
        Err(e) => Err(e),
    }
}

/// The error after its tag `tag`; a tag outside `1..=11` is refused.
pub open spec fn parse_users_loading_error_body(s: Seq<u8>, tag: u8, j: int) -> Parsed<
    UsersLoadingError,
> {
    if tag == 1 {
        match parse_io_error(s, j) {
            Ok((k, m)) => Ok((UsersLoadingError::IO(k), m)),
            Err(e) => Err(e),
        }
    } else if tag == 2 || tag == 3 {
        match parse_u32_u64(s, j) {
            Ok(((line_number, byte_at), m)) => Ok(
                (
                    if tag == 2 {
                        UsersLoadingError::InvalidUtf8 { line_number, byte_at }
                    } else {
                        UsersLoadingError::LineTooLong { line_number, byte_at }
                    },
                    m,
                ),
            ),
            Err(e) => Err(e),
        }
    } else if tag == 5 {
        match parse_u32_pair_char(s, j) {
            Ok(((l, c, ch), m)) => Ok((UsersLoadingError::InvalidRoleChar(l, c, ch), m)),
            Err(e) => Err(e),
        }
    } else if 4 <= tag <= 10 {
        match parse_u32_pair(s, j) {
            Ok(((l, c), m)) => Ok((pair_error(tag, l, c), m)),
            Err(e) => Err(e),
        }
    } else if tag == 11 {
        Ok((UsersLoadingError::NoUsers, j))
    } else {
        Err(WireError::InvalidData)
    }
}

/// The error with two numbers that tag `tag` (one of 4, 6 to 10) stands for.
pub open spec fn pair_error(tag: u8, l: u32, c: u32) -> UsersLoadingError {
    if tag == 4 {
        UsersLoadingError::ExpectedRoleCharGotEOF(l, c)
    } else if tag == 6 {
        UsersLoadingError::ExpectedColonGotEOF(l, c)
    } else if tag == 7 {
        UsersLoadingError::EmptyUsername(l, c)
    } else if tag == 8 {
        UsersLoadingError::UsernameTooLong(l, c)
    } else if tag == 9 {
        UsersLoadingError::EmptyPassword(l, c)
    } else {
        UsersLoadingError::PasswordTooLong(l, c)
    }
}

pub open spec fn parse_users_loading_error(s: Seq<u8>, i: int) -> Parsed<UsersLoadingError> {
    match parse_u8(s, i) {
        Ok((tag, j)) => parse_users_loading_error_body(s, tag, j),
        Err(e) => Err(e),
    }
}

/// What an error reads back as: itself, with the kind of an I/O error read
/// back as [`io_kind_read_back`] says.
pub open spec fn users_error_read_back(e: UsersLoadingError) -> UsersLoadingError {
    match e {
        UsersLoadingError::IO(k) => UsersLoadingError::IO(io_kind_read_back(k)),
        _ => e,
    }
}

pub proof fn lemma_user_role_roundtrip(r: UserRole, s: Seq<u8>, i: int)
    requires
        holds_at(s, i, enc_user_role(r)),
    ensures
        parse_user_role(s, i) == Ok::<(UserRole, int), WireError>((r, i + 1)),
{
    match r {
        UserRole::Admin => lemma_u8_roundtrip(1, s, i),
        UserRole::Regular => lemma_u8_roundtrip(2, s, i),
    }
}

proof fn lemma_u32_pair_roundtrip(a: u32, b: u32, s: Seq<u8>, i: int)
    requires
        holds_at(s, i, enc_u32_pair(a, b)),
    ensures
        parse_u32_pair(s, i) == Ok::<((u32, u32), int), WireError>(((a, b), i + 8)),
{
    lemma_holds_split(s, i, enc_u32(a), enc_u32(b));
    lemma_u32_roundtrip(a, s, i);
    lemma_u32_roundtrip(b, s, i + 4);
}

/// An error reads back as [`users_error_read_back`] of itself.
pub proof fn lemma_users_loading_error_roundtrip(e: UsersLoadingError, s: Seq<u8>, i: int)
    requires
        holds_at(s, i, enc_users_loading_error(e)),
    ensures
        parse_users_loading_error(s, i) == Ok::<(UsersLoadingError, int), WireError>(
            (users_error_read_back(e), i + enc_users_loading_error(e).len()),
        ),
{
    match e {
        UsersLoadingError::IO(k) => {
            lemma_holds_split(s, i, enc_u8(1), enc_io_error(k));
            lemma_u8_roundtrip(1, s, i);
            lemma_io_error_roundtrip(k, s, i + 1);
        },
        UsersLoadingError::InvalidUtf8 { line_number, byte_at } => {
            lemma_holds_split(s, i, enc_u8(2) + enc_u32(line_number), enc_u64(byte_at));
            lemma_holds_split(s, i, enc_u8(2), enc_u32(line_number));
            lemma_u8_roundtrip(2, s, i);
            lemma_u32_roundtrip(line_number, s, i + 1);
            lemma_u64_roundtrip(byte_at, s, i + 5);
        },
        UsersLoadingError::LineTooLong { line_number, byte_at } => {
            lemma_holds_split(s, i, enc_u8(3) + enc_u32(line_number), enc_u64(byte_at));
            lemma_holds_split(s, i, enc_u8(3), enc_u32(line_number));
            lemma_u8_roundtrip(3, s, i);
            lemma_u32_roundtrip(line_number, s, i + 1);
            lemma_u64_roundtrip(byte_at, s, i + 5);
        },
        UsersLoadingError::InvalidRoleChar(l, c, ch) => {
            lemma_holds_split(s, i, enc_u8(5) + enc_u32_pair(l, c), enc_char(ch));
            lemma_holds_split(s, i, enc_u8(5), enc_u32_pair(l, c));
            lemma_u8_roundtrip(5, s, i);
            lemma_u32_pair_roundtrip(l, c, s, i + 1);
            lemma_char_roundtrip(ch, s, i + 9);
        },
        UsersLoadingError::NoUsers => {
            lemma_u8_roundtrip(11, s, i);
        },
        UsersLoadingError::ExpectedRoleCharGotEOF(l, c) => lemma_pair_error_roundtrip(4, l, c, s, i),
        UsersLoadingError::ExpectedColonGotEOF(l, c) => lemma_pair_error_roundtrip(6, l, c, s, i),
        UsersLoadingError::EmptyUsername(l, c) => lemma_pair_error_roundtrip(7, l, c, s, i),
        UsersLoadingError::UsernameTooLong(l, c) => lemma_pair_error_roundtrip(8, l, c, s, i),
        UsersLoadingError::EmptyPassword(l, c) => lemma_pair_error_roundtrip(9, l, c, s, i),
        UsersLoadingError::PasswordTooLong(l, c) => lemma_pair_error_roundtrip(10, l, c, s, i),
    }
}

proof fn lemma_pair_error_roundtrip(tag: u8, l: u32, c: u32, s: Seq<u8>, i: int)
    requires
        4 <= tag <= 10,
        tag != 5,
        holds_at(s, i, enc_u8(tag) + enc_u32_pair(l, c)),
    ensures
        parse_users_loading_error(s, i) == Ok::<(UsersLoadingError, int), WireError>(
            (pair_error(tag, l, c), i + 9),
        ),
{
    lemma_holds_split(s, i, enc_u8(tag), enc_u32_pair(l, c));
    lemma_u8_roundtrip(tag, s, i);
    lemma_u32_pair_roundtrip(l, c, s, i + 1);
}

pub proof fn lemma_users_extend(s: Seq<u8>, i: int, t: Seq<u8>)
    requires
        0 <= i,
    ensures
        stable(parse_user_role(s, i), parse_user_role(s + t, i)),
        stable(parse_users_loading_error(s, i), parse_users_loading_error(s + t, i)),
{
    lemma_primitives_extend(s, i, t);
    if let Ok((tag, j)) = parse_u8(s, i) {
        lemma_primitives_extend(s, j, t);
        lemma_io_error_extend(s, j, t);
        if let Ok((a, k)) = parse_u32(s, j) {
            lemma_primitives_extend(s, k, t);
            if let Ok((b, m)) = parse_u32(s, k) {
                lemma_primitives_extend(s, m, t);
            }
        }
    }
}

impl UserRole {
    pub fn write(&self, out: &mut Vec<u8>)
        ensures
            final(out)@ == old(out)@ + enc_user_role(*self),
    {
        write_u8(
            match self {
                UserRole::Admin => 1,
                UserRole::Regular => 2,
            },
            out,
        );
    }

    pub fn read(buf: &[u8], pos: usize) -> (r: Result<(UserRole, usize), WireError>)
        requires
            pos <= buf@.len(),
        ensures
            lift(r) == parse_user_role(buf@, pos as int),
            r matches Ok((_, end)) ==> pos <= end <= buf@.len(),
    {
        let (b, p) = read_u8(buf, pos)?;
        if b == 1 {
            Ok((UserRole::Admin, p))
        } else if b == 2 {
            Ok((UserRole::Regular, p))
        } else {
            Err(WireError::InvalidData)
        }
    }
}

fn write_u32_pair(a: u32, b: u32, out: &mut Vec<u8>)
    ensures
        final(out)@ == old(out)@ + enc_u32_pair(a, b),
{
    write_u32(a, out);
    write_u32(b, out);
}

fn read_u32_pair(buf: &[u8], pos: usize) -> (r: Result<((u32, u32), usize), WireError>)
    requires
        pos <= buf@.len(),
    ensures
        lift(r) == parse_u32_pair(buf@, pos as int),
        r matches Ok((_, end)) ==> pos <= end <= buf@.len(),
{
    let (a, p) = read_u32(buf, pos)?;
    let (b, p) = read_u32(buf, p)?;
    Ok(((a, b), p))
}

impl UsersLoadingError {
    pub fn write(&self, out: &mut Vec<u8>)
        ensures
            final(out)@ == old(out)@ + enc_users_loading_error(*self),
    {
        match self {
            UsersLoadingError::IO(k) => {
                write_u8(1, out);
                k.write(out);
            },
            UsersLoadingError::InvalidUtf8 { line_number, byte_at } => {
                write_u8(2, out);
                write_u32(*line_number, out);
                write_u64(*byte_at, out);
            },
            UsersLoadingError::LineTooLong { line_number, byte_at } => {
                write_u8(3, out);
                write_u32(*line_number, out);
                write_u64(*byte_at, out);
            },
            UsersLoadingError::ExpectedRoleCharGotEOF(l, c) => {
                write_u8(4, out);
                write_u32_pair(*l, *c, out);
            },
            UsersLoadingError::InvalidRoleChar(l, c, ch) => {
                write_u8(5, out);
                write_u32_pair(*l, *c, out);
                write_char(*ch, out);
            },
            UsersLoadingError::ExpectedColonGotEOF(l, c) => {
                write_u8(6, out);
                write_u32_pair(*l, *c, out);
            },
            UsersLoadingError::EmptyUsername(l, c) => {
                write_u8(7, out);
                write_u32_pair(*l, *c, out);
            },
            UsersLoadingError::UsernameTooLong(l, c) => {
                write_u8(8, out);
                write_u32_pair(*l, *c, out);
            },
            UsersLoadingError::EmptyPassword(l, c) => {
                write_u8(9, out);
                write_u32_pair(*l, *c, out);
            },
            UsersLoadingError::PasswordTooLong(l, c) => {
                write_u8(10, out);
                write_u32_pair(*l, *c, out);
            },
            UsersLoadingError::NoUsers => {
                write_u8(11, out);
            },
        }
    }

    pub fn read(buf: &[u8], pos: usize) -> (r: Result<(UsersLoadingError, usize), WireError>)
        requires
            pos <= buf@.len(),
        ensures
            lift(r) == parse_users_loading_error(buf@, pos as int),
            r matches Ok((_, end)) ==> pos <= end <= buf@.len(),
    {
        let (tag, p) = read_u8(buf, pos)?;
        if tag == 1 {
            let (k, p) = IoErrorKind::read(buf, p)?;
            Ok((UsersLoadingError::IO(k), p))
        } else if tag == 2 || tag == 3 {
            let (line_number, p) = read_u32(buf, p)?;
            let (byte_at, p) = read_u64(buf, p)?;
            if tag == 2 {
                Ok((UsersLoadingError::InvalidUtf8 { line_number, byte_at }, p))
            } else {
                Ok((UsersLoadingError::LineTooLong { line_number, byte_at }, p))
            }
        } else if tag == 5 {
            let ((l, c), p) = read_u32_pair(buf, p)?;
            let (ch, p) = read_char(buf, p)?;
            Ok((UsersLoadingError::InvalidRoleChar(l, c, ch), p))
        } else if 4 <= tag && tag <= 10 {
            let ((l, c), p) = read_u32_pair(buf, p)?;
            let e = if tag == 4 {
                UsersLoadingError::ExpectedRoleCharGotEOF(l, c)
            } else if tag == 6 {
                UsersLoadingError::ExpectedColonGotEOF(l, c)
            } else if tag == 7 {
                UsersLoadingError::EmptyUsername(l, c)
            } else if tag == 8 {
                UsersLoadingError::UsernameTooLong(l, c)
            } else if tag == 9 {
                UsersLoadingError::EmptyPassword(l, c)
            } else {
                UsersLoadingError::PasswordTooLong(l, c)
            };
            Ok((e, p))
        } else if tag == 11 {
            Ok((UsersLoadingError::NoUsers, p))
        } else {
            Err(WireError::InvalidData)
        }
    }
}

} // verus!
