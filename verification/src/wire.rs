//! The primitives of the wire format: big-endian integers, booleans and
//! characters, the errors a read or a write can end in, and the two models
//! that every contract of the crate is stated over.
//!
//! A writer appends to a byte buffer. What it appends for a value is given by
//! an [`Emit`]: the bytes put out, and whether the value was written in full.
//! A reader takes a byte slice and a position and answers with a [`Parsed`]:
//! the value and the position just after it, or the reason it stopped.
use vstd::prelude::*;

verus! {

/// Why a read or a write stopped.
#[derive(Debug, Clone, Copy, PartialEq, Eq, Structural)]
pub enum WireError {
    /// The input ended before the value was complete.
    UnexpectedEof,
    /// The bytes read, or the value to be written, do not fit the format.
    InvalidData,
}

/// What a writer puts out for a value: the bytes, and whether the value was
/// written in full (`ok`). A writer that stops part-way has put out the bytes
/// before the point where it stopped.
pub struct Emit {
    pub bytes: Seq<u8>,
    pub ok: bool,
}

impl Emit {
    /// A complete output made of `bytes`.
    pub open spec fn done(bytes: Seq<u8>) -> Emit {
        Emit { bytes, ok: true }
    }

    /// An output that stops before putting out anything.
    pub open spec fn refused() -> Emit {
        Emit { bytes: Seq::empty(), ok: false }
    }

    /// `self` followed by `next`; `next` is not started when `self` stopped.
    pub open spec fn followed_by(self, next: Emit) -> Emit {
        if self.ok {
            Emit { bytes: self.bytes + next.bytes, ok: next.ok }
        } else {
            self
        }
    }
}

/// The result of reading one value at position `i`: the value and the
/// position just after it.
pub type Parsed<T> = Result<(T, int), WireError>;

/// The spec form of an executable read result.
pub open spec fn lift<T>(r: Result<(T, usize), WireError>) -> Parsed<T> {
    match r {
        Ok((v, n)) => Ok((v, n as int)),
        Err(e) => Err(e),
    }
}

/// The spec form of an executable read result, the value taken by its view.
pub open spec fn lift_view<T: View>(r: Result<(T, usize), WireError>) -> Parsed<T::V> {
    match r {
        Ok((v, n)) => Ok((v@, n as int)),
        Err(e) => Err(e),
    }
}

/// A read that did not run out of input (`p`) reads the same (`q`) once
/// more input is appended.
pub open spec fn stable<T>(p: Parsed<T>, q: Parsed<T>) -> bool {
    p != Err::<(T, int), WireError>(WireError::UnexpectedEof) ==> q == p
}

/// `b` stands in `s` from position `i` on.
pub open spec fn holds_at(s: Seq<u8>, i: int, b: Seq<u8>) -> bool {
    &&& 0 <= i
    &&& i + b.len() <= s.len()
    &&& s.subrange(i, i + b.len()) == b
}

/// `256` to the power `n`.
pub open spec fn radix(n: nat) -> nat
    decreases n,
{
    if n == 0 {
        1
    } else {
        256 * radix((n - 1) as nat)
    }
}

/// The `n` low bytes of `x`, most significant first.
pub open spec fn be_bytes(x: nat, n: nat) -> Seq<u8>
    decreases n,
{
    if n == 0 {
        Seq::empty()
    } else {
        be_bytes(x / 256, (n - 1) as nat).push((x % 256) as u8)
    }
}

/// The number that `s` writes, most significant byte first.
pub open spec fn be_value(s: Seq<u8>) -> nat
    decreases s.len(),
{
    if s.len() == 0 {
        0
    } else {
        be_value(s.drop_last()) * 256 + s.last() as nat
    }
}

pub open spec fn enc_u8(x: u8) -> Seq<u8> {
    seq![x]
}

pub open spec fn enc_u16(x: u16) -> Seq<u8> {
    be_bytes(x as nat, 2)
}

pub open spec fn enc_u32(x: u32) -> Seq<u8> {
    be_bytes(x as nat, 4)
}

pub open spec fn enc_u64(x: u64) -> Seq<u8> {
    be_bytes(x as nat, 8)
}

/// An `i64` is written as the `u64` with the same bits.
pub open spec fn enc_i64(x: i64) -> Seq<u8> {
    be_bytes((x as u64) as nat, 8)
}

/// `true` is written as 1, `false` as 0.
pub open spec fn enc_bool(b: bool) -> Seq<u8> {
    seq![if b { 1u8 } else { 0u8 }]
}

/// A `char` is written as its scalar value, a `u32`.
pub open spec fn enc_char(c: char) -> Seq<u8> {
    enc_u32(c as u32)
}

/// `n` raw bytes at `i`.
pub open spec fn parse_bytes(s: Seq<u8>, i: int, n: nat) -> Parsed<Seq<u8>> {
    if i + n <= s.len() {
        Ok((s.subrange(i, i + n), i + n))
    } else {
        Err(WireError::UnexpectedEof)
    }
}

/// An `n`-byte big-endian number at `i`.
pub open spec fn parse_be(s: Seq<u8>, i: int, n: nat) -> Parsed<nat> {
    match parse_bytes(s, i, n) {
        Ok((b, j)) => Ok((be_value(b), j)),
        Err(e) => Err(e),
    }
}

pub open spec fn parse_u8(s: Seq<u8>, i: int) -> Parsed<u8> {
    if i < s.len() {
        Ok((s[i], i + 1))
    } else {
        Err(WireError::UnexpectedEof)
    }
}

pub open spec fn parse_u16(s: Seq<u8>, i: int) -> Parsed<u16> {
    match parse_be(s, i, 2) {
        Ok((v, j)) => Ok((v as u16, j)),
        Err(e) => Err(e),
    }
}

pub open spec fn parse_u32(s: Seq<u8>, i: int) -> Parsed<u32> {
    match parse_be(s, i, 4) {
        Ok((v, j)) => Ok((v as u32, j)),
        Err(e) => Err(e),
    }
}

pub open spec fn parse_u64(s: Seq<u8>, i: int) -> Parsed<u64> {
    match parse_be(s, i, 8) {
        Ok((v, j)) => Ok((v as u64, j)),
        Err(e) => Err(e),
    }
}

pub open spec fn parse_i64(s: Seq<u8>, i: int) -> Parsed<i64> {
    match parse_u64(s, i) {
        Ok((v, j)) => Ok((v as i64, j)),
        Err(e) => Err(e),
    }
}

/// Any byte but 0 reads as `true`.
pub open spec fn parse_bool(s: Seq<u8>, i: int) -> Parsed<bool> {
    match parse_u8(s, i) {
        Ok((b, j)) => Ok((b != 0, j)),
        Err(e) => Err(e),
    }
}

/// The `u32` values that are `char`s: those up to `0x10FFFF` outside the
/// surrogate range `0xD800..=0xDFFF`.
pub open spec fn is_char_value(x: u32) -> bool {
    x <= 0x10FFFF && !(0xD800 <= x <= 0xDFFF)
}

/// A `u32` that is no `char` is refused.
pub open spec fn parse_char(s: Seq<u8>, i: int) -> Parsed<char> {
    match parse_u32(s, i) {
        Ok((v, j)) => if is_char_value(v) {
            Ok((v as char, j))
        } else {
            Err(WireError::InvalidData)
        },
        Err(e) => Err(e),
    }
}

// ---------------------------------------------------------------------------
// Lemmas on the byte model
// ---------------------------------------------------------------------------

pub proof fn lemma_radix_values()
    ensures
        radix(1) == 256,
        radix(2) == 65536,
        radix(4) == 4294967296,
        radix(8) == 18446744073709551616,
        radix(16) == 340282366920938463463374607431768211456,
{
    reveal_with_fuel(radix, 17);
}

pub proof fn lemma_radix_mono(m: nat, n: nat)
    requires
        m <= n,
    ensures
        radix(m) <= radix(n),
    decreases n,
{
    if m < n {
        lemma_radix_mono(m, (n - 1) as nat);
    }
}

pub broadcast proof fn lemma_enc_u16_len(x: u16)
    ensures
        #[trigger] enc_u16(x).len() == 2,
{
    lemma_be_bytes_len(x as nat, 2);
}

pub broadcast proof fn lemma_enc_u32_len(x: u32)
    ensures
        #[trigger] enc_u32(x).len() == 4,
{
    lemma_be_bytes_len(x as nat, 4);
}

pub broadcast proof fn lemma_enc_u64_len(x: u64)
    ensures
        #[trigger] enc_u64(x).len() == 8,
{
    lemma_be_bytes_len(x as nat, 8);
}

pub broadcast proof fn lemma_enc_i64_len(x: i64)
    ensures
        #[trigger] enc_i64(x).len() == 8,
{
    lemma_be_bytes_len((x as u64) as nat, 8);
}

pub broadcast proof fn lemma_enc_char_len(c: char)
    ensures
        #[trigger] enc_char(c).len() == 4,
{
    lemma_be_bytes_len((c as u32) as nat, 4);
}

/// The encoded lengths of the fixed-size primitives.
pub broadcast group group_enc_lens {
    lemma_enc_u16_len,
    lemma_enc_u32_len,
    lemma_enc_u64_len,
    lemma_enc_i64_len,
    lemma_enc_char_len,
}

pub proof fn lemma_be_bytes_len(x: nat, n: nat)
    ensures
        be_bytes(x, n).len() == n,
    decreases n,
{
    if n > 0 {
        lemma_be_bytes_len(x / 256, (n - 1) as nat);
    }
}

/// Reading back the `n` bytes of `x` gives `x`, when `x` has `n` bytes.
pub proof fn lemma_be_roundtrip(x: nat, n: nat)
    requires
        x < radix(n),
    ensures
        be_value(be_bytes(x, n)) == x,
        be_bytes(x, n).len() == n,
    decreases n,
{
    lemma_be_bytes_len(x, n);
    if n > 0 {
        let r = radix((n - 1) as nat);
        assert(x / 256 < r) by (nonlinear_arith)
            requires
                x < 256 * r,
        ;
        lemma_be_roundtrip(x / 256, (n - 1) as nat);
        let b = be_bytes(x, n);
        assert(b.drop_last() =~= be_bytes(x / 256, (n - 1) as nat));
    }
}

/// `n` bytes hold a number below `256^n`.
pub proof fn lemma_be_value_bound(s: Seq<u8>)
    ensures
        be_value(s) < radix(s.len()),
    decreases s.len(),
{
    if s.len() > 0 {
        lemma_be_value_bound(s.drop_last());
        let v = be_value(s.drop_last());
        let r = radix((s.len() - 1) as nat);
        let b = s.last();
        assert(v * 256 + b < 256 * r) by (nonlinear_arith)
            requires
                v < r,
                b < 256,
        ;
    }
}

/// `a + b` standing at `i` means `a` stands at `i` and `b` right after it.
pub proof fn lemma_holds_split(s: Seq<u8>, i: int, a: Seq<u8>, b: Seq<u8>)
    requires
        holds_at(s, i, a + b),
    ensures
        holds_at(s, i, a),
        holds_at(s, i + a.len(), b),
{
    let ab = a + b;
    assert(s.subrange(i, i + ab.len()) == ab);
    assert forall|k: int| 0 <= k < a.len() implies s.subrange(i, i + a.len())[k] == a[k] by {
        assert(s.subrange(i, i + ab.len())[k] == ab[k]);
    }
    assert forall|k: int| 0 <= k < b.len() implies s.subrange(
        i + a.len(),
        i + a.len() + b.len(),
    )[k] == b[k] by {
        assert(s.subrange(i, i + ab.len())[a.len() + k] == ab[a.len() + k]);
    }
    assert(s.subrange(i, i + a.len()) =~= a);
    assert(s.subrange(i + a.len(), i + a.len() + b.len()) =~= b);
}

/// A whole buffer stands at 0 in itself followed by anything.
pub proof fn lemma_holds_prefix(b: Seq<u8>, rest: Seq<u8>)
    ensures
        holds_at(b + rest, 0, b),
{
    assert((b + rest).subrange(0, b.len() as int) =~= b);
}

pub proof fn lemma_parse_bytes_extend(s: Seq<u8>, i: int, n: nat, t: Seq<u8>)
    requires
        0 <= i,
        parse_bytes(s, i, n) is Ok,
    ensures
        parse_bytes(s + t, i, n) == parse_bytes(s, i, n),
{
    assert((s + t).subrange(i, i + n) =~= s.subrange(i, i + n));
}

pub proof fn lemma_u8_roundtrip(x: u8, s: Seq<u8>, i: int)
    requires
        holds_at(s, i, enc_u8(x)),
    ensures
        parse_u8(s, i) == Ok::<(u8, int), WireError>((x, i + 1)),
{
    assert(s[i] == s.subrange(i, i + 1)[0]);
}

pub proof fn lemma_be_at(x: nat, n: nat, s: Seq<u8>, i: int)
    requires
        x < radix(n),
        holds_at(s, i, be_bytes(x, n)),
    ensures
        parse_be(s, i, n) == Ok::<(nat, int), WireError>((x, i + n)),
{
    lemma_be_roundtrip(x, n);
}

pub proof fn lemma_u16_roundtrip(x: u16, s: Seq<u8>, i: int)
    requires
        holds_at(s, i, enc_u16(x)),
    ensures
        parse_u16(s, i) == Ok::<(u16, int), WireError>((x, i + 2)),
{
    lemma_radix_values();
    lemma_be_at(x as nat, 2, s, i);
}

pub proof fn lemma_u32_roundtrip(x: u32, s: Seq<u8>, i: int)
    requires
        holds_at(s, i, enc_u32(x)),
    ensures
        parse_u32(s, i) == Ok::<(u32, int), WireError>((x, i + 4)),
{
    lemma_radix_values();
    lemma_be_at(x as nat, 4, s, i);
}

pub proof fn lemma_u64_roundtrip(x: u64, s: Seq<u8>, i: int)
    requires
        holds_at(s, i, enc_u64(x)),
    ensures
        parse_u64(s, i) == Ok::<(u64, int), WireError>((x, i + 8)),
{
    lemma_radix_values();
    lemma_be_at(x as nat, 8, s, i);
}

pub proof fn lemma_i64_roundtrip(x: i64, s: Seq<u8>, i: int)
    requires
        holds_at(s, i, enc_i64(x)),
    ensures
        parse_i64(s, i) == Ok::<(i64, int), WireError>((x, i + 8)),
{
    lemma_u64_roundtrip(x as u64, s, i);
    assert(((x as u64) as i64) == x) by (bit_vector);
}

pub proof fn lemma_bool_roundtrip(b: bool, s: Seq<u8>, i: int)
    requires
        holds_at(s, i, enc_bool(b)),
    ensures
        parse_bool(s, i) == Ok::<(bool, int), WireError>((b, i + 1)),
{
    lemma_u8_roundtrip(if b { 1u8 } else { 0u8 }, s, i);
}

pub proof fn lemma_char_roundtrip(c: char, s: Seq<u8>, i: int)
    requires
        holds_at(s, i, enc_char(c)),
    ensures
        parse_char(s, i) == Ok::<(char, int), WireError>((c, i + 4)),
{
    lemma_u32_roundtrip(c as u32, s, i);
    vstd::utf8::char_is_scalar(c);
    vstd::utf8::char_u32_cast(c, c as u32);
}

/// A primitive read that did not run out of input reads the same once more
/// input is appended.
pub proof fn lemma_primitives_extend(s: Seq<u8>, i: int, t: Seq<u8>)
    requires
        0 <= i,
    ensures
        stable(parse_u8(s, i), parse_u8(s + t, i)),
        stable(parse_bool(s, i), parse_bool(s + t, i)),
        stable(parse_u16(s, i), parse_u16(s + t, i)),
        stable(parse_u32(s, i), parse_u32(s + t, i)),
        stable(parse_u64(s, i), parse_u64(s + t, i)),
        stable(parse_i64(s, i), parse_i64(s + t, i)),
        stable(parse_char(s, i), parse_char(s + t, i)),
        stable(parse_be(s, i, 16), parse_be(s + t, i, 16)),
{
    if parse_bytes(s, i, 16) is Ok {
        lemma_parse_bytes_extend(s, i, 16, t);
    }
    if parse_bytes(s, i, 2) is Ok {
        lemma_parse_bytes_extend(s, i, 2, t);
    }
    if parse_bytes(s, i, 4) is Ok {
        lemma_parse_bytes_extend(s, i, 4, t);
    }
    if parse_bytes(s, i, 8) is Ok {
        lemma_parse_bytes_extend(s, i, 8, t);
    }
}

// ---------------------------------------------------------------------------
// Executable primitives
// ---------------------------------------------------------------------------

/// Appends the `n` low bytes of `x`, most significant first.
pub fn push_be(out: &mut Vec<u8>, x: u128, n: usize)
    requires
        n <= 16,
        x < radix(n as nat),
    ensures
        final(out)@ == old(out)@ + be_bytes(x as nat, n as nat),
    decreases n,
{
    if n > 0 {
        let ghost r = radix((n - 1) as nat);
        assert(x / 256 < r) by (nonlinear_arith)
            requires
                x < 256 * r,
        ;
        push_be(out, x / 256, n - 1);
        out.push((x % 256) as u8);
    }
}

/// Reads an `n`-byte big-endian number at `pos`.
pub fn read_be(buf: &[u8], pos: usize, n: usize) -> (r: u128)
    requires
        n <= 16,
        pos + n <= buf@.len(),
    ensures
        r as nat == be_value(buf@.subrange(pos as int, pos + n)),
{
    let mut v: u128 = 0;
    let mut k: usize = 0;
    proof {
        lemma_radix_values();
        assert(buf@.subrange(pos as int, pos as int) =~= Seq::<u8>::empty());
    }
    while k < n
        invariant
            n <= 16,
            k <= n,
            pos + n <= buf@.len(),
            pos + n <= buf.len(),
            v as nat == be_value(buf@.subrange(pos as int, pos + k)),
            v < radix(k as nat),
            radix(16) == 340282366920938463463374607431768211456,
        decreases n - k,
    {
        let b = buf[pos + k];
        proof {
            let sub = buf@.subrange(pos as int, pos + k + 1);
            assert(sub.drop_last() =~= buf@.subrange(pos as int, pos + k));
            assert(sub.last() == b);
            lemma_radix_mono((k + 1) as nat, 16);
            let r = radix(k as nat);
            assert(v * 256 + b < 256 * r) by (nonlinear_arith)
                requires
                    v < r,
                    b < 256,
            ;
        }
        v = v * 256 + b as u128;
        k = k + 1;
    }
    v
}

pub fn write_u8(x: u8, out: &mut Vec<u8>)
    ensures
        final(out)@ == old(out)@ + enc_u8(x),
{
    out.push(x);
}

pub fn write_u16(x: u16, out: &mut Vec<u8>)
    ensures
        final(out)@ == old(out)@ + enc_u16(x),
{
    proof {
        lemma_radix_values();
    }
    push_be(out, x as u128, 2);
}

pub fn write_u32(x: u32, out: &mut Vec<u8>)
    ensures
        final(out)@ == old(out)@ + enc_u32(x),
{
    proof {
        lemma_radix_values();
    }
    push_be(out, x as u128, 4);
}

pub fn write_u64(x: u64, out: &mut Vec<u8>)
    ensures
        final(out)@ == old(out)@ + enc_u64(x),
{
    proof {
        lemma_radix_values();
    }
    push_be(out, x as u128, 8);
}

pub fn write_i64(x: i64, out: &mut Vec<u8>)
    ensures
        final(out)@ == old(out)@ + enc_i64(x),
{
    proof {
        lemma_radix_values();
    }
    push_be(out, (x as u64) as u128, 8);
}

pub fn write_bool(b: bool, out: &mut Vec<u8>)
    ensures
        final(out)@ == old(out)@ + enc_bool(b),
{
    out.push(if b { 1u8 } else { 0u8 });
}

pub fn write_char(c: char, out: &mut Vec<u8>)
    ensures
        final(out)@ == old(out)@ + enc_char(c),
{
    write_u32(c as u32, out);
}

pub fn read_u8(buf: &[u8], pos: usize) -> (r: Result<(u8, usize), WireError>)
    requires
        pos <= buf@.len(),
    ensures
        lift(r) == parse_u8(buf@, pos as int),
        r matches Ok((_, end)) ==> pos <= end <= buf@.len(),
{
    if pos < buf.len() {
        Ok((buf[pos], pos + 1))
    } else {
        Err(WireError::UnexpectedEof)
    }
}

pub fn read_u16(buf: &[u8], pos: usize) -> (r: Result<(u16, usize), WireError>)
    requires
        pos <= buf@.len(),
    ensures
        lift(r) == parse_u16(buf@, pos as int),
        r matches Ok((_, end)) ==> pos <= end <= buf@.len(),
{
    if buf.len() - pos >= 2 {
        let v = read_be(buf, pos, 2);
        proof {
            lemma_radix_values();
            lemma_be_value_bound(buf@.subrange(pos as int, pos + 2));
        }
        Ok((v as u16, pos + 2))
    } else {
        Err(WireError::UnexpectedEof)
    }
}

pub fn read_u32(buf: &[u8], pos: usize) -> (r: Result<(u32, usize), WireError>)
    requires
        pos <= buf@.len(),
    ensures
        lift(r) == parse_u32(buf@, pos as int),
        r matches Ok((_, end)) ==> pos <= end <= buf@.len(),
{
    if buf.len() - pos >= 4 {
        let v = read_be(buf, pos, 4);
        proof {
            lemma_radix_values();
            lemma_be_value_bound(buf@.subrange(pos as int, pos + 4));
        }
        Ok((v as u32, pos + 4))
    } else {
        Err(WireError::UnexpectedEof)
    }
}

pub fn read_u64(buf: &[u8], pos: usize) -> (r: Result<(u64, usize), WireError>)
    requires
        pos <= buf@.len(),
    ensures
        lift(r) == parse_u64(buf@, pos as int),
        r matches Ok((_, end)) ==> pos <= end <= buf@.len(),
{
    if buf.len() - pos >= 8 {
        let v = read_be(buf, pos, 8);
        proof {
            lemma_radix_values();
            lemma_be_value_bound(buf@.subrange(pos as int, pos + 8));
        }
        Ok((v as u64, pos + 8))
    } else {
        Err(WireError::UnexpectedEof)
    }
}

pub fn read_i64(buf: &[u8], pos: usize) -> (r: Result<(i64, usize), WireError>)
    requires
        pos <= buf@.len(),
    ensures
        lift(r) == parse_i64(buf@, pos as int),
        r matches Ok((_, end)) ==> pos <= end <= buf@.len(),
{
    let (v, p) = read_u64(buf, pos)?;
    Ok((v as i64, p))
}

pub fn read_bool(buf: &[u8], pos: usize) -> (r: Result<(bool, usize), WireError>)
    requires
        pos <= buf@.len(),
    ensures
        lift(r) == parse_bool(buf@, pos as int),
        r matches Ok((_, end)) ==> pos <= end <= buf@.len(),
{
    let (b, p) = read_u8(buf, pos)?;
    Ok((b != 0, p))
}

pub fn read_char(buf: &[u8], pos: usize) -> (r: Result<(char, usize), WireError>)
    requires
        pos <= buf@.len(),
    ensures
        lift(r) == parse_char(buf@, pos as int),
        r matches Ok((_, end)) ==> pos <= end <= buf@.len(),
{
    let (v, p) = read_u32(buf, pos)?;
    match char_from_u32(v) {
        Some(c) => {
            proof {
                vstd::utf8::char_u32_cast(c, v);
            }
            Ok((c, p))
        },
        None => Err(WireError::InvalidData),
    }
}

/// `char::from_u32`: gives the `char` whose scalar value is `x`, and `None`
/// when `x` is above `0x10FFFF` or a surrogate (`0xD800..=0xDFFF`), as its
/// documentation says.
#[verifier::external_body]
fn char_from_u32(x: u32) -> (r: Option<char>)
    ensures
        r is Some <==> is_char_value(x),
        r matches Some(c) ==> c as u32 == x,
{
    char::from_u32(x)
}

} // verus!
