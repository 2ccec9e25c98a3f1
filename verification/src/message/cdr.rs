//! The primitive encodings of CDR: integers in either byte order, and the
//! padding that aligns the next item to four octets.
use vstd::prelude::*;

verus! {

/// The byte order of an encoding.
#[derive(Clone, Copy, Debug, PartialEq, Eq, Structural)]
pub enum Endianness {
    LittleEndian,
    BigEndian,
}

/// The two octets of `x` in byte order `e`.
pub open spec fn u16_bytes(e: Endianness, x: u16) -> Seq<u8> {
    let lo = (x % 256) as u8;
    let hi = (x / 256) as u8;
    match e {
        Endianness::LittleEndian => seq![lo, hi],
        Endianness::BigEndian => seq![hi, lo],
    }
}

/// The four octets of `x` in byte order `e`.
pub open spec fn u32_bytes(e: Endianness, x: u32) -> Seq<u8> {
    let b0 = (x % 256) as u8;
    let b1 = ((x / 256) % 256) as u8;
    let b2 = ((x / 0x1_0000) % 256) as u8;
    let b3 = (x / 0x100_0000) as u8;
    match e {
        Endianness::LittleEndian => seq![b0, b1, b2, b3],
        Endianness::BigEndian => seq![b3, b2, b1, b0],
    }
}

/// The two's complement form of a 32-bit signed value.
pub open spec fn i32_as_u32(x: i32) -> u32 {
    if x >= 0 {
        x as u32
    } else {
        (x + 0x1_0000_0000) as u32
    }
}

/// The signed value whose two's complement form is `u`.
pub open spec fn u32_as_i32(u: u32) -> i32 {
    if u < 0x8000_0000 {
        u as i32
    } else {
        (u - 0x1_0000_0000) as i32
    }
}

/// The two's complement form of a 16-bit signed value.
pub open spec fn i16_as_u16(x: i16) -> u16 {
    if x >= 0 {
        x as u16
    } else {
        (x + 0x1_0000) as u16
    }
}

/// The signed value whose two's complement form is `u`.
pub open spec fn u16_as_i16(u: u16) -> i16 {
    if u < 0x8000 {
        u as i16
    } else {
        (u - 0x1_0000) as i16
    }
}

pub open spec fn i32_bytes(e: Endianness, x: i32) -> Seq<u8> {
    u32_bytes(e, i32_as_u32(x))
}

pub open spec fn i16_bytes(e: Endianness, x: i16) -> Seq<u8> {
    u16_bytes(e, i16_as_u16(x))
}

/// Padding that brings `len` up to a multiple of four.
pub open spec fn pad_of(len: int) -> int {
    (4 - len % 4) % 4
}

/// `n` zero octets.
pub open spec fn zeros(n: int) -> Seq<u8> {
    Seq::new(n as nat, |i: int| 0u8)
}

/// The number the two octets at `pos` encode.
pub open spec fn u16_at(e: Endianness, buf: Seq<u8>, pos: int) -> u16 {
    match e {
        Endianness::LittleEndian => (buf[pos] + 256 * buf[pos + 1]) as u16,
        Endianness::BigEndian => (buf[pos + 1] + 256 * buf[pos]) as u16,
    }
}

/// The number the four octets at `pos` encode.
pub open spec fn u32_at(e: Endianness, buf: Seq<u8>, pos: int) -> u32 {
    match e {
        Endianness::LittleEndian => (buf[pos] + 0x100 * buf[pos + 1] + 0x1_0000 * buf[pos + 2]
            + 0x100_0000 * buf[pos + 3]) as u32,
        Endianness::BigEndian => (buf[pos + 3] + 0x100 * buf[pos + 2] + 0x1_0000 * buf[pos + 1]
            + 0x100_0000 * buf[pos]) as u32,
    }
}

/// The signed number the four octets at `pos` encode.
pub open spec fn i32_at(e: Endianness, buf: Seq<u8>, pos: int) -> i32 {
    u32_as_i32(u32_at(e, buf, pos))
}

/// Decoding the two octets of an encoded number gives the number.
pub proof fn lemma_u16_at_bytes(e: Endianness, x: u16, buf: Seq<u8>, pos: int)
    requires
        0 <= pos,
        pos + 2 <= buf.len(),
        buf.subrange(pos, pos + 2) == u16_bytes(e, x),
    ensures
        u16_at(e, buf, pos) == x,
{
    assert(buf[pos] == buf.subrange(pos, pos + 2)[0]);
    assert(buf[pos + 1] == buf.subrange(pos, pos + 2)[1]);
    let xi = x as int;
    assert((xi % 256) + 256 * (xi / 256) == xi) by (nonlinear_arith);
}

/// Decoding the four octets of an encoded number gives the number.
pub proof fn lemma_u32_at_bytes(e: Endianness, x: u32, buf: Seq<u8>, pos: int)
    requires
        0 <= pos,
        pos + 4 <= buf.len(),
        buf.subrange(pos, pos + 4) == u32_bytes(e, x),
    ensures
        u32_at(e, buf, pos) == x,
{
    let sub = buf.subrange(pos, pos + 4);
    assert(buf[pos] == sub[0] && buf[pos + 1] == sub[1] && buf[pos + 2] == sub[2] && buf[pos + 3] == sub[3]);
    let xi = x as int;
    assert((xi % 256) + 0x100 * ((xi / 256) % 256) + 0x1_0000 * ((xi / 0x1_0000) % 256) + 0x100_0000 * (xi / 0x100_0000) == xi) by (nonlinear_arith)
        requires
            0 <= xi < 0x1_0000_0000,
    ;
}

/// Decoding the four octets of an encoded signed number gives the number.
pub proof fn lemma_i32_at_bytes(e: Endianness, x: i32, buf: Seq<u8>, pos: int)
    requires
        0 <= pos,
        pos + 4 <= buf.len(),
        buf.subrange(pos, pos + 4) == i32_bytes(e, x),
    ensures
        i32_at(e, buf, pos) == x,
{
    lemma_u32_at_bytes(e, i32_as_u32(x), buf, pos);
}

pub fn i32_to_u32(x: i32) -> (u: u32)
    ensures
        u == i32_as_u32(x),
{
    if x >= 0 {
        x as u32
    } else {
        (x as i64 + 0x1_0000_0000) as u32
    }
}

pub fn u32_to_i32(u: u32) -> (x: i32)
    ensures
        x == u32_as_i32(u),
{
    if u < 0x8000_0000 {
        u as i32
    } else {
        (u as i64 - 0x1_0000_0000) as i32
    }
}

pub fn i16_to_u16(x: i16) -> (u: u16)
    ensures
        u == i16_as_u16(x),
{
    if x >= 0 {
        x as u16
    } else {
        (x as i32 + 0x1_0000) as u16
    }
}

pub fn u16_to_i16(u: u16) -> (x: i16)
    ensures
        x == u16_as_i16(u),
{
    if u < 0x8000 {
        u as i16
    } else {
        (u as i32 - 0x1_0000) as i16
    }
}

/// Appends the two octets of `x`.
pub fn put_u16(buf: &mut Vec<u8>, e: Endianness, x: u16)
    ensures
        final(buf)@ == old(buf)@ + u16_bytes(e, x),
{
    let lo = (x % 256) as u8;
    let hi = (x / 256) as u8;
    match e {
        Endianness::LittleEndian => {
            buf.push(lo);
            buf.push(hi);
        },
        Endianness::BigEndian => {
            buf.push(hi);
            buf.push(lo);
        },
    }
    assert(buf@ =~= old(buf)@ + u16_bytes(e, x));
}

/// Appends the four octets of `x`.
pub fn put_u32(buf: &mut Vec<u8>, e: Endianness, x: u32)
    ensures
        final(buf)@ == old(buf)@ + u32_bytes(e, x),
{
    let b0 = (x % 256) as u8;
    let b1 = ((x / 256) % 256) as u8;
    let b2 = ((x / 0x1_0000) % 256) as u8;
    let b3 = (x / 0x100_0000) as u8;
    match e {
        Endianness::LittleEndian => {
            buf.push(b0);
            buf.push(b1);
            buf.push(b2);
            buf.push(b3);
        },
        Endianness::BigEndian => {
            buf.push(b3);
            buf.push(b2);
            buf.push(b1);
            buf.push(b0);
        },
    }
    assert(buf@ =~= old(buf)@ + u32_bytes(e, x));
}

pub fn put_i32(buf: &mut Vec<u8>, e: Endianness, x: i32)
    ensures
        final(buf)@ == old(buf)@ + i32_bytes(e, x),
{
    put_u32(buf, e, i32_to_u32(x));
}

pub fn put_i16(buf: &mut Vec<u8>, e: Endianness, x: i16)
    ensures
        final(buf)@ == old(buf)@ + i16_bytes(e, x),
{
    put_u16(buf, e, i16_to_u16(x));
}

/// Appends the octets of `bytes`.
pub fn put_bytes(buf: &mut Vec<u8>, bytes: &[u8])
    ensures
        final(buf)@ == old(buf)@ + bytes@,
{
    let mut i: usize = 0;
    while i < bytes.len()
        invariant
            0 <= i <= bytes@.len(),
            buf@ == old(buf)@ + bytes@.take(i as int),
        decreases bytes@.len() - i,
    {
        buf.push(bytes[i]);
        i = i + 1;
        assert(buf@ =~= old(buf)@ + bytes@.take(i as int));
    }
    assert(bytes@.take(bytes@.len() as int) =~= bytes@);
}

/// Appends `n` zero octets.
pub fn put_zeros(buf: &mut Vec<u8>, n: usize)
    ensures
        final(buf)@ == old(buf)@ + zeros(n as int),
{
    let mut i: usize = 0;
    while i < n
        invariant
            0 <= i <= n,
            buf@ == old(buf)@ + zeros(i as int),
        decreases n - i,
    {
        buf.push(0u8);
        i = i + 1;
        assert(buf@ =~= old(buf)@ + zeros(i as int));
    }
}

/// Reads two octets at `pos`; `None` when the buffer ends sooner.
pub fn get_u16(buf: &[u8], pos: usize, e: Endianness) -> (r: Option<u16>)
    ensures
        buf@.len() <= usize::MAX,
        r is None <==> pos + 2 > buf@.len(),
        r matches Some(x) ==> u16_bytes(e, x) == buf@.subrange(pos as int, pos + 2) && x == u16_at(
            e,
            buf@,
            pos as int,
        ),
{
    if pos > buf.len() || buf.len() - pos < 2 {
        return None;
    }
    let (lo, hi) = match e {
        Endianness::LittleEndian => (buf[pos], buf[pos + 1]),
        Endianness::BigEndian => (buf[pos + 1], buf[pos]),
    };
    let x: u16 = (hi as u16) * 256 + (lo as u16);
    assert(u16_bytes(e, x) =~= buf@.subrange(pos as int, pos + 2));
    Some(x)
}

/// Reads four octets at `pos`; `None` when the buffer ends sooner.
pub fn get_u32(buf: &[u8], pos: usize, e: Endianness) -> (r: Option<u32>)
    ensures
        buf@.len() <= usize::MAX,
        r is None <==> pos + 4 > buf@.len(),
        r matches Some(x) ==> u32_bytes(e, x) == buf@.subrange(pos as int, pos + 4) && x == u32_at(
            e,
            buf@,
            pos as int,
        ),
{
    if pos > buf.len() || buf.len() - pos < 4 {
        return None;
    }
    let (b0, b1, b2, b3) = match e {
        Endianness::LittleEndian => (buf[pos], buf[pos + 1], buf[pos + 2], buf[pos + 3]),
        Endianness::BigEndian => (buf[pos + 3], buf[pos + 2], buf[pos + 1], buf[pos]),
    };
    let x: u32 = (b3 as u32) * 0x100_0000 + (b2 as u32) * 0x1_0000 + (b1 as u32) * 0x100 + (
    b0 as u32);
    proof {
        lemma_u32_digits(b0, b1, b2, b3, x);
    }
    assert(u32_bytes(e, x) =~= buf@.subrange(pos as int, pos + 4));
    Some(x)
}

pub fn get_i32(buf: &[u8], pos: usize, e: Endianness) -> (r: Option<i32>)
    ensures
        buf@.len() <= usize::MAX,
        r is None <==> pos + 4 > buf@.len(),
        r matches Some(x) ==> i32_bytes(e, x) == buf@.subrange(pos as int, pos + 4) && x == i32_at(
            e,
            buf@,
            pos as int,
        ),
{
    match get_u32(buf, pos, e) {
        None => None,
        Some(u) => {
            let x = u32_to_i32(u);
            assert(i32_as_u32(x) == u);
            Some(x)
        },
    }
}

pub fn get_i16(buf: &[u8], pos: usize, e: Endianness) -> (r: Option<i16>)
    ensures
        buf@.len() <= usize::MAX,
        r is None <==> pos + 2 > buf@.len(),
        r matches Some(x) ==> i16_bytes(e, x) == buf@.subrange(pos as int, pos + 2),
{
    match get_u16(buf, pos, e) {
        None => None,
        Some(u) => {
            let x = u16_to_i16(u);
            assert(i16_as_u16(x) == u);
            Some(x)
        },
    }
}

proof fn lemma_u32_digits(b0: u8, b1: u8, b2: u8, b3: u8, x: u32)
    requires
        x == b3 * 0x100_0000 + b2 * 0x1_0000 + b1 * 0x100 + b0,
    ensures
        (x % 256) as u8 == b0,
        ((x / 256) % 256) as u8 == b1,
        ((x / 0x1_0000) % 256) as u8 == b2,
        (x / 0x100_0000) as u8 == b3,
{
    let (c0, c1, c2, c3) = (b0 as int, b1 as int, b2 as int, b3 as int);
    assert(x % 256 == c0 && (x / 256) % 256 == c1 && (x / 0x1_0000) % 256 == c2 && x / 0x100_0000
        == c3) by (nonlinear_arith)
        requires
            0 <= c0 < 256,
            0 <= c1 < 256,
            0 <= c2 < 256,
            0 <= c3 < 256,
            x == c3 * 0x100_0000 + c2 * 0x1_0000 + c1 * 0x100 + c0,
    ;
}

/// The octets of an encoding determine the number: reading back what was
/// written gives the same value.
pub proof fn law_u32_bytes_injective(e: Endianness, x: u32, y: u32)
    requires
        u32_bytes(e, x) == u32_bytes(e, y),
    ensures
        x == y,
{
    let bx = u32_bytes(e, x);
    let by = u32_bytes(e, y);
    let xi = x as int;
    let yi = y as int;
    match e {
        Endianness::LittleEndian => {
            assert(bx[0] == by[0] && bx[1] == by[1] && bx[2] == by[2] && bx[3] == by[3]);
        },
        Endianness::BigEndian => {
            assert(bx[0] == by[0] && bx[1] == by[1] && bx[2] == by[2] && bx[3] == by[3]);
        },
    }
    assert(xi == yi) by (nonlinear_arith)
        requires
            0 <= xi < 0x1_0000_0000,
            0 <= yi < 0x1_0000_0000,
            xi % 256 == yi % 256,
            (xi / 256) % 256 == (yi / 256) % 256,
            (xi / 0x1_0000) % 256 == (yi / 0x1_0000) % 256,
            xi / 0x100_0000 == yi / 0x100_0000,
    ;
}

/// Appends one octet.
pub fn put_u8(buf: &mut Vec<u8>, x: u8)
    ensures
        final(buf)@ == old(buf)@.push(x),
{
    buf.push(x);
}

/// Reads one octet at `pos`; `None` when the buffer ends sooner.
pub fn get_u8(buf: &[u8], pos: usize) -> (r: Option<u8>)
    ensures
        buf@.len() <= usize::MAX,
        r is None <==> pos + 1 > buf@.len(),
        r matches Some(x) ==> x == buf@[pos as int],
{
    if pos < buf.len() {
        Some(buf[pos])
    } else {
        None
    }
}

/// Copies the `len` octets at `pos`; `None` when the buffer ends sooner.
pub fn get_bytes(buf: &[u8], pos: usize, len: usize) -> (r: Option<Vec<u8>>)
    ensures
        buf@.len() <= usize::MAX,
        r is None <==> pos + len > buf@.len(),
        r matches Some(v) ==> v@ == buf@.subrange(pos as int, pos + len),
{
    if pos > buf.len() || buf.len() - pos < len {
        return None;
    }
    let mut v: Vec<u8> = Vec::new();
    let mut k: usize = 0;
    while k < len
        invariant
            0 <= k <= len,
            pos + len <= buf@.len(),
            buf@.len() == buf.len(),
            v@ == buf@.subrange(pos as int, pos + k),
        decreases len - k,
    {
        v.push(buf[pos + k]);
        k = k + 1;
        assert(v@ =~= buf@.subrange(pos as int, pos + k));
    }
    Some(v)
}

/// The text whose UTF-8 encoding `bytes` is, if they are valid UTF-8
/// (`String::from_utf8`, which the standard library documents as succeeding
/// exactly on valid UTF-8 and keeping the characters the octets encode).
#[verifier::external_body]
pub fn string_from_utf8(bytes: Vec<u8>) -> (r: Option<String>)
    ensures
        r is Some <==> vstd::utf8::valid_utf8(bytes@),
        r matches Some(s) ==> s@ == vstd::utf8::decode_utf8(bytes@),
{
    String::from_utf8(bytes).ok()
}

} // verus!
