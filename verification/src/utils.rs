//! The primitive reader: fixed-width unsigned integers taken from a byte
//! buffer at a cursor in a caller-chosen byte order, and null-terminated
//! string resolution out of string-table bytes.

use vstd::prelude::*;

use crate::gabi;
use crate::types::{Endian, is_little};
use crate::ParseError;

verus! {

/// The 16-bit value that two bytes of `b` starting at `i` denote in byte
/// order `e`.
pub open spec fn w16(e: Endian, b: Seq<u8>, i: int) -> int
    recommends
        0 <= i,
        i + 2 <= b.len(),
{
    if is_little(e) {
        b[i] + 0x100 * b[i + 1]
    } else {
        b[i + 1] + 0x100 * b[i]
    }
}

/// The 32-bit value that four bytes of `b` starting at `i` denote in byte
/// order `e`.
pub open spec fn w32(e: Endian, b: Seq<u8>, i: int) -> int
    recommends
        0 <= i,
        i + 4 <= b.len(),
{
    if is_little(e) {
        w16(e, b, i) + 0x1_0000 * w16(e, b, i + 2)
    } else {
        0x1_0000 * w16(e, b, i) + w16(e, b, i + 2)
    }
}

/// The 64-bit value that eight bytes of `b` starting at `i` denote in byte
/// order `e`.
pub open spec fn w64(e: Endian, b: Seq<u8>, i: int) -> int
    recommends
        0 <= i,
        i + 8 <= b.len(),
{
    if is_little(e) {
        w32(e, b, i) + 0x1_0000_0000 * w32(e, b, i + 4)
    } else {
        0x1_0000_0000 * w32(e, b, i) + w32(e, b, i + 4)
    }
}

/// Reads the single byte at the cursor, advancing the cursor; fails without
/// moving it when no byte remains.
pub fn read_u8(data: &[u8], pos: &mut u64) -> (r: Result<u8, ParseError>)
    ensures
        match r {
            Ok(v) => *old(pos) + 1 <= data@.len() && *final(pos) == *old(pos) + 1 && v == data@[*old(
                pos,
            ) as int],
            Err(e) => *old(pos) + 1 > data@.len() && e == ParseError::IoFailure && *final(pos)
                == *old(pos),
        },
{
    let n = data.len();
    if n >= 1 && *pos <= (n - 1) as u64 {
        let i = *pos as usize;
        let b0 = data[i];
        *pos = *pos + 1;
        Ok(b0)
    } else {
        Err(ParseError::IoFailure)
    }
}

/// Reads two bytes at the cursor as a 16-bit value in byte order `endian`,
/// advancing the cursor; fails without moving it when fewer than two bytes
/// remain.
pub fn read_u16(endian: Endian, data: &[u8], pos: &mut u64) -> (r: Result<u16, ParseError>)
    ensures
        match r {
            Ok(v) => *old(pos) + 2 <= data@.len() && *final(pos) == *old(pos) + 2 && v == w16(
                endian,
                data@,
                *old(pos) as int,
            ),
            Err(e) => *old(pos) + 2 > data@.len() && e == ParseError::IoFailure && *final(pos)
                == *old(pos),
        },
{
    let n = data.len();
    if n >= 2 && *pos <= (n - 2) as u64 {
        let i = *pos as usize;
        let b0 = data[i];
        let b1 = data[i + 1];
        *pos = *pos + 2;
        if endian.0 == gabi::ELFDATA2LSB {
            Ok(b0 as u16 + (b1 as u16) * 0x100)
        } else {
            Ok(b1 as u16 + (b0 as u16) * 0x100)
        }
    } else {
        Err(ParseError::IoFailure)
    }
}

/// Reads four bytes at the cursor as a 32-bit value in byte order `endian`,
/// advancing the cursor; fails when fewer than four bytes remain.
pub fn read_u32(endian: Endian, data: &[u8], pos: &mut u64) -> (r: Result<u32, ParseError>)
    ensures
        match r {
            Ok(v) => *old(pos) + 4 <= data@.len() && *final(pos) == *old(pos) + 4 && v == w32(
                endian,
                data@,
                *old(pos) as int,
            ),
            Err(e) => *old(pos) + 4 > data@.len() && e == ParseError::IoFailure && *old(pos)
                <= *final(pos) <= *old(pos) + 2,
        },
{
    let first = match read_u16(endian, data, pos) {
        Ok(v) => v,
        Err(e) => return Err(e),
    };
    let second = match read_u16(endian, data, pos) {
        Ok(v) => v,
        Err(e) => return Err(e),
    };
    if endian.0 == gabi::ELFDATA2LSB {
        Ok(first as u32 + (second as u32) * 0x1_0000)
    } else {
        Ok((first as u32) * 0x1_0000 + second as u32)
    }
}

/// Reads eight bytes at the cursor as a 64-bit value in byte order `endian`,
/// advancing the cursor; fails when fewer than eight bytes remain.
pub fn read_u64(endian: Endian, data: &[u8], pos: &mut u64) -> (r: Result<u64, ParseError>)
    ensures
        match r {
            Ok(v) => *old(pos) + 8 <= data@.len() && *final(pos) == *old(pos) + 8 && v == w64(
                endian,
                data@,
                *old(pos) as int,
            ),
            Err(e) => *old(pos) + 8 > data@.len() && e == ParseError::IoFailure && *old(pos)
                <= *final(pos) <= *old(pos) + 6,
        },
{
    let first = match read_u32(endian, data, pos) {
        Ok(v) => v,
        Err(e) => return Err(e),
    };
    let second = match read_u32(endian, data, pos) {
        Ok(v) => v,
        Err(e) => return Err(e),
    };
    if endian.0 == gabi::ELFDATA2LSB {
        Ok(first as u64 + (second as u64) * 0x1_0000_0000)
    } else {
        Ok((first as u64) * 0x1_0000_0000 + second as u64)
    }
}

/// The two bytes that denote the 16-bit value `v` in byte order `e`.
pub open spec fn enc16(e: Endian, v: int) -> Seq<u8>
    recommends
        0 <= v < 0x1_0000,
{
    if is_little(e) {
        seq![(v % 0x100) as u8, ((v / 0x100) % 0x100) as u8]
    } else {
        seq![((v / 0x100) % 0x100) as u8, (v % 0x100) as u8]
    }
}

/// The four bytes that denote the 32-bit value `v` in byte order `e`.
pub open spec fn enc32(e: Endian, v: int) -> Seq<u8>
    recommends
        0 <= v < 0x1_0000_0000,
{
    if is_little(e) {
        enc16(e, v % 0x1_0000) + enc16(e, v / 0x1_0000)
    } else {
        enc16(e, v / 0x1_0000) + enc16(e, v % 0x1_0000)
    }
}

/// The eight bytes that denote the 64-bit value `v` in byte order `e`.
pub open spec fn enc64(e: Endian, v: int) -> Seq<u8>
    recommends
        0 <= v < 0x1_0000_0000_0000_0000,
{
    if is_little(e) {
        enc32(e, v % 0x1_0000_0000) + enc32(e, v / 0x1_0000_0000)
    } else {
        enc32(e, v / 0x1_0000_0000) + enc32(e, v % 0x1_0000_0000)
    }
}

/// Decoding the two-byte encoding of a 16-bit value gives the value back,
/// wherever the encoding stands inside a larger buffer.
pub proof fn lemma_w16_enc16(e: Endian, v: int, b: Seq<u8>, i: int)
    requires
        0 <= v < 0x1_0000,
        0 <= i,
        i + 2 <= b.len(),
        b[i] == enc16(e, v)[0],
        b[i + 1] == enc16(e, v)[1],
    ensures
        w16(e, b, i) == v,
{
    assert(v % 0x100 + 0x100 * ((v / 0x100) % 0x100) == v) by (nonlinear_arith)
        requires
            0 <= v < 0x1_0000,
    ;
}

/// Decoding the four-byte encoding of a 32-bit value gives the value back,
/// wherever the encoding stands inside a larger buffer.
pub proof fn lemma_w32_enc32(e: Endian, v: int, b: Seq<u8>, i: int)
    requires
        0 <= v < 0x1_0000_0000,
        0 <= i,
        i + 4 <= b.len(),
        forall|k: int| 0 <= k < 4 ==> b[i + k] == #[trigger] enc32(e, v)[k],
    ensures
        w32(e, b, i) == v,
{
    let lo = v % 0x1_0000;
    let hi = v / 0x1_0000;
    assert(0 <= v % 0x1_0000 < 0x1_0000) by (nonlinear_arith)
        requires
            0 <= v,
    ;
    assert(0 <= v / 0x1_0000 < 0x1_0000) by (nonlinear_arith)
        requires
            0 <= v < 0x1_0000_0000,
    ;
    assert(v % 0x1_0000 + 0x1_0000 * (v / 0x1_0000) == v) by (nonlinear_arith)
        requires
            0 <= v,
    ;
    let first = if is_little(e) { lo } else { hi };
    let second = if is_little(e) { hi } else { lo };
    assert forall|k: int| 0 <= k < 2 implies enc32(e, v)[k] == enc16(e, first)[k] && enc32(
        e,
        v,
    )[2 + k] == enc16(e, second)[k] by {
        assert((enc16(e, first) + enc16(e, second))[k] == enc16(e, first)[k]);
        assert((enc16(e, first) + enc16(e, second))[2 + k] == enc16(e, second)[k]);
    }
    assert(b[i] == enc32(e, v)[0] && b[i + 1] == enc32(e, v)[1] && b[i + 2] == enc32(e, v)[2]
        && b[i + 3] == enc32(e, v)[3]);
    lemma_w16_enc16(e, first, b, i);
    lemma_w16_enc16(e, second, b, i + 2);
}

/// Decoding the eight-byte encoding of a 64-bit value gives the value back,
/// wherever the encoding stands inside a larger buffer.
pub proof fn lemma_w64_enc64(e: Endian, v: int, b: Seq<u8>, i: int)
    requires
        0 <= v < 0x1_0000_0000_0000_0000,
        0 <= i,
        i + 8 <= b.len(),
        forall|k: int| 0 <= k < 8 ==> b[i + k] == #[trigger] enc64(e, v)[k],
    ensures
        w64(e, b, i) == v,
{
    let lo = v % 0x1_0000_0000;
    let hi = v / 0x1_0000_0000;
    assert(0 <= v % 0x1_0000_0000 < 0x1_0000_0000) by (nonlinear_arith)
        requires
            0 <= v,
    ;
    assert(0 <= v / 0x1_0000_0000 < 0x1_0000_0000) by (nonlinear_arith)
        requires
            0 <= v < 0x1_0000_0000_0000_0000,
    ;
    assert(v % 0x1_0000_0000 + 0x1_0000_0000 * (v / 0x1_0000_0000) == v) by (nonlinear_arith)
        requires
            0 <= v,
    ;
    let first = if is_little(e) { lo } else { hi };
    let second = if is_little(e) { hi } else { lo };
    assert forall|k: int| 0 <= k < 4 implies enc64(e, v)[k] == enc32(e, first)[k] && enc64(
        e,
        v,
    )[4 + k] == enc32(e, second)[k] by {
        assert((enc32(e, first) + enc32(e, second))[k] == enc32(e, first)[k]);
        assert((enc32(e, first) + enc32(e, second))[4 + k] == enc32(e, second)[k]);
    }
    lemma_w32_enc32(e, first, b, i);
    lemma_w32_enc32(e, second, b, i + 4);
}

/// Index of the first null byte of `t` at or after `i`, or `t.len()` when
/// none follows.
pub open spec fn str_end(t: Seq<u8>, i: int) -> int
    decreases t.len() - i,
{
    if i < 0 || i >= t.len() {
        t.len() as int
    } else if t[i] == 0 {
        i
    } else {
        str_end(t, i + 1)
    }
}

/// The bytes of the null-terminated string of `t` that starts at `i`
/// (terminator excluded; the buffer end terminates an unterminated string).
pub open spec fn str_bytes(t: Seq<u8>, i: int) -> Seq<u8>
    recommends
        0 <= i <= t.len(),
{
    t.subrange(i, str_end(t, i))
}

/// The first null at or after `i` is no earlier than `i` and no later than
/// the end of the buffer.
pub proof fn lemma_str_end_bounds(t: Seq<u8>, i: int)
    requires
        0 <= i <= t.len(),
    ensures
        i <= str_end(t, i) <= t.len(),
    decreases t.len() - i,
{
    if i < t.len() && t[i] != 0 {
        lemma_str_end_bounds(t, i + 1);
    }
}

/// A scan that saw no null in `t[i..e]` and stopped at a null or at the
/// buffer end found exactly the first null position.
pub proof fn lemma_str_end_at(t: Seq<u8>, i: int, e: int)
    requires
        0 <= i <= e <= t.len(),
        forall|k: int| i <= k < e ==> t[k] != 0,
        e == t.len() || t[e] == 0,
    ensures
        str_end(t, i) == e,
    decreases e - i,
{
    if i < e {
        lemma_str_end_at(t, i + 1, e);
    }
}

/// What text a byte sequence denotes: the decoded characters where the
/// bytes are valid UTF-8, and nothing otherwise.
pub uninterp spec fn utf8_decode(bytes: Seq<u8>) -> Option<Seq<char>>;

/// Relies on String::from_utf8: it returns a string exactly when the bytes
/// are valid UTF-8, and the result depends on the bytes alone.
#[verifier::external_body]
fn bytes_to_string(bytes: Vec<u8>) -> (r: Result<String, ParseError>)
    ensures
        match r {
            Ok(s) => utf8_decode(bytes@) == Some(s@),
            Err(e) => utf8_decode(bytes@) is None && e == ParseError::TextDecodeFailure,
        },
{
    match String::from_utf8(bytes) {
        Ok(s) => Ok(s),
        Err(_) => Err(ParseError::TextDecodeFailure),
    }
}

/// Copies a byte buffer into a fresh owned one.
pub fn clone_bytes(v: &Vec<u8>) -> (r: Vec<u8>)
    ensures
        r@ == v@,
{
    let mut r: Vec<u8> = Vec::new();
    let mut i: usize = 0;
    while i < v.len()
        invariant
            i <= v@.len(),
            r@ == v@.subrange(0, i as int),
        decreases v@.len() - i,
    {
        r.push(v[i]);
        i = i + 1;
        proof {
            assert(r@ =~= v@.subrange(0, i as int));
        }
    }
    proof {
        assert(r@ =~= v@);
    }
    r
}

/// Resolves the null-terminated string of `data` that starts at `offset`:
/// out-of-bounds offsets fail, and bytes that are not valid text fail.
pub fn get_string(data: &[u8], offset: usize) -> (r: Result<String, ParseError>)
    ensures
        match r {
            Ok(s) => offset < data@.len() && utf8_decode(str_bytes(data@, offset as int)) == Some(
                s@,
            ),
            Err(e) => (e == ParseError::IoFailure && offset >= data@.len()) || (e
                == ParseError::TextDecodeFailure && offset < data@.len() && utf8_decode(
                str_bytes(data@, offset as int),
            ) is None),
        },
{
    let n = data.len();
    if offset >= n {
        return Err(ParseError::IoFailure);
    }
    let mut end: usize = offset;
    while end < n && data[end] != 0
        invariant
            offset <= end <= n,
            n == data@.len(),
            forall|k: int| offset <= k < end ==> data@[k] != 0,
        decreases n - end,
    {
        end = end + 1;
    }
    proof {
        lemma_str_end_at(data@, offset as int, end as int);
    }
    let mut bytes: Vec<u8> = Vec::new();
    let mut k: usize = offset;
    while k < end
        invariant
            offset <= k <= end <= n,
            n == data@.len(),
            bytes@ == data@.subrange(offset as int, k as int),
        decreases end - k,
    {
        bytes.push(data[k]);
        k = k + 1;
        proof {
            assert(bytes@ =~= data@.subrange(offset as int, k as int));
        }
    }
    proof {
        assert(bytes@ =~= str_bytes(data@, offset as int));
    }
    bytes_to_string(bytes)
}

} // verus!
