//! The varint codec and fixed-width integer reads used by every higher layer.
//!
//! Unsigned varints (ULEB128) carry 7 payload bits per byte, least significant
//! group first; a set high bit marks a continuation byte. Signed varints
//! (SLEB128) use the same grouping, with bit 6 of the terminal byte
//! sign-extending the accumulated value. Fixed-width fields are read with an
//! explicit endianness.

use vstd::prelude::*;

use crate::error::{ErrKind, Error};

verus! {

/// Byte order for fixed-width integer fields of the shared buffer.
#[derive(Debug, Clone, Copy, PartialEq, Eq, Structural)]
pub enum Endian {
    Little,
    Big,
}

/// The unsigned varint encoded in `s` starting at index `i`: its mathematical
/// value and the count of bytes it occupies. Fails with `Malformed` when the
/// bytes are exhausted before a terminal byte (high bit clear) is found.
pub open spec fn uleb_at(s: Seq<u8>, i: int) -> Result<(nat, nat), ErrKind>
    decreases s.len() - i,
{
    if i < 0 || i >= s.len() {
        Err(ErrKind::Malformed)
    } else if s[i] < 128 {
        Ok((s[i] as nat, 1))
    } else {
        match uleb_at(s, i + 1) {
            Ok((v, n)) => Ok((((s[i] - 128) + 128 * v) as nat, n + 1)),
            Err(k) => Err(k),
        }
    }
}

/// `uleb_at`, restricted to values that fit in a `u64`; a larger value is
/// rejected as `Malformed`.
pub open spec fn uleb64_at(s: Seq<u8>, i: int) -> Result<(u64, nat), ErrKind> {
    match uleb_at(s, i) {
        Ok((v, n)) => if v <= u64::MAX {
            Ok((v as u64, n))
        } else {
            Err(ErrKind::Malformed)
        },
        Err(k) => Err(k),
    }
}

/// The signed varint encoded in `s` starting at index `i`. The terminal
/// byte's bit 6 sign-extends the accumulated value.
pub open spec fn sleb_at(s: Seq<u8>, i: int) -> Result<(int, nat), ErrKind>
    decreases s.len() - i,
{
    if i < 0 || i >= s.len() {
        Err(ErrKind::Malformed)
    } else if s[i] < 128 {
        if s[i] >= 64 {
            Ok((s[i] - 128, 1))
        } else {
            Ok((s[i] as int, 1))
        }
    } else {
        match sleb_at(s, i + 1) {
            Ok((v, n)) => Ok(((s[i] - 128) + 128 * v, n + 1)),
            Err(k) => Err(k),
        }
    }
}

/// `sleb_at`, restricted to values that fit in an `i64`; a value outside that
/// range is rejected as `Malformed`.
pub open spec fn sleb64_at(s: Seq<u8>, i: int) -> Result<(i64, nat), ErrKind> {
    match sleb_at(s, i) {
        Ok((v, n)) => if i64::MIN <= v <= i64::MAX {
            Ok((v as i64, n))
        } else {
            Err(ErrKind::Malformed)
        },
        Err(k) => Err(k),
    }
}

/// The 32-bit value whose four bytes stand at `s[i .. i + 4]`, combined in
/// the given byte order.
pub open spec fn u32_at(s: Seq<u8>, i: int, endian: Endian) -> u32 {
    match endian {
        Endian::Little => (s[i] + 256 * s[i + 1] + 65536 * s[i + 2] + 16777216 * s[i
            + 3]) as u32,
        Endian::Big => (s[i + 3] + 256 * s[i + 2] + 65536 * s[i + 1] + 16777216 * s[i]) as u32,
    }
}

/// The length of a byte buffer fits in `usize`, so a position plus a
/// consumed-bytes count that stays inside the buffer cannot overflow.
pub proof fn lemma_buf_len_fits(v: &Vec<u8>)
    ensures
        v@.len() <= usize::MAX,
{
    assert(v.len() == v@.len());
}

/// Reads the unsigned varint at `pos`, returning its value and the count of
/// bytes consumed.
pub fn read_uleb(buf: &Vec<u8>, pos: usize) -> (r: Result<(u64, usize), Error>)
    ensures
        r matches Ok(p) ==> uleb64_at(buf@, pos as int) == Ok::<(u64, nat), ErrKind>(
            (p.0, p.1 as nat),
        ) && 1 <= p.1 && pos + p.1 <= buf@.len(),
        r matches Err(e) ==> uleb64_at(buf@, pos as int) == Err::<(u64, nat), ErrKind>(e.kind()),
    decreases buf@.len() - pos,
{
    if pos >= buf.len() {
        return Err(Error::MalFormed("unsigned varint has no terminal byte".to_owned()));
    }
    let b = buf[pos];
    if b < 128 {
        Ok((b as u64, 1))
    } else {
        match read_uleb(buf, pos + 1) {
            Ok((v, n)) => {
                let low = (b - 128) as u64;
                proof {
                    let rest = uleb_at(buf@, pos + 1)->Ok_0;
                    assert(uleb_at(buf@, pos as int) == Ok::<(nat, nat), ErrKind>(
                        ((low + 128 * rest.0) as nat, (rest.1 + 1) as nat),
                    ));
                }
                match v.checked_mul(128) {
                    Some(t) => match t.checked_add(low) {
                        Some(val) => Ok((val, n + 1)),
                        None => Err(
                            Error::MalFormed("unsigned varint value does not fit".to_owned()),
                        ),
                    },
                    None => Err(Error::MalFormed("unsigned varint value does not fit".to_owned())),
                }
            },
            Err(e) => {
                proof {
                    if uleb_at(buf@, pos + 1) is Ok {
                        let rest = uleb_at(buf@, pos + 1)->Ok_0;
                        assert(rest.0 > u64::MAX);
                        assert((b - 128) + 128 * rest.0 > u64::MAX);
                    }
                }
                Err(e)
            },
        }
    }
}

/// Reads the signed varint at `pos`, returning its value and the count of
/// bytes consumed.
pub fn read_sleb(buf: &Vec<u8>, pos: usize) -> (r: Result<(i64, usize), Error>)
    ensures
        r matches Ok(p) ==> sleb64_at(buf@, pos as int) == Ok::<(i64, nat), ErrKind>(
            (p.0, p.1 as nat),
        ) && 1 <= p.1 && pos + p.1 <= buf@.len(),
        r matches Err(e) ==> sleb64_at(buf@, pos as int) == Err::<(i64, nat), ErrKind>(e.kind()),
    decreases buf@.len() - pos,
{
    if pos >= buf.len() {
        return Err(Error::MalFormed("signed varint has no terminal byte".to_owned()));
    }
    let b = buf[pos];
    if b < 128 {
        if b >= 64 {
            Ok(((b as i64) - 128, 1))
        } else {
            Ok((b as i64, 1))
        }
    } else {
        match read_sleb(buf, pos + 1) {
            Ok((v, n)) => {
                let low = (b - 128) as i64;
                proof {
                    let rest = sleb_at(buf@, pos + 1)->Ok_0;
                    assert(sleb_at(buf@, pos as int) == Ok::<(int, nat), ErrKind>(
                        (low + 128 * rest.0, (rest.1 + 1) as nat),
                    ));
                }
                match v.checked_mul(128) {
                    Some(t) => match t.checked_add(low) {
                        Some(val) => Ok((val, n + 1)),
                        None => Err(Error::MalFormed("signed varint value does not fit".to_owned())),
                    },
                    None => {
                        proof {
                            lemma_scaled_out_of_range(v as int, low as int);
                        }
                        Err(Error::MalFormed("signed varint value does not fit".to_owned()))
                    },
                }
            },
            Err(e) => {
                proof {
                    if sleb_at(buf@, pos + 1) is Ok {
                        let rest = sleb_at(buf@, pos + 1)->Ok_0;
                        let low = b - 128;
                        if rest.0 > i64::MAX {
                            assert(low + 128 * rest.0 > i64::MAX);
                        } else {
                            assert(rest.0 < i64::MIN);
                            assert(128 * rest.0 <= 128 * (i64::MIN - 1));
                            assert(low + 128 * rest.0 < i64::MIN);
                        }
                    }
                }
                Err(e)
            },
        }
    }
}

/// If `128 * v` overflows the `i64` range, then so does `low + 128 * v` for
/// any `0 <= low <= 127`: the nearest multiple of 128 below `i64::MIN` is
/// `i64::MIN - 128` itself, too far below to be bridged by `low`.
proof fn lemma_scaled_out_of_range(v: int, low: int)
    requires
        0 <= low <= 127,
        128 * v < i64::MIN || 128 * v > i64::MAX,
    ensures
        low + 128 * v < i64::MIN || low + 128 * v > i64::MAX,
{
    if 128 * v < i64::MIN {
        assert(v < -72057594037927936);
        assert(v <= -72057594037927937);
        assert(128 * v <= 128 * -72057594037927937);
        assert(low + 128 * v < i64::MIN);
    }
}

/// Reads the fixed-width 32-bit field at `pos` in the given byte order.
/// Fails with `MalFormed` when fewer than four bytes remain.
pub fn read_u32(buf: &Vec<u8>, pos: usize, endian: Endian) -> (r: Result<u32, Error>)
    ensures
        r is Ok <==> pos + 4 <= buf@.len(),
        r matches Ok(v) ==> v == u32_at(buf@, pos as int, endian),
        r matches Err(e) ==> e.kind() == ErrKind::Malformed,
{
    if pos >= buf.len() || buf.len() - pos < 4 {
        return Err(Error::MalFormed("fixed-width field runs past the buffer end".to_owned()));
    }
    let b0 = buf[pos] as u32;
    let b1 = buf[pos + 1] as u32;
    let b2 = buf[pos + 2] as u32;
    let b3 = buf[pos + 3] as u32;
    match endian {
        Endian::Little => Ok(b0 + 256 * b1 + 65536 * b2 + 16777216 * b3),
        Endian::Big => Ok(b3 + 256 * b2 + 65536 * b1 + 16777216 * b0),
    }
}

} // verus!

