//! Variable-length integer (LEB128) decoding.
//!
//! Every length, count and index in the container format is a LEB128-encoded
//! unsigned 32-bit integer; constant expressions carry signed 32-bit values;
//! memory-access immediates carry unsigned 64-bit offsets, of which only the
//! low 32 bits are kept.  Each reader is specified exactly: the spec function
//! gives the decoded value and the position after it, or the decode error.

use vstd::prelude::*;
use crate::types::DecodeError;

verus! {

/// The low seven bits of an encoded byte: its payload.
pub open spec fn l7(b: u8) -> int {
    (b % 128) as int
}

/// An unsigned 32-bit integer: at most five bytes, and the fifth byte may
/// only carry the four remaining bits.
#[verifier::opaque]
pub open spec fn spec_leb_u32(bytes: Seq<u8>, pos: int) -> Result<(int, int), DecodeError> {
    if !(0 <= pos < bytes.len()) {
        Err(DecodeError::Truncated)
    } else {
        let b0 = bytes[pos];
        if b0 < 128 {
            Ok((l7(b0), pos + 1))
        } else if !(pos + 1 < bytes.len()) {
            Err(DecodeError::Truncated)
        } else {
            let b1 = bytes[pos + 1];
            if b1 < 128 {
                Ok((l7(b0) + 128 * l7(b1), pos + 2))
            } else if !(pos + 2 < bytes.len()) {
                Err(DecodeError::Truncated)
            } else {
                let b2 = bytes[pos + 2];
                if b2 < 128 {
                    Ok((l7(b0) + 128 * l7(b1) + 16384 * l7(b2), pos + 3))
                } else if !(pos + 3 < bytes.len()) {
                    Err(DecodeError::Truncated)
                } else {
                    let b3 = bytes[pos + 3];
                    if b3 < 128 {
                        Ok((l7(b0) + 128 * l7(b1) + 16384 * l7(b2) + 2097152 * l7(b3), pos + 4))
                    } else if !(pos + 4 < bytes.len()) {
                        Err(DecodeError::Truncated)
                    } else {
                        let b4 = bytes[pos + 4];
                        if b4 >= 16 {
                            Err(DecodeError::BadCount)
                        } else {
                            Ok((
                                l7(b0) + 128 * l7(b1) + 16384 * l7(b2) + 2097152 * l7(b3)
                                    + 268435456 * l7(b4),
                                pos + 5,
                            ))
                        }
                    }
                }
            }
        }
    }
}

pub(crate) fn read_leb_u32(bytes: &Vec<u8>, pos: usize) -> (r: Result<(u32, usize), DecodeError>)
    ensures
        match r {
            Ok((v, q)) => spec_leb_u32(bytes@, pos as int) == Ok::<(int, int), DecodeError>(
                (v as int, q as int),
            ) && pos < q <= bytes@.len(),
            Err(e) => spec_leb_u32(bytes@, pos as int) == Err::<(int, int), DecodeError>(e),
        },
{
    proof {
        reveal(spec_leb_u32);
    }
    if pos >= bytes.len() {
        return Err(DecodeError::Truncated);
    }
    let b0 = bytes[pos];
    if b0 < 128 {
        return Ok((b0 as u32, pos + 1));
    }
    if pos + 1 >= bytes.len() {
        return Err(DecodeError::Truncated);
    }
    let b1 = bytes[pos + 1];
    if b1 < 128 {
        return Ok(((b0 - 128) as u32 + 128 * (b1 as u32), pos + 2));
    }
    if pos + 2 >= bytes.len() {
        return Err(DecodeError::Truncated);
    }
    let b2 = bytes[pos + 2];
    if b2 < 128 {
        return Ok((
            (b0 - 128) as u32 + 128 * ((b1 - 128) as u32) + 16384 * (b2 as u32),
            pos + 3,
        ));
    }
    if pos + 3 >= bytes.len() {
        return Err(DecodeError::Truncated);
    }
    let b3 = bytes[pos + 3];
    if b3 < 128 {
        return Ok((
            (b0 - 128) as u32 + 128 * ((b1 - 128) as u32) + 16384 * ((b2 - 128) as u32)
                + 2097152 * (b3 as u32),
            pos + 4,
        ));
    }
    if pos + 4 >= bytes.len() {
        return Err(DecodeError::Truncated);
    }
    let b4 = bytes[pos + 4];
    if b4 >= 16 {
        return Err(DecodeError::BadCount);
    }
    Ok((
        (b0 - 128) as u32 + 128 * ((b1 - 128) as u32) + 16384 * ((b2 - 128) as u32)
            + 2097152 * ((b3 - 128) as u32) + 268435456 * (b4 as u32),
        pos + 5,
    ))
}

/// Skips a LEB128 integer of at most `max` bytes whose last permitted byte
/// must have a payload of at most `lo` or at least `hi`.  This covers the
/// final-byte patterns of the signed and the wide unsigned encodings, whose
/// values the decoder never needs.
pub open spec fn spec_skip_leb(
    bytes: Seq<u8>,
    pos: int,
    max: int,
    lo: u8,
    hi: u8,
) -> Result<int, DecodeError>
    decreases max,
{
    if max <= 0 {
        Err(DecodeError::BadCount)
    } else if !(0 <= pos < bytes.len()) {
        Err(DecodeError::Truncated)
    } else {
        let b = bytes[pos];
        if b < 128 {
            if max == 1 && !(b <= lo || b >= hi) {
                Err(DecodeError::BadCount)
            } else {
                Ok(pos + 1)
            }
        } else if max == 1 {
            Err(DecodeError::BadCount)
        } else {
            spec_skip_leb(bytes, pos + 1, max - 1, lo, hi)
        }
    }
}

pub(crate) fn skip_leb(bytes: &Vec<u8>, pos: usize, max: u8, lo: u8, hi: u8) -> (r: Result<
    usize,
    DecodeError,
>)
    ensures
        match r {
            Ok(q) => spec_skip_leb(bytes@, pos as int, max as int, lo, hi) == Ok::<
                int,
                DecodeError,
            >(q as int) && pos < q <= bytes@.len(),
            Err(e) => spec_skip_leb(bytes@, pos as int, max as int, lo, hi) == Err::<
                int,
                DecodeError,
            >(e),
        },
    decreases max,
{
    if max == 0 {
        return Err(DecodeError::BadCount);
    }
    if pos >= bytes.len() {
        return Err(DecodeError::Truncated);
    }
    let b = bytes[pos];
    if b < 128 {
        if max == 1 && !(b <= lo || b >= hi) {
            return Err(DecodeError::BadCount);
        }
        Ok(pos + 1)
    } else if max == 1 {
        Err(DecodeError::BadCount)
    } else {
        skip_leb(bytes, pos + 1, max - 1, lo, hi)
    }
}

/// The low 32 bits of an unsigned 64-bit LEB128 integer (at most ten bytes;
/// the tenth byte may only carry the one remaining bit).  Memory-access
/// offsets are decoded with this reader and truncated to 32 bits.
pub open spec fn spec_leb_u64_low32(bytes: Seq<u8>, pos: int) -> Result<
    (int, int),
    DecodeError,
>
    decreases 10int,
{
    spec_leb_u64_low32_at(bytes, pos, 0, 0)
}

/// Helper for [`spec_leb_u64_low32`]: `k` bytes were consumed so far and the
/// low 32 bits accumulated so far are `acc`.
pub open spec fn spec_leb_u64_low32_at(bytes: Seq<u8>, pos: int, k: int, acc: int) -> Result<
    (int, int),
    DecodeError,
>
    decreases 10 - k,
{
    if !(0 <= k < 10) {
        Err(DecodeError::BadCount)
    } else if !(0 <= pos < bytes.len()) {
        Err(DecodeError::Truncated)
    } else {
        let b = bytes[pos];
        let contribution = if k < 4 {
            l7(b) * pow_term(k)
        } else if k == 4 {
            (l7(b) % 16) * 268435456
        } else {
            0
        };
        if b < 128 {
            if k == 9 && b > 1 {
                Err(DecodeError::BadCount)
            } else {
                Ok((acc + contribution, pos + 1))
            }
        } else if k == 9 {
            Err(DecodeError::BadCount)
        } else {
            spec_leb_u64_low32_at(bytes, pos + 1, k + 1, acc + contribution)
        }
    }
}

/// `128^k` for the byte positions that contribute to the low 32 bits.
pub open spec fn pow_term(k: int) -> int {
    if k == 0 {
        1
    } else if k == 1 {
        128
    } else if k == 2 {
        16384
    } else if k == 3 {
        2097152
    } else {
        268435456
    }
}

pub(crate) fn read_leb_u64_low32(bytes: &Vec<u8>, pos: usize) -> (r: Result<
    (u32, usize),
    DecodeError,
>)
    ensures
        match r {
            Ok((v, q)) => spec_leb_u64_low32(bytes@, pos as int) == Ok::<(int, int), DecodeError>(
                (v as int, q as int),
            ) && pos < q <= bytes@.len(),
            Err(e) => spec_leb_u64_low32(bytes@, pos as int) == Err::<(int, int), DecodeError>(e),
        },
{
    let r = read_leb_u64_low32_at(bytes, pos, 0, 0);
    proof {
        assert(spec_leb_u64_low32(bytes@, pos as int) == spec_leb_u64_low32_at(
            bytes@,
            pos as int,
            0,
            0,
        ));
    }
    r
}

fn read_leb_u64_low32_at(bytes: &Vec<u8>, pos: usize, k: u8, acc: u32) -> (r: Result<
    (u32, usize),
    DecodeError,
>)
    requires
        k < 10,
        k <= 4 ==> acc < pow_term(k as int),
        k > 4 ==> acc <= 0xffff_ffff,
    ensures
        match r {
            Ok((v, q)) => spec_leb_u64_low32_at(bytes@, pos as int, k as int, acc as int) == Ok::<
                (int, int),
                DecodeError,
            >((v as int, q as int)) && pos < q <= bytes@.len(),
            Err(e) => spec_leb_u64_low32_at(bytes@, pos as int, k as int, acc as int) == Err::<
                (int, int),
                DecodeError,
            >(e),
        },
    decreases 10 - k,
{
    if pos >= bytes.len() {
        return Err(DecodeError::Truncated);
    }
    let b = bytes[pos];
    let payload = b % 128;
    let contribution: u32 = if k == 0 {
        payload as u32
    } else if k == 1 {
        128 * (payload as u32)
    } else if k == 2 {
        16384 * (payload as u32)
    } else if k == 3 {
        2097152 * (payload as u32)
    } else if k == 4 {
        268435456 * ((payload % 16) as u32)
    } else {
        0
    };
    proof {
        if (k as int) < 4 {
            assert(acc + contribution < pow_term(k as int) + 127 * pow_term(k as int));
            assert(128 * pow_term(k as int) == pow_term(k as int + 1));
        } else if k == 4 {
            assert(contribution <= 15 * 268435456);
        }
    }
    let next_acc: u32 = acc + contribution;
    if b < 128 {
        if k == 9 && b > 1 {
            return Err(DecodeError::BadCount);
        }
        Ok((next_acc, pos + 1))
    } else if k == 9 {
        Err(DecodeError::BadCount)
    } else {
        read_leb_u64_low32_at(bytes, pos + 1, k + 1, next_acc)
    }
}

/// A signed 32-bit LEB128 integer, returned as its unsigned 32-bit two's
/// complement image, which is what a resolved segment offset stores.
#[verifier::opaque]
pub open spec fn spec_leb_s32_u32(bytes: Seq<u8>, pos: int) -> Result<(int, int), DecodeError> {
    if !(0 <= pos < bytes.len()) {
        Err(DecodeError::Truncated)
    } else {
        let b0 = bytes[pos];
        if b0 < 128 {
            Ok((sext_value(l7(b0), 1), pos + 1))
        } else if !(pos + 1 < bytes.len()) {
            Err(DecodeError::Truncated)
        } else {
            let b1 = bytes[pos + 1];
            if b1 < 128 {
                Ok((sext_value(l7(b0) + 128 * l7(b1), 2), pos + 2))
            } else if !(pos + 2 < bytes.len()) {
                Err(DecodeError::Truncated)
            } else {
                let b2 = bytes[pos + 2];
                if b2 < 128 {
                    Ok((sext_value(l7(b0) + 128 * l7(b1) + 16384 * l7(b2), 3), pos + 3))
                } else if !(pos + 3 < bytes.len()) {
                    Err(DecodeError::Truncated)
                } else {
                    let b3 = bytes[pos + 3];
                    if b3 < 128 {
                        Ok((
                            sext_value(
                                l7(b0) + 128 * l7(b1) + 16384 * l7(b2) + 2097152 * l7(b3),
                                4,
                            ),
                            pos + 4,
                        ))
                    } else if !(pos + 4 < bytes.len()) {
                        Err(DecodeError::Truncated)
                    } else {
                        let b4 = bytes[pos + 4];
                        if b4 >= 128 || !(l7(b4) <= 7 || l7(b4) >= 120) {
                            Err(DecodeError::BadCount)
                        } else {
                            let low31 = l7(b0) + 128 * l7(b1) + 16384 * l7(b2) + 2097152 * l7(b3)
                                + 268435456 * (l7(b4) % 8);
                            Ok((if l7(b4) >= 120 {
                                low31 + 0x8000_0000
                            } else {
                                low31
                            }, pos + 5))
                        }
                    }
                }
            }
        }
    }
}

/// Sign-extends the `7 * k`-bit payload `bits` to 32 bits, as an unsigned
/// two's complement image.
pub open spec fn sext_value(bits: int, k: int) -> int {
    let width: int = if k == 1 {
        128
    } else if k == 2 {
        16384
    } else if k == 3 {
        2097152
    } else {
        268435456
    };
    if 2 * bits >= width {
        bits + 0x1_0000_0000 - width
    } else {
        bits
    }
}

pub(crate) fn read_leb_s32_u32(bytes: &Vec<u8>, pos: usize) -> (r: Result<
    (u32, usize),
    DecodeError,
>)
    ensures
        match r {
            Ok((v, q)) => spec_leb_s32_u32(bytes@, pos as int) == Ok::<(int, int), DecodeError>(
                (v as int, q as int),
            ) && pos < q <= bytes@.len(),
            Err(e) => spec_leb_s32_u32(bytes@, pos as int) == Err::<(int, int), DecodeError>(e),
        },
{
    proof {
        reveal(spec_leb_s32_u32);
    }
    if pos >= bytes.len() {
        return Err(DecodeError::Truncated);
    }
    let b0 = bytes[pos];
    if b0 < 128 {
        let bits = b0 as u32;
        let v: u32 = if b0 >= 64 {
            bits + (0x1_0000_0000u64 - 128) as u32
        } else {
            bits
        };
        return Ok((v, pos + 1));
    }
    if pos + 1 >= bytes.len() {
        return Err(DecodeError::Truncated);
    }
    let b1 = bytes[pos + 1];
    if b1 < 128 {
        let bits = (b0 - 128) as u32 + 128 * (b1 as u32);
        let v: u32 = if b1 >= 64 {
            bits + (0x1_0000_0000u64 - 16384) as u32
        } else {
            bits
        };
        return Ok((v, pos + 2));
    }
    if pos + 2 >= bytes.len() {
        return Err(DecodeError::Truncated);
    }
    let b2 = bytes[pos + 2];
    if b2 < 128 {
        let bits = (b0 - 128) as u32 + 128 * ((b1 - 128) as u32) + 16384 * (b2 as u32);
        let v: u32 = if b2 >= 64 {
            bits + (0x1_0000_0000u64 - 2097152) as u32
        } else {
            bits
        };
        return Ok((v, pos + 3));
    }
    if pos + 3 >= bytes.len() {
        return Err(DecodeError::Truncated);
    }
    let b3 = bytes[pos + 3];
    if b3 < 128 {
        let bits = (b0 - 128) as u32 + 128 * ((b1 - 128) as u32) + 16384 * ((b2 - 128) as u32)
            + 2097152 * (b3 as u32);
        let v: u32 = if b3 >= 64 {
            bits + (0x1_0000_0000u64 - 268435456) as u32
        } else {
            bits
        };
        return Ok((v, pos + 4));
    }
    if pos + 4 >= bytes.len() {
        return Err(DecodeError::Truncated);
    }
    let b4 = bytes[pos + 4];
    if b4 >= 128 || !(b4 <= 7 || b4 >= 120) {
        return Err(DecodeError::BadCount);
    }
    let low31 = (b0 - 128) as u32 + 128 * ((b1 - 128) as u32) + 16384 * ((b2 - 128) as u32)
        + 2097152 * ((b3 - 128) as u32) + 268435456 * ((b4 % 8) as u32);
    let v: u32 = if b4 >= 120 {
        low31 + 0x8000_0000
    } else {
        low31
    };
    Ok((v, pos + 5))
}

} // verus!
