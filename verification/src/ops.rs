//! Scanning of instruction streams.
//!
//! A function body or a constant expression is a stream of opcodes with
//! variable-length immediates.  The scanner walks the stream opcode by
//! opcode, records every direct call and every memory-access instruction,
//! and rejects a stream it cannot decode.  Only the immediates of calls and
//! memory accesses are kept; everything else is skipped.

use vstd::prelude::*;
use crate::types::DecodeError;
use crate::memory::MemoryOpType;
use crate::leb::{
    spec_leb_u32, spec_leb_u64_low32, spec_skip_leb, read_leb_u32, read_leb_u64_low32, skip_leb,
};

verus! {

/// What one scanned instruction contributes to the analysis.
#[derive(Debug, Clone, Copy, PartialEq, Eq, Structural)]
pub enum OpEffect {
    /// A direct call instruction naming a callee's global function index.
    CallTo { target: u32 },
    /// A memory access or bulk memory instruction.
    MemAccess { op: MemoryOpType, offset: Option<u32>, size: Option<u32> },
    /// Anything else.
    Plain,
}

/// A memory-access instruction, not yet attributed to a function index.
#[derive(Debug, Clone, Copy, PartialEq, Eq, Structural)]
pub struct RawMemOp {
    pub op: MemoryOpType,
    pub offset: Option<u32>,
    pub size: Option<u32>,
    pub at: u32,
}

/// The low 32 bits of a byte position, as stored in an instruction-offset
/// field.
pub open spec fn spec_trunc32(pos: int) -> u32 {
    (pos % 0x1_0000_0000) as u32
}

/// The access width, in bytes, of the load and store opcodes.
pub open spec fn spec_mem_size(b: u8) -> u32 {
    if b == 0x29 || b == 0x2b || b == 0x37 || b == 0x39 {
        8u32
    } else if b == 0x28 || b == 0x2a || b == 0x34 || b == 0x35 || b == 0x36 || b == 0x38 || b
        == 0x3e {
        4u32
    } else if b == 0x2e || b == 0x2f || b == 0x32 || b == 0x33 || b == 0x3b || b == 0x3d {
        2u32
    } else {
        1u32
    }
}

/// The effect of a load or store opcode with the given resolved offset.
pub open spec fn spec_mem_effect(b: u8, off: u32) -> OpEffect {
    let size = spec_mem_size(b);
    if b <= 0x35 {
        OpEffect::MemAccess {
            op: MemoryOpType::Load { size_bytes: size },
            offset: Some(off),
            size: Some(size),
        }
    } else {
        OpEffect::MemAccess {
            op: MemoryOpType::Store { size_bytes: size },
            offset: Some(off),
            size: Some(size),
        }
    }
}

fn mem_effect(b: u8, off: u32) -> (e: OpEffect)
    requires
        0x28 <= b <= 0x3e,
    ensures
        e == spec_mem_effect(b, off),
{
    let size: u32 = if b == 0x29 || b == 0x2b || b == 0x37 || b == 0x39 {
        8
    } else if b == 0x28 || b == 0x2a || b == 0x34 || b == 0x35 || b == 0x36 || b == 0x38 || b
        == 0x3e {
        4
    } else if b == 0x2e || b == 0x2f || b == 0x32 || b == 0x33 || b == 0x3b || b == 0x3d {
        2
    } else {
        1
    };
    if b <= 0x35 {
        OpEffect::MemAccess {
            op: MemoryOpType::Load { size_bytes: size },
            offset: Some(off),
            size: Some(size),
        }
    } else {
        OpEffect::MemAccess {
            op: MemoryOpType::Store { size_bytes: size },
            offset: Some(off),
            size: Some(size),
        }
    }
}

/// An unsigned 32-bit integer that must lie entirely before `end`.
pub open spec fn spec_leb_u32_in(bytes: Seq<u8>, pos: int, end: int) -> Result<
    (int, int),
    DecodeError,
> {
    match spec_leb_u32(bytes, pos) {
        Err(e) => Err(e),
        Ok((v, q)) => if q > end {
            Err(DecodeError::Truncated)
        } else {
            Ok((v, q))
        },
    }
}

pub(crate) fn read_leb_u32_in(bytes: &Vec<u8>, pos: usize, end: usize) -> (r: Result<
    (u32, usize),
    DecodeError,
>)
    requires
        end <= bytes@.len(),
    ensures
        match r {
            Ok((v, q)) => spec_leb_u32_in(bytes@, pos as int, end as int) == Ok::<
                (int, int),
                DecodeError,
            >((v as int, q as int)) && pos < q <= end,
            Err(e) => spec_leb_u32_in(bytes@, pos as int, end as int) == Err::<
                (int, int),
                DecodeError,
            >(e),
        },
{
    match read_leb_u32(bytes, pos) {
        Err(e) => Err(e),
        Ok((v, q)) => {
            if q > end {
                return Err(DecodeError::Truncated);
            }
            Ok((v, q))
        },
    }
}

/// A skipped LEB128 integer that must lie entirely before `end`.
pub open spec fn spec_skip_leb_in(
    bytes: Seq<u8>,
    pos: int,
    end: int,
    max: int,
    lo: u8,
    hi: u8,
) -> Result<int, DecodeError> {
    match spec_skip_leb(bytes, pos, max, lo, hi) {
        Err(e) => Err(e),
        Ok(q) => if q > end {
            Err(DecodeError::Truncated)
        } else {
            Ok(q)
        },
    }
}

pub(crate) fn skip_leb_in(bytes: &Vec<u8>, pos: usize, end: usize, max: u8, lo: u8, hi: u8) -> (r: Result<
    usize,
    DecodeError,
>)
    requires
        end <= bytes@.len(),
    ensures
        match r {
            Ok(q) => spec_skip_leb_in(bytes@, pos as int, end as int, max as int, lo, hi) == Ok::<
                int,
                DecodeError,
            >(q as int) && pos < q <= end,
            Err(e) => spec_skip_leb_in(bytes@, pos as int, end as int, max as int, lo, hi)
                == Err::<int, DecodeError>(e),
        },
{
    match skip_leb(bytes, pos, max, lo, hi) {
        Err(e) => Err(e),
        Ok(q) => {
            if q > end {
                return Err(DecodeError::Truncated);
            }
            Ok(q)
        },
    }
}

/// A memory-access immediate: an alignment hint, then a byte offset.  The
/// offset is kept as its low 32 bits.
pub open spec fn spec_memarg(bytes: Seq<u8>, pos: int, end: int) -> Result<
    (int, int),
    DecodeError,
> {
    match spec_leb_u32(bytes, pos) {
        Err(e) => Err(e),
        Ok((_a, q1)) => if q1 > end {
            Err(DecodeError::Truncated)
        } else {
            match spec_leb_u64_low32(bytes, q1) {
                Err(e) => Err(e),
                Ok((off, q2)) => if q2 > end {
                    Err(DecodeError::Truncated)
                } else {
                    Ok((off, q2))
                },
            }
        },
    }
}

pub(crate) fn read_memarg(bytes: &Vec<u8>, pos: usize, end: usize) -> (r: Result<(u32, usize), DecodeError>)
    requires
        end <= bytes@.len(),
    ensures
        match r {
            Ok((off, q)) => spec_memarg(bytes@, pos as int, end as int) == Ok::<
                (int, int),
                DecodeError,
            >((off as int, q as int)) && pos < q <= end,
            Err(e) => spec_memarg(bytes@, pos as int, end as int) == Err::<
                (int, int),
                DecodeError,
            >(e),
        },
{
    match read_leb_u32(bytes, pos) {
        Err(e) => Err(e),
        Ok((_a, q1)) => {
            if q1 > end {
                return Err(DecodeError::Truncated);
            }
            match read_leb_u64_low32(bytes, q1) {
                Err(e) => Err(e),
                Ok((off, q2)) => {
                    if q2 > end {
                        return Err(DecodeError::Truncated);
                    }
                    Ok((off, q2))
                },
            }
        },
    }
}

/// `n` consecutive unsigned 32-bit integers (a branch table).
pub open spec fn spec_skip_lebs(bytes: Seq<u8>, pos: int, end: int, n: int) -> Result<
    int,
    DecodeError,
>
    decreases n,
{
    if n <= 0 {
        Ok(pos)
    } else {
        match spec_leb_u32(bytes, pos) {
            Err(e) => Err(e),
            Ok((_v, q)) => if q > end {
                Err(DecodeError::Truncated)
            } else {
                spec_skip_lebs(bytes, q, end, n - 1)
            },
        }
    }
}

pub(crate) fn skip_lebs(bytes: &Vec<u8>, pos: usize, end: usize, count: u64) -> (r: Result<
    usize,
    DecodeError,
>)
    requires
        pos <= end <= bytes@.len(),
    ensures
        match r {
            Ok(q) => spec_skip_lebs(bytes@, pos as int, end as int, count as int) == Ok::<
                int,
                DecodeError,
            >(q as int) && pos <= q <= end,
            Err(e) => spec_skip_lebs(bytes@, pos as int, end as int, count as int) == Err::<
                int,
                DecodeError,
            >(e),
        },
{
    let mut p = pos;
    let mut c = count;
    while c > 0
        invariant
            pos <= p <= end <= bytes@.len(),
            spec_skip_lebs(bytes@, pos as int, end as int, count as int) == spec_skip_lebs(
                bytes@,
                p as int,
                end as int,
                c as int,
            ),
        decreases c,
    {
        match read_leb_u32(bytes, p) {
            Err(e) => {
                return Err(e);
            },
            Ok((_v, q)) => {
                if q > end {
                    return Err(DecodeError::Truncated);
                }
                p = q;
                c = c - 1;
            },
        }
    }
    Ok(p)
}
/// One instruction: its effect and the position after it.  Covers the core
/// instruction set together with the saturating-conversion, bulk-memory,
/// tail-call, vector and atomic extensions; anything else is a malformed
/// instruction stream.
#[verifier::opaque]
pub open spec fn spec_skip_op(bytes: Seq<u8>, pos: int, end: int) -> Result<
    (OpEffect, int),
    DecodeError,
> {
    if !(0 <= pos < end && end <= bytes.len()) {
        Err(DecodeError::Truncated)
    } else {
        let b = bytes[pos];
        let p = pos + 1;
        if b == 0x00 || b == 0x01 || b == 0x05 || b == 0x0b || b == 0x0f || b == 0x1a || b == 0x1b
            || (0x45 <= b && b <= 0xc4) || b == 0xd1 {
            Ok((OpEffect::Plain, p))
        } else if b == 0x02 || b == 0x03 || b == 0x04 || b == 0xd0 {
            // A block type or a heap type: a signed 33-bit integer.
            match spec_skip_leb_in(bytes, p, end, 5, 15, 112) {
                Err(e) => Err(e),
                Ok(q) => Ok((OpEffect::Plain, q)),
            }
        } else if b == 0x0c || b == 0x0d || b == 0x12 || (0x20 <= b && b <= 0x26) || b == 0xd2 {
            match spec_leb_u32_in(bytes, p, end) {
                Err(e) => Err(e),
                Ok((_v, q)) => Ok((OpEffect::Plain, q)),
            }
        } else if b == 0x0e {
            // A branch table: a count, that many labels, and a default label.
            match spec_leb_u32_in(bytes, p, end) {
                Err(e) => Err(e),
                Ok((n, q)) => match spec_skip_lebs(bytes, q, end, n + 1) {
                    Err(e) => Err(e),
                    Ok(q2) => Ok((OpEffect::Plain, q2)),
                },
            }
        } else if b == 0x10 {
            // A direct call: the immediate is the callee's global index.
            match spec_leb_u32_in(bytes, p, end) {
                Err(e) => Err(e),
                Ok((t, q)) => Ok((OpEffect::CallTo { target: spec_trunc32(t) }, q)),
            }
        } else if b == 0x11 || b == 0x13 {
            match spec_skip_lebs(bytes, p, end, 2) {
                Err(e) => Err(e),
                Ok(q) => Ok((OpEffect::Plain, q)),
            }
        } else if b == 0x1c {
            // A typed select: a count, then that many value-type bytes.
            match spec_leb_u32_in(bytes, p, end) {
                Err(e) => Err(e),
                Ok((n, q)) => if q + n > end {
                    Err(DecodeError::Truncated)
                } else {
                    Ok((OpEffect::Plain, q + n))
                },
            }
        } else if 0x28 <= b && b <= 0x3e {
            match spec_memarg(bytes, p, end) {
                Err(e) => Err(e),
                Ok((off, q)) => Ok((spec_mem_effect(b, spec_trunc32(off)), q)),
            }
        } else if b == 0x3f || b == 0x40 {
            match spec_leb_u32_in(bytes, p, end) {
                Err(e) => Err(e),
                Ok((_v, q)) => Ok((
                    OpEffect::MemAccess {
                        op: if b == 0x3f {
                            MemoryOpType::MemorySize
                        } else {
                            MemoryOpType::MemoryGrow
                        },
                        offset: None,
                        size: None,
                    },
                    q,
                )),
            }
        } else if b == 0x41 {
            // i32 constant: a signed 32-bit integer.
            match spec_skip_leb_in(bytes, p, end, 5, 7, 120) {
                Err(e) => Err(e),
                Ok(q) => Ok((OpEffect::Plain, q)),
            }
        } else if b == 0x42 {
            // i64 constant: a signed 64-bit integer.
            match spec_skip_leb_in(bytes, p, end, 10, 0, 127) {
                Err(e) => Err(e),
                Ok(q) => Ok((OpEffect::Plain, q)),
            }
        } else if b == 0x43 {
            if p + 4 > end {
                Err(DecodeError::Truncated)
            } else {
                Ok((OpEffect::Plain, p + 4))
            }
        } else if b == 0x44 {
            if p + 8 > end {
                Err(DecodeError::Truncated)
            } else {
                Ok((OpEffect::Plain, p + 8))
            }
        } else if b == 0xfc {
            match spec_leb_u32_in(bytes, p, end) {
                Err(e) => Err(e),
                Ok((s, q)) => spec_skip_fc(bytes, q, end, s),
            }
        } else if b == 0xfd {
            match spec_leb_u32_in(bytes, p, end) {
                Err(e) => Err(e),
                Ok((s, q)) => spec_skip_fd(bytes, q, end, s),
            }
        } else if b == 0xfe {
            match spec_leb_u32_in(bytes, p, end) {
                Err(e) => Err(e),
                Ok((s, q)) => if s > 0x4e {
                    Err(DecodeError::BadInstruction)
                } else if s == 3 {
                    if q + 1 > end {
                        Err(DecodeError::Truncated)
                    } else {
                        Ok((OpEffect::Plain, q + 1))
                    }
                } else {
                    match spec_memarg(bytes, q, end) {
                        Err(e) => Err(e),
                        Ok((_off, q2)) => Ok((OpEffect::Plain, q2)),
                    }
                },
            }
        } else {
            Err(DecodeError::BadInstruction)
        }
    }
}

/// The instructions behind the `0xfc` prefix: saturating conversions and the
/// bulk memory and table operations.
#[verifier::opaque]
pub open spec fn spec_skip_fc(bytes: Seq<u8>, pos: int, end: int, s: int) -> Result<
    (OpEffect, int),
    DecodeError,
> {
    if 0 <= s <= 7 {
        Ok((OpEffect::Plain, pos))
    } else if s == 8 || s == 12 || s == 14 {
        match spec_skip_lebs(bytes, pos, end, 2) {
            Err(e) => Err(e),
            Ok(q) => Ok((OpEffect::Plain, q)),
        }
    } else if s == 10 {
        match spec_skip_lebs(bytes, pos, end, 2) {
            Err(e) => Err(e),
            Ok(q) => Ok((
                OpEffect::MemAccess { op: MemoryOpType::MemoryCopy, offset: None, size: None },
                q,
            )),
        }
    } else if s == 11 {
        match spec_skip_lebs(bytes, pos, end, 1) {
            Err(e) => Err(e),
            Ok(q) => Ok((
                OpEffect::MemAccess { op: MemoryOpType::MemoryFill, offset: None, size: None },
                q,
            )),
        }
    } else if s == 9 || s == 13 || s == 15 || s == 16 || s == 17 {
        match spec_skip_lebs(bytes, pos, end, 1) {
            Err(e) => Err(e),
            Ok(q) => Ok((OpEffect::Plain, q)),
        }
    } else {
        Err(DecodeError::BadInstruction)
    }
}

/// The instructions behind the `0xfd` prefix: the vector extension.  None of
/// them is treated as a tracked memory operation.
#[verifier::opaque]
pub open spec fn spec_skip_fd(bytes: Seq<u8>, pos: int, end: int, s: int) -> Result<
    (OpEffect, int),
    DecodeError,
> {
    if 0 <= s <= 11 || s == 92 || s == 93 {
        match spec_memarg(bytes, pos, end) {
            Err(e) => Err(e),
            Ok((_off, q)) => Ok((OpEffect::Plain, q)),
        }
    } else if s == 12 || s == 13 {
        if pos + 16 > end {
            Err(DecodeError::Truncated)
        } else {
            Ok((OpEffect::Plain, pos + 16))
        }
    } else if 21 <= s <= 34 {
        if pos + 1 > end {
            Err(DecodeError::Truncated)
        } else {
            Ok((OpEffect::Plain, pos + 1))
        }
    } else if 84 <= s <= 91 {
        match spec_memarg(bytes, pos, end) {
            Err(e) => Err(e),
            Ok((_off, q)) => if q + 1 > end {
                Err(DecodeError::Truncated)
            } else {
                Ok((OpEffect::Plain, q + 1))
            },
        }
    } else if s <= 275 {
        Ok((OpEffect::Plain, pos))
    } else {
        Err(DecodeError::BadInstruction)
    }
}

#[verifier::rlimit(100)]
pub(crate) fn skip_op(bytes: &Vec<u8>, pos: usize, end: usize) -> (r: Result<
    (OpEffect, usize),
    DecodeError,
>)
    requires
        pos < end <= bytes@.len(),
    ensures
        match r {
            Ok((e, q)) => spec_skip_op(bytes@, pos as int, end as int) == Ok::<
                (OpEffect, int),
                DecodeError,
            >((e, q as int)) && pos < q <= end,
            Err(er) => spec_skip_op(bytes@, pos as int, end as int) == Err::<
                (OpEffect, int),
                DecodeError,
            >(er),
        },
{
    proof {
        reveal(spec_skip_op);
    }
    let b = bytes[pos];
    let p = pos + 1;
    if b == 0x00 || b == 0x01 || b == 0x05 || b == 0x0b || b == 0x0f || b == 0x1a || b == 0x1b || (
    0x45 <= b && b <= 0xc4) || b == 0xd1 {
        Ok((OpEffect::Plain, p))
    } else if b == 0x02 || b == 0x03 || b == 0x04 || b == 0xd0 {
        match skip_leb_in(bytes, p, end, 5, 15, 112) {
            Err(e) => Err(e),
            Ok(q) => Ok((OpEffect::Plain, q)),
        }
    } else if b == 0x0c || b == 0x0d || b == 0x12 || (0x20 <= b && b <= 0x26) || b == 0xd2 {
        match read_leb_u32_in(bytes, p, end) {
            Err(e) => Err(e),
            Ok((_v, q)) => Ok((OpEffect::Plain, q)),
        }
    } else if b == 0x0e {
        match read_leb_u32_in(bytes, p, end) {
            Err(e) => Err(e),
            Ok((n, q)) => match skip_lebs(bytes, q, end, n as u64 + 1) {
                Err(e) => Err(e),
                Ok(q2) => Ok((OpEffect::Plain, q2)),
            },
        }
    } else if b == 0x10 {
        match read_leb_u32_in(bytes, p, end) {
            Err(e) => Err(e),
            Ok((t, q)) => Ok((OpEffect::CallTo { target: t }, q)),
        }
    } else if b == 0x11 || b == 0x13 {
        match skip_lebs(bytes, p, end, 2) {
            Err(e) => Err(e),
            Ok(q) => Ok((OpEffect::Plain, q)),
        }
    } else if b == 0x1c {
        match read_leb_u32_in(bytes, p, end) {
            Err(e) => Err(e),
            Ok((n, q)) => {
                if n as usize > end - q {
                    return Err(DecodeError::Truncated);
                }
                Ok((OpEffect::Plain, q + n as usize))
            },
        }
    } else if 0x28 <= b && b <= 0x3e {
        match read_memarg(bytes, p, end) {
            Err(e) => Err(e),
            Ok((off, q)) => Ok((mem_effect(b, off), q)),
        }
    } else if b == 0x3f || b == 0x40 {
        match read_leb_u32_in(bytes, p, end) {
            Err(e) => Err(e),
            Ok((_v, q)) => {
                let op = if b == 0x3f {
                    MemoryOpType::MemorySize
                } else {
                    MemoryOpType::MemoryGrow
                };
                Ok((OpEffect::MemAccess { op, offset: None, size: None }, q))
            },
        }
    } else if b == 0x41 {
        match skip_leb_in(bytes, p, end, 5, 7, 120) {
            Err(e) => Err(e),
            Ok(q) => Ok((OpEffect::Plain, q)),
        }
    } else if b == 0x42 {
        match skip_leb_in(bytes, p, end, 10, 0, 127) {
            Err(e) => Err(e),
            Ok(q) => Ok((OpEffect::Plain, q)),
        }
    } else if b == 0x43 {
        if 4 > end - p {
            return Err(DecodeError::Truncated);
        }
        Ok((OpEffect::Plain, p + 4))
    } else if b == 0x44 {
        if 8 > end - p {
            return Err(DecodeError::Truncated);
        }
        Ok((OpEffect::Plain, p + 8))
    } else if b == 0xfc {
        match read_leb_u32_in(bytes, p, end) {
            Err(e) => Err(e),
            Ok((s, q)) => skip_fc(bytes, q, end, s),
        }
    } else if b == 0xfd {
        match read_leb_u32_in(bytes, p, end) {
            Err(e) => Err(e),
            Ok((s, q)) => skip_fd(bytes, q, end, s),
        }
    } else if b == 0xfe {
        match read_leb_u32_in(bytes, p, end) {
            Err(e) => Err(e),
            Ok((s, q)) => {
                if s > 0x4e {
                    return Err(DecodeError::BadInstruction);
                }
                if s == 3 {
                    if 1 > end - q {
                        return Err(DecodeError::Truncated);
                    }
                    return Ok((OpEffect::Plain, q + 1));
                }
                match read_memarg(bytes, q, end) {
                    Err(e) => Err(e),
                    Ok((_off, q2)) => Ok((OpEffect::Plain, q2)),
                }
            },
        }
    } else {
        Err(DecodeError::BadInstruction)
    }
}

#[verifier::rlimit(100)]
fn skip_fc(bytes: &Vec<u8>, pos: usize, end: usize, s: u32) -> (r: Result<
    (OpEffect, usize),
    DecodeError,
>)
    requires
        pos <= end <= bytes@.len(),
    ensures
        match r {
            Ok((e, q)) => spec_skip_fc(bytes@, pos as int, end as int, s as int) == Ok::<
                (OpEffect, int),
                DecodeError,
            >((e, q as int)) && pos <= q <= end,
            Err(er) => spec_skip_fc(bytes@, pos as int, end as int, s as int) == Err::<
                (OpEffect, int),
                DecodeError,
            >(er),
        },
{
    proof {
        reveal(spec_skip_fc);
    }
    if s <= 7 {
        Ok((OpEffect::Plain, pos))
    } else if s == 8 || s == 12 || s == 14 {
        match skip_lebs(bytes, pos, end, 2) {
            Err(e) => Err(e),
            Ok(q) => Ok((OpEffect::Plain, q)),
        }
    } else if s == 10 {
        match skip_lebs(bytes, pos, end, 2) {
            Err(e) => Err(e),
            Ok(q) => Ok((
                OpEffect::MemAccess { op: MemoryOpType::MemoryCopy, offset: None, size: None },
                q,
            )),
        }
    } else if s == 11 {
        match skip_lebs(bytes, pos, end, 1) {
            Err(e) => Err(e),
            Ok(q) => Ok((
                OpEffect::MemAccess { op: MemoryOpType::MemoryFill, offset: None, size: None },
                q,
            )),
        }
    } else if s == 9 || s == 13 || s == 15 || s == 16 || s == 17 {
        match skip_lebs(bytes, pos, end, 1) {
            Err(e) => Err(e),
            Ok(q) => Ok((OpEffect::Plain, q)),
        }
    } else {
        Err(DecodeError::BadInstruction)
    }
}

#[verifier::rlimit(100)]
fn skip_fd(bytes: &Vec<u8>, pos: usize, end: usize, s: u32) -> (r: Result<
    (OpEffect, usize),
    DecodeError,
>)
    requires
        pos <= end <= bytes@.len(),
    ensures
        match r {
            Ok((e, q)) => spec_skip_fd(bytes@, pos as int, end as int, s as int) == Ok::<
                (OpEffect, int),
                DecodeError,
            >((e, q as int)) && pos <= q <= end,
            Err(er) => spec_skip_fd(bytes@, pos as int, end as int, s as int) == Err::<
                (OpEffect, int),
                DecodeError,
            >(er),
        },
{
    proof {
        reveal(spec_skip_fd);
    }
    if s <= 11 || s == 92 || s == 93 {
        match read_memarg(bytes, pos, end) {
            Err(e) => Err(e),
            Ok((_off, q)) => Ok((OpEffect::Plain, q)),
        }
    } else if s == 12 || s == 13 {
        if 16 > end - pos {
            return Err(DecodeError::Truncated);
        }
        Ok((OpEffect::Plain, pos + 16))
    } else if 21 <= s && s <= 34 {
        if 1 > end - pos {
            return Err(DecodeError::Truncated);
        }
        Ok((OpEffect::Plain, pos + 1))
    } else if 84 <= s && s <= 91 {
        match read_memarg(bytes, pos, end) {
            Err(e) => Err(e),
            Ok((_off, q)) => {
                if 1 > end - q {
                    return Err(DecodeError::Truncated);
                }
                Ok((OpEffect::Plain, q + 1))
            },
        }
    } else if s <= 275 {
        Ok((OpEffect::Plain, pos))
    } else {
        Err(DecodeError::BadInstruction)
    }
}

/// Scans the instruction stream from `pos` up to exactly `end`, collecting
/// every direct-call target and every memory access in stream order.
pub open spec fn spec_scan_ops(bytes: Seq<u8>, pos: int, end: int) -> Result<
    (Seq<u32>, Seq<RawMemOp>),
    DecodeError,
>
    decreases end - pos,
{
    if pos >= end {
        Ok((Seq::empty(), Seq::empty()))
    } else {
        match spec_skip_op(bytes, pos, end) {
            Err(e) => Err(e),
            Ok((eff, q)) => if !(pos < q <= end) {
                Err(DecodeError::BadInstruction)
            } else {
                match spec_scan_ops(bytes, q, end) {
                    Err(e) => Err(e),
                    Ok((cs, ms)) => match eff {
                        OpEffect::CallTo { target } => Ok((seq![target] + cs, ms)),
                        OpEffect::MemAccess { op, offset, size } => Ok((
                            cs,
                            seq![RawMemOp { op, offset, size, at: spec_trunc32(pos) }] + ms,
                        )),
                        OpEffect::Plain => Ok((cs, ms)),
                    },
                }
            },
        }
    }
}

#[verifier::rlimit(100)]
pub(crate) fn scan_ops(bytes: &Vec<u8>, start: usize, end: usize) -> (r: Result<
    (Vec<u32>, Vec<RawMemOp>),
    DecodeError,
>)
    requires
        start <= end <= bytes@.len(),
    ensures
        match r {
            Ok(v) => spec_scan_ops(bytes@, start as int, end as int) == Ok::<
                (Seq<u32>, Seq<RawMemOp>),
                DecodeError,
            >((v.0@, v.1@)),
            Err(e) => spec_scan_ops(bytes@, start as int, end as int) == Err::<
                (Seq<u32>, Seq<RawMemOp>),
                DecodeError,
            >(e),
        },
{
    let mut calls: Vec<u32> = Vec::new();
    let mut mems: Vec<RawMemOp> = Vec::new();
    let mut pos = start;
    while pos < end
        invariant
            start <= pos <= end <= bytes@.len(),
            match spec_scan_ops(bytes@, pos as int, end as int) {
                Ok((cs, ms)) => spec_scan_ops(bytes@, start as int, end as int) == Ok::<
                    (Seq<u32>, Seq<RawMemOp>),
                    DecodeError,
                >((calls@ + cs, mems@ + ms)),
                Err(e) => spec_scan_ops(bytes@, start as int, end as int) == Err::<
                    (Seq<u32>, Seq<RawMemOp>),
                    DecodeError,
                >(e),
            },
        decreases end - pos,
    {
        match skip_op(bytes, pos, end) {
            Err(e) => {
                return Err(e);
            },
            Ok((eff, q)) => {
                let ghost old_calls = calls@;
                let ghost old_mems = mems@;
                let ghost old_pos = pos as int;
                match eff {
                    OpEffect::CallTo { target } => {
                        calls.push(target);
                    },
                    OpEffect::MemAccess { op, offset, size } => {
                        let m = RawMemOp { op, offset, size, at: ((pos as u64) % 0x1_0000_0000u64) as u32 };
                        mems.push(m);
                    },
                    OpEffect::Plain => {},
                }
                pos = q;
                proof {
                    reveal_with_fuel(spec_scan_ops, 2);
                    match spec_scan_ops(bytes@, pos as int, end as int) {
                        Ok((cs, ms)) => {
                            match eff {
                                OpEffect::CallTo { target } => {
                                    assert(old_calls + (seq![target] + cs) =~= calls@ + cs);
                                    assert(old_mems =~= mems@);
                                },
                                OpEffect::MemAccess { op, offset, size } => {
                                    let m = RawMemOp {
                                        op,
                                        offset,
                                        size,
                                        at: spec_trunc32(old_pos),
                                    };
                                    assert(old_mems + (seq![m] + ms) =~= mems@ + ms);
                                    assert(old_calls =~= calls@);
                                },
                                OpEffect::Plain => {},
                            }
                        },
                        Err(_e) => {},
                    }
                }
            },
        }
    }
    proof {
        assert(calls@ + Seq::<u32>::empty() =~= calls@);
        assert(mems@ + Seq::<RawMemOp>::empty() =~= mems@);
    }
    Ok((calls, mems))
}

} // verus!
