//! The specification of the binary container format.
//!
//! `spec_decode` maps a byte sequence to the module representation it
//! denotes, or to the decode error that rejects it.  The executable decoder
//! is proved to return exactly this function of its input, which makes the
//! decode deterministic by construction.
//!
//! The format: a fixed 4-byte magic cookie, a 4-byte version, then a sequence
//! of `(id: u8, size: leb128, payload)` sections.  Recognized section ids are
//! decoded; all others are skipped wholesale and never fail the decode.

use vstd::prelude::*;
use vstd::utf8::{valid_utf8, decode_utf8};
use crate::types::{
    CustomSectionView, DataSegment, DecodeError, ElementSegment, ExportKind, ExportView,
    FunctionView, GlobalTypeView, GlobalView, ImportKindView, ImportView, LocalTypeView, Memory,
    MemoryType, ModuleInfoView, TableTypeView, TableView,
};
use crate::memory::MemoryOperation;
use crate::leb::{spec_leb_u32, spec_leb_s32_u32};
use crate::ops::{spec_leb_u32_in, spec_skip_op, spec_scan_ops, spec_trunc32, RawMemOp};

verus! {

/// One decoded code-section entry: the declared locals, the byte size of the
/// instruction stream, and the call targets and memory accesses found in it.
#[verifier::ext_equal]
pub ghost struct CodeEntryView {
    pub locals: Seq<LocalTypeView>,
    pub body_size: u32,
    pub calls: Seq<u32>,
    pub mem_ops: Seq<RawMemOp>,
}

/// Everything the section pass accumulates before the representation is
/// assembled.
#[verifier::ext_equal]
pub ghost struct DecodeStateView {
    pub type_signatures: Seq<Seq<char>>,
    pub imports: Seq<ImportView>,
    /// Count of all import records seen, skipped kinds included.
    pub import_count: u64,
    /// Count of function-kind import records seen.  Defined functions are
    /// numbered after these.
    pub fn_import_count: u64,
    pub func_types: Seq<u32>,
    pub tables: Seq<TableView>,
    pub memory: Option<Memory>,
    pub globals: Seq<GlobalView>,
    pub exports: Seq<ExportView>,
    pub start_function: Option<u32>,
    pub element_segments: Seq<ElementSegment>,
    pub data_segments: Seq<DataSegment>,
    pub custom_sections: Seq<CustomSectionView>,
    pub code: Seq<CodeEntryView>,
    pub names: Seq<(u32, Seq<char>)>,
}

pub open spec fn spec_init_state() -> DecodeStateView {
    DecodeStateView {
        type_signatures: Seq::empty(),
        imports: Seq::empty(),
        import_count: 0,
        fn_import_count: 0,
        func_types: Seq::empty(),
        tables: Seq::empty(),
        memory: None,
        globals: Seq::empty(),
        exports: Seq::empty(),
        start_function: None,
        element_segments: Seq::empty(),
        data_segments: Seq::empty(),
        custom_sections: Seq::empty(),
        code: Seq::empty(),
        names: Seq::empty(),
    }
}

/// A counter that can no longer overflow once it reaches its ceiling.
pub open spec fn spec_sat_inc(c: u64) -> u64 {
    if c == u64::MAX {
        c
    } else {
        (c + 1) as u64
    }
}

// ----------------------------------------------------------------------------
// Names and value types.

/// A length-prefixed name: a byte count, then that many bytes of UTF-8.
pub open spec fn spec_name(bytes: Seq<u8>, pos: int, end: int) -> Result<
    (Seq<char>, int),
    DecodeError,
> {
    match spec_leb_u32(bytes, pos) {
        Err(e) => Err(e),
        Ok((n, q)) => if q + n > end {
            Err(DecodeError::Truncated)
        } else {
            let sub = bytes.subrange(q, q + n);
            if valid_utf8(sub) {
                Ok((decode_utf8(sub), q + n))
            } else {
                Err(DecodeError::BadRecord)
            }
        },
    }
}

pub open spec fn spec_is_valtype(b: u8) -> bool {
    b == 0x7f || b == 0x7e || b == 0x7d || b == 0x7c || b == 0x7b || b == 0x70 || b == 0x6f
}

pub open spec fn spec_valtype_name(b: u8) -> Seq<char> {
    if b == 0x7f {
        "i32"@
    } else if b == 0x7e {
        "i64"@
    } else if b == 0x7d {
        "f32"@
    } else if b == 0x7c {
        "f64"@
    } else if b == 0x7b {
        "v128"@
    } else if b == 0x70 {
        "funcref"@
    } else {
        "externref"@
    }
}

pub open spec fn spec_is_reftype(b: u8) -> bool {
    b == 0x70 || b == 0x6f
}

// ----------------------------------------------------------------------------
// The type section: function signatures rendered as text.

/// `n` value-type bytes appended to a textual signature, separated by commas.
pub open spec fn spec_valtype_list(
    bytes: Seq<u8>,
    pos: int,
    end: int,
    n: int,
    acc: Seq<char>,
    first: bool,
) -> Result<(Seq<char>, int), DecodeError>
    decreases n,
{
    if n <= 0 {
        Ok((acc, pos))
    } else if !(0 <= pos < end && end <= bytes.len()) {
        Err(DecodeError::Truncated)
    } else {
        let b = bytes[pos];
        if !spec_is_valtype(b) {
            Err(DecodeError::BadRecord)
        } else {
            let acc2 = if first {
                acc + spec_valtype_name(b)
            } else {
                acc + ","@ + spec_valtype_name(b)
            };
            spec_valtype_list(bytes, pos + 1, end, n - 1, acc2, false)
        }
    }
}

/// One function type: the form byte `0x60`, the parameter list, the result
/// list; rendered as `(params)->(results)`.
pub open spec fn spec_functype(bytes: Seq<u8>, pos: int, end: int) -> Result<
    (Seq<char>, int),
    DecodeError,
> {
    if !(0 <= pos < end && end <= bytes.len()) {
        Err(DecodeError::Truncated)
    } else if bytes[pos] != 0x60 {
        Err(DecodeError::BadRecord)
    } else {
        match spec_leb_u32_in(bytes, pos + 1, end) {
            Err(e) => Err(e),
            Ok((n1, q1)) => match spec_valtype_list(bytes, q1, end, n1, "("@, true) {
                Err(e) => Err(e),
                Ok((acc1, q2)) => match spec_leb_u32_in(bytes, q2, end) {
                    Err(e) => Err(e),
                    Ok((n2, q3)) => match spec_valtype_list(
                        bytes,
                        q3,
                        end,
                        n2,
                        acc1 + ")->("@,
                        true,
                    ) {
                        Err(e) => Err(e),
                        Ok((acc2, q4)) => Ok((acc2 + ")"@, q4)),
                    },
                },
            },
        }
    }
}

pub open spec fn spec_type_records(
    bytes: Seq<u8>,
    pos: int,
    end: int,
    n: int,
    st: DecodeStateView,
) -> Result<(DecodeStateView, int), DecodeError>
    decreases n,
{
    if n <= 0 {
        Ok((st, pos))
    } else {
        match spec_functype(bytes, pos, end) {
            Err(e) => Err(e),
            Ok((sig, q)) => spec_type_records(
                bytes,
                q,
                end,
                n - 1,
                DecodeStateView { type_signatures: st.type_signatures + seq![sig], ..st },
            ),
        }
    }
}

// ----------------------------------------------------------------------------
// Limits, table types, global types.

/// Limits: a flags byte, a minimum, and under flag bit 0 a maximum; flag
/// bit 1 marks a shared memory.
pub open spec fn spec_limits(bytes: Seq<u8>, pos: int, end: int, max_flags: u8) -> Result<
    ((u32, Option<u32>, bool), int),
    DecodeError,
> {
    if !(0 <= pos < end && end <= bytes.len()) {
        Err(DecodeError::Truncated)
    } else {
        let f = bytes[pos];
        if f > max_flags {
            Err(DecodeError::BadRecord)
        } else {
            match spec_leb_u32_in(bytes, pos + 1, end) {
                Err(e) => Err(e),
                Ok((mn, q)) => if f == 1 || f == 3 {
                    match spec_leb_u32_in(bytes, q, end) {
                        Err(e) => Err(e),
                        Ok((mx, q2)) => Ok(
                            (((mn as u32), Some(mx as u32), f >= 2), q2),
                        ),
                    }
                } else {
                    Ok((((mn as u32), None::<u32>, f >= 2), q))
                },
            }
        }
    }
}

pub open spec fn spec_tabletype(bytes: Seq<u8>, pos: int, end: int) -> Result<
    (TableTypeView, int),
    DecodeError,
> {
    if !(0 <= pos < end && end <= bytes.len()) {
        Err(DecodeError::Truncated)
    } else {
        let b = bytes[pos];
        if !spec_is_reftype(b) {
            Err(DecodeError::BadRecord)
        } else {
            match spec_limits(bytes, pos + 1, end, 1) {
                Err(e) => Err(e),
                Ok(((mn, mx, _sh), q)) => Ok((
                    TableTypeView { element_type: spec_valtype_name(b), initial: mn, maximum: mx },
                    q,
                )),
            }
        }
    }
}

pub open spec fn spec_globaltype(bytes: Seq<u8>, pos: int, end: int) -> Result<
    (GlobalTypeView, int),
    DecodeError,
> {
    if !(0 <= pos + 1 < end && 0 <= pos && end <= bytes.len()) {
        Err(DecodeError::Truncated)
    } else {
        let b = bytes[pos];
        let m = bytes[pos + 1];
        if !spec_is_valtype(b) || m > 1 {
            Err(DecodeError::BadRecord)
        } else {
            Ok((GlobalTypeView { value_type: spec_valtype_name(b), mutable: m == 1 }, pos + 2))
        }
    }
}

// ----------------------------------------------------------------------------
// The import section.

pub open spec fn spec_import_records(
    bytes: Seq<u8>,
    pos: int,
    end: int,
    n: int,
    st: DecodeStateView,
) -> Result<(DecodeStateView, int), DecodeError>
    decreases n,
{
    if n <= 0 {
        Ok((st, pos))
    } else {
        match spec_name(bytes, pos, end) {
            Err(e) => Err(e),
            Ok((module, q1)) => match spec_name(bytes, q1, end) {
                Err(e) => Err(e),
                Ok((name, q2)) => if !(0 <= q2 < end) {
                    Err(DecodeError::Truncated)
                } else {
                    let kind_byte = bytes[q2];
                    let p = q2 + 1;
                    if kind_byte == 0x00 {
                        match spec_leb_u32_in(bytes, p, end) {
                            Err(e) => Err(e),
                            Ok((ti, q3)) => spec_import_records(
                                bytes,
                                q3,
                                end,
                                n - 1,
                                spec_push_import(
                                    st,
                                    module,
                                    name,
                                    ImportKindView::Function { type_index: ti as u32 },
                                    true,
                                ),
                            ),
                        }
                    } else if kind_byte == 0x01 {
                        match spec_tabletype(bytes, p, end) {
                            Err(e) => Err(e),
                            Ok((tt, q3)) => spec_import_records(
                                bytes,
                                q3,
                                end,
                                n - 1,
                                spec_push_import(
                                    st,
                                    module,
                                    name,
                                    ImportKindView::Table { table_type: tt },
                                    false,
                                ),
                            ),
                        }
                    } else if kind_byte == 0x02 {
                        match spec_limits(bytes, p, end, 3) {
                            Err(e) => Err(e),
                            Ok(((mn, mx, sh), q3)) => spec_import_records(
                                bytes,
                                q3,
                                end,
                                n - 1,
                                spec_push_import(
                                    st,
                                    module,
                                    name,
                                    ImportKindView::Memory {
                                        memory_type: MemoryType {
                                            initial: mn,
                                            maximum: mx,
                                            shared: sh,
                                        },
                                    },
                                    false,
                                ),
                            ),
                        }
                    } else if kind_byte == 0x03 {
                        match spec_globaltype(bytes, p, end) {
                            Err(e) => Err(e),
                            Ok((gt, q3)) => spec_import_records(
                                bytes,
                                q3,
                                end,
                                n - 1,
                                spec_push_import(
                                    st,
                                    module,
                                    name,
                                    ImportKindView::Global { global_type: gt },
                                    false,
                                ),
                            ),
                        }
                    } else if kind_byte == 0x04 {
                        // A tag import: parsed so the stream stays aligned,
                        // then dropped; it still occupies an import position.
                        if !(0 <= p < end) {
                            Err(DecodeError::Truncated)
                        } else if bytes[p] != 0x00 {
                            Err(DecodeError::BadRecord)
                        } else {
                            match spec_leb_u32_in(bytes, p + 1, end) {
                                Err(e) => Err(e),
                                Ok((_ti, q3)) => spec_import_records(
                                    bytes,
                                    q3,
                                    end,
                                    n - 1,
                                    DecodeStateView {
                                        import_count: spec_sat_inc(st.import_count),
                                        ..st
                                    },
                                ),
                            }
                        }
                    } else {
                        Err(DecodeError::BadRecord)
                    }
                },
            },
        }
    }
}

/// Appends an import record.  Its `index` is its position among all import
/// records of the module, skipped kinds included.
pub open spec fn spec_push_import(
    st: DecodeStateView,
    module: Seq<char>,
    name: Seq<char>,
    kind: ImportKindView,
    is_fn: bool,
) -> DecodeStateView {
    DecodeStateView {
        imports: st.imports + seq![
            ImportView { module, name, kind, index: spec_trunc32(st.import_count as int) },
        ],
        import_count: spec_sat_inc(st.import_count),
        fn_import_count: if is_fn {
            spec_sat_inc(st.fn_import_count)
        } else {
            st.fn_import_count
        },
        ..st
    }
}

// ----------------------------------------------------------------------------
// Function, table, memory, global, export and start sections.

pub open spec fn spec_func_records(
    bytes: Seq<u8>,
    pos: int,
    end: int,
    n: int,
    st: DecodeStateView,
) -> Result<(DecodeStateView, int), DecodeError>
    decreases n,
{
    if n <= 0 {
        Ok((st, pos))
    } else {
        match spec_leb_u32_in(bytes, pos, end) {
            Err(e) => Err(e),
            Ok((ti, q)) => spec_func_records(
                bytes,
                q,
                end,
                n - 1,
                DecodeStateView { func_types: st.func_types + seq![ti as u32], ..st },
            ),
        }
    }
}

pub open spec fn spec_table_records(
    bytes: Seq<u8>,
    pos: int,
    end: int,
    n: int,
    st: DecodeStateView,
) -> Result<(DecodeStateView, int), DecodeError>
    decreases n,
{
    if n <= 0 {
        Ok((st, pos))
    } else {
        match spec_tabletype(bytes, pos, end) {
            Err(e) => Err(e),
            Ok((tt, q)) => spec_table_records(
                bytes,
                q,
                end,
                n - 1,
                DecodeStateView {
                    tables: st.tables + seq![
                        TableView {
                            index: spec_trunc32(st.tables.len() as int),
                            table_type: tt,
                            is_imported: false,
                            is_exported: false,
                        },
                    ],
                    ..st
                },
            ),
        }
    }
}

/// The start section: a single function index.
pub open spec fn spec_start_section(bytes: Seq<u8>, pos: int, end: int, st: DecodeStateView) -> Result<
    DecodeStateView,
    DecodeError,
> {
    match spec_leb_u32_in(bytes, pos, end) {
        Err(e) => Err(e),
        Ok((f, q)) => if q == end {
            Ok(DecodeStateView { start_function: Some(spec_trunc32(f)), ..st })
        } else {
            Err(DecodeError::BadCount)
        },
    }
}

/// The memory section keeps only its first record; the rest of the payload
/// is left unread, as the streaming reader never demands it.
pub open spec fn spec_memory_section(bytes: Seq<u8>, pos: int, end: int, st: DecodeStateView) -> Result<
    DecodeStateView,
    DecodeError,
> {
    match spec_leb_u32_in(bytes, pos, end) {
        Err(e) => Err(e),
        Ok((n, q)) => if n == 0 {
            Ok(st)
        } else {
            match spec_limits(bytes, q, end, 3) {
                Err(e) => Err(e),
                Ok(((mn, mx, sh), _q2)) => Ok(
                    DecodeStateView {
                        memory: Some(
                            Memory {
                                initial: mn,
                                maximum: mx,
                                shared: sh,
                                is_imported: false,
                                is_exported: false,
                            },
                        ),
                        ..st
                    },
                ),
            }
        },
    }
}

pub open spec fn spec_global_records(
    bytes: Seq<u8>,
    pos: int,
    end: int,
    n: int,
    st: DecodeStateView,
) -> Result<(DecodeStateView, int), DecodeError>
    decreases n,
{
    if n <= 0 {
        Ok((st, pos))
    } else {
        match spec_globaltype(bytes, pos, end) {
            Err(e) => Err(e),
            Ok((gt, q)) => match spec_const_expr(bytes, q, end) {
                Err(e) => Err(e),
                Ok((_v, q2)) => spec_global_records(
                    bytes,
                    q2,
                    end,
                    n - 1,
                    DecodeStateView {
                        globals: st.globals + seq![
                            GlobalView {
                                index: spec_trunc32(st.globals.len() as int),
                                global_type: gt,
                                init_value: None,
                                is_imported: false,
                                is_exported: false,
                            },
                        ],
                        ..st
                    },
                ),
            },
        }
    }
}

pub open spec fn spec_export_record(bytes: Seq<u8>, pos: int, end: int, st: DecodeStateView) -> Result<
    (DecodeStateView, int),
    DecodeError,
> {
    match spec_name(bytes, pos, end) {
        Err(e) => Err(e),
        Ok((name, q1)) => if !(0 <= q1 < end) {
            Err(DecodeError::Truncated)
        } else {
            let kb = bytes[q1];
            if kb > 4 {
                Err(DecodeError::BadRecord)
            } else {
                match spec_leb_u32_in(bytes, q1 + 1, end) {
                    Err(e) => Err(e),
                    Ok((idx, q2)) => {
                        // Kind 4 is a tag export: parsed, then dropped.
                        let st2 = if kb == 4 {
                            st
                        } else {
                            DecodeStateView {
                                exports: st.exports + seq![
                                    ExportView {
                                        name,
                                        kind: spec_export_kind(kb),
                                        index: spec_trunc32(idx),
                                    },
                                ],
                                ..st
                            }
                        };
                        Ok((st2, q2))
                    },
                }
            }
        },
    }
}

pub open spec fn spec_export_records(
    bytes: Seq<u8>,
    pos: int,
    end: int,
    n: int,
    st: DecodeStateView,
) -> Result<(DecodeStateView, int), DecodeError>
    decreases n,
{
    if n <= 0 {
        Ok((st, pos))
    } else {
        match spec_export_record(bytes, pos, end, st) {
            Err(e) => Err(e),
            Ok((st2, q)) => spec_export_records(bytes, q, end, n - 1, st2),
        }
    }
}

pub open spec fn spec_export_kind(kb: u8) -> ExportKind {
    if kb == 0 {
        ExportKind::Function
    } else if kb == 1 {
        ExportKind::Table
    } else if kb == 2 {
        ExportKind::Memory
    } else {
        ExportKind::Global
    }
}

// ----------------------------------------------------------------------------
// Constant expressions.

/// Finds the end of a constant expression: the `end` opcode at nesting
/// depth zero.  Every failure inside a constant expression is a malformed
/// constant expression.
pub open spec fn spec_const_expr_end(bytes: Seq<u8>, pos: int, end: int, depth: int) -> Result<
    int,
    DecodeError,
>
    decreases end - pos,
{
    if !(0 <= pos < end && end <= bytes.len()) {
        Err(DecodeError::BadConstExpr)
    } else {
        let b = bytes[pos];
        if b == 0x0b && depth == 0 {
            Ok(pos + 1)
        } else {
            match spec_skip_op(bytes, pos, end) {
                Err(_e) => Err(DecodeError::BadConstExpr),
                Ok((_eff, q)) => if !(pos < q <= end) {
                    Err(DecodeError::BadConstExpr)
                } else {
                    let d2 = if b == 0x02 || b == 0x03 || b == 0x04 {
                        depth + 1
                    } else if b == 0x0b {
                        depth - 1
                    } else {
                        depth
                    };
                    spec_const_expr_end(bytes, q, end, d2)
                },
            }
        }
    }
}

/// A constant expression, evaluated only when it has the single form
/// "push one 32-bit constant, then terminate"; any other well-formed
/// expression yields no value rather than an error.
#[verifier::opaque]
pub open spec fn spec_const_expr(bytes: Seq<u8>, pos: int, end: int) -> Result<
    (Option<u32>, int),
    DecodeError,
> {
    match spec_const_expr_end(bytes, pos, end, 0) {
        Err(e) => Err(e),
        Ok(q) => {
            let v = if bytes[pos] == 0x41 {
                match spec_leb_s32_u32(bytes, pos + 1) {
                    Err(_e) => None::<u32>,
                    Ok((value, t)) => if t + 1 == q && bytes[t] == 0x0b {
                        Some(value as u32)
                    } else {
                        None::<u32>
                    },
                }
            } else {
                None::<u32>
            };
            Ok((v, q))
        },
    }
}

// ----------------------------------------------------------------------------
// Element and data sections.

pub open spec fn spec_func_idx_vec(bytes: Seq<u8>, pos: int, end: int) -> Result<
    (u32, int),
    DecodeError,
> {
    match spec_leb_u32_in(bytes, pos, end) {
        Err(e) => Err(e),
        Ok((n, q)) => match crate::ops::spec_skip_lebs(bytes, q, end, n) {
            Err(e) => Err(e),
            Ok(q2) => Ok((spec_trunc32(n), q2)),
        },
    }
}

pub open spec fn spec_expr_vec(bytes: Seq<u8>, pos: int, end: int, n: int) -> Result<
    int,
    DecodeError,
>
    decreases n,
{
    if n <= 0 {
        Ok(pos)
    } else {
        match spec_const_expr(bytes, pos, end) {
            Err(e) => Err(e),
            Ok((_v, q)) => if !(pos < q) {
                Err(DecodeError::BadConstExpr)
            } else {
                spec_expr_vec(bytes, q, end, n - 1)
            },
        }
    }
}

pub open spec fn spec_expr_vec_counted(bytes: Seq<u8>, pos: int, end: int) -> Result<
    (u32, int),
    DecodeError,
> {
    match spec_leb_u32_in(bytes, pos, end) {
        Err(e) => Err(e),
        Ok((n, q)) => match spec_expr_vec(bytes, q, end, n) {
            Err(e) => Err(e),
            Ok(q2) => Ok((spec_trunc32(n), q2)),
        },
    }
}

/// One element segment's fields.  The flags word selects among eight
/// encodings: bit 0 marks a passive or declared segment, bit 1 an explicit
/// table index (active) or a declared segment (passive), bit 2 expression
/// items.
pub open spec fn spec_element_parts(bytes: Seq<u8>, pos: int, end: int) -> Result<
    ((Option<u32>, Option<u32>, u32, bool), int),
    DecodeError,
> {
    match spec_leb_u32_in(bytes, pos, end) {
        Err(e) => Err(e),
        Ok((flags, q0)) => if flags > 7 {
            Err(DecodeError::BadRecord)
        } else {
            let active = flags == 0 || flags == 2 || flags == 4 || flags == 6;
            // Active with an explicit table index.
            let explicit_table = flags == 2 || flags == 6;
            let exprs = flags >= 4;
            match (if explicit_table {
                spec_leb_u32_in(bytes, q0, end)
            } else {
                Ok((0int, q0))
            }) {
                Err(e) => Err(e),
                Ok((tbl, q1)) => match (if active {
                    spec_const_expr(bytes, q1, end)
                } else {
                    Ok((None::<u32>, q1))
                }) {
                    Err(e) => Err(e),
                    Ok((off, q2)) => {
                        // Passive and declared segments, and active segments
                        // with an explicit table, carry an element-kind or
                        // reference-type byte.
                        let has_kind_byte = flags != 0 && flags != 4;
                        if has_kind_byte && !(0 <= q2 < end) {
                            Err(DecodeError::Truncated)
                        } else if has_kind_byte && !exprs && bytes[q2] != 0x00 {
                            Err(DecodeError::BadRecord)
                        } else if has_kind_byte && exprs && !spec_is_reftype(bytes[q2]) {
                            Err(DecodeError::BadRecord)
                        } else {
                            let q3 = if has_kind_byte {
                                q2 + 1
                            } else {
                                q2
                            };
                            match (if exprs {
                                spec_expr_vec_counted(bytes, q3, end)
                            } else {
                                spec_func_idx_vec(bytes, q3, end)
                            }) {
                                Err(e) => Err(e),
                                Ok((cnt, q4)) => Ok((
                                    (
                                        if active {
                                            Some(spec_trunc32(tbl))
                                        } else {
                                            None::<u32>
                                        },
                                        if active {
                                            off
                                        } else {
                                            None::<u32>
                                        },
                                        cnt,
                                        !active,
                                    ),
                                    q4,
                                )),
                            }
                        }
                    },
                },
            }
        },
    }
}

/// One element segment appended to the state.
pub open spec fn spec_element_record(bytes: Seq<u8>, pos: int, end: int, st: DecodeStateView) -> Result<
    (DecodeStateView, int),
    DecodeError,
> {
    match spec_element_parts(bytes, pos, end) {
        Err(e) => Err(e),
        Ok(((table_index, offset, element_count, is_passive), q)) => Ok((
            DecodeStateView {
                element_segments: st.element_segments + seq![
                    ElementSegment {
                        index: spec_trunc32(st.element_segments.len() as int),
                        table_index,
                        offset,
                        element_count,
                        is_passive,
                    },
                ],
                ..st
            },
            q,
        )),
    }
}

pub open spec fn spec_element_records(
    bytes: Seq<u8>,
    pos: int,
    end: int,
    n: int,
    st: DecodeStateView,
) -> Result<(DecodeStateView, int), DecodeError>
    decreases n,
{
    if n <= 0 {
        Ok((st, pos))
    } else {
        match spec_element_record(bytes, pos, end, st) {
            Err(e) => Err(e),
            Ok((st2, q)) => spec_element_records(bytes, q, end, n - 1, st2),
        }
    }
}

/// One data segment's fields.  Flags: 0 is active in memory zero, 1 is
/// passive, 2 is active with an explicit memory index.  An offset expression
/// of any form other than a single pushed constant yields an unresolved
/// (absent) offset, as does a passive segment.
pub open spec fn spec_data_parts(bytes: Seq<u8>, pos: int, end: int) -> Result<
    ((u32, Option<u32>, u32, bool), int),
    DecodeError,
> {
    match spec_leb_u32_in(bytes, pos, end) {
        Err(e) => Err(e),
        Ok((flags, q0)) => if flags > 2 {
            Err(DecodeError::BadRecord)
        } else {
            match (if flags == 2 {
                spec_leb_u32_in(bytes, q0, end)
            } else {
                Ok((0int, q0))
            }) {
                Err(e) => Err(e),
                Ok((mem, q1)) => match (if flags != 1 {
                    spec_const_expr(bytes, q1, end)
                } else {
                    Ok((None::<u32>, q1))
                }) {
                    Err(e) => Err(e),
                    Ok((off, q2)) => match spec_leb_u32_in(bytes, q2, end) {
                        Err(e) => Err(e),
                        Ok((len, q3)) => if q3 + len > end {
                            Err(DecodeError::Truncated)
                        } else {
                            Ok((
                                (
                                    if flags == 2 {
                                        spec_trunc32(mem)
                                    } else {
                                        0u32
                                    },
                                    if flags == 1 {
                                        None::<u32>
                                    } else {
                                        off
                                    },
                                    spec_trunc32(len),
                                    flags == 1,
                                ),
                                q3 + len,
                            ))
                        },
                    },
                },
            }
        },
    }
}

/// One data segment appended to the state.
pub open spec fn spec_data_record(bytes: Seq<u8>, pos: int, end: int, st: DecodeStateView) -> Result<
    (DecodeStateView, int),
    DecodeError,
> {
    match spec_data_parts(bytes, pos, end) {
        Err(e) => Err(e),
        Ok(((memory_index, offset, size, is_passive), q)) => Ok((
            DecodeStateView {
                data_segments: st.data_segments + seq![
                    DataSegment {
                        index: spec_trunc32(st.data_segments.len() as int),
                        memory_index,
                        offset,
                        size,
                        is_passive,
                    },
                ],
                ..st
            },
            q,
        )),
    }
}

pub open spec fn spec_data_records(
    bytes: Seq<u8>,
    pos: int,
    end: int,
    n: int,
    st: DecodeStateView,
) -> Result<(DecodeStateView, int), DecodeError>
    decreases n,
{
    if n <= 0 {
        Ok((st, pos))
    } else {
        match spec_data_record(bytes, pos, end, st) {
            Err(e) => Err(e),
            Ok((st2, q)) => spec_data_records(bytes, q, end, n - 1, st2),
        }
    }
}

// ----------------------------------------------------------------------------
// The code section.

/// One local-declaration run: a repeat count and a value type; cost stays
/// proportional to the declaration count, not the instantiated local count.
pub open spec fn spec_local_decls(
    bytes: Seq<u8>,
    pos: int,
    end: int,
    n: int,
    acc: Seq<LocalTypeView>,
) -> Result<(Seq<LocalTypeView>, int), DecodeError>
    decreases n,
{
    if n <= 0 {
        Ok((acc, pos))
    } else {
        match spec_leb_u32_in(bytes, pos, end) {
            Err(e) => Err(e),
            Ok((cnt, q)) => if !(0 <= q < end) {
                Err(DecodeError::Truncated)
            } else if !spec_is_valtype(bytes[q]) {
                Err(DecodeError::BadRecord)
            } else {
                spec_local_decls(
                    bytes,
                    q + 1,
                    end,
                    n - 1,
                    acc + seq![
                        LocalTypeView {
                            count: spec_trunc32(cnt),
                            value_type: spec_valtype_name(bytes[q]),
                        },
                    ],
                )
            },
        }
    }
}

/// One code entry: its byte size, its local declarations, then its
/// instruction stream, which must fill the entry exactly.  An entry without
/// a declared function is a dangling index.
pub open spec fn spec_code_record(bytes: Seq<u8>, pos: int, end: int, st: DecodeStateView) -> Result<
    (DecodeStateView, int),
    DecodeError,
> {
    if st.code.len() >= st.func_types.len() {
        Err(DecodeError::DanglingIndex)
    } else {
        match spec_leb_u32_in(bytes, pos, end) {
            Err(e) => Err(e),
            Ok((size, q)) => if q + size > end {
                Err(DecodeError::Truncated)
            } else {
                let entry_end = q + size;
                match spec_leb_u32_in(bytes, q, entry_end) {
                    Err(e) => Err(e),
                    Ok((nlocals, q1)) => match spec_local_decls(
                        bytes,
                        q1,
                        entry_end,
                        nlocals,
                        Seq::empty(),
                    ) {
                        Err(e) => Err(e),
                        Ok((locals, q2)) => match spec_scan_ops(bytes, q2, entry_end) {
                            Err(e) => Err(e),
                            Ok((calls, mem_ops)) => Ok((
                                DecodeStateView {
                                    code: st.code + seq![
                                        CodeEntryView {
                                            locals,
                                            body_size: spec_trunc32(entry_end - q2),
                                            calls,
                                            mem_ops,
                                        },
                                    ],
                                    ..st
                                },
                                entry_end,
                            )),
                        },
                    },
                }
            },
        }
    }
}

pub open spec fn spec_code_records(
    bytes: Seq<u8>,
    pos: int,
    end: int,
    n: int,
    st: DecodeStateView,
) -> Result<(DecodeStateView, int), DecodeError>
    decreases n,
{
    if n <= 0 {
        Ok((st, pos))
    } else {
        match spec_code_record(bytes, pos, end, st) {
            Err(e) => Err(e),
            Ok((st2, q)) => spec_code_records(bytes, q, end, n - 1, st2),
        }
    }
}

// ----------------------------------------------------------------------------
// Custom sections and the name section.

/// Entries of the function-name map: best effort, so a malformed entry ends
/// the walk and keeps what was decoded before it.
pub open spec fn spec_funcname_entries(
    bytes: Seq<u8>,
    pos: int,
    end: int,
    n: int,
    acc: Seq<(u32, Seq<char>)>,
) -> Seq<(u32, Seq<char>)>
    decreases n,
{
    if n <= 0 {
        acc
    } else {
        match spec_leb_u32_in(bytes, pos, end) {
            Err(_e) => acc,
            Ok((idx, q)) => match spec_name(bytes, q, end) {
                Err(_e) => acc,
                Ok((nm, q2)) => spec_funcname_entries(
                    bytes,
                    q2,
                    end,
                    n - 1,
                    acc + seq![(spec_trunc32(idx), nm)],
                ),
            },
        }
    }
}

pub open spec fn spec_funcname_map(bytes: Seq<u8>, pos: int, end: int, acc: Seq<(u32, Seq<char>)>) -> Seq<
    (u32, Seq<char>),
> {
    match spec_leb_u32_in(bytes, pos, end) {
        Err(_e) => acc,
        Ok((n, q)) => spec_funcname_entries(bytes, q, end, n, acc),
    }
}

/// The subsections of the name section; only the function-name map (id 1) is
/// read.  Best effort throughout: any malformed piece ends the walk.
pub open spec fn spec_name_subsections(
    bytes: Seq<u8>,
    pos: int,
    end: int,
    acc: Seq<(u32, Seq<char>)>,
) -> Seq<(u32, Seq<char>)>
    decreases end - pos,
{
    if !(0 <= pos < end && end <= bytes.len()) {
        acc
    } else {
        let id = bytes[pos];
        match spec_leb_u32_in(bytes, pos + 1, end) {
            Err(_e) => acc,
            Ok((sz, q)) => {
                let send = q + sz;
                if send > end {
                    acc
                } else {
                    let acc2 = if id == 1 {
                        spec_funcname_map(bytes, q, send, acc)
                    } else {
                        acc
                    };
                    if pos < send {
                        spec_name_subsections(bytes, send, end, acc2)
                    } else {
                        acc2
                    }
                }
            },
        }
    }
}

/// A custom section: a name, then free-form bytes.  A custom section named
/// "name" is additionally offered to the name resolver, which never fails.
pub open spec fn spec_custom_section(bytes: Seq<u8>, pos: int, end: int, st: DecodeStateView) -> Result<
    DecodeStateView,
    DecodeError,
> {
    match spec_name(bytes, pos, end) {
        Err(e) => Err(e),
        Ok((nm, q)) => {
            let size = spec_trunc32(end - q);
            let names2 = if nm == "name"@ {
                spec_name_subsections(bytes, q, end, st.names)
            } else {
                st.names
            };
            Ok(
                DecodeStateView {
                    custom_sections: st.custom_sections + seq![
                        CustomSectionView { name: nm, size },
                    ],
                    names: names2,
                    ..st
                },
            )
        },
    }
}

// ----------------------------------------------------------------------------
// Sections.

/// Requires the position to have reached exactly the section's end.
pub open spec fn spec_close_section(
    r: Result<(DecodeStateView, int), DecodeError>,
    end: int,
) -> Result<DecodeStateView, DecodeError> {
    match r {
        Err(e) => Err(e),
        Ok((st, q)) => if q == end {
            Ok(st)
        } else {
            Err(DecodeError::BadCount)
        },
    }
}

/// One section's payload, dispatched on the section id.  Unrecognized and
/// currently-unhandled ids are skipped wholesale.
pub open spec fn spec_section(
    bytes: Seq<u8>,
    id: u8,
    pos: int,
    end: int,
    st: DecodeStateView,
) -> Result<DecodeStateView, DecodeError> {
    if id == 0 {
        spec_custom_section(bytes, pos, end, st)
    } else if id == 1 {
        match spec_leb_u32_in(bytes, pos, end) {
            Err(e) => Err(e),
            Ok((n, q)) => spec_close_section(spec_type_records(bytes, q, end, n, st), end),
        }
    } else if id == 2 {
        match spec_leb_u32_in(bytes, pos, end) {
            Err(e) => Err(e),
            Ok((n, q)) => spec_close_section(spec_import_records(bytes, q, end, n, st), end),
        }
    } else if id == 3 {
        match spec_leb_u32_in(bytes, pos, end) {
            Err(e) => Err(e),
            Ok((n, q)) => spec_close_section(spec_func_records(bytes, q, end, n, st), end),
        }
    } else if id == 4 {
        match spec_leb_u32_in(bytes, pos, end) {
            Err(e) => Err(e),
            Ok((n, q)) => spec_close_section(spec_table_records(bytes, q, end, n, st), end),
        }
    } else if id == 5 {
        spec_memory_section(bytes, pos, end, st)
    } else if id == 6 {
        match spec_leb_u32_in(bytes, pos, end) {
            Err(e) => Err(e),
            Ok((n, q)) => spec_close_section(spec_global_records(bytes, q, end, n, st), end),
        }
    } else if id == 7 {
        match spec_leb_u32_in(bytes, pos, end) {
            Err(e) => Err(e),
            Ok((n, q)) => spec_close_section(spec_export_records(bytes, q, end, n, st), end),
        }
    } else if id == 8 {
        spec_start_section(bytes, pos, end, st)
    } else if id == 9 {
        match spec_leb_u32_in(bytes, pos, end) {
            Err(e) => Err(e),
            Ok((n, q)) => spec_close_section(spec_element_records(bytes, q, end, n, st), end),
        }
    } else if id == 10 {
        match spec_leb_u32_in(bytes, pos, end) {
            Err(e) => Err(e),
            Ok((n, q)) => spec_close_section(spec_code_records(bytes, q, end, n, st), end),
        }
    } else if id == 11 {
        match spec_leb_u32_in(bytes, pos, end) {
            Err(e) => Err(e),
            Ok((n, q)) => spec_close_section(spec_data_records(bytes, q, end, n, st), end),
        }
    } else {
        Ok(st)
    }
}

/// The section stream: `(id, size, payload)` until the buffer ends.
pub open spec fn spec_sections(bytes: Seq<u8>, pos: int, st: DecodeStateView) -> Result<
    DecodeStateView,
    DecodeError,
>
    decreases bytes.len() - pos,
{
    if pos >= bytes.len() {
        Ok(st)
    } else if !(0 <= pos) {
        Err(DecodeError::Truncated)
    } else {
        let id = bytes[pos];
        match spec_leb_u32(bytes, pos + 1) {
            Err(e) => Err(e),
            Ok((size, q)) => {
                let send = q + size;
                if send > bytes.len() {
                    Err(DecodeError::Truncated)
                } else {
                    match spec_section(bytes, id, q, send, st) {
                        Err(e) => Err(e),
                        Ok(st2) => if pos < send {
                            spec_sections(bytes, send, st2)
                        } else {
                            Err(DecodeError::Truncated)
                        },
                    }
                }
            },
        }
    }
}

// ----------------------------------------------------------------------------
// Assembly and backfill.

/// Whether some function-kind export targets the given global index.
pub open spec fn spec_is_fn_export(exports: Seq<ExportView>, idx: u32) -> bool {
    spec_is_export_of(exports, ExportKind::Function, idx)
}

/// Whether some export of the given kind targets the given index.
pub open spec fn spec_is_export_of(exports: Seq<ExportView>, kind: ExportKind, idx: u32) -> bool {
    exists|j: int| 0 <= j < exports.len() && exports[j].kind == kind && exports[j].index == idx
}

/// The name of the first function-kind export targeting the given index.
pub open spec fn spec_first_fn_export_name(exports: Seq<ExportView>, idx: u32) -> Option<
    Seq<char>,
>
    decreases exports.len(),
{
    if exports.len() == 0 {
        None
    } else if exports[0].kind == ExportKind::Function && exports[0].index == idx {
        Some(exports[0].name)
    } else {
        spec_first_fn_export_name(exports.drop_first(), idx)
    }
}

/// The name-section entry for the given index; a later entry overrides an
/// earlier one.
pub open spec fn spec_name_lookup(names: Seq<(u32, Seq<char>)>, idx: u32) -> Option<Seq<char>>
    decreases names.len(),
{
    if names.len() == 0 {
        None
    } else if names.last().0 == idx {
        Some(names.last().1)
    } else {
        spec_name_lookup(names.drop_last(), idx)
    }
}

/// The resolved name of a defined function: the name-section entry if there
/// is one, else the name of its first function-kind export, else none.
pub open spec fn spec_function_name(st: DecodeStateView, idx: u32) -> Option<Seq<char>> {
    match spec_name_lookup(st.names, idx) {
        Some(nm) => Some(nm),
        None => if spec_is_fn_export(st.exports, idx) {
            spec_first_fn_export_name(st.exports, idx)
        } else {
            None
        },
    }
}

/// The global index of the `i`-th defined function: the function-kind import
/// count plus its position in the function section.
pub open spec fn spec_fn_index(st: DecodeStateView, i: int) -> u32 {
    spec_trunc32(st.fn_import_count + i)
}

/// The `i`-th defined function, with export flag and name backfilled.
pub open spec fn spec_function(st: DecodeStateView, i: int) -> FunctionView {
    let idx = spec_fn_index(st, i);
    FunctionView {
        index: idx,
        type_index: st.func_types[i],
        locals: if i < st.code.len() {
            st.code[i].locals
        } else {
            Seq::empty()
        },
        body_size: if i < st.code.len() {
            st.code[i].body_size
        } else {
            0u32
        },
        is_imported: false,
        is_exported: spec_is_fn_export(st.exports, idx),
        name: spec_function_name(st, idx),
    }
}

/// The flat call-fact list: for the `k`-th code entry every recorded target,
/// with the caller's global index attached.
/// The call facts of one caller: its recorded targets, the caller's global
/// index attached.
pub open spec fn spec_calls_of(calls: Seq<u32>, idx: u32) -> Seq<(u32, u32)> {
    calls.map_values(|c: u32| (idx, c))
}

pub open spec fn spec_call_facts(st: DecodeStateView, k: int) -> Seq<(u32, u32)>
    decreases st.code.len() - k,
{
    if !(0 <= k < st.code.len()) {
        Seq::empty()
    } else {
        spec_calls_of(st.code[k].calls, spec_fn_index(st, k)) + spec_call_facts(st, k + 1)
    }
}

/// A scanned memory access attributed to its function's global index.
pub open spec fn spec_mem_op_of(m: RawMemOp, idx: u32) -> MemoryOperation {
    MemoryOperation {
        operation_type: m.op,
        offset: m.offset,
        size: m.size,
        function_index: idx,
        instruction_offset: m.at,
    }
}

/// The scanned memory accesses of one function, its global index attached.
pub open spec fn spec_mem_ops_view(v: Seq<RawMemOp>, idx: u32) -> Seq<MemoryOperation> {
    v.map_values(|m: RawMemOp| spec_mem_op_of(m, idx))
}

/// The per-function memory-operation table: one entry per code entry that
/// holds at least one memory operation, keyed by global function index.
pub open spec fn spec_mem_table(st: DecodeStateView, k: int) -> Seq<(u32, Seq<MemoryOperation>)>
    decreases st.code.len() - k,
{
    if !(0 <= k < st.code.len()) {
        Seq::empty()
    } else {
        let rest = spec_mem_table(st, k + 1);
        let idx = spec_fn_index(st, k);
        if st.code[k].mem_ops.len() == 0 {
            rest
        } else {
            seq![(idx, spec_mem_ops_view(st.code[k].mem_ops, idx))] + rest
        }
    }
}

/// Assembles the finished representation from the section pass: defined
/// functions are numbered after the function-kind imports, and the metadata
/// backfill resolves export flags and names for functions, the memory,
/// tables and globals.
/// All defined functions, in declaration order, fully backfilled.
pub open spec fn spec_functions(st: DecodeStateView) -> Seq<FunctionView> {
    Seq::new(st.func_types.len(), |i: int| spec_function(st, i))
}

/// The table records with their export flags backfilled.
pub open spec fn spec_backfill_tables(tables: Seq<TableView>, exports: Seq<ExportView>) -> Seq<
    TableView,
> {
    tables.map_values(
        |t: TableView|
            TableView {
                is_exported: spec_is_export_of(exports, ExportKind::Table, t.index),
                ..t
            },
    )
}

/// The global records with their export flags backfilled.
pub open spec fn spec_backfill_globals(globals: Seq<GlobalView>, exports: Seq<ExportView>) -> Seq<
    GlobalView,
> {
    globals.map_values(
        |g: GlobalView|
            GlobalView {
                is_exported: spec_is_export_of(exports, ExportKind::Global, g.index),
                ..g
            },
    )
}

pub open spec fn spec_assemble(st: DecodeStateView) -> ModuleInfoView {
    ModuleInfoView {
        version: 1,
        imports: st.imports,
        exports: st.exports,
        functions: spec_functions(st),
        memory: match st.memory {
            None => None,
            Some(m) => Some(
                Memory {
                    is_exported: spec_is_export_of(st.exports, ExportKind::Memory, 0),
                    ..m
                },
            ),
        },
        tables: spec_backfill_tables(st.tables, st.exports),
        globals: spec_backfill_globals(st.globals, st.exports),
        data_segments: st.data_segments,
        element_segments: st.element_segments,
        start_function: st.start_function,
        custom_sections: st.custom_sections,
        function_call_instructions: spec_call_facts(st, 0),
        type_signatures: st.type_signatures,
    }
}

/// The decoded state of a whole buffer: the fixed header, then the sections.
pub open spec fn spec_decode_state(bytes: Seq<u8>) -> Result<DecodeStateView, DecodeError> {
    if bytes.len() < 4 {
        Err(DecodeError::Truncated)
    } else if !(bytes[0] == 0x00 && bytes[1] == 0x61 && bytes[2] == 0x73 && bytes[3] == 0x6d) {
        Err(DecodeError::BadMagic)
    } else if bytes.len() < 8 {
        Err(DecodeError::Truncated)
    } else if !(bytes[4] == 0x01 && bytes[5] == 0x00 && bytes[6] == 0x00 && bytes[7] == 0x00) {
        Err(DecodeError::BadVersion)
    } else {
        spec_sections(bytes, 8, spec_init_state())
    }
}

/// What `decode` returns, for every input.
pub open spec fn spec_decode(bytes: Seq<u8>) -> Result<ModuleInfoView, DecodeError> {
    match spec_decode_state(bytes) {
        Err(e) => Err(e),
        Ok(st) => Ok(spec_assemble(st)),
    }
}

/// What the memory-operation extraction returns, for every input.
pub open spec fn spec_decode_mem_table(bytes: Seq<u8>) -> Result<
    Seq<(u32, Seq<MemoryOperation>)>,
    DecodeError,
> {
    match spec_decode_state(bytes) {
        Err(e) => Err(e),
        Ok(st) => Ok(spec_mem_table(st, 0)),
    }
}

} // verus!
