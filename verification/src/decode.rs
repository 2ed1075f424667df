//! The executable decoder.
//!
//! Every function here is proved to return exactly what the corresponding
//! specification function of [`crate::format`] denotes, so the decoder as a
//! whole is pinned to `spec_decode`.

use vstd::prelude::*;
use vstd::string::StringExecFns;
use crate::types::{
    DecodeError, Export, ExportKind, Global, GlobalType, Import, ImportKind, LocalType, Memory,
    MemoryType, Table, TableType, CustomSection, DataSegment, ElementSegment,
};
use crate::format::{
    CodeEntryView, DecodeStateView, spec_init_state, spec_name, spec_is_valtype,
    spec_valtype_name, spec_valtype_list, spec_functype, spec_type_records,
    spec_limits, spec_tabletype, spec_globaltype, spec_import_records, spec_push_import,
    spec_sat_inc, spec_func_records, spec_start_section, spec_table_records,
    spec_global_records, spec_export_records, spec_export_record, spec_export_kind,
    spec_const_expr_end, spec_const_expr, spec_func_idx_vec, spec_expr_vec,
    spec_expr_vec_counted, spec_element_record, spec_element_parts, spec_element_records,
    spec_data_record, spec_data_parts, spec_data_records, spec_local_decls, spec_code_record,
    spec_code_records, spec_funcname_entries, spec_funcname_map, spec_name_subsections,
    spec_section, spec_sections,
};
use crate::leb::{read_leb_u32, read_leb_s32_u32};
use crate::ops::{RawMemOp, spec_trunc32, read_leb_u32_in, skip_op, skip_lebs, scan_ops};
use crate::strings::{copy_range, utf8_decode};

verus! {

/// One decoded code-section entry.
pub struct CodeEntry {
    pub locals: Vec<LocalType>,
    pub body_size: u32,
    pub calls: Vec<u32>,
    pub mem_ops: Vec<RawMemOp>,
}

impl View for CodeEntry {
    type V = CodeEntryView;

    open spec fn view(&self) -> CodeEntryView {
        CodeEntryView {
            locals: crate::types::locals_view(self.locals@),
            body_size: self.body_size,
            calls: self.calls@,
            mem_ops: self.mem_ops@,
        }
    }
}

pub open spec fn code_view(v: Seq<CodeEntry>) -> Seq<CodeEntryView> {
    v.map_values(|x: CodeEntry| x@)
}

/// The accumulating state of the section pass.
pub struct DecodeState {
    pub type_signatures: Vec<String>,
    pub imports: Vec<Import>,
    pub import_count: u64,
    pub fn_import_count: u64,
    pub func_types: Vec<u32>,
    pub tables: Vec<Table>,
    pub memory: Option<Memory>,
    pub globals: Vec<Global>,
    pub exports: Vec<Export>,
    pub start_function: Option<u32>,
    pub element_segments: Vec<ElementSegment>,
    pub data_segments: Vec<DataSegment>,
    pub custom_sections: Vec<CustomSection>,
    pub code: Vec<CodeEntry>,
    pub names: Vec<(u32, String)>,
}

impl View for DecodeState {
    type V = DecodeStateView;

    open spec fn view(&self) -> DecodeStateView {
        DecodeStateView {
            type_signatures: crate::types::strings_view(self.type_signatures@),
            imports: crate::types::imports_view(self.imports@),
            import_count: self.import_count,
            fn_import_count: self.fn_import_count,
            func_types: self.func_types@,
            tables: crate::types::tables_view(self.tables@),
            memory: self.memory,
            globals: crate::types::globals_view(self.globals@),
            exports: crate::types::exports_view(self.exports@),
            start_function: self.start_function,
            element_segments: self.element_segments@,
            data_segments: self.data_segments@,
            custom_sections: crate::types::customs_view(self.custom_sections@),
            code: code_view(self.code@),
            names: crate::types::names_view(self.names@),
        }
    }
}

impl DecodeState {
    pub(crate) fn new() -> (st: DecodeState)
        ensures
            st@ == spec_init_state(),
    {
        let st = DecodeState {
            type_signatures: Vec::new(),
            imports: Vec::new(),
            import_count: 0,
            fn_import_count: 0,
            func_types: Vec::new(),
            tables: Vec::new(),
            memory: None,
            globals: Vec::new(),
            exports: Vec::new(),
            start_function: None,
            element_segments: Vec::new(),
            data_segments: Vec::new(),
            custom_sections: Vec::new(),
            code: Vec::new(),
            names: Vec::new(),
        };
        proof {
            assert(st@ =~= spec_init_state());
        }
        st
    }
}

/// Saturating record counter.
fn sat_inc(c: u64) -> (r: u64)
    ensures
        r == spec_sat_inc(c),
{
    if c == u64::MAX {
        c
    } else {
        c + 1
    }
}

fn trunc32(v: u64) -> (r: u32)
    ensures
        r == spec_trunc32(v as int),
{
    (v % 0x1_0000_0000u64) as u32
}

// ----------------------------------------------------------------------------
// Names and value types.

fn read_name(bytes: &Vec<u8>, pos: usize, end: usize) -> (r: Result<(String, usize), DecodeError>)
    requires
        end <= bytes@.len(),
    ensures
        match r {
            Ok((s, q)) => spec_name(bytes@, pos as int, end as int) == Ok::<
                (Seq<char>, int),
                DecodeError,
            >((s@, q as int)) && pos < q <= end,
            Err(e) => spec_name(bytes@, pos as int, end as int) == Err::<
                (Seq<char>, int),
                DecodeError,
            >(e),
        },
{
    match read_leb_u32(bytes, pos) {
        Err(e) => Err(e),
        Ok((n, q)) => {
            if q > end || n as usize > end - q {
                return Err(DecodeError::Truncated);
            }
            let stop = q + n as usize;
            let sub = copy_range(bytes, q, stop);
            match utf8_decode(sub.as_slice()) {
                Some(s) => Ok((s.to_owned(), stop)),
                None => Err(DecodeError::BadRecord),
            }
        },
    }
}

fn is_valtype(b: u8) -> (r: bool)
    ensures
        r == spec_is_valtype(b),
{
    b == 0x7f || b == 0x7e || b == 0x7d || b == 0x7c || b == 0x7b || b == 0x70 || b == 0x6f
}

fn valtype_name(b: u8) -> (s: String)
    ensures
        s@ == spec_valtype_name(b),
{
    if b == 0x7f {
        String::from_str("i32")
    } else if b == 0x7e {
        String::from_str("i64")
    } else if b == 0x7d {
        String::from_str("f32")
    } else if b == 0x7c {
        String::from_str("f64")
    } else if b == 0x7b {
        String::from_str("v128")
    } else if b == 0x70 {
        String::from_str("funcref")
    } else {
        String::from_str("externref")
    }
}

// ----------------------------------------------------------------------------
// The type section.

#[verifier::loop_isolation(false)]
fn read_valtype_list(bytes: &Vec<u8>, pos: usize, end: usize, n: u32, acc: String) -> (r: Result<
    (String, usize),
    DecodeError,
>)
    requires
        pos <= end <= bytes@.len(),
    ensures
        match r {
            Ok((s, q)) => spec_valtype_list(bytes@, pos as int, end as int, n as int, acc@, true)
                == Ok::<(Seq<char>, int), DecodeError>((s@, q as int)) && pos <= q <= end,
            Err(e) => spec_valtype_list(bytes@, pos as int, end as int, n as int, acc@, true)
                == Err::<(Seq<char>, int), DecodeError>(e),
        },
{
    let ghost g_pos = pos as int;
    let ghost g_acc = acc@;
    let mut p = pos;
    let mut k = n;
    let mut text = acc;
    let mut first = true;
    while k > 0
        invariant
            pos <= p <= end,
            spec_valtype_list(bytes@, g_pos, end as int, n as int, g_acc, true)
                == spec_valtype_list(bytes@, p as int, end as int, k as int, text@, first),
        decreases k,
    {
        if p >= end {
            return Err(DecodeError::Truncated);
        }
        let b = bytes[p];
        if !is_valtype(b) {
            return Err(DecodeError::BadRecord);
        }
        if !first {
            text.append(",");
        }
        let nm = valtype_name(b);
        text.append(nm.as_str());
        p = p + 1;
        k = k - 1;
        first = false;
    }
    Ok((text, p))
}

fn read_functype(bytes: &Vec<u8>, pos: usize, end: usize) -> (r: Result<
    (String, usize),
    DecodeError,
>)
    requires
        end <= bytes@.len(),
    ensures
        match r {
            Ok((s, q)) => spec_functype(bytes@, pos as int, end as int) == Ok::<
                (Seq<char>, int),
                DecodeError,
            >((s@, q as int)) && pos <= q <= end,
            Err(e) => spec_functype(bytes@, pos as int, end as int) == Err::<
                (Seq<char>, int),
                DecodeError,
            >(e),
        },
{
    if pos >= end {
        return Err(DecodeError::Truncated);
    }
    if bytes[pos] != 0x60 {
        return Err(DecodeError::BadRecord);
    }
    let (n1, q1) = match read_leb_u32_in(bytes, pos + 1, end) {
        Err(e) => {
            return Err(e);
        },
        Ok(v) => v,
    };
    let (acc1, q2) = match read_valtype_list(bytes, q1, end, n1, String::from_str("(")) {
        Err(e) => {
            return Err(e);
        },
        Ok(v) => v,
    };
    let (n2, q3) = match read_leb_u32_in(bytes, q2, end) {
        Err(e) => {
            return Err(e);
        },
        Ok(v) => v,
    };
    let (acc2, q4) = match read_valtype_list(bytes, q3, end, n2, acc1.concat(")->(")) {
        Err(e) => {
            return Err(e);
        },
        Ok(v) => v,
    };
    Ok((acc2.concat(")"), q4))
}

#[verifier::loop_isolation(false)]
fn parse_type_section(bytes: &Vec<u8>, pos: usize, end: usize, st: &mut DecodeState) -> (r:
    Result<(), DecodeError>)
    requires
        pos <= end <= bytes@.len(),
    ensures
        match r {
            Ok(_) => spec_section(bytes@, 1, pos as int, end as int, old(st)@) == Ok::<
                DecodeStateView,
                DecodeError,
            >(final(st)@),
            Err(e) => spec_section(bytes@, 1, pos as int, end as int, old(st)@) == Err::<
                DecodeStateView,
                DecodeError,
            >(e),
        },
{
    let (count, p_start) = match read_leb_u32_in(bytes, pos, end) {
        Err(e) => {
            return Err(e);
        },
        Ok(v) => v,
    };
    let ghost st0 = st@;
    let ghost p0 = p_start as int;
    let mut p = p_start;
    let mut n = count;
    while n > 0
        invariant
            p <= end <= bytes@.len(),
            spec_type_records(bytes@, p0, end as int, count as int, st0) == spec_type_records(
                bytes@,
                p as int,
                end as int,
                n as int,
                st@,
            ),
        decreases n,
    {
        match read_functype(bytes, p, end) {
            Err(e) => {
                return Err(e);
            },
            Ok((sig, q)) => {
                let ghost prev = st@;
                let ghost g_sig = sig@;
                st.type_signatures.push(sig);
                proof {
                    assert(st@ =~= DecodeStateView {
                        type_signatures: prev.type_signatures + seq![g_sig],
                        ..prev
                    });
                }
                p = q;
                n = n - 1;
            },
        }
    }
    if p != end {
        return Err(DecodeError::BadCount);
    }
    Ok(())
}

// ----------------------------------------------------------------------------
// Limits, table types, global types.

fn read_limits(bytes: &Vec<u8>, pos: usize, end: usize, max_flags: u8) -> (r: Result<
    ((u32, Option<u32>, bool), usize),
    DecodeError,
>)
    requires
        end <= bytes@.len(),
    ensures
        match r {
            Ok((l, q)) => spec_limits(bytes@, pos as int, end as int, max_flags) == Ok::<
                ((u32, Option<u32>, bool), int),
                DecodeError,
            >((l, q as int)) && pos < q <= end,
            Err(e) => spec_limits(bytes@, pos as int, end as int, max_flags) == Err::<
                ((u32, Option<u32>, bool), int),
                DecodeError,
            >(e),
        },
{
    if pos >= end {
        return Err(DecodeError::Truncated);
    }
    let f = bytes[pos];
    if f > max_flags {
        return Err(DecodeError::BadRecord);
    }
    let (mn, q) = match read_leb_u32_in(bytes, pos + 1, end) {
        Err(e) => {
            return Err(e);
        },
        Ok(v) => v,
    };
    if f == 1 || f == 3 {
        let (mx, q2) = match read_leb_u32_in(bytes, q, end) {
            Err(e) => {
                return Err(e);
            },
            Ok(v) => v,
        };
        Ok(((mn, Some(mx), f >= 2), q2))
    } else {
        Ok(((mn, None, f >= 2), q))
    }
}

fn read_tabletype(bytes: &Vec<u8>, pos: usize, end: usize) -> (r: Result<
    (TableType, usize),
    DecodeError,
>)
    requires
        end <= bytes@.len(),
    ensures
        match r {
            Ok((t, q)) => spec_tabletype(bytes@, pos as int, end as int) == Ok::<
                (crate::types::TableTypeView, int),
                DecodeError,
            >((t@, q as int)) && pos < q <= end,
            Err(e) => spec_tabletype(bytes@, pos as int, end as int) == Err::<
                (crate::types::TableTypeView, int),
                DecodeError,
            >(e),
        },
{
    if pos >= end {
        return Err(DecodeError::Truncated);
    }
    let b = bytes[pos];
    if !(b == 0x70 || b == 0x6f) {
        return Err(DecodeError::BadRecord);
    }
    let ((mn, mx, _sh), q) = match read_limits(bytes, pos + 1, end, 1) {
        Err(e) => {
            return Err(e);
        },
        Ok(v) => v,
    };
    Ok((TableType { element_type: valtype_name(b), initial: mn, maximum: mx }, q))
}

fn read_globaltype(bytes: &Vec<u8>, pos: usize, end: usize) -> (r: Result<
    (GlobalType, usize),
    DecodeError,
>)
    requires
        end <= bytes@.len(),
    ensures
        match r {
            Ok((g, q)) => spec_globaltype(bytes@, pos as int, end as int) == Ok::<
                (crate::types::GlobalTypeView, int),
                DecodeError,
            >((g@, q as int)) && pos < q <= end,
            Err(e) => spec_globaltype(bytes@, pos as int, end as int) == Err::<
                (crate::types::GlobalTypeView, int),
                DecodeError,
            >(e),
        },
{
    if pos >= end || pos + 1 >= end {
        return Err(DecodeError::Truncated);
    }
    let b = bytes[pos];
    let m = bytes[pos + 1];
    if !is_valtype(b) || m > 1 {
        return Err(DecodeError::BadRecord);
    }
    Ok((GlobalType { value_type: valtype_name(b), mutable: m == 1 }, pos + 2))
}


// ----------------------------------------------------------------------------
// The import section.

fn push_import(st: &mut DecodeState, module: String, name: String, kind: ImportKind, is_fn: bool)
    ensures
        final(st)@ == spec_push_import(old(st)@, module@, name@, kind@, is_fn),
{
    let ghost prev = st@;
    let ghost g_module = module@;
    let ghost g_name = name@;
    let ghost g_kind = kind@;
    let idx = trunc32(st.import_count);
    st.imports.push(Import { module, name, kind, index: idx });
    st.import_count = sat_inc(st.import_count);
    if is_fn {
        st.fn_import_count = sat_inc(st.fn_import_count);
    }
    proof {
        assert(st@ =~= spec_push_import(prev, g_module, g_name, g_kind, is_fn));
    }
}

#[verifier::loop_isolation(false)]
#[verifier::rlimit(100)]
fn parse_import_section(bytes: &Vec<u8>, pos: usize, end: usize, st: &mut DecodeState) -> (r:
    Result<(), DecodeError>)
    requires
        pos <= end <= bytes@.len(),
    ensures
        match r {
            Ok(_) => spec_section(bytes@, 2, pos as int, end as int, old(st)@) == Ok::<
                DecodeStateView,
                DecodeError,
            >(final(st)@),
            Err(e) => spec_section(bytes@, 2, pos as int, end as int, old(st)@) == Err::<
                DecodeStateView,
                DecodeError,
            >(e),
        },
{
    let (count, p_start) = match read_leb_u32_in(bytes, pos, end) {
        Err(e) => {
            return Err(e);
        },
        Ok(v) => v,
    };
    let ghost st0 = st@;
    let ghost p0 = p_start as int;
    let mut p = p_start;
    let mut n = count;
    while n > 0
        invariant
            p <= end,
            spec_import_records(bytes@, p0, end as int, count as int, st0) == spec_import_records(
                bytes@,
                p as int,
                end as int,
                n as int,
                st@,
            ),
        decreases n,
    {
        let (module, q1) = match read_name(bytes, p, end) {
            Err(e) => {
                return Err(e);
            },
            Ok(v) => v,
        };
        let (name, q2) = match read_name(bytes, q1, end) {
            Err(e) => {
                return Err(e);
            },
            Ok(v) => v,
        };
        if q2 >= end {
            return Err(DecodeError::Truncated);
        }
        let kb = bytes[q2];
        let pk = q2 + 1;
        let ghost prev = st@;
        let q3: usize;
        if kb == 0x00 {
            let (ti, q) = match read_leb_u32_in(bytes, pk, end) {
                Err(e) => {
                    return Err(e);
                },
                Ok(v) => v,
            };
            push_import(st, module, name, ImportKind::Function { type_index: ti }, true);
            q3 = q;
        } else if kb == 0x01 {
            let (tt, q) = match read_tabletype(bytes, pk, end) {
                Err(e) => {
                    return Err(e);
                },
                Ok(v) => v,
            };
            push_import(st, module, name, ImportKind::Table { table_type: tt }, false);
            q3 = q;
        } else if kb == 0x02 {
            let ((mn, mx, sh), q) = match read_limits(bytes, pk, end, 3) {
                Err(e) => {
                    return Err(e);
                },
                Ok(v) => v,
            };
            push_import(
                st,
                module,
                name,
                ImportKind::Memory {
                    memory_type: MemoryType { initial: mn, maximum: mx, shared: sh },
                },
                false,
            );
            q3 = q;
        } else if kb == 0x03 {
            let (gt, q) = match read_globaltype(bytes, pk, end) {
                Err(e) => {
                    return Err(e);
                },
                Ok(v) => v,
            };
            push_import(st, module, name, ImportKind::Global { global_type: gt }, false);
            q3 = q;
        } else if kb == 0x04 {
            if pk >= end {
                return Err(DecodeError::Truncated);
            }
            if bytes[pk] != 0x00 {
                return Err(DecodeError::BadRecord);
            }
            let (_ti, q) = match read_leb_u32_in(bytes, pk + 1, end) {
                Err(e) => {
                    return Err(e);
                },
                Ok(v) => v,
            };
            st.import_count = sat_inc(st.import_count);
            proof {
                assert(st@ =~= DecodeStateView {
                    import_count: spec_sat_inc(prev.import_count),
                    ..prev
                });
            }
            q3 = q;
        } else {
            return Err(DecodeError::BadRecord);
        }
        p = q3;
        n = n - 1;
    }
    if p != end {
        return Err(DecodeError::BadCount);
    }
    Ok(())
}

// ----------------------------------------------------------------------------
// Function, table, memory, global, export and start sections.

#[verifier::loop_isolation(false)]
fn parse_function_section(bytes: &Vec<u8>, pos: usize, end: usize, st: &mut DecodeState) -> (r:
    Result<(), DecodeError>)
    requires
        pos <= end <= bytes@.len(),
    ensures
        match r {
            Ok(_) => spec_section(bytes@, 3, pos as int, end as int, old(st)@) == Ok::<
                DecodeStateView,
                DecodeError,
            >(final(st)@),
            Err(e) => spec_section(bytes@, 3, pos as int, end as int, old(st)@) == Err::<
                DecodeStateView,
                DecodeError,
            >(e),
        },
{
    let (count, p_start) = match read_leb_u32_in(bytes, pos, end) {
        Err(e) => {
            return Err(e);
        },
        Ok(v) => v,
    };
    let ghost st0 = st@;
    let ghost p0 = p_start as int;
    let mut p = p_start;
    let mut n = count;
    while n > 0
        invariant
            p <= end,
            spec_func_records(bytes@, p0, end as int, count as int, st0) == spec_func_records(
                bytes@,
                p as int,
                end as int,
                n as int,
                st@,
            ),
        decreases n,
    {
        match read_leb_u32_in(bytes, p, end) {
            Err(e) => {
                return Err(e);
            },
            Ok((ti, q)) => {
                let ghost prev = st@;
                st.func_types.push(ti);
                proof {
                    assert(st@ =~= DecodeStateView {
                        func_types: prev.func_types + seq![ti],
                        ..prev
                    });
                }
                p = q;
                n = n - 1;
            },
        }
    }
    if p != end {
        return Err(DecodeError::BadCount);
    }
    Ok(())
}

#[verifier::loop_isolation(false)]
fn parse_table_section(bytes: &Vec<u8>, pos: usize, end: usize, st: &mut DecodeState) -> (r:
    Result<(), DecodeError>)
    requires
        pos <= end <= bytes@.len(),
    ensures
        match r {
            Ok(_) => spec_section(bytes@, 4, pos as int, end as int, old(st)@) == Ok::<
                DecodeStateView,
                DecodeError,
            >(final(st)@),
            Err(e) => spec_section(bytes@, 4, pos as int, end as int, old(st)@) == Err::<
                DecodeStateView,
                DecodeError,
            >(e),
        },
{
    let (count, p_start) = match read_leb_u32_in(bytes, pos, end) {
        Err(e) => {
            return Err(e);
        },
        Ok(v) => v,
    };
    let ghost st0 = st@;
    let ghost p0 = p_start as int;
    let mut p = p_start;
    let mut n = count;
    while n > 0
        invariant
            p <= end,
            spec_table_records(bytes@, p0, end as int, count as int, st0) == spec_table_records(
                bytes@,
                p as int,
                end as int,
                n as int,
                st@,
            ),
        decreases n,
    {
        match read_tabletype(bytes, p, end) {
            Err(e) => {
                return Err(e);
            },
            Ok((tt, q)) => {
                let ghost prev = st@;
                let ghost g_tt = tt@;
                let idx = trunc32(st.tables.len() as u64);
                st.tables.push(
                    Table { index: idx, table_type: tt, is_imported: false, is_exported: false },
                );
                proof {
                    assert(st@ =~= DecodeStateView {
                        tables: prev.tables + seq![
                            crate::types::TableView {
                                index: spec_trunc32(prev.tables.len() as int),
                                table_type: g_tt,
                                is_imported: false,
                                is_exported: false,
                            },
                        ],
                        ..prev
                    });
                }
                p = q;
                n = n - 1;
            },
        }
    }
    if p != end {
        return Err(DecodeError::BadCount);
    }
    Ok(())
}

fn parse_memory_section(bytes: &Vec<u8>, pos: usize, end: usize, st: &mut DecodeState) -> (r:
    Result<(), DecodeError>)
    requires
        pos <= end <= bytes@.len(),
    ensures
        match r {
            Ok(_) => spec_section(bytes@, 5, pos as int, end as int, old(st)@) == Ok::<
                DecodeStateView,
                DecodeError,
            >(final(st)@),
            Err(e) => spec_section(bytes@, 5, pos as int, end as int, old(st)@) == Err::<
                DecodeStateView,
                DecodeError,
            >(e),
        },
{
    let (count, p) = match read_leb_u32_in(bytes, pos, end) {
        Err(e) => {
            return Err(e);
        },
        Ok(v) => v,
    };
    if count == 0 {
        return Ok(());
    }
    let ghost prev = st@;
    match read_limits(bytes, p, end, 3) {
        Err(e) => Err(e),
        Ok(((mn, mx, sh), _q)) => {
            st.memory = Some(
                Memory {
                    initial: mn,
                    maximum: mx,
                    shared: sh,
                    is_imported: false,
                    is_exported: false,
                },
            );
            proof {
                assert(st@ =~= DecodeStateView {
                    memory: Some(
                        Memory {
                            initial: mn,
                            maximum: mx,
                            shared: sh,
                            is_imported: false,
                            is_exported: false,
                        },
                    ),
                    ..prev
                });
            }
            Ok(())
        },
    }
}

fn read_export_record(bytes: &Vec<u8>, pos: usize, end: usize, st: &mut DecodeState) -> (r:
    Result<usize, DecodeError>)
    requires
        end <= bytes@.len(),
    ensures
        match r {
            Ok(q) => spec_export_record(bytes@, pos as int, end as int, old(st)@) == Ok::<
                (DecodeStateView, int),
                DecodeError,
            >((final(st)@, q as int)) && pos < q <= end,
            Err(e) => spec_export_record(bytes@, pos as int, end as int, old(st)@) == Err::<
                (DecodeStateView, int),
                DecodeError,
            >(e),
        },
{
    let (name, q1) = match read_name(bytes, pos, end) {
        Err(e) => {
            return Err(e);
        },
        Ok(v) => v,
    };
    if q1 >= end {
        return Err(DecodeError::Truncated);
    }
    let kb = bytes[q1];
    if kb > 4 {
        return Err(DecodeError::BadRecord);
    }
    let (idx, q2) = match read_leb_u32_in(bytes, q1 + 1, end) {
        Err(e) => {
            return Err(e);
        },
        Ok(v) => v,
    };
    let ghost prev = st@;
    let ghost g_name = name@;
    if kb != 4 {
        let kind = if kb == 0 {
            ExportKind::Function
        } else if kb == 1 {
            ExportKind::Table
        } else if kb == 2 {
            ExportKind::Memory
        } else {
            ExportKind::Global
        };
        st.exports.push(Export { name, kind, index: idx });
        proof {
            assert(st@ =~= DecodeStateView {
                exports: prev.exports + seq![
                    crate::types::ExportView {
                        name: g_name,
                        kind: spec_export_kind(kb),
                        index: spec_trunc32(idx as int),
                    },
                ],
                ..prev
            });
        }
    }
    Ok(q2)
}

#[verifier::loop_isolation(false)]
fn parse_export_section(bytes: &Vec<u8>, pos: usize, end: usize, st: &mut DecodeState) -> (r:
    Result<(), DecodeError>)
    requires
        pos <= end <= bytes@.len(),
    ensures
        match r {
            Ok(_) => spec_section(bytes@, 7, pos as int, end as int, old(st)@) == Ok::<
                DecodeStateView,
                DecodeError,
            >(final(st)@),
            Err(e) => spec_section(bytes@, 7, pos as int, end as int, old(st)@) == Err::<
                DecodeStateView,
                DecodeError,
            >(e),
        },
{
    let (count, p_start) = match read_leb_u32_in(bytes, pos, end) {
        Err(e) => {
            return Err(e);
        },
        Ok(v) => v,
    };
    let ghost st0 = st@;
    let ghost p0 = p_start as int;
    let mut p = p_start;
    let mut n = count;
    while n > 0
        invariant
            p <= end,
            spec_export_records(bytes@, p0, end as int, count as int, st0) == spec_export_records(
                bytes@,
                p as int,
                end as int,
                n as int,
                st@,
            ),
        decreases n,
    {
        match read_export_record(bytes, p, end, st) {
            Err(e) => {
                return Err(e);
            },
            Ok(q) => {
                p = q;
                n = n - 1;
            },
        }
    }
    if p != end {
        return Err(DecodeError::BadCount);
    }
    Ok(())
}


#[verifier::loop_isolation(false)]
#[verifier::rlimit(100)]
fn parse_global_section(bytes: &Vec<u8>, pos: usize, end: usize, st: &mut DecodeState) -> (r:
    Result<(), DecodeError>)
    requires
        pos <= end <= bytes@.len(),
    ensures
        match r {
            Ok(_) => spec_section(bytes@, 6, pos as int, end as int, old(st)@) == Ok::<
                DecodeStateView,
                DecodeError,
            >(final(st)@),
            Err(e) => spec_section(bytes@, 6, pos as int, end as int, old(st)@) == Err::<
                DecodeStateView,
                DecodeError,
            >(e),
        },
{
    let (count, p_start) = match read_leb_u32_in(bytes, pos, end) {
        Err(e) => {
            return Err(e);
        },
        Ok(v) => v,
    };
    let ghost st0 = st@;
    let ghost p0 = p_start as int;
    let mut p = p_start;
    let mut n = count;
    while n > 0
        invariant
            p <= end,
            spec_global_records(bytes@, p0, end as int, count as int, st0) == spec_global_records(
                bytes@,
                p as int,
                end as int,
                n as int,
                st@,
            ),
        decreases n,
    {
        let (gt, q) = match read_globaltype(bytes, p, end) {
            Err(e) => {
                return Err(e);
            },
            Ok(v) => v,
        };
        let (_v, q2) = match read_const_expr(bytes, q, end) {
            Err(e) => {
                return Err(e);
            },
            Ok(v) => v,
        };
        let ghost prev = st@;
        let ghost g_gt = gt@;
        let idx = trunc32(st.globals.len() as u64);
        st.globals.push(
            Global {
                index: idx,
                global_type: gt,
                init_value: None,
                is_imported: false,
                is_exported: false,
            },
        );
        proof {
            assert(st@ =~= DecodeStateView {
                globals: prev.globals + seq![
                    crate::types::GlobalView {
                        index: spec_trunc32(prev.globals.len() as int),
                        global_type: g_gt,
                        init_value: None,
                        is_imported: false,
                        is_exported: false,
                    },
                ],
                ..prev
            });
        }
        p = q2;
        n = n - 1;
    }
    if p != end {
        return Err(DecodeError::BadCount);
    }
    Ok(())
}

#[verifier::rlimit(100)]
fn parse_start_section(bytes: &Vec<u8>, pos: usize, end: usize, st: &mut DecodeState) -> (r:
    Result<(), DecodeError>)
    requires
        pos <= end <= bytes@.len(),
    ensures
        match r {
            Ok(_) => spec_start_section(bytes@, pos as int, end as int, old(st)@) == Ok::<
                DecodeStateView,
                DecodeError,
            >(final(st)@),
            Err(e) => spec_start_section(bytes@, pos as int, end as int, old(st)@) == Err::<
                DecodeStateView,
                DecodeError,
            >(e),
        },
{
    let (f, q) = match read_leb_u32_in(bytes, pos, end) {
        Err(e) => {
            return Err(e);
        },
        Ok(v) => v,
    };
    if q != end {
        return Err(DecodeError::BadCount);
    }
    let ghost prev = st@;
    st.start_function = Some(f);
    proof {
        assert(st@ =~= DecodeStateView { start_function: Some(f), ..prev });
    }
    Ok(())
}

// ----------------------------------------------------------------------------
// Constant expressions.

#[verifier::loop_isolation(false)]
fn const_expr_end(bytes: &Vec<u8>, pos: usize, end: usize) -> (r: Result<usize, DecodeError>)
    requires
        end <= bytes@.len(),
    ensures
        match r {
            Ok(q) => spec_const_expr_end(bytes@, pos as int, end as int, 0) == Ok::<
                int,
                DecodeError,
            >(q as int) && pos < q <= end,
            Err(e) => spec_const_expr_end(bytes@, pos as int, end as int, 0) == Err::<
                int,
                DecodeError,
            >(e),
        },
{
    let mut p = pos;
    let mut depth: u64 = 0;
    while p < end
        invariant
            pos <= p,
            depth <= p - pos,
            spec_const_expr_end(bytes@, pos as int, end as int, 0) == spec_const_expr_end(
                bytes@,
                p as int,
                end as int,
                depth as int,
            ),
        decreases end - p,
    {
        let b = bytes[p];
        if b == 0x0b && depth == 0 {
            return Ok(p + 1);
        }
        match skip_op(bytes, p, end) {
            Err(_e) => {
                return Err(DecodeError::BadConstExpr);
            },
            Ok((_eff, q)) => {
                if b == 0x02 || b == 0x03 || b == 0x04 {
                    depth = depth + 1;
                } else if b == 0x0b {
                    depth = depth - 1;
                }
                p = q;
            },
        }
    }
    Err(DecodeError::BadConstExpr)
}

fn read_const_expr(bytes: &Vec<u8>, pos: usize, end: usize) -> (r: Result<
    (Option<u32>, usize),
    DecodeError,
>)
    requires
        end <= bytes@.len(),
    ensures
        match r {
            Ok((v, q)) => spec_const_expr(bytes@, pos as int, end as int) == Ok::<
                (Option<u32>, int),
                DecodeError,
            >((v, q as int)) && pos < q <= end,
            Err(e) => spec_const_expr(bytes@, pos as int, end as int) == Err::<
                (Option<u32>, int),
                DecodeError,
            >(e),
        },
{
    proof {
        reveal(spec_const_expr);
    }
    let q = match const_expr_end(bytes, pos, end) {
        Err(e) => {
            return Err(e);
        },
        Ok(v) => v,
    };
    let v: Option<u32> = if bytes[pos] == 0x41 {
        match read_leb_s32_u32(bytes, pos + 1) {
            Err(_e) => None,
            Ok((value, t)) => {
                if t == q - 1 {
                    if bytes[t] == 0x0b {
                        Some(value)
                    } else {
                        None
                    }
                } else {
                    None
                }
            },
        }
    } else {
        None
    };
    Ok((v, q))
}

// ----------------------------------------------------------------------------
// Element and data sections.

fn read_func_idx_vec(bytes: &Vec<u8>, pos: usize, end: usize) -> (r: Result<
    (u32, usize),
    DecodeError,
>)
    requires
        end <= bytes@.len(),
    ensures
        match r {
            Ok((c, q)) => spec_func_idx_vec(bytes@, pos as int, end as int) == Ok::<
                (u32, int),
                DecodeError,
            >((c, q as int)) && pos < q <= end,
            Err(e) => spec_func_idx_vec(bytes@, pos as int, end as int) == Err::<
                (u32, int),
                DecodeError,
            >(e),
        },
{
    let (n, q) = match read_leb_u32_in(bytes, pos, end) {
        Err(e) => {
            return Err(e);
        },
        Ok(v) => v,
    };
    match skip_lebs(bytes, q, end, n as u64) {
        Err(e) => Err(e),
        Ok(q2) => Ok((n, q2)),
    }
}

#[verifier::loop_isolation(false)]
fn read_expr_vec(bytes: &Vec<u8>, pos: usize, end: usize, n: u32) -> (r: Result<
    usize,
    DecodeError,
>)
    requires
        pos <= end <= bytes@.len(),
    ensures
        match r {
            Ok(q) => spec_expr_vec(bytes@, pos as int, end as int, n as int) == Ok::<
                int,
                DecodeError,
            >(q as int) && pos <= q <= end,
            Err(e) => spec_expr_vec(bytes@, pos as int, end as int, n as int) == Err::<
                int,
                DecodeError,
            >(e),
        },
{
    let mut p = pos;
    let mut k = n;
    while k > 0
        invariant
            pos <= p <= end,
            spec_expr_vec(bytes@, pos as int, end as int, n as int) == spec_expr_vec(
                bytes@,
                p as int,
                end as int,
                k as int,
            ),
        decreases k,
    {
        match read_const_expr(bytes, p, end) {
            Err(e) => {
                return Err(e);
            },
            Ok((_v, q)) => {
                p = q;
                k = k - 1;
            },
        }
    }
    Ok(p)
}

fn read_expr_vec_counted(bytes: &Vec<u8>, pos: usize, end: usize) -> (r: Result<
    (u32, usize),
    DecodeError,
>)
    requires
        end <= bytes@.len(),
    ensures
        match r {
            Ok((c, q)) => spec_expr_vec_counted(bytes@, pos as int, end as int) == Ok::<
                (u32, int),
                DecodeError,
            >((c, q as int)) && pos < q <= end,
            Err(e) => spec_expr_vec_counted(bytes@, pos as int, end as int) == Err::<
                (u32, int),
                DecodeError,
            >(e),
        },
{
    let (n, q) = match read_leb_u32_in(bytes, pos, end) {
        Err(e) => {
            return Err(e);
        },
        Ok(v) => v,
    };
    match read_expr_vec(bytes, q, end, n) {
        Err(e) => Err(e),
        Ok(q2) => Ok((n, q2)),
    }
}

#[verifier::rlimit(100)]
fn read_element_parts(bytes: &Vec<u8>, pos: usize, end: usize) -> (r: Result<
    ((Option<u32>, Option<u32>, u32, bool), usize),
    DecodeError,
>)
    requires
        end <= bytes@.len(),
    ensures
        match r {
            Ok((p, q)) => spec_element_parts(bytes@, pos as int, end as int) == Ok::<
                ((Option<u32>, Option<u32>, u32, bool), int),
                DecodeError,
            >((p, q as int)) && pos < q <= end,
            Err(e) => spec_element_parts(bytes@, pos as int, end as int) == Err::<
                ((Option<u32>, Option<u32>, u32, bool), int),
                DecodeError,
            >(e),
        },
{
    let (flags, q0) = match read_leb_u32_in(bytes, pos, end) {
        Err(e) => {
            return Err(e);
        },
        Ok(v) => v,
    };
    if flags > 7 {
        return Err(DecodeError::BadRecord);
    }
    let active = flags == 0 || flags == 2 || flags == 4 || flags == 6;
    let explicit_table = flags == 2 || flags == 6;
    let exprs = flags >= 4;
    let (tbl, q1) = if explicit_table {
        match read_leb_u32_in(bytes, q0, end) {
            Err(e) => {
                return Err(e);
            },
            Ok(v) => v,
        }
    } else {
        (0u32, q0)
    };
    let (off, q2) = if active {
        match read_const_expr(bytes, q1, end) {
            Err(e) => {
                return Err(e);
            },
            Ok(v) => v,
        }
    } else {
        (None, q1)
    };
    let has_kind_byte = flags != 0 && flags != 4;
    if has_kind_byte && q2 >= end {
        return Err(DecodeError::Truncated);
    }
    if has_kind_byte && !exprs && bytes[q2] != 0x00 {
        return Err(DecodeError::BadRecord);
    }
    if has_kind_byte && exprs && !(bytes[q2] == 0x70 || bytes[q2] == 0x6f) {
        return Err(DecodeError::BadRecord);
    }
    let q3 = if has_kind_byte {
        q2 + 1
    } else {
        q2
    };
    let (cnt, q4) = if exprs {
        match read_expr_vec_counted(bytes, q3, end) {
            Err(e) => {
                return Err(e);
            },
            Ok(v) => v,
        }
    } else {
        match read_func_idx_vec(bytes, q3, end) {
            Err(e) => {
                return Err(e);
            },
            Ok(v) => v,
        }
    };
    let table_index = if active {
        Some(tbl)
    } else {
        None
    };
    let offset = if active {
        off
    } else {
        None
    };
    Ok(((table_index, offset, cnt, !active), q4))
}

fn read_element_record(bytes: &Vec<u8>, pos: usize, end: usize, st: &mut DecodeState) -> (r:
    Result<usize, DecodeError>)
    requires
        end <= bytes@.len(),
    ensures
        match r {
            Ok(q) => spec_element_record(bytes@, pos as int, end as int, old(st)@) == Ok::<
                (DecodeStateView, int),
                DecodeError,
            >((final(st)@, q as int)) && pos < q <= end,
            Err(e) => spec_element_record(bytes@, pos as int, end as int, old(st)@) == Err::<
                (DecodeStateView, int),
                DecodeError,
            >(e),
        },
{
    let ((table_index, offset, element_count, is_passive), q) = match read_element_parts(
        bytes,
        pos,
        end,
    ) {
        Err(e) => {
            return Err(e);
        },
        Ok(v) => v,
    };
    let ghost prev = st@;
    let idx = trunc32(st.element_segments.len() as u64);
    let seg = ElementSegment { index: idx, table_index, offset, element_count, is_passive };
    st.element_segments.push(seg);
    proof {
        assert(st@ =~= DecodeStateView {
            element_segments: prev.element_segments + seq![seg],
            ..prev
        });
    }
    Ok(q)
}

#[verifier::loop_isolation(false)]
fn parse_element_section(bytes: &Vec<u8>, pos: usize, end: usize, st: &mut DecodeState) -> (r:
    Result<(), DecodeError>)
    requires
        pos <= end <= bytes@.len(),
    ensures
        match r {
            Ok(_) => spec_section(bytes@, 9, pos as int, end as int, old(st)@) == Ok::<
                DecodeStateView,
                DecodeError,
            >(final(st)@),
            Err(e) => spec_section(bytes@, 9, pos as int, end as int, old(st)@) == Err::<
                DecodeStateView,
                DecodeError,
            >(e),
        },
{
    let (count, p_start) = match read_leb_u32_in(bytes, pos, end) {
        Err(e) => {
            return Err(e);
        },
        Ok(v) => v,
    };
    let ghost st0 = st@;
    let ghost p0 = p_start as int;
    let mut p = p_start;
    let mut n = count;
    while n > 0
        invariant
            p <= end,
            spec_element_records(bytes@, p0, end as int, count as int, st0)
                == spec_element_records(bytes@, p as int, end as int, n as int, st@),
        decreases n,
    {
        match read_element_record(bytes, p, end, st) {
            Err(e) => {
                return Err(e);
            },
            Ok(q) => {
                p = q;
                n = n - 1;
            },
        }
    }
    if p != end {
        return Err(DecodeError::BadCount);
    }
    Ok(())
}

#[verifier::rlimit(100)]
fn read_data_parts(bytes: &Vec<u8>, pos: usize, end: usize) -> (r: Result<
    ((u32, Option<u32>, u32, bool), usize),
    DecodeError,
>)
    requires
        end <= bytes@.len(),
    ensures
        match r {
            Ok((p, q)) => spec_data_parts(bytes@, pos as int, end as int) == Ok::<
                ((u32, Option<u32>, u32, bool), int),
                DecodeError,
            >((p, q as int)) && pos < q <= end,
            Err(e) => spec_data_parts(bytes@, pos as int, end as int) == Err::<
                ((u32, Option<u32>, u32, bool), int),
                DecodeError,
            >(e),
        },
{
    let (flags, q0) = match read_leb_u32_in(bytes, pos, end) {
        Err(e) => {
            return Err(e);
        },
        Ok(v) => v,
    };
    if flags > 2 {
        return Err(DecodeError::BadRecord);
    }
    let (mem, q1) = if flags == 2 {
        match read_leb_u32_in(bytes, q0, end) {
            Err(e) => {
                return Err(e);
            },
            Ok(v) => v,
        }
    } else {
        (0u32, q0)
    };
    let (off, q2) = if flags != 1 {
        match read_const_expr(bytes, q1, end) {
            Err(e) => {
                return Err(e);
            },
            Ok(v) => v,
        }
    } else {
        (None, q1)
    };
    let (len, q3) = match read_leb_u32_in(bytes, q2, end) {
        Err(e) => {
            return Err(e);
        },
        Ok(v) => v,
    };
    if len as usize > end - q3 {
        return Err(DecodeError::Truncated);
    }
    let memory_index = if flags == 2 {
        mem
    } else {
        0
    };
    let offset = if flags == 1 {
        None
    } else {
        off
    };
    Ok(((memory_index, offset, len, flags == 1), q3 + len as usize))
}

fn read_data_record(bytes: &Vec<u8>, pos: usize, end: usize, st: &mut DecodeState) -> (r: Result<
    usize,
    DecodeError,
>)
    requires
        end <= bytes@.len(),
    ensures
        match r {
            Ok(q) => spec_data_record(bytes@, pos as int, end as int, old(st)@) == Ok::<
                (DecodeStateView, int),
                DecodeError,
            >((final(st)@, q as int)) && pos < q <= end,
            Err(e) => spec_data_record(bytes@, pos as int, end as int, old(st)@) == Err::<
                (DecodeStateView, int),
                DecodeError,
            >(e),
        },
{
    let ((memory_index, offset, size, is_passive), q) = match read_data_parts(bytes, pos, end) {
        Err(e) => {
            return Err(e);
        },
        Ok(v) => v,
    };
    let ghost prev = st@;
    let idx = trunc32(st.data_segments.len() as u64);
    let seg = DataSegment { index: idx, memory_index, offset, size, is_passive };
    st.data_segments.push(seg);
    proof {
        assert(st@ =~= DecodeStateView {
            data_segments: prev.data_segments + seq![seg],
            ..prev
        });
    }
    Ok(q)
}

#[verifier::loop_isolation(false)]
fn parse_data_section(bytes: &Vec<u8>, pos: usize, end: usize, st: &mut DecodeState) -> (r:
    Result<(), DecodeError>)
    requires
        pos <= end <= bytes@.len(),
    ensures
        match r {
            Ok(_) => spec_section(bytes@, 11, pos as int, end as int, old(st)@) == Ok::<
                DecodeStateView,
                DecodeError,
            >(final(st)@),
            Err(e) => spec_section(bytes@, 11, pos as int, end as int, old(st)@) == Err::<
                DecodeStateView,
                DecodeError,
            >(e),
        },
{
    let (count, p_start) = match read_leb_u32_in(bytes, pos, end) {
        Err(e) => {
            return Err(e);
        },
        Ok(v) => v,
    };
    let ghost st0 = st@;
    let ghost p0 = p_start as int;
    let mut p = p_start;
    let mut n = count;
    while n > 0
        invariant
            p <= end,
            spec_data_records(bytes@, p0, end as int, count as int, st0) == spec_data_records(
                bytes@,
                p as int,
                end as int,
                n as int,
                st@,
            ),
        decreases n,
    {
        match read_data_record(bytes, p, end, st) {
            Err(e) => {
                return Err(e);
            },
            Ok(q) => {
                p = q;
                n = n - 1;
            },
        }
    }
    if p != end {
        return Err(DecodeError::BadCount);
    }
    Ok(())
}

// ----------------------------------------------------------------------------
// The code section.

#[verifier::loop_isolation(false)]
fn read_local_decls(bytes: &Vec<u8>, pos: usize, end: usize, n: u32) -> (r: Result<
    (Vec<LocalType>, usize),
    DecodeError,
>)
    requires
        pos <= end <= bytes@.len(),
    ensures
        match r {
            Ok((v, q)) => spec_local_decls(bytes@, pos as int, end as int, n as int, Seq::empty())
                == Ok::<(Seq<crate::types::LocalTypeView>, int), DecodeError>(
                (crate::types::locals_view(v@), q as int),
            ) && pos <= q <= end,
            Err(e) => spec_local_decls(bytes@, pos as int, end as int, n as int, Seq::empty())
                == Err::<(Seq<crate::types::LocalTypeView>, int), DecodeError>(e),
        },
{
    let mut out: Vec<LocalType> = Vec::new();
    let mut p = pos;
    let mut k = n;
    proof {
        assert(crate::types::locals_view(out@) =~= Seq::<crate::types::LocalTypeView>::empty());
    }
    while k > 0
        invariant
            pos <= p <= end,
            spec_local_decls(bytes@, pos as int, end as int, n as int, Seq::empty())
                == spec_local_decls(
                bytes@,
                p as int,
                end as int,
                k as int,
                crate::types::locals_view(out@),
            ),
        decreases k,
    {
        let (cnt, q) = match read_leb_u32_in(bytes, p, end) {
            Err(e) => {
                return Err(e);
            },
            Ok(v) => v,
        };
        if q >= end {
            return Err(DecodeError::Truncated);
        }
        let b = bytes[q];
        if !is_valtype(b) {
            return Err(DecodeError::BadRecord);
        }
        let ghost prev = crate::types::locals_view(out@);
        out.push(LocalType { count: cnt, value_type: valtype_name(b) });
        proof {
            assert(crate::types::locals_view(out@) =~= prev + seq![
                crate::types::LocalTypeView {
                    count: spec_trunc32(cnt as int),
                    value_type: spec_valtype_name(b),
                },
            ]);
        }
        p = q + 1;
        k = k - 1;
    }
    Ok((out, p))
}

#[verifier::rlimit(100)]
fn read_code_record(bytes: &Vec<u8>, pos: usize, end: usize, st: &mut DecodeState) -> (r: Result<
    usize,
    DecodeError,
>)
    requires
        end <= bytes@.len(),
    ensures
        match r {
            Ok(q) => spec_code_record(bytes@, pos as int, end as int, old(st)@) == Ok::<
                (DecodeStateView, int),
                DecodeError,
            >((final(st)@, q as int)) && pos < q <= end,
            Err(e) => spec_code_record(bytes@, pos as int, end as int, old(st)@) == Err::<
                (DecodeStateView, int),
                DecodeError,
            >(e),
        },
{
    if st.code.len() >= st.func_types.len() {
        return Err(DecodeError::DanglingIndex);
    }
    let (size, q) = match read_leb_u32_in(bytes, pos, end) {
        Err(e) => {
            return Err(e);
        },
        Ok(v) => v,
    };
    if size as usize > end - q {
        return Err(DecodeError::Truncated);
    }
    let entry_end = q + size as usize;
    let (nlocals, q1) = match read_leb_u32_in(bytes, q, entry_end) {
        Err(e) => {
            return Err(e);
        },
        Ok(v) => v,
    };
    let (locals, q2) = match read_local_decls(bytes, q1, entry_end, nlocals) {
        Err(e) => {
            return Err(e);
        },
        Ok(v) => v,
    };
    let (calls, mem_ops) = match scan_ops(bytes, q2, entry_end) {
        Err(e) => {
            return Err(e);
        },
        Ok(v) => v,
    };
    let ghost prev = st@;
    let ghost g_locals = crate::types::locals_view(locals@);
    let ghost g_calls = calls@;
    let ghost g_mem_ops = mem_ops@;
    let body_size = trunc32((entry_end - q2) as u64);
    let entry = CodeEntry { locals, body_size, calls, mem_ops };
    st.code.push(entry);
    proof {
        assert(st@ =~= DecodeStateView {
            code: prev.code + seq![
                CodeEntryView {
                    locals: g_locals,
                    body_size: spec_trunc32(entry_end - q2),
                    calls: g_calls,
                    mem_ops: g_mem_ops,
                },
            ],
            ..prev
        });
    }
    Ok(entry_end)
}

#[verifier::loop_isolation(false)]
fn parse_code_section(bytes: &Vec<u8>, pos: usize, end: usize, st: &mut DecodeState) -> (r:
    Result<(), DecodeError>)
    requires
        pos <= end <= bytes@.len(),
    ensures
        match r {
            Ok(_) => spec_section(bytes@, 10, pos as int, end as int, old(st)@) == Ok::<
                DecodeStateView,
                DecodeError,
            >(final(st)@),
            Err(e) => spec_section(bytes@, 10, pos as int, end as int, old(st)@) == Err::<
                DecodeStateView,
                DecodeError,
            >(e),
        },
{
    let (count, p_start) = match read_leb_u32_in(bytes, pos, end) {
        Err(e) => {
            return Err(e);
        },
        Ok(v) => v,
    };
    let ghost st0 = st@;
    let ghost p0 = p_start as int;
    let mut p = p_start;
    let mut n = count;
    while n > 0
        invariant
            p <= end,
            spec_code_records(bytes@, p0, end as int, count as int, st0) == spec_code_records(
                bytes@,
                p as int,
                end as int,
                n as int,
                st@,
            ),
        decreases n,
    {
        match read_code_record(bytes, p, end, st) {
            Err(e) => {
                return Err(e);
            },
            Ok(q) => {
                p = q;
                n = n - 1;
            },
        }
    }
    if p != end {
        return Err(DecodeError::BadCount);
    }
    Ok(())
}

// ----------------------------------------------------------------------------
// Custom sections and the name section.

pub open spec fn spec_names_view(names: Seq<(u32, String)>) -> Seq<(u32, Seq<char>)> {
    names.map_values(|p: (u32, String)| (p.0, p.1@))
}

#[verifier::loop_isolation(false)]
fn parse_funcname_entries(bytes: &Vec<u8>, pos: usize, end: usize, n: u32, st: &mut DecodeState)
    requires
        end <= bytes@.len(),
    ensures
        final(st)@ == (DecodeStateView {
            names: spec_funcname_entries(
                bytes@,
                pos as int,
                end as int,
                n as int,
                old(st)@.names,
            ),
            ..old(st)@
        }),
{
    let ghost st0 = st@;
    let ghost p0 = pos as int;
    let mut p = pos;
    let mut k = n;
    while k > 0
        invariant
            spec_funcname_entries(bytes@, p0, end as int, n as int, st0.names)
                == spec_funcname_entries(bytes@, p as int, end as int, k as int, st@.names),
            st@ == (DecodeStateView { names: st@.names, ..st0 }),
        decreases k,
    {
        let (idx, q) = match read_leb_u32_in(bytes, p, end) {
            Err(_e) => {
                return ;
            },
            Ok(v) => v,
        };
        let (nm, q2) = match read_name(bytes, q, end) {
            Err(_e) => {
                return ;
            },
            Ok(v) => v,
        };
        let ghost prev = st@;
        let ghost g_nm = nm@;
        st.names.push((idx, nm));
        proof {
            assert(st@ =~= DecodeStateView {
                names: prev.names + seq![(idx, g_nm)],
                ..prev
            });
        }
        p = q2;
        k = k - 1;
    }
}

fn parse_funcname_map(bytes: &Vec<u8>, pos: usize, end: usize, st: &mut DecodeState)
    requires
        end <= bytes@.len(),
    ensures
        final(st)@ == (DecodeStateView {
            names: spec_funcname_map(bytes@, pos as int, end as int, old(st)@.names),
            ..old(st)@
        }),
{
    match read_leb_u32_in(bytes, pos, end) {
        Err(_e) => {
            proof {
                assert(st@ =~= DecodeStateView { names: st@.names, ..st@ });
            }
        },
        Ok((n, q)) => {
            parse_funcname_entries(bytes, q, end, n, st);
        },
    }
}

#[verifier::loop_isolation(false)]
fn parse_name_subsections(bytes: &Vec<u8>, pos: usize, end: usize, st: &mut DecodeState)
    requires
        end <= bytes@.len(),
    ensures
        final(st)@ == (DecodeStateView {
            names: spec_name_subsections(bytes@, pos as int, end as int, old(st)@.names),
            ..old(st)@
        }),
{
    let ghost st0 = st@;
    let mut p = pos;
    while p < end
        invariant
            pos <= p,
            spec_name_subsections(bytes@, pos as int, end as int, st0.names)
                == spec_name_subsections(bytes@, p as int, end as int, st@.names),
            st@ == (DecodeStateView { names: st@.names, ..st0 }),
        decreases end - p,
    {
        let id = bytes[p];
        let (sz, q) = match read_leb_u32_in(bytes, p + 1, end) {
            Err(_e) => {
                return ;
            },
            Ok(v) => v,
        };
        if sz as usize > end - q {
            return ;
        }
        let send = q + sz as usize;
        if id == 1 {
            parse_funcname_map(bytes, q, send, st);
        }
        p = send;
    }
}

#[verifier::rlimit(100)]
fn parse_custom_section(bytes: &Vec<u8>, pos: usize, end: usize, st: &mut DecodeState) -> (r:
    Result<(), DecodeError>)
    requires
        pos <= end <= bytes@.len(),
    ensures
        match r {
            Ok(_) => spec_section(bytes@, 0, pos as int, end as int, old(st)@) == Ok::<
                DecodeStateView,
                DecodeError,
            >(final(st)@),
            Err(e) => spec_section(bytes@, 0, pos as int, end as int, old(st)@) == Err::<
                DecodeStateView,
                DecodeError,
            >(e),
        },
{
    let (name, q) = match read_name(bytes, pos, end) {
        Err(e) => {
            return Err(e);
        },
        Ok(v) => v,
    };
    let name_lit = String::from_str("name");
    let is_name_section = name.eq(&name_lit);
    let ghost prev = st@;
    let ghost g_name = name@;
    let size = trunc32((end - q) as u64);
    st.custom_sections.push(CustomSection { name, size });
    proof {
        assert(st@ =~= DecodeStateView {
            custom_sections: prev.custom_sections + seq![
                crate::types::CustomSectionView { name: g_name, size: spec_trunc32(end - q) },
            ],
            ..prev
        });
    }
    if is_name_section {
        parse_name_subsections(bytes, q, end, st);
    }
    Ok(())
}

// ----------------------------------------------------------------------------
// Section dispatch and the section stream.

fn parse_section_payload(bytes: &Vec<u8>, id: u8, pos: usize, end: usize, st: &mut DecodeState) -> (r:
    Result<(), DecodeError>)
    requires
        pos <= end <= bytes@.len(),
    ensures
        match r {
            Ok(_) => spec_section(bytes@, id, pos as int, end as int, old(st)@) == Ok::<
                DecodeStateView,
                DecodeError,
            >(final(st)@),
            Err(e) => spec_section(bytes@, id, pos as int, end as int, old(st)@) == Err::<
                DecodeStateView,
                DecodeError,
            >(e),
        },
{
    if id == 0 {
        parse_custom_section(bytes, pos, end, st)
    } else if id == 1 {
        parse_type_section(bytes, pos, end, st)
    } else if id == 2 {
        parse_import_section(bytes, pos, end, st)
    } else if id == 3 {
        parse_function_section(bytes, pos, end, st)
    } else if id == 4 {
        parse_table_section(bytes, pos, end, st)
    } else if id == 5 {
        parse_memory_section(bytes, pos, end, st)
    } else if id == 6 {
        parse_global_section(bytes, pos, end, st)
    } else if id == 7 {
        parse_export_section(bytes, pos, end, st)
    } else if id == 8 {
        parse_start_section(bytes, pos, end, st)
    } else if id == 9 {
        parse_element_section(bytes, pos, end, st)
    } else if id == 10 {
        parse_code_section(bytes, pos, end, st)
    } else if id == 11 {
        parse_data_section(bytes, pos, end, st)
    } else {
        Ok(())
    }
}

#[verifier::loop_isolation(false)]
pub(crate) fn parse_sections(bytes: &Vec<u8>, st: &mut DecodeState) -> (r:
    Result<(), DecodeError>)
    requires
        bytes@.len() >= 8,
    ensures
        match r {
            Ok(_) => spec_sections(bytes@, 8int, old(st)@) == Ok::<DecodeStateView, DecodeError>(
                final(st)@,
            ),
            Err(e) => spec_sections(bytes@, 8int, old(st)@) == Err::<
                DecodeStateView,
                DecodeError,
            >(e),
        },
{
    let ghost st0 = st@;
    let mut pos: usize = 8;
    while pos < bytes.len()
        invariant
            8 <= pos,
            spec_sections(bytes@, 8int, st0) == spec_sections(bytes@, pos as int, st@),
        decreases bytes@.len() - pos,
    {
        let id = bytes[pos];
        let (size, q) = match read_leb_u32(bytes, pos + 1) {
            Err(e) => {
                return Err(e);
            },
            Ok(v) => v,
        };
        if size as usize > bytes.len() - q {
            return Err(DecodeError::Truncated);
        }
        let send = q + size as usize;
        match parse_section_payload(bytes, id, q, send, st) {
            Err(e) => {
                return Err(e);
            },
            Ok(_u) => {
                pos = send;
            },
        }
    }
    Ok(())
}

} // verus!
