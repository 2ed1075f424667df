//! The public decoding surface: `decode`, and the `WasmParser` wrapper that
//! owns a byte buffer and decodes it once.
//!
//! Assembly turns the section pass's state into the finished representation:
//! defined functions are numbered after the function-kind imports, and the
//! metadata backfill resolves export flags and names once every section is
//! known.

use vstd::prelude::*;
use vstd::slice::slice_to_vec;
use crate::types::{
    DecodeError, Export, ExportKind, ExportView, Function, Global, GlobalType, LocalType, Memory,
    ModuleInfo, ModuleInfoView, Table, TableType, view_of_opt_string, locals_view, exports_view,
    functions_view, tables_view, globals_view, names_view,
};
use crate::memory::MemoryOperation;
use crate::format::{
    DecodeStateView, spec_is_export_of, spec_is_fn_export, spec_first_fn_export_name,
    spec_name_lookup, spec_fn_index, spec_function, spec_functions, spec_call_facts,
    spec_calls_of, spec_mem_table, spec_mem_ops_view, spec_backfill_tables,
    spec_backfill_globals, spec_assemble, spec_decode, spec_decode_mem_table,
};
use crate::decode::{DecodeState, parse_sections};
use crate::ops::{RawMemOp, spec_trunc32};

verus! {

/// The view of a memory-operation table.
pub open spec fn spec_table_view(t: Seq<(u32, Vec<MemoryOperation>)>) -> Seq<
    (u32, Seq<MemoryOperation>),
> {
    t.map_values(|p: (u32, Vec<MemoryOperation>)| (p.0, p.1@))
}

fn fn_index(n: u64, i: usize) -> (r: u32)
    ensures
        r == spec_trunc32(n + i),
{
    (((n as u128) + (i as u128)) % 0x1_0000_0000u128) as u32
}

pub(crate) fn is_export_of(exports: &Vec<Export>, kind: ExportKind, idx: u32) -> (r: bool)
    ensures
        r == spec_is_export_of(exports_view(exports@), kind, idx),
{
    let ghost evs = exports_view(exports@);
    let mut j: usize = 0;
    while j < exports.len()
        invariant
            j <= exports.len(),
            evs == exports_view(exports@),
            forall|k: int|
                0 <= k < j ==> !(#[trigger] evs[k].kind == kind && evs[k].index == idx),
        decreases exports.len() - j,
    {
        if exports[j].kind == kind && exports[j].index == idx {
            proof {
                assert(evs[j as int].kind == kind && evs[j as int].index == idx);
            }
            return true;
        }
        j = j + 1;
    }
    false
}

pub(crate) fn first_fn_export_name(exports: &Vec<Export>, idx: u32) -> (r: Option<String>)
    ensures
        view_of_opt_string(r) == spec_first_fn_export_name(exports_view(exports@), idx),
{
    let ghost evs = exports_view(exports@);
    proof {
        assert(evs.skip(0) =~= evs);
    }
    let mut j: usize = 0;
    while j < exports.len()
        invariant
            j <= exports.len(),
            evs == exports_view(exports@),
            spec_first_fn_export_name(evs, idx) == spec_first_fn_export_name(
                evs.skip(j as int),
                idx,
            ),
        decreases exports.len() - j,
    {
        proof {
            assert(evs.skip(j as int)[0] == evs[j as int]);
            assert(evs.skip(j as int).drop_first() =~= evs.skip(j as int + 1));
        }
        let hit = exports[j].kind == ExportKind::Function && exports[j].index == idx;
        if hit {
            return Some(exports[j].name.clone());
        }
        j = j + 1;
    }
    proof {
        assert(evs.skip(exports@.len() as int).len() == 0);
    }
    None
}

fn name_lookup(names: &Vec<(u32, String)>, idx: u32) -> (r: Option<String>)
    ensures
        view_of_opt_string(r) == spec_name_lookup(names_view(names@), idx),
{
    let ghost nvs = names_view(names@);
    proof {
        assert(nvs.take(names@.len() as int) =~= nvs);
    }
    let mut j: usize = names.len();
    while j > 0
        invariant
            j <= names.len(),
            nvs == names_view(names@),
            spec_name_lookup(nvs, idx) == spec_name_lookup(nvs.take(j as int), idx),
        decreases j,
    {
        proof {
            assert(nvs.take(j as int).last() == nvs[j - 1]);
            assert(nvs.take(j as int).drop_last() =~= nvs.take(j as int - 1));
        }
        if names[j - 1].0 == idx {
            return Some(names[j - 1].1.clone());
        }
        j = j - 1;
    }
    None
}

/// [`crate::format::spec_function_name`] stated over the export list and the
/// name table alone.
pub open spec fn spec_function_name_of(
    exports: Seq<ExportView>,
    names: Seq<(u32, Seq<char>)>,
    idx: u32,
) -> Option<Seq<char>> {
    match spec_name_lookup(names, idx) {
        Some(nm) => Some(nm),
        None => if spec_is_fn_export(exports, idx) {
            spec_first_fn_export_name(exports, idx)
        } else {
            None
        },
    }
}

/// The backfilled name of the defined function with global index `idx`: the
/// name-section entry if present, else the name of its first function-kind
/// export, else none.
fn function_name(exports: &Vec<Export>, names: &Vec<(u32, String)>, idx: u32) -> (r: Option<
    String,
>)
    ensures
        view_of_opt_string(r) == spec_function_name_of(
            exports_view(exports@),
            names_view(names@),
            idx,
        ),
{
    match name_lookup(names, idx) {
        Some(nm) => Some(nm),
        None => {
            if is_export_of(exports, ExportKind::Function, idx) {
                first_fn_export_name(exports, idx)
            } else {
                None
            }
        },
    }
}

fn clone_locals(v: &Vec<LocalType>) -> (r: Vec<LocalType>)
    ensures
        locals_view(r@) == locals_view(v@),
{
    let mut out: Vec<LocalType> = Vec::new();
    let mut i: usize = 0;
    while i < v.len()
        invariant
            i <= v.len(),
            locals_view(out@) == locals_view(v@).take(i as int),
        decreases v.len() - i,
    {
        let ghost prev = locals_view(out@);
        let nl = LocalType { count: v[i].count, value_type: v[i].value_type.clone() };
        proof {
            assert(nl@ == v@[i as int]@);
        }
        out.push(nl);
        proof {
            assert(locals_view(out@) =~= prev.push(v@[i as int]@));
            assert(prev.push(v@[i as int]@) =~= locals_view(v@).take(i as int + 1));
        }
        i = i + 1;
    }
    proof {
        assert(locals_view(v@).take(v@.len() as int) =~= locals_view(v@));
    }
    out
}

fn mem_ops_of(raw: &Vec<RawMemOp>, idx: u32) -> (r: Vec<MemoryOperation>)
    ensures
        r@ == spec_mem_ops_view(raw@, idx),
{
    let mut out: Vec<MemoryOperation> = Vec::new();
    let mut i: usize = 0;
    while i < raw.len()
        invariant
            i <= raw.len(),
            out@ == spec_mem_ops_view(raw@, idx).take(i as int),
        decreases raw.len() - i,
    {
        let m = raw[i];
        out.push(
            MemoryOperation {
                operation_type: m.op,
                offset: m.offset,
                size: m.size,
                function_index: idx,
                instruction_offset: m.at,
            },
        );
        proof {
            assert(out@ =~= spec_mem_ops_view(raw@, idx).take(i as int + 1));
        }
        i = i + 1;
    }
    proof {
        assert(spec_mem_ops_view(raw@, idx).take(raw@.len() as int) =~= spec_mem_ops_view(
            raw@,
            idx,
        ));
    }
    out
}

/// Assembles the finished representation and the per-function
/// memory-operation table from the section pass.
#[verifier::rlimit(100)]
#[verifier::loop_isolation(false)]
fn assemble(st: DecodeState) -> (r: (ModuleInfo, Vec<(u32, Vec<MemoryOperation>)>))
    ensures
        r.0@ == spec_assemble(st@),
        spec_table_view(r.1@) == spec_mem_table(st@, 0),
{
    let ghost stv = st@;
    // Defined functions, with export flags and names backfilled.
    let mut functions: Vec<Function> = Vec::new();
    let mut i: usize = 0;
    while i < st.func_types.len()
        invariant
            i <= st.func_types.len(),
            functions_view(functions@) =~= spec_functions(stv).take(i as int),
        decreases st.func_types.len() - i,
    {
        let idx = fn_index(st.fn_import_count, i);
        let (locals, body_size) = if i < st.code.len() {
            (clone_locals(&st.code[i].locals), st.code[i].body_size)
        } else {
            (Vec::new(), 0u32)
        };
        let is_exported = is_export_of(&st.exports, ExportKind::Function, idx);
        let name = function_name(&st.exports, &st.names, idx);
        let f = Function {
            index: idx,
            type_index: st.func_types[i],
            locals,
            body_size,
            is_imported: false,
            is_exported,
            name,
        };
        proof {
            assert(locals_view(Seq::<LocalType>::empty()) =~= Seq::<
                crate::types::LocalTypeView,
            >::empty());
            assert(f@ =~= spec_function(stv, i as int));
        }
        functions.push(f);
        proof {
            assert(functions_view(functions@) =~= spec_functions(stv).take(i as int + 1));
        }
        i = i + 1;
    }
    proof {
        assert(spec_functions(stv).take(stv.func_types.len() as int) =~= spec_functions(stv));
    }
    // The flat call-fact list and the memory-operation table, caller indices
    // attached.
    let mut facts: Vec<(u32, u32)> = Vec::new();
    let mut mems: Vec<(u32, Vec<MemoryOperation>)> = Vec::new();
    let mut k: usize = 0;
    while k < st.code.len()
        invariant
            k <= st.code.len(),
            facts@ + spec_call_facts(stv, k as int) =~= spec_call_facts(stv, 0),
            spec_table_view(mems@) + spec_mem_table(stv, k as int) =~= spec_mem_table(stv, 0),
        decreases st.code.len() - k,
    {
        let idx = fn_index(st.fn_import_count, k);
        let ghost facts0 = facts@;
        let ncalls = st.code[k].calls.len();
        let mut j: usize = 0;
        while j < ncalls
            invariant
                j <= ncalls,
                k < st.code.len(),
                ncalls == stv.code[k as int].calls.len(),
                idx == spec_fn_index(stv, k as int),
                facts@ =~= facts0 + spec_calls_of(stv.code[k as int].calls.take(j as int), idx),
            decreases ncalls - j,
        {
            facts.push((idx, st.code[k].calls[j]));
            proof {
                assert(facts@ =~= facts0 + spec_calls_of(
                    stv.code[k as int].calls.take(j as int + 1),
                    idx,
                ));
            }
            j = j + 1;
        }
        proof {
            assert(stv.code[k as int].calls.take(stv.code[k as int].calls.len() as int)
                =~= stv.code[k as int].calls);
            assert(facts@ + spec_call_facts(stv, k as int + 1) =~= facts0 + spec_call_facts(
                stv,
                k as int,
            ));
        }
        if st.code[k].mem_ops.len() > 0 {
            let ghost mems0 = mems@;
            let ops = mem_ops_of(&st.code[k].mem_ops, idx);
            mems.push((idx, ops));
            proof {
                assert(spec_table_view(mems@) =~= spec_table_view(mems0) + seq![
                    (idx, spec_mem_ops_view(stv.code[k as int].mem_ops, idx)),
                ]);
                assert(spec_table_view(mems@) + spec_mem_table(stv, k as int + 1)
                    =~= spec_table_view(mems0) + spec_mem_table(stv, k as int));
            }
        }
        k = k + 1;
    }
    // Export-flag backfill for the memory, the tables and the globals.
    let memory = match st.memory {
        None => None,
        Some(m) => Some(
            Memory {
                initial: m.initial,
                maximum: m.maximum,
                shared: m.shared,
                is_imported: m.is_imported,
                is_exported: is_export_of(&st.exports, ExportKind::Memory, 0),
            },
        ),
    };
    let mut tables: Vec<Table> = Vec::new();
    let mut ti: usize = 0;
    while ti < st.tables.len()
        invariant
            ti <= st.tables.len(),
            tables_view(tables@) =~= spec_backfill_tables(stv.tables, stv.exports).take(ti as int),
        decreases st.tables.len() - ti,
    {
        let t = &st.tables[ti];
        let nt = Table {
            index: t.index,
            table_type: TableType {
                element_type: t.table_type.element_type.clone(),
                initial: t.table_type.initial,
                maximum: t.table_type.maximum,
            },
            is_imported: t.is_imported,
            is_exported: is_export_of(&st.exports, ExportKind::Table, t.index),
        };
        tables.push(nt);
        proof {
            assert(tables_view(tables@) =~= spec_backfill_tables(stv.tables, stv.exports).take(
                ti as int + 1,
            ));
        }
        ti = ti + 1;
    }
    let mut globals: Vec<Global> = Vec::new();
    let mut gi: usize = 0;
    while gi < st.globals.len()
        invariant
            gi <= st.globals.len(),
            globals_view(globals@) =~= spec_backfill_globals(stv.globals, stv.exports).take(
                gi as int,
            ),
        decreases st.globals.len() - gi,
    {
        let g = &st.globals[gi];
        let init_value = match &g.init_value {
            None => None,
            Some(s) => Some(s.clone()),
        };
        let ng = Global {
            index: g.index,
            global_type: GlobalType {
                value_type: g.global_type.value_type.clone(),
                mutable: g.global_type.mutable,
            },
            init_value,
            is_imported: g.is_imported,
            is_exported: is_export_of(&st.exports, ExportKind::Global, g.index),
        };
        globals.push(ng);
        proof {
            assert(globals_view(globals@) =~= spec_backfill_globals(stv.globals, stv.exports).take(
                gi as int + 1,
            ));
        }
        gi = gi + 1;
    }
    let m = ModuleInfo {
        version: 1,
        imports: st.imports,
        exports: st.exports,
        functions,
        memory,
        tables,
        globals,
        data_segments: st.data_segments,
        element_segments: st.element_segments,
        start_function: st.start_function,
        custom_sections: st.custom_sections,
        function_call_instructions: facts,
        type_signatures: st.type_signatures,
    };
    proof {
        assert(spec_backfill_tables(stv.tables, stv.exports).take(stv.tables.len() as int)
            =~= spec_backfill_tables(stv.tables, stv.exports));
        assert(spec_backfill_globals(stv.globals, stv.exports).take(stv.globals.len() as int)
            =~= spec_backfill_globals(stv.globals, stv.exports));
        assert(facts@ + Seq::<(u32, u32)>::empty() =~= facts@);
        assert(spec_table_view(mems@) + Seq::<(u32, Seq<MemoryOperation>)>::empty()
            =~= spec_table_view(mems@));
        assert(m@ =~= spec_assemble(stv));
    }
    (m, mems)
}

/// Decodes a buffer and also hands back the memory operations found in each
/// function body, keyed by global function index.
pub fn decode_with_memory_ops(bytes: &[u8]) -> (r: Result<
    (ModuleInfo, Vec<(u32, Vec<MemoryOperation>)>),
    DecodeError,
>)
    ensures
        match r {
            Ok(v) => spec_decode(bytes@) == Ok::<ModuleInfoView, DecodeError>(v.0@)
                && spec_decode_mem_table(bytes@) == Ok::<
                Seq<(u32, Seq<MemoryOperation>)>,
                DecodeError,
            >(spec_table_view(v.1@)),
            Err(e) => spec_decode(bytes@) == Err::<ModuleInfoView, DecodeError>(e),
        },
{
    let buf = slice_to_vec(bytes);
    if buf.len() < 4 {
        return Err(DecodeError::Truncated);
    }
    if !(buf[0] == 0x00 && buf[1] == 0x61 && buf[2] == 0x73 && buf[3] == 0x6d) {
        return Err(DecodeError::BadMagic);
    }
    if buf.len() < 8 {
        return Err(DecodeError::Truncated);
    }
    if !(buf[4] == 0x01 && buf[5] == 0x00 && buf[6] == 0x00 && buf[7] == 0x00) {
        return Err(DecodeError::BadVersion);
    }
    let mut st = DecodeState::new();
    match parse_sections(&buf, &mut st) {
        Err(e) => Err(e),
        Ok(_u) => {
            let (m, mems) = assemble(st);
            Ok((m, mems))
        },
    }
}

/// Decodes a byte buffer holding a binary module into its representation.
///
/// The result is exactly `spec_decode` of the input bytes: equal inputs
/// always decode to equal representations, every rejected input yields the
/// decode error that `spec_decode` names, and no partial representation is
/// ever returned.
pub fn decode(bytes: &[u8]) -> (r: Result<ModuleInfo, DecodeError>)
    ensures
        match r {
            Ok(m) => spec_decode(bytes@) == Ok::<ModuleInfoView, DecodeError>(m@),
            Err(e) => spec_decode(bytes@) == Err::<ModuleInfoView, DecodeError>(e),
        },
{
    match decode_with_memory_ops(bytes) {
        Err(e) => Err(e),
        Ok((m, _mems)) => Ok(m),
    }
}

/// A decoder bound to one byte buffer.
pub struct WasmParser {
    pub bytes: Vec<u8>,
}

impl WasmParser {
    /// Takes a copy of the buffer to decode.  Construction never fails; the
    /// buffer is only examined by [`WasmParser::parse`].
    pub fn new(bytes: &[u8]) -> (r: Result<WasmParser, DecodeError>)
        ensures
            r matches Ok(p) && p.bytes@ == bytes@,
    {
        Ok(WasmParser { bytes: slice_to_vec(bytes) })
    }

    /// Decodes the buffer: exactly [`decode`] of the bytes given to
    /// [`WasmParser::new`].
    pub fn parse(self) -> (r: Result<ModuleInfo, DecodeError>)
        ensures
            match r {
                Ok(m) => spec_decode(self.bytes@) == Ok::<ModuleInfoView, DecodeError>(m@),
                Err(e) => spec_decode(self.bytes@) == Err::<ModuleInfoView, DecodeError>(e),
            },
    {
        decode(self.bytes.as_slice())
    }
}

// ----------------------------------------------------------------------------
// The import-count invariant of the section pass.

/// The bookkeeping the index invariant rests on: the running counter equals
/// the number of function-kind imports collected so far, saturating only
/// past the width of the counter.
pub open spec fn spec_count_ok(st: DecodeStateView) -> bool {
    st.fn_import_count as int == (if crate::graph::spec_n_fn_imports(st.imports)
        < u64::MAX as int {
        crate::graph::spec_n_fn_imports(st.imports)
    } else {
        u64::MAX as int
    })
}

proof fn lemma_n_fn_imports_nonneg(imports: Seq<crate::types::ImportView>)
    ensures
        crate::graph::spec_n_fn_imports(imports) >= 0,
    decreases imports.len(),
{
    if imports.len() > 0 {
        lemma_n_fn_imports_nonneg(imports.drop_first());
    }
}

proof fn lemma_n_fn_imports_snoc(
    imports: Seq<crate::types::ImportView>,
    i: crate::types::ImportView,
)
    ensures
        crate::graph::spec_n_fn_imports(imports + seq![i]) == crate::graph::spec_n_fn_imports(
            imports,
        ) + (if i.kind is Function {
            1int
        } else {
            0int
        }),
    decreases imports.len(),
{
    let snoc = imports + seq![i];
    assert(snoc.len() == imports.len() + 1);
    if imports.len() == 0 {
        assert(snoc[0] == i);
        assert(snoc.drop_first() =~= Seq::<crate::types::ImportView>::empty());
        assert(crate::graph::spec_n_fn_imports(snoc.drop_first()) == 0);
    } else {
        assert(snoc[0] == imports[0]);
        lemma_n_fn_imports_snoc(imports.drop_first(), i);
        assert(snoc.drop_first() =~= imports.drop_first() + seq![i]);
        assert(crate::graph::spec_n_fn_imports(snoc) == (if snoc[0].kind is Function {
            1int
        } else {
            0int
        }) + crate::graph::spec_n_fn_imports(snoc.drop_first()));
    }
}

proof fn lemma_push_import_count(
    st: DecodeStateView,
    module: Seq<char>,
    name: Seq<char>,
    kind: crate::types::ImportKindView,
    is_fn: bool,
)
    requires
        spec_count_ok(st),
        is_fn == (kind is Function),
    ensures
        spec_count_ok(crate::format::spec_push_import(st, module, name, kind, is_fn)),
        crate::format::spec_push_import(st, module, name, kind, is_fn).func_types
            == st.func_types,
{
    let iv = crate::types::ImportView {
        module,
        name,
        kind,
        index: spec_trunc32(st.import_count as int),
    };
    lemma_n_fn_imports_nonneg(st.imports);
    lemma_n_fn_imports_snoc(st.imports, iv);
}

/// The import section preserves the bookkeeping.
proof fn lemma_import_records_count(
    bytes: Seq<u8>,
    pos: int,
    end: int,
    n: int,
    st: DecodeStateView,
)
    requires
        spec_count_ok(st),
    ensures
        match crate::format::spec_import_records(bytes, pos, end, n, st) {
            Ok((st2, _q)) => spec_count_ok(st2) && st2.func_types == st.func_types,
            Err(_e) => true,
        },
    decreases n,
{
    if n > 0 {
        match crate::format::spec_name(bytes, pos, end) {
            Err(_e) => {},
            Ok((module, q1)) => {
                match crate::format::spec_name(bytes, q1, end) {
                    Err(_e) => {},
                    Ok((name, q2)) => {
                        if 0 <= q2 < end {
                            let kb = bytes[q2];
                            let p = q2 + 1;
                            if kb == 0x00 {
                                match crate::ops::spec_leb_u32_in(bytes, p, end) {
                                    Err(_e) => {},
                                    Ok((ti, q3)) => {
                                        let kind = crate::types::ImportKindView::Function {
                                            type_index: ti as u32,
                                        };
                                        lemma_push_import_count(st, module, name, kind, true);
                                        lemma_import_records_count(
                                            bytes,
                                            q3,
                                            end,
                                            n - 1,
                                            crate::format::spec_push_import(
                                                st,
                                                module,
                                                name,
                                                kind,
                                                true,
                                            ),
                                        );
                                    },
                                }
                            } else if kb == 0x01 {
                                match crate::format::spec_tabletype(bytes, p, end) {
                                    Err(_e) => {},
                                    Ok((tt, q3)) => {
                                        let kind = crate::types::ImportKindView::Table {
                                            table_type: tt,
                                        };
                                        lemma_push_import_count(st, module, name, kind, false);
                                        lemma_import_records_count(
                                            bytes,
                                            q3,
                                            end,
                                            n - 1,
                                            crate::format::spec_push_import(
                                                st,
                                                module,
                                                name,
                                                kind,
                                                false,
                                            ),
                                        );
                                    },
                                }
                            } else if kb == 0x02 {
                                match crate::format::spec_limits(bytes, p, end, 3) {
                                    Err(_e) => {},
                                    Ok(((mn, mx, sh), q3)) => {
                                        let kind = crate::types::ImportKindView::Memory {
                                            memory_type: crate::types::MemoryType {
                                                initial: mn,
                                                maximum: mx,
                                                shared: sh,
                                            },
                                        };
                                        lemma_push_import_count(st, module, name, kind, false);
                                        lemma_import_records_count(
                                            bytes,
                                            q3,
                                            end,
                                            n - 1,
                                            crate::format::spec_push_import(
                                                st,
                                                module,
                                                name,
                                                kind,
                                                false,
                                            ),
                                        );
                                    },
                                }
                            } else if kb == 0x03 {
                                match crate::format::spec_globaltype(bytes, p, end) {
                                    Err(_e) => {},
                                    Ok((gt, q3)) => {
                                        let kind = crate::types::ImportKindView::Global {
                                            global_type: gt,
                                        };
                                        lemma_push_import_count(st, module, name, kind, false);
                                        lemma_import_records_count(
                                            bytes,
                                            q3,
                                            end,
                                            n - 1,
                                            crate::format::spec_push_import(
                                                st,
                                                module,
                                                name,
                                                kind,
                                                false,
                                            ),
                                        );
                                    },
                                }
                            } else if kb == 0x04 {
                                if 0 <= p < end && bytes[p] == 0x00 {
                                    match crate::ops::spec_leb_u32_in(bytes, p + 1, end) {
                                        Err(_e) => {},
                                        Ok((_ti, q3)) => {
                                            let st2 = DecodeStateView {
                                                import_count: crate::format::spec_sat_inc(
                                                    st.import_count,
                                                ),
                                                ..st
                                            };
                                            lemma_import_records_count(bytes, q3, end, n - 1, st2);
                                        },
                                    }
                                }
                            }
                        }
                    },
                }
            },
        }
    }
}

/// Every section preserves the import list, the function-kind import count,
/// and therefore the bookkeeping.
proof fn lemma_section_count(bytes: Seq<u8>, id: u8, pos: int, end: int, st: DecodeStateView)
    requires
        spec_count_ok(st),
    ensures
        match crate::format::spec_section(bytes, id, pos, end, st) {
            Ok(st2) => spec_count_ok(st2),
            Err(_e) => true,
        },
{
    match crate::format::spec_section(bytes, id, pos, end, st) {
        Err(_e) => {},
        Ok(st2) => {
            if id == 2 {
                match crate::ops::spec_leb_u32_in(bytes, pos, end) {
                    Err(_e) => {},
                    Ok((n, q)) => {
                        lemma_import_records_count(bytes, q, end, n, st);
                    },
                }
            } else if id == 1 {
                lemma_plain_records_count(bytes, pos, end, st, 1);
            } else if id == 3 {
                lemma_plain_records_count(bytes, pos, end, st, 3);
            } else if id == 4 {
                lemma_plain_records_count(bytes, pos, end, st, 4);
            } else if id == 6 {
                lemma_plain_records_count(bytes, pos, end, st, 6);
            } else if id == 7 {
                lemma_plain_records_count(bytes, pos, end, st, 7);
            } else if id == 9 {
                lemma_plain_records_count(bytes, pos, end, st, 9);
            } else if id == 10 {
                lemma_plain_records_count(bytes, pos, end, st, 10);
            } else if id == 11 {
                lemma_plain_records_count(bytes, pos, end, st, 11);
            }
            // The custom, memory and start sections, and skipped ids, leave
            // the import fields untouched, which the definitions show
            // directly.
        },
    }
}

/// The record loops of every section but the import section leave the
/// import fields untouched.
proof fn lemma_plain_records_count(bytes: Seq<u8>, pos: int, end: int, st: DecodeStateView, id: u8)
    requires
        id == 1 || id == 3 || id == 4 || id == 6 || id == 7 || id == 9 || id == 10 || id == 11,
    ensures
        match crate::ops::spec_leb_u32_in(bytes, pos, end) {
            Err(_e) => true,
            Ok((n, q)) => spec_plain_records_preserved(bytes, q, end, n, st, id),
        },
{
    match crate::ops::spec_leb_u32_in(bytes, pos, end) {
        Err(_e) => {},
        Ok((n, q)) => {
            lemma_plain_records_rec(bytes, q, end, n, st, id);
        },
    }
}

/// What the record-loop preservation says, per section id.
pub open spec fn spec_plain_records_preserved(
    bytes: Seq<u8>,
    pos: int,
    end: int,
    n: int,
    st: DecodeStateView,
    id: u8,
) -> bool {
    match (if id == 1 {
        crate::format::spec_type_records(bytes, pos, end, n, st)
    } else if id == 3 {
        crate::format::spec_func_records(bytes, pos, end, n, st)
    } else if id == 4 {
        crate::format::spec_table_records(bytes, pos, end, n, st)
    } else if id == 6 {
        crate::format::spec_global_records(bytes, pos, end, n, st)
    } else if id == 7 {
        crate::format::spec_export_records(bytes, pos, end, n, st)
    } else if id == 9 {
        crate::format::spec_element_records(bytes, pos, end, n, st)
    } else if id == 10 {
        crate::format::spec_code_records(bytes, pos, end, n, st)
    } else {
        crate::format::spec_data_records(bytes, pos, end, n, st)
    }) {
        Ok((st2, _q)) => st2.imports == st.imports && st2.fn_import_count == st.fn_import_count,
        Err(_e) => true,
    }
}

proof fn lemma_plain_records_rec(
    bytes: Seq<u8>,
    pos: int,
    end: int,
    n: int,
    st: DecodeStateView,
    id: u8,
)
    requires
        id == 1 || id == 3 || id == 4 || id == 6 || id == 7 || id == 9 || id == 10 || id == 11,
    ensures
        spec_plain_records_preserved(bytes, pos, end, n, st, id),
    decreases n,
{
    if n > 0 {
        if id == 1 {
            match crate::format::spec_functype(bytes, pos, end) {
                Err(_e) => {},
                Ok((sig, q)) => {
                    lemma_plain_records_rec(
                        bytes,
                        q,
                        end,
                        n - 1,
                        DecodeStateView { type_signatures: st.type_signatures + seq![sig], ..st },
                        id,
                    );
                },
            }
        } else if id == 3 {
            match crate::ops::spec_leb_u32_in(bytes, pos, end) {
                Err(_e) => {},
                Ok((ti, q)) => {
                    lemma_plain_records_rec(
                        bytes,
                        q,
                        end,
                        n - 1,
                        DecodeStateView { func_types: st.func_types + seq![ti as u32], ..st },
                        id,
                    );
                },
            }
        } else if id == 4 {
            match crate::format::spec_tabletype(bytes, pos, end) {
                Err(_e) => {},
                Ok((tt, q)) => {
                    lemma_plain_records_rec(
                        bytes,
                        q,
                        end,
                        n - 1,
                        DecodeStateView {
                            tables: st.tables + seq![
                                crate::types::TableView {
                                    index: spec_trunc32(st.tables.len() as int),
                                    table_type: tt,
                                    is_imported: false,
                                    is_exported: false,
                                },
                            ],
                            ..st
                        },
                        id,
                    );
                },
            }
        } else if id == 6 {
            match crate::format::spec_globaltype(bytes, pos, end) {
                Err(_e) => {},
                Ok((gt, q)) => {
                    match crate::format::spec_const_expr(bytes, q, end) {
                        Err(_e) => {},
                        Ok((_v, q2)) => {
                            lemma_plain_records_rec(
                                bytes,
                                q2,
                                end,
                                n - 1,
                                DecodeStateView {
                                    globals: st.globals + seq![
                                        crate::types::GlobalView {
                                            index: spec_trunc32(st.globals.len() as int),
                                            global_type: gt,
                                            init_value: None,
                                            is_imported: false,
                                            is_exported: false,
                                        },
                                    ],
                                    ..st
                                },
                                id,
                            );
                        },
                    }
                },
            }
        } else if id == 7 {
            match crate::format::spec_export_record(bytes, pos, end, st) {
                Err(_e) => {},
                Ok((st2, q)) => {
                    lemma_plain_records_rec(bytes, q, end, n - 1, st2, id);
                },
            }
        } else if id == 9 {
            match crate::format::spec_element_record(bytes, pos, end, st) {
                Err(_e) => {},
                Ok((st2, q)) => {
                    lemma_plain_records_rec(bytes, q, end, n - 1, st2, id);
                },
            }
        } else if id == 10 {
            match crate::format::spec_code_record(bytes, pos, end, st) {
                Err(_e) => {},
                Ok((st2, q)) => {
                    lemma_plain_records_rec(bytes, q, end, n - 1, st2, id);
                },
            }
        } else {
            match crate::format::spec_data_record(bytes, pos, end, st) {
                Err(_e) => {},
                Ok((st2, q)) => {
                    lemma_plain_records_rec(bytes, q, end, n - 1, st2, id);
                },
            }
        }
    }
}

/// The whole section pass preserves the bookkeeping.
proof fn lemma_sections_count(bytes: Seq<u8>, pos: int, st: DecodeStateView)
    requires
        spec_count_ok(st),
    ensures
        match crate::format::spec_sections(bytes, pos, st) {
            Ok(st2) => spec_count_ok(st2),
            Err(_e) => true,
        },
    decreases bytes.len() - pos,
{
    if pos < bytes.len() && 0 <= pos {
        let id = bytes[pos];
        match crate::leb::spec_leb_u32(bytes, pos + 1) {
            Err(_e) => {},
            Ok((size, q)) => {
                let send = q + size;
                if send <= bytes.len() {
                    match crate::format::spec_section(bytes, id, q, send, st) {
                        Err(_e) => {},
                        Ok(st2) => {
                            lemma_section_count(bytes, id, q, send, st);
                            if pos < send {
                                lemma_sections_count(bytes, send, st2);
                            }
                        },
                    }
                }
            },
        }
    }
}

/// Index invariant: every defined function's global index is the number of
/// function-kind imports plus its position in the function section, whenever
/// the two fit the 32-bit index space.
pub proof fn lemma_index_invariant(bytes: Seq<u8>, m: ModuleInfoView, i: int)
    requires
        spec_decode(bytes) == Ok::<ModuleInfoView, DecodeError>(m),
        0 <= i < m.functions.len(),
        crate::graph::spec_n_fn_imports(m.imports) + i < 0x1_0000_0000,
    ensures
        m.functions[i].index == crate::graph::spec_n_fn_imports(m.imports) + i,
        !m.functions[i].is_imported,
{
    let st = crate::format::spec_decode_state(bytes)->Ok_0;
    assert(spec_count_ok(crate::format::spec_init_state())) by {
        assert(crate::graph::spec_n_fn_imports(Seq::<crate::types::ImportView>::empty()) == 0);
    }
    lemma_sections_count(bytes, 8, crate::format::spec_init_state());
    assert(spec_count_ok(st));
    assert(m == spec_assemble(st));
    assert(m.functions[i] == spec_function(st, i));
    lemma_n_fn_imports_nonneg(st.imports);
    assert(st.fn_import_count + i < 0x1_0000_0000);
    assert(m.functions[i].index == spec_trunc32(st.fn_import_count + i));
}

/// Empty module: a buffer holding only the magic cookie and the version
/// decodes to version one with every list empty, no memory and no start
/// function.
pub proof fn lemma_empty_module(bytes: Seq<u8>)
    requires
        bytes.len() == 8,
        bytes[0] == 0x00 && bytes[1] == 0x61 && bytes[2] == 0x73 && bytes[3] == 0x6d,
        bytes[4] == 0x01 && bytes[5] == 0x00 && bytes[6] == 0x00 && bytes[7] == 0x00,
    ensures
        spec_decode(bytes) matches Ok(m) && m.version == 1 && m.imports.len() == 0
            && m.exports.len() == 0 && m.functions.len() == 0 && m.memory is None
            && m.tables.len() == 0 && m.globals.len() == 0 && m.data_segments.len() == 0
            && m.element_segments.len() == 0 && m.start_function is None
            && m.custom_sections.len() == 0 && m.function_call_instructions.len() == 0
            && m.type_signatures.len() == 0,
{
    let st = crate::format::spec_init_state();
    assert(crate::format::spec_sections(bytes, 8, st) == Ok::<DecodeStateView, DecodeError>(st));
    let m = spec_assemble(st);
    assert(m.functions.len() == 0);
    assert(m.function_call_instructions =~= Seq::<(u32, u32)>::empty());
}

/// Malformed-input rejection: a buffer too short for the fixed header, one
/// whose magic cookie is wrong, or one whose version field is wrong is
/// always rejected, with the matching error kind.
pub proof fn lemma_header_rejection(bytes: Seq<u8>)
    ensures
        bytes.len() < 8 ==> spec_decode(bytes) is Err,
        bytes.len() >= 4 && !(bytes[0] == 0x00 && bytes[1] == 0x61 && bytes[2] == 0x73 && bytes[3]
            == 0x6d) ==> spec_decode(bytes) == Err::<ModuleInfoView, DecodeError>(
            DecodeError::BadMagic,
        ),
        bytes.len() >= 8 && (bytes[0] == 0x00 && bytes[1] == 0x61 && bytes[2] == 0x73 && bytes[3]
            == 0x6d) && !(bytes[4] == 0x01 && bytes[5] == 0x00 && bytes[6] == 0x00 && bytes[7]
            == 0x00) ==> spec_decode(bytes) == Err::<ModuleInfoView, DecodeError>(
            DecodeError::BadVersion,
        ),
{
}

} // verus!
