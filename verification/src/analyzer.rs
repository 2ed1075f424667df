//! The module-level analyzer: runtime compatibility, size and memory-usage
//! estimates, optimization suggestions, source-language detection, and the
//! module summary.  These are heuristics over the decoded representation;
//! each result is pinned by a specification function.

use vstd::prelude::*;
use vstd::string::StringExecFns;
use crate::types::{
    ImportKind, ImportView, ExportView, Memory, ModuleInfo, ModuleInfoView,
};
use crate::analysis::{
    CompatibilityMatrix, CompatibilityMatrixView, CompatibilityStatus, CompatibilityStatusView,
    MemoryUsageEstimate, ModuleSummary, ModuleSummaryView, OptimizationSuggestion,
    OptimizationSuggestionView, RiskLevel, SecurityAnalysis, strings_seq_view,
};
use crate::security::{SecurityAnalyzer, spec_uses_wasi, spec_security};
use crate::graph::{spec_sat32, spec_n_fn_imports, build_call_graph, spec_graph_ok};
use crate::strings::{
    spec_str_contains, spec_str_starts_with, spec_u32_digits, str_contains, str_starts_with,
    str_eq, u64_digits,
};
use crate::ops::spec_trunc32;
use crate::types::{CallGraph, CallGraphView};

verus! {

// ----------------------------------------------------------------------------
// Sizes.

pub open spec fn spec_module_size(m: ModuleInfoView) -> int {
    crate::security::spec_sum_body_sizes(m.functions) + crate::security::spec_sum_data_sizes(
        m.data_segments,
    ) + crate::security::spec_sum_custom_sizes(m.custom_sections) + m.imports.len() * 32
        + m.exports.len() * 24 + m.globals.len() * 16
}

pub open spec fn spec_code_size(m: ModuleInfoView) -> int {
    crate::security::spec_sum_body_sizes(m.functions)
}

fn sum_body_sizes(m: &ModuleInfo) -> (r: u128)
    ensures
        r == crate::security::spec_sum_body_sizes(m@.functions),
        r <= 0x1_0000_0000_0000_0000_0000_0000u128,
{
    let ghost fvs = m@.functions;
    proof {
        assert(fvs.skip(0) =~= fvs);
    }
    let mut j: usize = 0;
    let mut body_sum: u128 = 0;
    while j < m.functions.len()
        invariant
            j <= m.functions.len(),
            fvs == m@.functions,
            body_sum <= j * 0x1_0000_0000,
            crate::security::spec_sum_body_sizes(fvs) == body_sum
                + crate::security::spec_sum_body_sizes(fvs.skip(j as int)),
        decreases m.functions.len() - j,
    {
        proof {
            assert(fvs.skip(j as int)[0] == fvs[j as int]);
            assert(fvs.skip(j as int).drop_first() =~= fvs.skip(j as int + 1));
        }
        body_sum = body_sum + m.functions[j].body_size as u128;
        j = j + 1;
    }
    proof {
        assert(crate::security::spec_sum_body_sizes(fvs.skip(m.functions@.len() as int)) == 0);
    }
    body_sum
}

fn module_size_of(m: &ModuleInfo) -> (r: u128)
    ensures
        r == spec_module_size(m@),
{
    let ghost mv = m@;
    let body_sum = sum_body_sizes(m);
    let ghost dvs = mv.data_segments;
    proof {
        assert(dvs.skip(0) =~= dvs);
    }
    let mut d: usize = 0;
    let mut data_sum: u128 = 0;
    while d < m.data_segments.len()
        invariant
            d <= m.data_segments.len(),
            dvs == mv.data_segments,
            mv == m@,
            data_sum <= d * 0x1_0000_0000,
            crate::security::spec_sum_data_sizes(dvs) == data_sum
                + crate::security::spec_sum_data_sizes(dvs.skip(d as int)),
        decreases m.data_segments.len() - d,
    {
        proof {
            assert(dvs.skip(d as int)[0] == dvs[d as int]);
            assert(dvs.skip(d as int).drop_first() =~= dvs.skip(d as int + 1));
        }
        data_sum = data_sum + m.data_segments[d].size as u128;
        d = d + 1;
    }
    proof {
        assert(crate::security::spec_sum_data_sizes(dvs.skip(m.data_segments@.len() as int))
            == 0);
    }
    let ghost cvs = mv.custom_sections;
    proof {
        assert(cvs.skip(0) =~= cvs);
    }
    let mut c: usize = 0;
    let mut custom_sum: u128 = 0;
    while c < m.custom_sections.len()
        invariant
            c <= m.custom_sections.len(),
            cvs == mv.custom_sections,
            mv == m@,
            custom_sum <= c * 0x1_0000_0000,
            crate::security::spec_sum_custom_sizes(cvs) == custom_sum
                + crate::security::spec_sum_custom_sizes(cvs.skip(c as int)),
        decreases m.custom_sections.len() - c,
    {
        proof {
            assert(cvs.skip(c as int)[0] == cvs[c as int]);
            assert(cvs.skip(c as int).drop_first() =~= cvs.skip(c as int + 1));
        }
        custom_sum = custom_sum + m.custom_sections[c].size as u128;
        c = c + 1;
    }
    proof {
        assert(crate::security::spec_sum_custom_sizes(cvs.skip(m.custom_sections@.len() as int))
            == 0);
    }
    body_sum + data_sum + custom_sum + (m.imports.len() as u128) * 32 + (
    m.exports.len() as u128) * 24 + (m.globals.len() as u128) * 16
}

pub(crate) fn sat32_of(v: u128) -> (r: u32)
    ensures
        r == spec_sat32(v as int),
{
    if v > 0xffff_ffffu128 {
        0xffff_ffffu32
    } else {
        v as u32
    }
}

// ----------------------------------------------------------------------------
// Module-wide text scans.

/// The text scans the heuristics below need, each an existence test over one
/// list of the representation.
#[derive(Debug, Clone, Copy, PartialEq, Eq, Structural)]
pub enum ScanKind {
    CustomNamed,
    CustomSourceMap,
    ImportEnvDunder,
    ImportMallocFree,
    ImportGoModule,
    ImportWasiModule,
    ImportMemoryKind,
    ImportFsName,
    ExportDunder,
    ExportMainOrStart,
    ExportLibPrefix,
}

pub open spec fn spec_scan(m: ModuleInfoView, k: ScanKind) -> bool {
    match k {
        ScanKind::CustomNamed => exists|j: int|
            0 <= j < m.custom_sections.len() && (#[trigger] m.custom_sections[j]).name
                == "name"@,
        ScanKind::CustomSourceMap => exists|j: int|
            0 <= j < m.custom_sections.len() && (#[trigger] m.custom_sections[j]).name
                == "sourceMappingURL"@,
        ScanKind::ImportEnvDunder => exists|j: int|
            0 <= j < m.imports.len() && spec_str_contains(
                (#[trigger] m.imports[j]).module,
                "env"@,
            ) && spec_str_contains(m.imports[j].name, "__"@),
        ScanKind::ImportMallocFree => exists|j: int|
            0 <= j < m.imports.len() && (spec_str_contains(
                (#[trigger] m.imports[j]).name,
                "malloc"@,
            ) || spec_str_contains(m.imports[j].name, "free"@)),
        ScanKind::ImportGoModule => exists|j: int|
            0 <= j < m.imports.len() && (#[trigger] m.imports[j]).module == "go"@,
        ScanKind::ImportWasiModule => spec_uses_wasi(m.imports),
        ScanKind::ImportMemoryKind => exists|j: int|
            0 <= j < m.imports.len() && (#[trigger] m.imports[j]).kind is Memory,
        ScanKind::ImportFsName => exists|j: int|
            0 <= j < m.imports.len() && (spec_str_contains((#[trigger] m.imports[j]).name, "fd_"@)
                || spec_str_contains(m.imports[j].name, "path_"@) || spec_str_contains(
                m.imports[j].name,
                "file"@,
            )),
        ScanKind::ExportDunder => exists|j: int|
            0 <= j < m.exports.len() && spec_str_contains((#[trigger] m.exports[j]).name, "__"@),
        ScanKind::ExportMainOrStart => exists|j: int|
            0 <= j < m.exports.len() && ((#[trigger] m.exports[j]).name == "main"@
                || m.exports[j].name == "_start"@),
        ScanKind::ExportLibPrefix => exists|j: int|
            0 <= j < m.exports.len() && spec_str_contains((#[trigger] m.exports[j]).name, "~lib"@),
    }
}

#[verifier::rlimit(100)]
fn scan(m: &ModuleInfo, k: ScanKind) -> (r: bool)
    ensures
        r == spec_scan(m@, k),
{
    let ghost mv = m@;
    match k {
        ScanKind::CustomNamed | ScanKind::CustomSourceMap => {
            let mut j: usize = 0;
            while j < m.custom_sections.len()
                invariant
                    j <= m.custom_sections.len(),
                    mv == m@,
                    k == ScanKind::CustomNamed || k == ScanKind::CustomSourceMap,
                    forall|w: int|
                        0 <= w < j ==> (#[trigger] mv.custom_sections[w]).name != (if k
                            == ScanKind::CustomNamed {
                            "name"@
                        } else {
                            "sourceMappingURL"@
                        }),
                decreases m.custom_sections.len() - j,
            {
                let hit = if matches!(k, ScanKind::CustomNamed) {
                    str_eq(m.custom_sections[j].name.as_str(), "name")
                } else {
                    str_eq(m.custom_sections[j].name.as_str(), "sourceMappingURL")
                };
                if hit {
                    proof {
                        assert(mv.custom_sections[j as int] == m.custom_sections@[j as int]@);
                    }
                    return true;
                }
                j = j + 1;
            }
            false
        },
        ScanKind::ImportEnvDunder | ScanKind::ImportMallocFree | ScanKind::ImportGoModule
            | ScanKind::ImportWasiModule | ScanKind::ImportMemoryKind | ScanKind::ImportFsName => {
            let mut j: usize = 0;
            while j < m.imports.len()
                invariant
                    j <= m.imports.len(),
                    mv == m@,
                    k == ScanKind::ImportEnvDunder || k == ScanKind::ImportMallocFree || k
                        == ScanKind::ImportGoModule || k == ScanKind::ImportWasiModule || k
                        == ScanKind::ImportMemoryKind || k == ScanKind::ImportFsName,
                    forall|w: int| 0 <= w < j ==> !spec_import_hit(#[trigger] mv.imports[w], k),
                decreases m.imports.len() - j,
            {
                let i = &m.imports[j];
                let hit = if matches!(k, ScanKind::ImportEnvDunder) {
                    str_contains(i.module.as_str(), "env") && str_contains(i.name.as_str(), "__")
                } else if matches!(k, ScanKind::ImportMallocFree) {
                    str_contains(i.name.as_str(), "malloc") || str_contains(
                        i.name.as_str(),
                        "free",
                    )
                } else if matches!(k, ScanKind::ImportGoModule) {
                    str_eq(i.module.as_str(), "go")
                } else if matches!(k, ScanKind::ImportWasiModule) {
                    str_starts_with(i.module.as_str(), "wasi")
                } else if matches!(k, ScanKind::ImportMemoryKind) {
                    matches!(i.kind, ImportKind::Memory { .. })
                } else {
                    str_contains(i.name.as_str(), "fd_") || str_contains(i.name.as_str(), "path_")
                        || str_contains(i.name.as_str(), "file")
                };
                if hit {
                    proof {
                        assert(mv.imports[j as int] == m.imports@[j as int]@);
                        assert(spec_import_hit(mv.imports[j as int], k));
                    }
                    return true;
                }
                j = j + 1;
            }
            false
        },
        ScanKind::ExportDunder | ScanKind::ExportMainOrStart | ScanKind::ExportLibPrefix => {
            let mut j: usize = 0;
            while j < m.exports.len()
                invariant
                    j <= m.exports.len(),
                    mv == m@,
                    k == ScanKind::ExportDunder || k == ScanKind::ExportMainOrStart || k
                        == ScanKind::ExportLibPrefix,
                    forall|w: int| 0 <= w < j ==> !spec_export_hit(#[trigger] mv.exports[w], k),
                decreases m.exports.len() - j,
            {
                let e = &m.exports[j];
                let hit = if matches!(k, ScanKind::ExportDunder) {
                    str_contains(e.name.as_str(), "__")
                } else if matches!(k, ScanKind::ExportMainOrStart) {
                    str_eq(e.name.as_str(), "main") || str_eq(e.name.as_str(), "_start")
                } else {
                    str_contains(e.name.as_str(), "~lib")
                };
                if hit {
                    proof {
                        assert(mv.exports[j as int] == m.exports@[j as int]@);
                        assert(spec_export_hit(mv.exports[j as int], k));
                    }
                    return true;
                }
                j = j + 1;
            }
            false
        },
    }
}

pub open spec fn spec_import_hit(i: ImportView, k: ScanKind) -> bool {
    match k {
        ScanKind::ImportEnvDunder => spec_str_contains(i.module, "env"@) && spec_str_contains(
            i.name,
            "__"@,
        ),
        ScanKind::ImportMallocFree => spec_str_contains(i.name, "malloc"@) || spec_str_contains(
            i.name,
            "free"@,
        ),
        ScanKind::ImportGoModule => i.module == "go"@,
        ScanKind::ImportWasiModule => spec_str_starts_with(i.module, "wasi"@),
        ScanKind::ImportMemoryKind => i.kind is Memory,
        ScanKind::ImportFsName => spec_str_contains(i.name, "fd_"@) || spec_str_contains(
            i.name,
            "path_"@,
        ) || spec_str_contains(i.name, "file"@),
        _ => false,
    }
}

pub open spec fn spec_export_hit(e: ExportView, k: ScanKind) -> bool {
    match k {
        ScanKind::ExportDunder => spec_str_contains(e.name, "__"@),
        ScanKind::ExportMainOrStart => e.name == "main"@ || e.name == "_start"@,
        ScanKind::ExportLibPrefix => spec_str_contains(e.name, "~lib"@),
        _ => false,
    }
}

// ----------------------------------------------------------------------------
// Language detection and compatibility.

/// The source-language guess, by the first matching pattern family.
pub open spec fn spec_detected_language(m: ModuleInfoView) -> Option<Seq<char>> {
    if spec_scan(m, ScanKind::CustomNamed) || spec_scan(m, ScanKind::ImportEnvDunder) || spec_scan(
        m,
        ScanKind::ExportDunder,
    ) {
        Some("Rust"@)
    } else if spec_scan(m, ScanKind::ExportMainOrStart) || spec_scan(
        m,
        ScanKind::ImportMallocFree,
    ) {
        Some("C/C++"@)
    } else if spec_scan(m, ScanKind::ExportLibPrefix) || spec_scan(m, ScanKind::CustomSourceMap) {
        Some("AssemblyScript"@)
    } else if spec_scan(m, ScanKind::ImportGoModule) {
        Some("Go"@)
    } else {
        None
    }
}

pub open spec fn spec_wasi_feature(m: ModuleInfoView, text: Seq<char>) -> Seq<Seq<char>> {
    if spec_scan(m, ScanKind::ImportWasiModule) {
        seq![text]
    } else {
        Seq::empty()
    }
}

/// Compatibility with the six runtimes the report covers.
pub open spec fn spec_compatibility(m: ModuleInfoView) -> CompatibilityMatrixView {
    let wasi = spec_scan(m, ScanKind::ImportWasiModule);
    let multi_memory = m.memory is Some && spec_scan(m, ScanKind::ImportMemoryKind);
    let fs = spec_scan(m, ScanKind::ImportFsName);
    let big_browser_memory = match m.memory {
        Some(mem) => mem.initial > 1000,
        None => false,
    };
    let cf_wasi = wasi;
    let cf_memory = match m.memory {
        Some(mem) => mem.initial > 128,
        None => false,
    };
    let cf_size = spec_module_size(m) > 1_000_000;
    CompatibilityMatrixView {
        wasmtime: CompatibilityStatusView {
            compatible: !multi_memory,
            issues: if multi_memory {
                seq!["Multiple memory instances may not be supported"@]
            } else {
                Seq::empty()
            },
            required_features: spec_wasi_feature(m, "WASI support"@),
        },
        wasmer: CompatibilityStatusView {
            compatible: true,
            issues: Seq::empty(),
            required_features: spec_wasi_feature(m, "WASI support"@),
        },
        browser: CompatibilityStatusView {
            compatible: !wasi && !fs && !big_browser_memory,
            issues: (if wasi {
                seq!["WASI imports require polyfill in browser"@]
            } else {
                Seq::empty()
            }) + (if fs {
                seq!["File system access not available in browser sandbox"@]
            } else {
                Seq::empty()
            }) + (if big_browser_memory {
                seq!["Large initial memory allocation may fail in browser"@]
            } else {
                Seq::empty()
            }),
            required_features: spec_wasi_feature(m, "WASI polyfill"@),
        },
        node_js: CompatibilityStatusView {
            compatible: true,
            issues: Seq::empty(),
            required_features: spec_wasi_feature(
                m,
                "Node.js WASI support (--experimental-wasi-unstable-preview1)"@,
            ),
        },
        deno: CompatibilityStatusView {
            compatible: true,
            issues: Seq::empty(),
            required_features: spec_wasi_feature(
                m,
                "Deno WASI support (--allow-read, --allow-write flags)"@,
            ),
        },
        cloudflare_workers: CompatibilityStatusView {
            compatible: !cf_wasi && !cf_memory && !cf_size,
            issues: (if cf_wasi {
                seq!["WASI not supported in Cloudflare Workers"@]
            } else {
                Seq::empty()
            }) + (if cf_memory {
                seq!["Memory limit exceeded for Cloudflare Workers"@]
            } else {
                Seq::empty()
            }) + (if cf_size {
                seq!["Module may exceed Cloudflare Workers size limit"@]
            } else {
                Seq::empty()
            }),
            required_features: Seq::empty(),
        },
        detected_language: spec_detected_language(m),
    }
}

// ----------------------------------------------------------------------------
// Memory-usage estimate.

pub open spec fn spec_local_type_size(t: Seq<char>) -> int {
    if t == "i32"@ || t == "f32"@ {
        4
    } else if t == "i64"@ || t == "f64"@ {
        8
    } else {
        8
    }
}

pub open spec fn spec_fn_stack(locals: Seq<crate::types::LocalTypeView>) -> int
    decreases locals.len(),
{
    if locals.len() == 0 {
        0
    } else {
        locals[0].count * spec_local_type_size(locals[0].value_type) + spec_fn_stack(
            locals.drop_first(),
        )
    }
}

pub open spec fn spec_stack_max(functions: Seq<crate::types::FunctionView>) -> int
    decreases functions.len(),
{
    if functions.len() == 0 {
        0
    } else {
        let rest = spec_stack_max(functions.drop_first());
        let own = spec_fn_stack(functions[0].locals);
        if own >= rest {
            own
        } else {
            rest
        }
    }
}

/// The memory-usage estimate: linear pages are 64 KiB each, and the stack
/// guess is the largest declared-locals footprint of any one function.
pub open spec fn spec_memory_usage(m: ModuleInfoView) -> MemoryUsageEstimate {
    let (initial, max) = match m.memory {
        Some(mem) => (
            spec_sat32(mem.initial * 64),
            match mem.maximum {
                Some(x) => Some(spec_sat32(x * 64)),
                None => None::<u32>,
            },
        ),
        None => (0u32, None::<u32>),
    };
    MemoryUsageEstimate {
        initial_memory_kb: initial,
        max_memory_kb: max,
        stack_usage_estimate_kb: (spec_sat32(spec_stack_max(m.functions)) / 1024) as u32,
    }
}

fn local_type_size(t: &str) -> (r: u32)
    ensures
        r == spec_local_type_size(t@),
{
    if str_eq(t, "i32") || str_eq(t, "f32") {
        4
    } else if str_eq(t, "i64") || str_eq(t, "f64") {
        8
    } else {
        8
    }
}

fn fn_stack(locals: &Vec<crate::types::LocalType>) -> (r: u128)
    ensures
        r == spec_fn_stack(crate::types::locals_view(locals@)),
{
    let ghost lvs = crate::types::locals_view(locals@);
    proof {
        assert(lvs.skip(0) =~= lvs);
    }
    let mut j: usize = 0;
    let mut sum: u128 = 0;
    while j < locals.len()
        invariant
            j <= locals.len(),
            lvs == crate::types::locals_view(locals@),
            sum <= j * 0x8_0000_0000,
            spec_fn_stack(lvs) == sum + spec_fn_stack(lvs.skip(j as int)),
        decreases locals.len() - j,
    {
        proof {
            assert(lvs.skip(j as int)[0] == lvs[j as int]);
            assert(lvs.skip(j as int).drop_first() =~= lvs.skip(j as int + 1));
        }
        let sz = local_type_size(locals[j].value_type.as_str());
        sum = sum + (locals[j].count as u128) * (sz as u128);
        j = j + 1;
    }
    proof {
        assert(spec_fn_stack(lvs.skip(locals@.len() as int)) == 0);
    }
    sum
}

pub(crate) fn stack_max_u(m: &ModuleInfo) -> (r: u128)
    ensures
        r == spec_stack_max(m@.functions),
{
    let ghost fvs = m@.functions;
    proof {
        assert(fvs.skip(0) =~= fvs);
    }
    let mut j: usize = m.functions.len();
    let mut best: u128 = 0;
    while j > 0
        invariant
            j <= m.functions.len(),
            fvs == m@.functions,
            best == spec_stack_max(fvs.skip(j as int)),
        decreases j,
    {
        proof {
            assert(fvs.skip(j as int - 1)[0] == fvs[j - 1]);
            assert(fvs.skip(j as int - 1).drop_first() =~= fvs.skip(j as int));
        }
        let own = fn_stack(&m.functions[j - 1].locals);
        if own >= best {
            best = own;
        }
        j = j - 1;
    }
    proof {
        assert(fvs.skip(0) =~= fvs);
    }
    best
}

// ----------------------------------------------------------------------------
// Optimization suggestions.

pub open spec fn spec_large_data_count(v: Seq<crate::types::DataSegment>) -> int
    decreases v.len(),
{
    if v.len() == 0 {
        0
    } else {
        (if v[0].size > 10_000 {
            1int
        } else {
            0int
        }) + spec_large_data_count(v.drop_first())
    }
}

pub open spec fn spec_wasi_import_count(v: Seq<ImportView>) -> int
    decreases v.len(),
{
    if v.len() == 0 {
        0
    } else {
        (if spec_str_starts_with(v[0].module, "wasi"@) {
            1int
        } else {
            0int
        }) + spec_wasi_import_count(v.drop_first())
    }
}

/// The optimization notes, in the fixed scan order: dead code, an unbounded
/// memory, large data segments, a heavy import surface.
pub open spec fn spec_suggestions(m: ModuleInfoView, g: CallGraphView) -> Seq<
    OptimizationSuggestionView,
> {
    (if g.unreachable_functions.len() > 0 {
        seq![
            OptimizationSuggestionView {
                category: "Dead Code"@,
                description: "Found "@ + spec_u32_digits(g.unreachable_functions.len() as int)
                    + " unreachable functions (potential dead code)"@,
                potential_savings: Some(
                    "Varies, can reduce size and improve analysis precision"@,
                ),
            },
        ]
    } else {
        Seq::empty()
    }) + (match m.memory {
        Some(mem) => if mem.maximum is None {
            seq![
                OptimizationSuggestionView {
                    category: "Memory"@,
                    description: "Consider setting a maximum memory limit"@,
                    potential_savings: Some("Better resource predictability"@),
                },
            ]
        } else {
            Seq::empty()
        },
        None => Seq::empty(),
    }) + (if spec_large_data_count(m.data_segments) > 0 {
        seq![
            OptimizationSuggestionView {
                category: "Data"@,
                description: "Found "@ + spec_u32_digits(spec_large_data_count(m.data_segments))
                    + " large data segments - consider compression"@,
                potential_savings: Some("10-30% size reduction"@),
            },
        ]
    } else {
        Seq::empty()
    }) + (if spec_wasi_import_count(m.imports) > 20 {
        seq![
            OptimizationSuggestionView {
                category: "Imports"@,
                description: "High number of WASI imports may impact startup time"@,
                potential_savings: Some("Faster cold starts"@),
            },
        ]
    } else {
        Seq::empty()
    })
}

// ----------------------------------------------------------------------------
// The analyzer.

/// Derives the heuristic reports from one decoded module.
pub struct ModuleAnalyzer<'a> {
    pub module_info: ModuleInfo,
    pub wasm_bytes: &'a [u8],
}

impl<'a> ModuleAnalyzer<'a> {
    pub fn new(module_info: ModuleInfo, wasm_bytes: &'a [u8]) -> (r: ModuleAnalyzer<'a>)
        ensures
            r.module_info == module_info,
            r.wasm_bytes@ == wasm_bytes@,
    {
        ModuleAnalyzer { module_info, wasm_bytes }
    }

    /// The call graph of the module; see [`crate::graph::build_call_graph`].
    pub fn build_call_graph(&self) -> (g: CallGraph)
        ensures
            spec_graph_ok(self.module_info@, g@),
    {
        build_call_graph(&self.module_info)
    }

    /// The security report; see [`crate::security::spec_security`].
    pub fn analyze_security(&self) -> (r: SecurityAnalysis)
        ensures
            r@ == spec_security(self.module_info@),
    {
        let analyzer = SecurityAnalyzer::new(&self.module_info);
        analyzer.analyze()
    }

    /// The byte-size estimate of the module, clamped to 32 bits.
    pub fn calculate_module_size(&self) -> (r: u32)
        ensures
            r == spec_sat32(spec_module_size(self.module_info@)),
    {
        sat32_of(module_size_of(&self.module_info))
    }

    /// The code bytes alone, clamped to 32 bits.
    pub fn calculate_code_size(&self) -> (r: u32)
        ensures
            r == spec_sat32(spec_code_size(self.module_info@)),
    {
        sat32_of(sum_body_sizes(&self.module_info))
    }

    pub fn estimate_memory_usage(&self) -> (r: MemoryUsageEstimate)
        ensures
            r == spec_memory_usage(self.module_info@),
    {
        let (initial, max) = match &self.module_info.memory {
            Some(mem) => (
                sat32_of((mem.initial as u128) * 64),
                match mem.maximum {
                    Some(x) => Some(sat32_of((x as u128) * 64)),
                    None => None,
                },
            ),
            None => (0u32, None),
        };
        let stack = sat32_of(stack_max_u(&self.module_info)) / 1024;
        MemoryUsageEstimate {
            initial_memory_kb: initial,
            max_memory_kb: max,
            stack_usage_estimate_kb: stack,
        }
    }

    pub fn detect_source_language(&self) -> (r: Option<String>)
        ensures
            crate::types::view_of_opt_string(r) == spec_detected_language(self.module_info@),
    {
        let m = &self.module_info;
        if scan(m, ScanKind::CustomNamed) || scan(m, ScanKind::ImportEnvDunder) || scan(
            m,
            ScanKind::ExportDunder,
        ) {
            Some(String::from_str("Rust"))
        } else if scan(m, ScanKind::ExportMainOrStart) || scan(m, ScanKind::ImportMallocFree) {
            Some(String::from_str("C/C++"))
        } else if scan(m, ScanKind::ExportLibPrefix) || scan(m, ScanKind::CustomSourceMap) {
            Some(String::from_str("AssemblyScript"))
        } else if scan(m, ScanKind::ImportGoModule) {
            Some(String::from_str("Go"))
        } else {
            None
        }
    }

    fn wasi_feature(&self, text: &str) -> (r: Vec<String>)
        ensures
            strings_seq_view(r@) == spec_wasi_feature(self.module_info@, text@),
    {
        let mut out: Vec<String> = Vec::new();
        if scan(&self.module_info, ScanKind::ImportWasiModule) {
            out.push(text.to_owned());
        }
        proof {
            assert(strings_seq_view(out@) =~= spec_wasi_feature(self.module_info@, text@));
        }
        out
    }

    pub fn check_wasmtime_compatibility(&self) -> (r: CompatibilityStatus)
        ensures
            r@ == spec_compatibility(self.module_info@).wasmtime,
    {
        let multi_memory = self.module_info.memory.is_some() && scan(
            &self.module_info,
            ScanKind::ImportMemoryKind,
        );
        let mut issues: Vec<String> = Vec::new();
        if multi_memory {
            issues.push(String::from_str("Multiple memory instances may not be supported"));
        }
        let r = CompatibilityStatus {
            compatible: !multi_memory,
            issues,
            required_features: self.wasi_feature("WASI support"),
        };
        proof {
            assert(r@ =~= spec_compatibility(self.module_info@).wasmtime);
        }
        r
    }

    pub fn check_wasmer_compatibility(&self) -> (r: CompatibilityStatus)
        ensures
            r@ == spec_compatibility(self.module_info@).wasmer,
    {
        let r = CompatibilityStatus {
            compatible: true,
            issues: Vec::new(),
            required_features: self.wasi_feature("WASI support"),
        };
        proof {
            assert(r@ =~= spec_compatibility(self.module_info@).wasmer);
        }
        r
    }

    pub fn check_browser_compatibility(&self) -> (r: CompatibilityStatus)
        ensures
            r@ == spec_compatibility(self.module_info@).browser,
    {
        let wasi = scan(&self.module_info, ScanKind::ImportWasiModule);
        let fs = scan(&self.module_info, ScanKind::ImportFsName);
        let big = match &self.module_info.memory {
            Some(mem) => mem.initial > 1000,
            None => false,
        };
        let mut issues: Vec<String> = Vec::new();
        if wasi {
            issues.push(String::from_str("WASI imports require polyfill in browser"));
        }
        if fs {
            issues.push(String::from_str("File system access not available in browser sandbox"));
        }
        if big {
            issues.push(String::from_str("Large initial memory allocation may fail in browser"));
        }
        let r = CompatibilityStatus {
            compatible: !wasi && !fs && !big,
            issues,
            required_features: self.wasi_feature("WASI polyfill"),
        };
        proof {
            assert(r@ =~= spec_compatibility(self.module_info@).browser);
        }
        r
    }

    pub fn check_nodejs_compatibility(&self) -> (r: CompatibilityStatus)
        ensures
            r@ == spec_compatibility(self.module_info@).node_js,
    {
        let r = CompatibilityStatus {
            compatible: true,
            issues: Vec::new(),
            required_features: self.wasi_feature(
                "Node.js WASI support (--experimental-wasi-unstable-preview1)",
            ),
        };
        proof {
            assert(r@ =~= spec_compatibility(self.module_info@).node_js);
        }
        r
    }

    pub fn check_deno_compatibility(&self) -> (r: CompatibilityStatus)
        ensures
            r@ == spec_compatibility(self.module_info@).deno,
    {
        let r = CompatibilityStatus {
            compatible: true,
            issues: Vec::new(),
            required_features: self.wasi_feature(
                "Deno WASI support (--allow-read, --allow-write flags)",
            ),
        };
        proof {
            assert(r@ =~= spec_compatibility(self.module_info@).deno);
        }
        r
    }

    pub fn check_cloudflare_workers_compatibility(&self) -> (r: CompatibilityStatus)
        ensures
            r@ == spec_compatibility(self.module_info@).cloudflare_workers,
    {
        let wasi = scan(&self.module_info, ScanKind::ImportWasiModule);
        let big_memory = match &self.module_info.memory {
            Some(mem) => mem.initial > 128,
            None => false,
        };
        let big_size = module_size_of(&self.module_info) > 1_000_000;
        let mut issues: Vec<String> = Vec::new();
        if wasi {
            issues.push(String::from_str("WASI not supported in Cloudflare Workers"));
        }
        if big_memory {
            issues.push(String::from_str("Memory limit exceeded for Cloudflare Workers"));
        }
        if big_size {
            issues.push(String::from_str("Module may exceed Cloudflare Workers size limit"));
        }
        let r = CompatibilityStatus {
            compatible: !wasi && !big_memory && !big_size,
            issues,
            required_features: Vec::new(),
        };
        proof {
            assert(r@ =~= spec_compatibility(self.module_info@).cloudflare_workers);
        }
        r
    }

    /// The whole runtime-compatibility report.
    pub fn analyze_compatibility(&self) -> (r: CompatibilityMatrix)
        ensures
            r@ == spec_compatibility(self.module_info@),
    {
        let r = CompatibilityMatrix {
            wasmtime: self.check_wasmtime_compatibility(),
            wasmer: self.check_wasmer_compatibility(),
            browser: self.check_browser_compatibility(),
            node_js: self.check_nodejs_compatibility(),
            deno: self.check_deno_compatibility(),
            cloudflare_workers: self.check_cloudflare_workers_compatibility(),
            detected_language: self.detect_source_language(),
        };
        proof {
            assert(r@ =~= spec_compatibility(self.module_info@));
        }
        r
    }

    /// The optimization notes derived from the module and its call graph.
    #[verifier::rlimit(100)]
    pub fn generate_optimization_suggestions(&self, call_graph: &CallGraph) -> (r: Vec<
        OptimizationSuggestion,
    >)
        ensures
            r@.map_values(|s: OptimizationSuggestion| s@) == spec_suggestions(
                self.module_info@,
                call_graph@,
            ),
    {
        let m = &self.module_info;
        let mut out: Vec<OptimizationSuggestion> = Vec::new();
        if call_graph.unreachable_functions.len() > 0 {
            let digits = u64_digits(call_graph.unreachable_functions.len() as u64);
            out.push(
                OptimizationSuggestion {
                    category: String::from_str("Dead Code"),
                    description: String::from_str("Found ").concat(digits.as_str()).concat(
                        " unreachable functions (potential dead code)",
                    ),
                    potential_savings: Some(
                        String::from_str(
                            "Varies, can reduce size and improve analysis precision",
                        ),
                    ),
                },
            );
        }
        match &m.memory {
            Some(mem) => {
                if mem.maximum.is_none() {
                    out.push(
                        OptimizationSuggestion {
                            category: String::from_str("Memory"),
                            description: String::from_str(
                                "Consider setting a maximum memory limit",
                            ),
                            potential_savings: Some(
                                String::from_str("Better resource predictability"),
                            ),
                        },
                    );
                }
            },
            None => {},
        }
        let ghost dvs = m@.data_segments;
        proof {
            assert(dvs.skip(0) =~= dvs);
        }
        let mut large: u64 = 0;
        let mut d: usize = 0;
        while d < m.data_segments.len()
            invariant
                d <= m.data_segments.len(),
                large <= d,
                dvs == m@.data_segments,
                spec_large_data_count(dvs) == large + spec_large_data_count(dvs.skip(d as int)),
            decreases m.data_segments.len() - d,
        {
            proof {
                assert(dvs.skip(d as int)[0] == dvs[d as int]);
                assert(dvs.skip(d as int).drop_first() =~= dvs.skip(d as int + 1));
            }
            if m.data_segments[d].size > 10_000 {
                large = large + 1;
            }
            d = d + 1;
        }
        proof {
            assert(spec_large_data_count(dvs.skip(m.data_segments@.len() as int)) == 0);
        }
        if large > 0 {
            let digits = u64_digits(large);
            out.push(
                OptimizationSuggestion {
                    category: String::from_str("Data"),
                    description: String::from_str("Found ").concat(digits.as_str()).concat(
                        " large data segments - consider compression",
                    ),
                    potential_savings: Some(String::from_str("10-30% size reduction")),
                },
            );
        }
        let ghost ivs = m@.imports;
        proof {
            assert(ivs.skip(0) =~= ivs);
        }
        let mut wasi_count: u64 = 0;
        let mut w: usize = 0;
        while w < m.imports.len()
            invariant
                w <= m.imports.len(),
                wasi_count <= w,
                ivs == m@.imports,
                spec_wasi_import_count(ivs) == wasi_count + spec_wasi_import_count(
                    ivs.skip(w as int),
                ),
            decreases m.imports.len() - w,
        {
            proof {
                assert(ivs.skip(w as int)[0] == ivs[w as int]);
                assert(ivs.skip(w as int).drop_first() =~= ivs.skip(w as int + 1));
            }
            if str_starts_with(m.imports[w].module.as_str(), "wasi") {
                wasi_count = wasi_count + 1;
            }
            w = w + 1;
        }
        proof {
            assert(spec_wasi_import_count(ivs.skip(m.imports@.len() as int)) == 0);
        }
        if wasi_count > 20 {
            out.push(
                OptimizationSuggestion {
                    category: String::from_str("Imports"),
                    description: String::from_str(
                        "High number of WASI imports may impact startup time",
                    ),
                    potential_savings: Some(String::from_str("Faster cold starts")),
                },
            );
        }
        proof {
            assert(out@.map_values(|s: OptimizationSuggestion| s@) =~= spec_suggestions(
                self.module_info@,
                call_graph@,
            ));
        }
        out
    }
}

// ----------------------------------------------------------------------------
// The summary.

pub open spec fn spec_max_risk(caps: Seq<crate::analysis::CapabilityView>) -> RiskLevel
    decreases caps.len(),
{
    if caps.len() == 0 {
        RiskLevel::Low
    } else {
        let rest = spec_max_risk(caps.drop_first());
        if spec_risk_rank(caps[0].risk_level) >= spec_risk_rank(rest) {
            caps[0].risk_level
        } else {
            rest
        }
    }
}

pub open spec fn spec_risk_rank(r: RiskLevel) -> int {
    match r {
        RiskLevel::Low => 0,
        RiskLevel::Medium => 1,
        RiskLevel::High => 2,
        RiskLevel::Critical => 3,
    }
}

fn risk_rank(r: RiskLevel) -> (k: u8)
    ensures
        k == spec_risk_rank(r),
{
    match r {
        RiskLevel::Low => 0,
        RiskLevel::Medium => 1,
        RiskLevel::High => 2,
        RiskLevel::Critical => 3,
    }
}

/// What the module summary holds, given the decoded module and the reports
/// it draws on.
pub open spec fn spec_summary(
    m: ModuleInfoView,
    s: crate::analysis::SecurityAnalysisView,
    c: CompatibilityMatrixView,
    size: u32,
) -> ModuleSummaryView {
    ModuleSummaryView {
        size_bytes: size,
        function_count: spec_trunc32(spec_n_fn_imports(m.imports) + m.functions.len()),
        import_count: spec_trunc32(m.imports.len() as int),
        export_count: spec_trunc32(m.exports.len() as int),
        has_memory: m.memory is Some,
        has_start_function: m.start_function is Some,
        uses_wasi: s.wasi_usage.uses_wasi,
        risk_level: spec_max_risk(s.capabilities),
        estimated_language: c.detected_language,
    }
}

/// Condenses the decoded module and its reports into the summary.
pub fn summarize(
    module: &ModuleInfo,
    security: &SecurityAnalysis,
    compatibility: &CompatibilityMatrix,
    module_size: u32,
) -> (r: ModuleSummary)
    ensures
        r@ == spec_summary(module@, security@, compatibility@, module_size),
{
    let ghost mv = module@;
    let nfn = crate::graph::n_fn_imports_of(&module.imports);
    let total = ((nfn as u128 + module.functions.len() as u128) % 0x1_0000_0000u128) as u32;
    let ghost cvs = security@.capabilities;
    proof {
        assert(cvs.skip(0) =~= cvs);
    }
    let mut risk = RiskLevel::Low;
    let mut j: usize = security.capabilities.len();
    while j > 0
        invariant
            j <= security.capabilities.len(),
            cvs == security@.capabilities,
            risk == spec_max_risk(cvs.skip(j as int)),
        decreases j,
    {
        proof {
            assert(cvs.skip(j as int - 1)[0] == cvs[j - 1]);
            assert(cvs.skip(j as int - 1).drop_first() =~= cvs.skip(j as int));
        }
        let own = security.capabilities[j - 1].risk_level;
        if risk_rank(own) >= risk_rank(risk) {
            risk = own;
        }
        j = j - 1;
    }
    proof {
        assert(cvs.skip(0) =~= cvs);
    }
    let estimated_language = match &compatibility.detected_language {
        Some(s) => Some(s.clone()),
        None => None,
    };
    let r = ModuleSummary {
        size_bytes: module_size,
        function_count: total,
        import_count: ((module.imports.len() as u128) % 0x1_0000_0000u128) as u32,
        export_count: ((module.exports.len() as u128) % 0x1_0000_0000u128) as u32,
        has_memory: module.memory.is_some(),
        has_start_function: module.start_function.is_some(),
        uses_wasi: security.wasi_usage.uses_wasi,
        risk_level: risk,
        estimated_language,
    };
    proof {
        assert(r@ =~= spec_summary(module@, security@, compatibility@, module_size));
    }
    r
}

/// The stack estimate, clamped to 32 bits.
pub(crate) fn stack_max_of(m: &ModuleInfo) -> (r: u32)
    ensures
        r == spec_sat32(spec_stack_max(m@.functions)),
{
    sat32_of(stack_max_u(m))
}

/// The summed data-segment bytes.
pub(crate) fn sum_data_sizes_of(m: &ModuleInfo) -> (r: u128)
    ensures
        r == crate::security::spec_sum_data_sizes(m@.data_segments),
{
    let ghost dvs = m@.data_segments;
    proof {
        assert(dvs.skip(0) =~= dvs);
    }
    let mut d: usize = 0;
    let mut data_sum: u128 = 0;
    while d < m.data_segments.len()
        invariant
            d <= m.data_segments.len(),
            dvs == m@.data_segments,
            data_sum <= d * 0x1_0000_0000,
            crate::security::spec_sum_data_sizes(dvs) == data_sum
                + crate::security::spec_sum_data_sizes(dvs.skip(d as int)),
        decreases m.data_segments.len() - d,
    {
        proof {
            assert(dvs.skip(d as int)[0] == dvs[d as int]);
            assert(dvs.skip(d as int).drop_first() =~= dvs.skip(d as int + 1));
        }
        data_sum = data_sum + m.data_segments[d].size as u128;
        d = d + 1;
    }
    proof {
        assert(crate::security::spec_sum_data_sizes(dvs.skip(m.data_segments@.len() as int))
            == 0);
    }
    data_sum
}

} // verus!
