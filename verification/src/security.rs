//! Heuristic security analysis over a decoded module: which host
//! capabilities its imports reveal, simple vulnerability signals, sandbox
//! compatibility, and its use of the system interface.  Every list in the
//! result is pinned exactly by the specification functions here.

use vstd::prelude::*;
use vstd::string::StringExecFns;
use crate::types::{Import, ImportView, Memory, ModuleInfo, ModuleInfoView, imports_view};
use crate::analysis::{
    Capability, CapabilityView, RiskLevel, SandboxCompatibility, SandboxCompatibilityView,
    SecurityAnalysis, SecurityAnalysisView, Vulnerability, VulnerabilityView, WasiUsage,
    WasiUsageView, caps_view, vulns_view, strings_seq_view,
};
use crate::strings::{
    spec_str_contains, spec_str_contains_ci, spec_str_starts_with, spec_u32_digits, str_contains,
    str_contains_ci, str_starts_with, str_eq, u32_digits,
};

verus! {

/// The host-capability categories the import scan looks for.
#[derive(Debug, Clone, Copy, PartialEq, Eq, Structural)]
pub enum CapabilityKind {
    FileSystem,
    Network,
    System,
    Time,
    Random,
    DynamicMemory,
    Crypto,
}

/// Whether one import record signals a capability category.  The
/// cryptography category folds case ASCII-only: an upper-case ASCII letter
/// matches its lower-case form; every other character matches verbatim.
pub open spec fn spec_cap_matches(i: ImportView, c: CapabilityKind) -> bool {
    let n = i.name;
    match c {
        CapabilityKind::FileSystem => spec_str_contains(n, "fd_"@) || spec_str_contains(
            n,
            "path_"@,
        ) || spec_str_contains(n, "file"@) || spec_str_contains(n, "dir"@),
        CapabilityKind::Network => spec_str_contains(n, "sock_"@) || spec_str_contains(
            n,
            "poll_"@,
        ) || spec_str_contains(n, "network"@) || spec_str_contains(n, "tcp"@)
            || spec_str_contains(n, "udp"@),
        CapabilityKind::System => spec_str_contains(n, "proc_"@) || spec_str_contains(
            n,
            "environ"@,
        ) || spec_str_contains(n, "exit"@) || spec_str_contains(n, "signal"@),
        CapabilityKind::Time => spec_str_contains(n, "clock_"@) || spec_str_contains(n, "time"@),
        CapabilityKind::Random => spec_str_contains(n, "random"@) || spec_str_contains(
            n,
            "rand"@,
        ),
        CapabilityKind::DynamicMemory => spec_str_contains(n, "malloc"@) || spec_str_contains(
            n,
            "free"@,
        ) || spec_str_contains(n, "alloc"@) || spec_str_contains(n, "realloc"@) || (n
            == "memory.grow"@ && i.module == "env"@),
        CapabilityKind::Crypto => spec_str_contains_ci(n, "crypto"@) || spec_str_contains_ci(
            n,
            "hash"@,
        ) || spec_str_contains_ci(n, "encrypt"@) || spec_str_contains_ci(n, "decrypt"@)
            || spec_str_contains_ci(n, "sign"@) || spec_str_contains_ci(n, "verify"@),
    }
}

/// Whether one import record is quoted as evidence for a category; slightly
/// narrower than detection for some categories.
pub open spec fn spec_ev_matches(i: ImportView, c: CapabilityKind) -> bool {
    let n = i.name;
    match c {
        CapabilityKind::FileSystem => spec_str_contains(n, "fd_"@) || spec_str_contains(
            n,
            "path_"@,
        ) || spec_str_contains(n, "file"@),
        CapabilityKind::Network => spec_str_contains(n, "sock_"@) || spec_str_contains(
            n,
            "poll_"@,
        ) || spec_str_contains(n, "network"@),
        CapabilityKind::System => spec_str_contains(n, "proc_"@) || spec_str_contains(
            n,
            "environ"@,
        ) || spec_str_contains(n, "exit"@),
        CapabilityKind::Time => spec_str_contains(n, "clock_"@) || spec_str_contains(n, "time"@),
        CapabilityKind::Random => spec_str_contains(n, "random"@) || spec_str_contains(
            n,
            "rand"@,
        ),
        CapabilityKind::DynamicMemory => spec_str_contains(n, "malloc"@) || spec_str_contains(
            n,
            "free"@,
        ) || spec_str_contains(n, "alloc"@) || (n == "memory.grow"@ && i.module == "env"@),
        CapabilityKind::Crypto => spec_cap_matches(i, CapabilityKind::Crypto),
    }
}

pub open spec fn spec_detects(imports: Seq<ImportView>, c: CapabilityKind) -> bool {
    exists|j: int| 0 <= j < imports.len() && spec_cap_matches(#[trigger] imports[j], c)
}

/// The quoted evidence for a category: the first `budget` matching imports,
/// each rendered as `module::name`.
pub open spec fn spec_evidence(imports: Seq<ImportView>, c: CapabilityKind, budget: int) -> Seq<
    Seq<char>,
>
    decreases imports.len(),
{
    if imports.len() == 0 || budget <= 0 {
        Seq::empty()
    } else if spec_ev_matches(imports[0], c) {
        seq![imports[0].module + "::"@ + imports[0].name] + spec_evidence(
            imports.drop_first(),
            c,
            budget - 1,
        )
    } else {
        spec_evidence(imports.drop_first(), c, budget)
    }
}

pub open spec fn spec_cap_title(c: CapabilityKind) -> Seq<char> {
    match c {
        CapabilityKind::FileSystem => "File System Access"@,
        CapabilityKind::Network => "Network Access"@,
        CapabilityKind::System => "System Access"@,
        CapabilityKind::Time => "Time Access"@,
        CapabilityKind::Random => "Random Generation"@,
        CapabilityKind::DynamicMemory => "Dynamic Memory"@,
        CapabilityKind::Crypto => "Cryptographic Operations"@,
    }
}

pub open spec fn spec_cap_description(c: CapabilityKind) -> Seq<char> {
    match c {
        CapabilityKind::FileSystem => "Module can read/write files and directories"@,
        CapabilityKind::Network => "Module can make network connections"@,
        CapabilityKind::System => "Module can access system resources and processes"@,
        CapabilityKind::Time => "Module can access system time"@,
        CapabilityKind::Random => "Module can generate random numbers"@,
        CapabilityKind::DynamicMemory => "Module performs dynamic memory allocation or growth"@,
        CapabilityKind::Crypto => "Module performs cryptographic operations"@,
    }
}

pub open spec fn spec_cap_risk(c: CapabilityKind) -> RiskLevel {
    match c {
        CapabilityKind::FileSystem => RiskLevel::High,
        CapabilityKind::Network => RiskLevel::High,
        CapabilityKind::System => RiskLevel::Medium,
        CapabilityKind::Time => RiskLevel::Low,
        CapabilityKind::Random => RiskLevel::Low,
        CapabilityKind::DynamicMemory => RiskLevel::Medium,
        CapabilityKind::Crypto => RiskLevel::Medium,
    }
}

pub open spec fn spec_capability(imports: Seq<ImportView>, c: CapabilityKind) -> CapabilityView {
    CapabilityView {
        name: spec_cap_title(c),
        description: spec_cap_description(c),
        risk_level: spec_cap_risk(c),
        evidence: spec_evidence(imports, c, 5),
    }
}

pub open spec fn spec_cap_entry(imports: Seq<ImportView>, c: CapabilityKind) -> Seq<
    CapabilityView,
> {
    if spec_detects(imports, c) {
        seq![spec_capability(imports, c)]
    } else {
        Seq::empty()
    }
}

/// The detected capabilities, in the fixed scan order.
pub open spec fn spec_capabilities(imports: Seq<ImportView>) -> Seq<CapabilityView> {
    spec_cap_entry(imports, CapabilityKind::FileSystem) + spec_cap_entry(
        imports,
        CapabilityKind::Network,
    ) + spec_cap_entry(imports, CapabilityKind::System) + spec_cap_entry(
        imports,
        CapabilityKind::Time,
    ) + spec_cap_entry(imports, CapabilityKind::Random) + spec_cap_entry(
        imports,
        CapabilityKind::DynamicMemory,
    ) + spec_cap_entry(imports, CapabilityKind::Crypto)
}

// ----------------------------------------------------------------------------
// Vulnerabilities.

/// A name that suggests code execution.  The folding used is ASCII-only:
/// an upper-case ASCII letter matches its lower-case form, and every other
/// character, non-ASCII included, matches verbatim.
pub open spec fn spec_suspicious_name(n: Seq<char>) -> bool {
    spec_str_contains_ci(n, "eval"@) || spec_str_contains_ci(n, "exec"@) || spec_str_contains_ci(
        n,
        "system"@,
    ) || spec_str_contains_ci(n, "shell"@) || spec_str_contains_ci(n, "cmd"@)
        || spec_str_contains_ci(n, "invoke"@)
}

pub open spec fn spec_suspicious_vuln(i: ImportView) -> VulnerabilityView {
    VulnerabilityView {
        id: "SUSPICIOUS_IMPORT"@,
        description: "Suspicious import function: "@ + i.name,
        severity: RiskLevel::High,
        location: "Import: "@ + i.module + "::"@ + i.name,
    }
}

pub open spec fn spec_suspicious_vulns(imports: Seq<ImportView>) -> Seq<VulnerabilityView>
    decreases imports.len(),
{
    if imports.len() == 0 {
        Seq::empty()
    } else if spec_suspicious_name(imports[0].name) {
        seq![spec_suspicious_vuln(imports[0])] + spec_suspicious_vulns(imports.drop_first())
    } else {
        spec_suspicious_vulns(imports.drop_first())
    }
}

pub open spec fn spec_unsafe_c_import(i: ImportView) -> bool {
    (i.module == "env"@ || i.module.len() == 0) && (spec_str_contains(i.name, "strcpy"@)
        || spec_str_contains(i.name, "sprintf"@) || spec_str_contains(i.name, "gets"@)
        || spec_str_contains(i.name, "strcat"@))
}

pub open spec fn spec_has_unsafe_c_import(imports: Seq<ImportView>) -> bool {
    exists|j: int| 0 <= j < imports.len() && spec_unsafe_c_import(#[trigger] imports[j])
}

pub open spec fn spec_unbounded_memory_vuln() -> VulnerabilityView {
    VulnerabilityView {
        id: "UNBOUNDED_MEMORY"@,
        description: "Memory has no maximum limit - potential for memory exhaustion"@,
        severity: RiskLevel::Medium,
        location: "Memory section"@,
    }
}

pub open spec fn spec_large_surface_vuln(n_imports: int) -> VulnerabilityView {
    VulnerabilityView {
        id: "LARGE_IMPORT_SURFACE"@,
        description: "Module imports "@ + spec_u32_digits(n_imports)
            + " functions - large attack surface"@,
        severity: RiskLevel::Medium,
        location: "Import section"@,
    }
}

pub open spec fn spec_unsafe_c_vuln() -> VulnerabilityView {
    VulnerabilityView {
        id: "UNSAFE_C_STRING_OPS"@,
        description: "Imports C standard library functions known for buffer overflow vulnerabilities (e.g., strcpy, sprintf)."@,
        severity: RiskLevel::High,
        location: "Import section (check 'env' imports)"@,
    }
}

/// All vulnerability signals, in the fixed scan order.
pub open spec fn spec_vulnerabilities(m: ModuleInfoView) -> Seq<VulnerabilityView> {
    (match m.memory {
        Some(mem) => if mem.maximum is None {
            seq![spec_unbounded_memory_vuln()]
        } else {
            Seq::empty()
        },
        None => Seq::empty(),
    }) + (if m.imports.len() > 50 {
        seq![spec_large_surface_vuln(m.imports.len() as int)]
    } else {
        Seq::empty()
    }) + spec_suspicious_vulns(m.imports) + (if spec_has_unsafe_c_import(m.imports) {
        seq![spec_unsafe_c_vuln()]
    } else {
        Seq::empty()
    })
}

// ----------------------------------------------------------------------------
// Sandbox compatibility and system-interface usage.

pub open spec fn spec_uses_wasi(imports: Seq<ImportView>) -> bool {
    exists|j: int|
        0 <= j < imports.len() && spec_str_starts_with((#[trigger] imports[j]).module, "wasi"@)
}

pub open spec fn spec_wasi_import(i: ImportView) -> bool {
    spec_str_starts_with(i.module, "wasi_snapshot"@) || spec_str_starts_with(
        i.module,
        "wasi_unstable"@,
    )
}

pub open spec fn spec_has_wasi_import(imports: Seq<ImportView>) -> bool {
    exists|j: int| 0 <= j < imports.len() && spec_wasi_import(#[trigger] imports[j])
}

pub open spec fn spec_has_fs_import(imports: Seq<ImportView>) -> bool {
    exists|j: int|
        0 <= j < imports.len() && (spec_str_contains((#[trigger] imports[j]).name, "fd_"@)
            || spec_str_contains(imports[j].name, "path_"@))
}

/// The byte-size estimate used by the sandbox check: section payloads plus
/// rough per-record overheads, clamped to 32 bits.
pub open spec fn spec_estimated_size(m: ModuleInfoView) -> int {
    spec_sum_body_sizes(m.functions) + spec_sum_data_sizes(m.data_segments)
        + spec_sum_custom_sizes(m.custom_sections) + m.imports.len() * 32 + m.exports.len() * 24
        + m.globals.len() * 16 + m.type_signatures.len() * 10 + 1000
}

pub open spec fn spec_sum_body_sizes(v: Seq<crate::types::FunctionView>) -> int
    decreases v.len(),
{
    if v.len() == 0 {
        0
    } else {
        v[0].body_size + spec_sum_body_sizes(v.drop_first())
    }
}

pub open spec fn spec_sum_data_sizes(v: Seq<crate::types::DataSegment>) -> int
    decreases v.len(),
{
    if v.len() == 0 {
        0
    } else {
        v[0].size + spec_sum_data_sizes(v.drop_first())
    }
}

pub open spec fn spec_sum_custom_sizes(v: Seq<crate::types::CustomSectionView>) -> int
    decreases v.len(),
{
    if v.len() == 0 {
        0
    } else {
        v[0].size + spec_sum_custom_sizes(v.drop_first())
    }
}

/// The clamp applied to every stored size estimate.
pub open spec fn spec_sat32_of(c: int) -> u32 {
    crate::graph::spec_sat32(c)
}

/// The sandbox verdicts and their accumulated restriction notes, in the
/// fixed order of the checks.
pub open spec fn spec_sandbox(m: ModuleInfoView) -> SandboxCompatibilityView {
    let uses_wasi = spec_uses_wasi(m.imports);
    let strict_wasi = spec_has_wasi_import(m.imports);
    let fs = spec_has_fs_import(m.imports);
    let big_memory = match m.memory {
        Some(mem) => mem.initial > 2048 && mem.initial > 2000,
        None => false,
    };
    let no_memory = m.memory is None;
    let big_module = spec_estimated_size(m) > 1_000_000;
    SandboxCompatibilityView {
        browser_safe: !fs,
        node_safe: true,
        cloudflare_workers_safe: !strict_wasi && !big_memory && !no_memory && !big_module,
        restrictions: (if uses_wasi {
            seq![
                "WASI imports may require polyfills or specific runtime support (e.g., browser, Node.js)."@,
            ]
        } else {
            Seq::empty()
        }) + (if strict_wasi {
            seq![
                "Direct WASI snapshot/unstable imports are generally not supported in Cloudflare Workers."@,
            ]
        } else {
            Seq::empty()
        }) + (if fs {
            seq![
                "Direct file system access (fd_*, path_*) not available in standard browser sandbox or typical edge runtimes without specific capabilities."@,
            ]
        } else {
            Seq::empty()
        }) + (if big_memory {
            seq![
                "High initial memory ("@ + spec_u32_digits(
                    match m.memory {
                        Some(mem) => mem.initial as int * 64,
                        None => 0,
                    },
                ) + ") may exceed edge runtime limits (e.g., Cloudflare Workers)."@,
            ]
        } else {
            Seq::empty()
        }) + (if no_memory {
            seq![
                "No memory section defined; Cloudflare Workers typically require one for non-trivial modules."@,
            ]
        } else {
            Seq::empty()
        }) + (if big_module {
            seq![
                "Module size (approx. "@ + spec_u32_digits(
                    spec_sat32_of(spec_estimated_size(m)) as int,
                ) + " bytes) may exceed edge runtime limits (e.g., Cloudflare Workers 1MB compressed limit)."@,
            ]
        } else {
            Seq::empty()
        }),
    }
}

/// The categories of system-interface capability, recognized by the prefix
/// of an import's field name.
pub open spec fn spec_wasi_cap_needed(imports: Seq<ImportView>, prefix: Seq<char>) -> bool {
    exists|j: int|
        0 <= j < imports.len() && spec_wasi_import(#[trigger] imports[j]) && spec_str_starts_with(
            imports[j].name,
            prefix,
        )
}

pub open spec fn spec_wasi_sched_needed(imports: Seq<ImportView>) -> bool {
    exists|j: int|
        0 <= j < imports.len() && spec_wasi_import(#[trigger] imports[j]) && imports[j].name
            == "sched_yield"@
}

pub open spec fn spec_wasi_module_is(imports: Seq<ImportView>, name: Seq<char>) -> bool {
    exists|j: int|
        0 <= j < imports.len() && spec_wasi_import(#[trigger] imports[j]) && imports[j].module
            == name
}

pub open spec fn spec_wasi_module_contains(imports: Seq<ImportView>, pat: Seq<char>) -> bool {
    exists|j: int|
        0 <= j < imports.len() && spec_wasi_import(#[trigger] imports[j]) && spec_str_contains(
            imports[j].module,
            pat,
        )
}

pub open spec fn spec_wasi_version(imports: Seq<ImportView>) -> Seq<char> {
    if spec_wasi_module_is(imports, "wasi_snapshot_preview1"@) {
        "Preview 1"@
    } else if spec_wasi_module_contains(imports, "preview2"@) {
        "Preview 2"@
    } else if spec_wasi_module_is(imports, "wasi_unstable"@) {
        "Unstable (Legacy Preview 0/Pre-Preview 1)"@
    } else {
        "Unknown WASI version"@
    }
}

pub open spec fn spec_wasi_caps(imports: Seq<ImportView>) -> Seq<Seq<char>> {
    (if spec_wasi_cap_needed(imports, "fd_"@) {
        seq!["file-system"@]
    } else {
        Seq::empty()
    }) + (if spec_wasi_cap_needed(imports, "path_"@) {
        seq!["file-system-paths"@]
    } else {
        Seq::empty()
    }) + (if spec_wasi_cap_needed(imports, "sock_"@) {
        seq!["sockets"@]
    } else {
        Seq::empty()
    }) + (if spec_wasi_cap_needed(imports, "proc_"@) {
        seq!["process-control"@]
    } else {
        Seq::empty()
    }) + (if spec_wasi_cap_needed(imports, "environ_"@) {
        seq!["environment-variables"@]
    } else {
        Seq::empty()
    }) + (if spec_wasi_cap_needed(imports, "clock_"@) {
        seq!["clocks"@]
    } else {
        Seq::empty()
    }) + (if spec_wasi_cap_needed(imports, "random_"@) {
        seq!["randomness"@]
    } else {
        Seq::empty()
    }) + (if spec_wasi_sched_needed(imports) {
        seq!["scheduler"@]
    } else {
        Seq::empty()
    })
}

/// The system-interface usage report.
pub open spec fn spec_wasi_usage(imports: Seq<ImportView>) -> WasiUsageView {
    if !spec_has_wasi_import(imports) {
        WasiUsageView { uses_wasi: false, wasi_version: None, required_capabilities: Seq::empty() }
    } else {
        WasiUsageView {
            uses_wasi: true,
            wasi_version: Some(spec_wasi_version(imports)),
            required_capabilities: spec_wasi_caps(imports),
        }
    }
}

/// What the whole security pass returns.
pub open spec fn spec_security(m: ModuleInfoView) -> SecurityAnalysisView {
    SecurityAnalysisView {
        capabilities: spec_capabilities(m.imports),
        vulnerabilities: spec_vulnerabilities(m),
        sandbox_compatibility: spec_sandbox(m),
        wasi_usage: spec_wasi_usage(m.imports),
    }
}

// ----------------------------------------------------------------------------
// The analyzer.

fn cap_matches(i: &Import, c: CapabilityKind) -> (r: bool)
    ensures
        r == spec_cap_matches(i@, c),
{
    let n = i.name.as_str();
    match c {
        CapabilityKind::FileSystem => str_contains(n, "fd_") || str_contains(n, "path_")
            || str_contains(n, "file") || str_contains(n, "dir"),
        CapabilityKind::Network => str_contains(n, "sock_") || str_contains(n, "poll_")
            || str_contains(n, "network") || str_contains(n, "tcp") || str_contains(n, "udp"),
        CapabilityKind::System => str_contains(n, "proc_") || str_contains(n, "environ")
            || str_contains(n, "exit") || str_contains(n, "signal"),
        CapabilityKind::Time => str_contains(n, "clock_") || str_contains(n, "time"),
        CapabilityKind::Random => str_contains(n, "random") || str_contains(n, "rand"),
        CapabilityKind::DynamicMemory => str_contains(n, "malloc") || str_contains(n, "free")
            || str_contains(n, "alloc") || str_contains(n, "realloc") || (str_eq(n, "memory.grow")
            && str_eq(i.module.as_str(), "env")),
        CapabilityKind::Crypto => str_contains_ci(n, "crypto") || str_contains_ci(n, "hash")
            || str_contains_ci(n, "encrypt") || str_contains_ci(n, "decrypt") || str_contains_ci(
            n,
            "sign",
        ) || str_contains_ci(n, "verify"),
    }
}

fn ev_matches(i: &Import, c: CapabilityKind) -> (r: bool)
    ensures
        r == spec_ev_matches(i@, c),
{
    let n = i.name.as_str();
    match c {
        CapabilityKind::FileSystem => str_contains(n, "fd_") || str_contains(n, "path_")
            || str_contains(n, "file"),
        CapabilityKind::Network => str_contains(n, "sock_") || str_contains(n, "poll_")
            || str_contains(n, "network"),
        CapabilityKind::System => str_contains(n, "proc_") || str_contains(n, "environ")
            || str_contains(n, "exit"),
        CapabilityKind::Time => str_contains(n, "clock_") || str_contains(n, "time"),
        CapabilityKind::Random => str_contains(n, "random") || str_contains(n, "rand"),
        CapabilityKind::DynamicMemory => str_contains(n, "malloc") || str_contains(n, "free")
            || str_contains(n, "alloc") || (str_eq(n, "memory.grow") && str_eq(
            i.module.as_str(),
            "env",
        )),
        CapabilityKind::Crypto => cap_matches(i, c),
    }
}

fn detects(imports: &Vec<Import>, c: CapabilityKind) -> (r: bool)
    ensures
        r == spec_detects(imports_view(imports@), c),
{
    let ghost ivs = imports_view(imports@);
    let mut j: usize = 0;
    while j < imports.len()
        invariant
            j <= imports.len(),
            ivs == imports_view(imports@),
            forall|k: int| 0 <= k < j ==> !spec_cap_matches(#[trigger] ivs[k], c),
        decreases imports.len() - j,
    {
        if cap_matches(&imports[j], c) {
            proof {
                assert(spec_cap_matches(ivs[j as int], c));
            }
            return true;
        }
        j = j + 1;
    }
    false
}

/// Renders one import as `module::name`.
fn import_label(i: &Import) -> (r: String)
    ensures
        r@ == i@.module + "::"@ + i@.name,
{
    i.module.clone().concat("::").concat(i.name.as_str())
}

fn evidence(imports: &Vec<Import>, c: CapabilityKind) -> (r: Vec<String>)
    ensures
        strings_seq_view(r@) == spec_evidence(imports_view(imports@), c, 5),
{
    let ghost ivs = imports_view(imports@);
    proof {
        assert(ivs.skip(0) =~= ivs);
    }
    let mut out: Vec<String> = Vec::new();
    let mut budget: u32 = 5;
    let mut j: usize = 0;
    while j < imports.len() && budget > 0
        invariant
            j <= imports.len(),
            budget <= 5,
            ivs == imports_view(imports@),
            spec_evidence(ivs, c, 5) == strings_seq_view(out@) + spec_evidence(
                ivs.skip(j as int),
                c,
                budget as int,
            ),
        decreases imports.len() - j,
    {
        proof {
            assert(ivs.skip(j as int)[0] == ivs[j as int]);
            assert(ivs.skip(j as int).drop_first() =~= ivs.skip(j as int + 1));
        }
        if ev_matches(&imports[j], c) {
            let ghost before = strings_seq_view(out@);
            let label = import_label(&imports[j]);
            let ghost g_label = label@;
            out.push(label);
            proof {
                assert(strings_seq_view(out@) =~= before + seq![g_label]);
                assert(before + (seq![g_label] + spec_evidence(
                    ivs.skip(j as int + 1),
                    c,
                    budget as int - 1,
                )) =~= strings_seq_view(out@) + spec_evidence(
                    ivs.skip(j as int + 1),
                    c,
                    budget as int - 1,
                ));
            }
            budget = budget - 1;
        }
        j = j + 1;
    }
    proof {
        if budget > 0 {
            assert(ivs.skip(imports@.len() as int).len() == 0);
        }
        assert(strings_seq_view(out@) + Seq::<Seq<char>>::empty() =~= strings_seq_view(out@));
    }
    out
}

fn capability_of(imports: &Vec<Import>, c: CapabilityKind) -> (r: Capability)
    ensures
        r@ == spec_capability(imports_view(imports@), c),
{
    let (name, description, risk_level) = match c {
        CapabilityKind::FileSystem => (
            String::from_str("File System Access"),
            String::from_str("Module can read/write files and directories"),
            RiskLevel::High,
        ),
        CapabilityKind::Network => (
            String::from_str("Network Access"),
            String::from_str("Module can make network connections"),
            RiskLevel::High,
        ),
        CapabilityKind::System => (
            String::from_str("System Access"),
            String::from_str("Module can access system resources and processes"),
            RiskLevel::Medium,
        ),
        CapabilityKind::Time => (
            String::from_str("Time Access"),
            String::from_str("Module can access system time"),
            RiskLevel::Low,
        ),
        CapabilityKind::Random => (
            String::from_str("Random Generation"),
            String::from_str("Module can generate random numbers"),
            RiskLevel::Low,
        ),
        CapabilityKind::DynamicMemory => (
            String::from_str("Dynamic Memory"),
            String::from_str("Module performs dynamic memory allocation or growth"),
            RiskLevel::Medium,
        ),
        CapabilityKind::Crypto => (
            String::from_str("Cryptographic Operations"),
            String::from_str("Module performs cryptographic operations"),
            RiskLevel::Medium,
        ),
    };
    let evidence = evidence(imports, c);
    let r = Capability { name, description, risk_level, evidence };
    proof {
        assert(r@ =~= spec_capability(imports_view(imports@), c));
    }
    r
}

fn push_cap_entry(caps: &mut Vec<Capability>, imports: &Vec<Import>, c: CapabilityKind)
    ensures
        caps_view(final(caps)@) == caps_view(old(caps)@) + spec_cap_entry(
            imports_view(imports@),
            c,
        ),
{
    let ghost before = caps_view(caps@);
    if detects(imports, c) {
        let cap = capability_of(imports, c);
        let ghost g_cap = cap@;
        caps.push(cap);
        proof {
            assert(caps_view(caps@) =~= before + seq![g_cap]);
        }
    } else {
        proof {
            assert(caps_view(caps@) =~= before + Seq::<CapabilityView>::empty());
        }
    }
}

fn detect_capabilities(imports: &Vec<Import>) -> (r: Vec<Capability>)
    ensures
        caps_view(r@) == spec_capabilities(imports_view(imports@)),
{
    let mut caps: Vec<Capability> = Vec::new();
    proof {
        assert(caps_view(caps@) =~= Seq::<CapabilityView>::empty());
    }
    push_cap_entry(&mut caps, imports, CapabilityKind::FileSystem);
    push_cap_entry(&mut caps, imports, CapabilityKind::Network);
    push_cap_entry(&mut caps, imports, CapabilityKind::System);
    push_cap_entry(&mut caps, imports, CapabilityKind::Time);
    push_cap_entry(&mut caps, imports, CapabilityKind::Random);
    push_cap_entry(&mut caps, imports, CapabilityKind::DynamicMemory);
    push_cap_entry(&mut caps, imports, CapabilityKind::Crypto);
    proof {
        assert(caps_view(caps@) =~= spec_capabilities(imports_view(imports@)));
    }
    caps
}

fn suspicious_name(name: &str) -> (r: bool)
    ensures
        r == spec_suspicious_name(name@),
{
    str_contains_ci(name, "eval") || str_contains_ci(name, "exec") || str_contains_ci(
        name,
        "system",
    ) || str_contains_ci(name, "shell") || str_contains_ci(name, "cmd") || str_contains_ci(
        name,
        "invoke",
    )
}

fn detect_vulnerabilities(m: &ModuleInfo) -> (r: Vec<Vulnerability>)
    ensures
        vulns_view(r@) == spec_vulnerabilities(m@),
{
    let ghost mv = m@;
    let mut out: Vec<Vulnerability> = Vec::new();
    match &m.memory {
        Some(mem) => {
            if mem.maximum.is_none() {
                out.push(
                    Vulnerability {
                        id: String::from_str("UNBOUNDED_MEMORY"),
                        description: String::from_str(
                            "Memory has no maximum limit - potential for memory exhaustion",
                        ),
                        severity: RiskLevel::Medium,
                        location: String::from_str("Memory section"),
                    },
                );
            }
        },
        None => {},
    }
    let ghost part1 = vulns_view(out@);
    if m.imports.len() > 50 {
        let digits = crate::strings::u64_digits(m.imports.len() as u64);
        let description = String::from_str("Module imports ").concat(digits.as_str()).concat(
            " functions - large attack surface",
        );
        out.push(
            Vulnerability {
                id: String::from_str("LARGE_IMPORT_SURFACE"),
                description,
                severity: RiskLevel::Medium,
                location: String::from_str("Import section"),
            },
        );
    }
    let ghost part2 = vulns_view(out@);
    proof {
        assert(part2 =~= (match mv.memory {
            Some(mem) => if mem.maximum is None {
                seq![spec_unbounded_memory_vuln()]
            } else {
                Seq::<VulnerabilityView>::empty()
            },
            None => Seq::<VulnerabilityView>::empty(),
        }) + (if mv.imports.len() > 50 {
            seq![spec_large_surface_vuln(mv.imports.len() as int)]
        } else {
            Seq::<VulnerabilityView>::empty()
        }));
    }
    let ghost ivs = imports_view(m.imports@);
    proof {
        assert(ivs.skip(0) =~= ivs);
    }
    let mut j: usize = 0;
    while j < m.imports.len()
        invariant
            j <= m.imports.len(),
            ivs == imports_view(m.imports@),
            part2 + spec_suspicious_vulns(ivs) =~= vulns_view(out@) + spec_suspicious_vulns(
                ivs.skip(j as int),
            ),
        decreases m.imports.len() - j,
    {
        proof {
            assert(ivs.skip(j as int)[0] == ivs[j as int]);
            assert(ivs.skip(j as int).drop_first() =~= ivs.skip(j as int + 1));
        }
        if suspicious_name(m.imports[j].name.as_str()) {
            let ghost before = vulns_view(out@);
            let description = String::from_str("Suspicious import function: ").concat(
                m.imports[j].name.as_str(),
            );
            let location = String::from_str("Import: ").concat(m.imports[j].module.as_str()).concat(
                "::",
            ).concat(m.imports[j].name.as_str());
            let v = Vulnerability {
                id: String::from_str("SUSPICIOUS_IMPORT"),
                description,
                severity: RiskLevel::High,
                location,
            };
            proof {
                assert(v@ =~= spec_suspicious_vuln(ivs[j as int]));
            }
            out.push(v);
            proof {
                assert(vulns_view(out@) =~= before + seq![spec_suspicious_vuln(ivs[j as int])]);
                assert(before + (seq![spec_suspicious_vuln(ivs[j as int])]
                    + spec_suspicious_vulns(ivs.skip(j as int + 1))) =~= vulns_view(out@)
                    + spec_suspicious_vulns(ivs.skip(j as int + 1)));
            }
        }
        j = j + 1;
    }
    proof {
        assert(spec_suspicious_vulns(ivs.skip(m.imports@.len() as int)) =~= Seq::<
            VulnerabilityView,
        >::empty());
        assert(vulns_view(out@) =~= part2 + spec_suspicious_vulns(ivs));
    }
    let ghost part3 = vulns_view(out@);
    let mut has_unsafe = false;
    let mut k: usize = 0;
    while k < m.imports.len()
        invariant
            k <= m.imports.len(),
            ivs == imports_view(m.imports@),
            has_unsafe <==> exists|w: int| 0 <= w < k && spec_unsafe_c_import(#[trigger] ivs[w]),
        decreases m.imports.len() - k,
    {
        let i = &m.imports[k];
        let hit = (str_eq(i.module.as_str(), "env") || i.module.as_str().is_empty()) && (
        str_contains(i.name.as_str(), "strcpy") || str_contains(i.name.as_str(), "sprintf")
            || str_contains(i.name.as_str(), "gets") || str_contains(i.name.as_str(), "strcat"));
        proof {
            assert(hit == spec_unsafe_c_import(ivs[k as int]));
        }
        if hit {
            has_unsafe = true;
        }
        k = k + 1;
    }
    if has_unsafe {
        out.push(
            Vulnerability {
                id: String::from_str("UNSAFE_C_STRING_OPS"),
                description: String::from_str(
                    "Imports C standard library functions known for buffer overflow vulnerabilities (e.g., strcpy, sprintf).",
                ),
                severity: RiskLevel::High,
                location: String::from_str("Import section (check 'env' imports)"),
            },
        );
    }
    proof {
        assert(has_unsafe == spec_has_unsafe_c_import(ivs));
        assert(vulns_view(out@) =~= spec_vulnerabilities(mv));
    }
    out
}

// ----------------------------------------------------------------------------
// Sandbox and system-interface analysis.

fn any_import<'a>(imports: &Vec<Import>, kind: u8) -> (r: bool)
    requires
        kind <= 2,
    ensures
        kind == 0 ==> r == spec_uses_wasi(imports_view(imports@)),
        kind == 1 ==> r == spec_has_wasi_import(imports_view(imports@)),
        kind == 2 ==> r == spec_has_fs_import(imports_view(imports@)),
{
    let ghost ivs = imports_view(imports@);
    let mut j: usize = 0;
    while j < imports.len()
        invariant
            j <= imports.len(),
            kind <= 2,
            ivs == imports_view(imports@),
            kind == 0 ==> forall|k: int|
                0 <= k < j ==> !spec_str_starts_with((#[trigger] ivs[k]).module, "wasi"@),
            kind == 1 ==> forall|k: int| 0 <= k < j ==> !spec_wasi_import(#[trigger] ivs[k]),
            kind == 2 ==> forall|k: int|
                0 <= k < j ==> !(spec_str_contains((#[trigger] ivs[k]).name, "fd_"@)
                    || spec_str_contains(ivs[k].name, "path_"@)),
        decreases imports.len() - j,
    {
        let i = &imports[j];
        let hit = if kind == 0 {
            str_starts_with(i.module.as_str(), "wasi")
        } else if kind == 1 {
            str_starts_with(i.module.as_str(), "wasi_snapshot") || str_starts_with(
                i.module.as_str(),
                "wasi_unstable",
            )
        } else {
            str_contains(i.name.as_str(), "fd_") || str_contains(i.name.as_str(), "path_")
        };
        if hit {
            proof {
                assert(ivs[j as int] == i@);
            }
            return true;
        }
        j = j + 1;
    }
    false
}

fn estimated_size(m: &ModuleInfo) -> (r: u128)
    ensures
        r == spec_estimated_size(m@),
{
    let ghost mv = m@;
    let mut total: u128 = 1000;
    let ghost fvs = mv.functions;
    proof {
        assert(fvs.skip(0) =~= fvs);
    }
    let mut j: usize = 0;
    let mut body_sum: u128 = 0;
    while j < m.functions.len()
        invariant
            j <= m.functions.len(),
            fvs == mv.functions,
            mv == m@,
            body_sum <= j * 0x1_0000_0000,
            spec_sum_body_sizes(fvs) == body_sum + spec_sum_body_sizes(fvs.skip(j as int)),
        decreases m.functions.len() - j,
    {
        proof {
            assert(fvs.skip(j as int)[0] == fvs[j as int]);
            assert(fvs.skip(j as int).drop_first() =~= fvs.skip(j as int + 1));
        }
        body_sum = body_sum + m.functions[j].body_size as u128;
        j = j + 1;
    }
    proof {
        assert(spec_sum_body_sizes(fvs.skip(m.functions@.len() as int)) == 0);
    }
    let ghost dvs = mv.data_segments;
    proof {
        assert(dvs.skip(0) =~= dvs);
    }
    let mut d: usize = 0;
    let mut data_sum: u128 = 0;
    while d < m.data_segments.len()
        invariant
            d <= m.data_segments.len(),
            dvs == mv.data_segments,
            mv == m@,
            data_sum <= d * 0x1_0000_0000,
            spec_sum_data_sizes(dvs) == data_sum + spec_sum_data_sizes(dvs.skip(d as int)),
        decreases m.data_segments.len() - d,
    {
        proof {
            assert(dvs.skip(d as int)[0] == dvs[d as int]);
            assert(dvs.skip(d as int).drop_first() =~= dvs.skip(d as int + 1));
        }
        data_sum = data_sum + m.data_segments[d].size as u128;
        d = d + 1;
    }
    proof {
        assert(spec_sum_data_sizes(dvs.skip(m.data_segments@.len() as int)) == 0);
    }
    let ghost cvs = mv.custom_sections;
    proof {
        assert(cvs.skip(0) =~= cvs);
    }
    let mut c: usize = 0;
    let mut custom_sum: u128 = 0;
    while c < m.custom_sections.len()
        invariant
            c <= m.custom_sections.len(),
            cvs == mv.custom_sections,
            mv == m@,
            custom_sum <= c * 0x1_0000_0000,
            spec_sum_custom_sizes(cvs) == custom_sum + spec_sum_custom_sizes(cvs.skip(c as int)),
        decreases m.custom_sections.len() - c,
    {
        proof {
            assert(cvs.skip(c as int)[0] == cvs[c as int]);
            assert(cvs.skip(c as int).drop_first() =~= cvs.skip(c as int + 1));
        }
        custom_sum = custom_sum + m.custom_sections[c].size as u128;
        c = c + 1;
    }
    proof {
        assert(spec_sum_custom_sizes(cvs.skip(m.custom_sections@.len() as int)) == 0);
    }
    total = total + body_sum + data_sum + custom_sum + (m.imports.len() as u128) * 32 + (
    m.exports.len() as u128) * 24 + (m.globals.len() as u128) * 16 + (
    m.type_signatures.len() as u128) * 10;
    total
}

fn assess_sandbox_compatibility(m: &ModuleInfo) -> (r: SandboxCompatibility)
    ensures
        r@ == spec_sandbox(m@),
{
    let ghost mv = m@;
    let uses_wasi = any_import(&m.imports, 0);
    let strict_wasi = any_import(&m.imports, 1);
    let fs = any_import(&m.imports, 2);
    let (big_memory, initial64) = match &m.memory {
        Some(mem) => (mem.initial > 2048 && mem.initial > 2000, (mem.initial as u64) * 64),
        None => (false, 0u64),
    };
    let no_memory = m.memory.is_none();
    let est = estimated_size(m);
    let big_module = est > 1_000_000;
    let est_sat: u32 = if est > 0xffff_ffffu128 {
        0xffff_ffffu32
    } else {
        est as u32
    };
    let mut restrictions: Vec<String> = Vec::new();
    if uses_wasi {
        restrictions.push(
            String::from_str(
                "WASI imports may require polyfills or specific runtime support (e.g., browser, Node.js).",
            ),
        );
    }
    if strict_wasi {
        restrictions.push(
            String::from_str(
                "Direct WASI snapshot/unstable imports are generally not supported in Cloudflare Workers.",
            ),
        );
    }
    if fs {
        restrictions.push(
            String::from_str(
                "Direct file system access (fd_*, path_*) not available in standard browser sandbox or typical edge runtimes without specific capabilities.",
            ),
        );
    }
    if big_memory {
        let digits = crate::strings::u64_digits(initial64);
        restrictions.push(
            String::from_str("High initial memory (").concat(digits.as_str()).concat(
                ") may exceed edge runtime limits (e.g., Cloudflare Workers).",
            ),
        );
    }
    if no_memory {
        restrictions.push(
            String::from_str(
                "No memory section defined; Cloudflare Workers typically require one for non-trivial modules.",
            ),
        );
    }
    if big_module {
        let digits = u32_digits(est_sat);
        restrictions.push(
            String::from_str("Module size (approx. ").concat(digits.as_str()).concat(
                " bytes) may exceed edge runtime limits (e.g., Cloudflare Workers 1MB compressed limit).",
            ),
        );
    }
    let r = SandboxCompatibility {
        browser_safe: !fs,
        node_safe: true,
        cloudflare_workers_safe: !strict_wasi && !big_memory && !no_memory && !big_module,
        restrictions,
    };
    proof {
        assert(r@ =~= spec_sandbox(mv));
    }
    r
}

fn wasi_pred(imports: &Vec<Import>, sel: u8) -> (r: bool)
    requires
        sel <= 11,
    ensures
        sel == 0 ==> r == spec_wasi_cap_needed(imports_view(imports@), "fd_"@),
        sel == 1 ==> r == spec_wasi_cap_needed(imports_view(imports@), "path_"@),
        sel == 2 ==> r == spec_wasi_cap_needed(imports_view(imports@), "sock_"@),
        sel == 3 ==> r == spec_wasi_cap_needed(imports_view(imports@), "proc_"@),
        sel == 4 ==> r == spec_wasi_cap_needed(imports_view(imports@), "environ_"@),
        sel == 5 ==> r == spec_wasi_cap_needed(imports_view(imports@), "clock_"@),
        sel == 6 ==> r == spec_wasi_cap_needed(imports_view(imports@), "random_"@),
        sel == 7 ==> r == spec_wasi_sched_needed(imports_view(imports@)),
        sel == 8 ==> r == spec_wasi_module_is(imports_view(imports@), "wasi_snapshot_preview1"@),
        sel == 9 ==> r == spec_wasi_module_contains(imports_view(imports@), "preview2"@),
        sel == 10 ==> r == spec_wasi_module_is(imports_view(imports@), "wasi_unstable"@),
        sel == 11 ==> r == spec_has_wasi_import(imports_view(imports@)),
    decreases imports@.len(),
{
    let ghost ivs = imports_view(imports@);
    let mut j: usize = 0;
    while j < imports.len()
        invariant
            j <= imports.len(),
            sel <= 11,
            ivs == imports_view(imports@),
            sel == 0 ==> forall|k: int|
                0 <= k < j ==> !(spec_wasi_import(#[trigger] ivs[k]) && spec_str_starts_with(
                    ivs[k].name,
                    "fd_"@,
                )),
            sel == 1 ==> forall|k: int|
                0 <= k < j ==> !(spec_wasi_import(#[trigger] ivs[k]) && spec_str_starts_with(
                    ivs[k].name,
                    "path_"@,
                )),
            sel == 2 ==> forall|k: int|
                0 <= k < j ==> !(spec_wasi_import(#[trigger] ivs[k]) && spec_str_starts_with(
                    ivs[k].name,
                    "sock_"@,
                )),
            sel == 3 ==> forall|k: int|
                0 <= k < j ==> !(spec_wasi_import(#[trigger] ivs[k]) && spec_str_starts_with(
                    ivs[k].name,
                    "proc_"@,
                )),
            sel == 4 ==> forall|k: int|
                0 <= k < j ==> !(spec_wasi_import(#[trigger] ivs[k]) && spec_str_starts_with(
                    ivs[k].name,
                    "environ_"@,
                )),
            sel == 5 ==> forall|k: int|
                0 <= k < j ==> !(spec_wasi_import(#[trigger] ivs[k]) && spec_str_starts_with(
                    ivs[k].name,
                    "clock_"@,
                )),
            sel == 6 ==> forall|k: int|
                0 <= k < j ==> !(spec_wasi_import(#[trigger] ivs[k]) && spec_str_starts_with(
                    ivs[k].name,
                    "random_"@,
                )),
            sel == 7 ==> forall|k: int|
                0 <= k < j ==> !(spec_wasi_import(#[trigger] ivs[k]) && ivs[k].name
                    == "sched_yield"@),
            sel == 8 ==> forall|k: int|
                0 <= k < j ==> !(spec_wasi_import(#[trigger] ivs[k]) && ivs[k].module
                    == "wasi_snapshot_preview1"@),
            sel == 9 ==> forall|k: int|
                0 <= k < j ==> !(spec_wasi_import(#[trigger] ivs[k]) && spec_str_contains(
                    ivs[k].module,
                    "preview2"@,
                )),
            sel == 10 ==> forall|k: int|
                0 <= k < j ==> !(spec_wasi_import(#[trigger] ivs[k]) && ivs[k].module
                    == "wasi_unstable"@),
            sel == 11 ==> forall|k: int| 0 <= k < j ==> !spec_wasi_import(#[trigger] ivs[k]),
        decreases imports.len() - j,
    {
        let i = &imports[j];
        let is_wasi = str_starts_with(i.module.as_str(), "wasi_snapshot") || str_starts_with(
            i.module.as_str(),
            "wasi_unstable",
        );
        let hit = is_wasi && (if sel == 0 {
            str_starts_with(i.name.as_str(), "fd_")
        } else if sel == 1 {
            str_starts_with(i.name.as_str(), "path_")
        } else if sel == 2 {
            str_starts_with(i.name.as_str(), "sock_")
        } else if sel == 3 {
            str_starts_with(i.name.as_str(), "proc_")
        } else if sel == 4 {
            str_starts_with(i.name.as_str(), "environ_")
        } else if sel == 5 {
            str_starts_with(i.name.as_str(), "clock_")
        } else if sel == 6 {
            str_starts_with(i.name.as_str(), "random_")
        } else if sel == 7 {
            str_eq(i.name.as_str(), "sched_yield")
        } else if sel == 8 {
            str_eq(i.module.as_str(), "wasi_snapshot_preview1")
        } else if sel == 9 {
            str_contains(i.module.as_str(), "preview2")
        } else if sel == 10 {
            str_eq(i.module.as_str(), "wasi_unstable")
        } else {
            true
        });
        if hit {
            proof {
                assert(ivs[j as int] == i@);
            }
            return true;
        }
        j = j + 1;
    }
    false
}

#[verifier::rlimit(100)]
#[verifier::spinoff_prover]
fn analyze_wasi_usage(imports: &Vec<Import>) -> (r: WasiUsage)
    ensures
        r@ == spec_wasi_usage(imports_view(imports@)),
{
    let ghost ivs = imports_view(imports@);
    if !wasi_pred(imports, 11) {
        let r = WasiUsage {
            uses_wasi: false,
            wasi_version: None,
            required_capabilities: Vec::new(),
        };
        proof {
            assert(r@ =~= spec_wasi_usage(ivs));
        }
        return r;
    }
    let wasi_version = if wasi_pred(imports, 8) {
        String::from_str("Preview 1")
    } else if wasi_pred(imports, 9) {
        String::from_str("Preview 2")
    } else if wasi_pred(imports, 10) {
        String::from_str("Unstable (Legacy Preview 0/Pre-Preview 1)")
    } else {
        String::from_str("Unknown WASI version")
    };
    let mut caps: Vec<String> = Vec::new();
    if wasi_pred(imports, 0) {
        caps.push(String::from_str("file-system"));
    }
    if wasi_pred(imports, 1) {
        caps.push(String::from_str("file-system-paths"));
    }
    if wasi_pred(imports, 2) {
        caps.push(String::from_str("sockets"));
    }
    if wasi_pred(imports, 3) {
        caps.push(String::from_str("process-control"));
    }
    if wasi_pred(imports, 4) {
        caps.push(String::from_str("environment-variables"));
    }
    if wasi_pred(imports, 5) {
        caps.push(String::from_str("clocks"));
    }
    if wasi_pred(imports, 6) {
        caps.push(String::from_str("randomness"));
    }
    if wasi_pred(imports, 7) {
        caps.push(String::from_str("scheduler"));
    }
    let r = WasiUsage {
        uses_wasi: true,
        wasi_version: Some(wasi_version),
        required_capabilities: caps,
    };
    proof {
        assert(strings_seq_view(r.required_capabilities@) =~= spec_wasi_caps(ivs));
        assert(r@ =~= spec_wasi_usage(ivs));
    }
    r
}

/// Scans one module representation for security signals.
pub struct SecurityAnalyzer<'a> {
    pub module_info: &'a ModuleInfo,
}

impl<'a> SecurityAnalyzer<'a> {
    pub fn new(module_info: &'a ModuleInfo) -> (r: SecurityAnalyzer<'a>)
        ensures
            r.module_info == module_info,
    {
        SecurityAnalyzer { module_info }
    }

    /// The whole security report, pinned by [`spec_security`].
    pub fn analyze(&self) -> (r: SecurityAnalysis)
        ensures
            r@ == spec_security(self.module_info@),
    {
        let capabilities = detect_capabilities(&self.module_info.imports);
        let vulnerabilities = detect_vulnerabilities(self.module_info);
        let sandbox_compatibility = assess_sandbox_compatibility(self.module_info);
        let wasi_usage = analyze_wasi_usage(&self.module_info.imports);
        let r = SecurityAnalysis {
            capabilities,
            vulnerabilities,
            sandbox_compatibility,
            wasi_usage,
        };
        proof {
            assert(r@ =~= spec_security(self.module_info@));
        }
        r
    }
}

} // verus!
