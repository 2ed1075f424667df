//! Result types of the downstream analyzers: security capabilities and
//! vulnerabilities, sandbox and runtime compatibility, and the module
//! summary.  These consume the decoded representation and the call graph as
//! read-only inputs.

use vstd::prelude::*;

verus! {

#[derive(Debug, Clone)]
pub struct SecurityAnalysis {
    pub capabilities: Vec<Capability>,
    pub vulnerabilities: Vec<Vulnerability>,
    pub sandbox_compatibility: SandboxCompatibility,
    pub wasi_usage: WasiUsage,
}

#[derive(Debug, Clone)]
pub struct Capability {
    pub name: String,
    pub description: String,
    pub risk_level: RiskLevel,
    pub evidence: Vec<String>,
}

#[derive(Debug, Clone, Copy, PartialEq, Eq, PartialOrd, Ord, Structural)]
pub enum RiskLevel {
    Low,
    Medium,
    High,
    Critical,
}

#[derive(Debug, Clone)]
pub struct Vulnerability {
    pub id: String,
    pub description: String,
    pub severity: RiskLevel,
    pub location: String,
}

#[derive(Debug, Clone)]
pub struct SandboxCompatibility {
    pub browser_safe: bool,
    pub node_safe: bool,
    pub cloudflare_workers_safe: bool,
    pub restrictions: Vec<String>,
}

#[derive(Debug, Clone)]
pub struct WasiUsage {
    pub uses_wasi: bool,
    pub wasi_version: Option<String>,
    pub required_capabilities: Vec<String>,
}

#[derive(Debug, Clone)]
pub struct CompatibilityMatrix {
    pub wasmtime: CompatibilityStatus,
    pub wasmer: CompatibilityStatus,
    pub browser: CompatibilityStatus,
    pub node_js: CompatibilityStatus,
    pub deno: CompatibilityStatus,
    pub cloudflare_workers: CompatibilityStatus,
    pub detected_language: Option<String>,
}

#[derive(Debug, Clone)]
pub struct CompatibilityStatus {
    pub compatible: bool,
    pub issues: Vec<String>,
    pub required_features: Vec<String>,
}

#[derive(Debug, Clone, Copy, PartialEq, Eq, Structural)]
pub struct MemoryUsageEstimate {
    pub initial_memory_kb: u32,
    pub max_memory_kb: Option<u32>,
    pub stack_usage_estimate_kb: u32,
}

#[derive(Debug, Clone)]
pub struct OptimizationSuggestion {
    pub category: String,
    pub description: String,
    pub potential_savings: Option<String>,
}

#[derive(Debug, Clone)]
pub struct ModuleSummary {
    pub size_bytes: u32,
    pub function_count: u32,
    pub import_count: u32,
    pub export_count: u32,
    pub has_memory: bool,
    pub has_start_function: bool,
    pub uses_wasi: bool,
    pub risk_level: RiskLevel,
    pub estimated_language: Option<String>,
}

// ----------------------------------------------------------------------------
// Ghost twins and views.

#[verifier::ext_equal]
pub ghost struct CapabilityView {
    pub name: Seq<char>,
    pub description: Seq<char>,
    pub risk_level: RiskLevel,
    pub evidence: Seq<Seq<char>>,
}

#[verifier::ext_equal]
pub ghost struct VulnerabilityView {
    pub id: Seq<char>,
    pub description: Seq<char>,
    pub severity: RiskLevel,
    pub location: Seq<char>,
}

#[verifier::ext_equal]
pub ghost struct SandboxCompatibilityView {
    pub browser_safe: bool,
    pub node_safe: bool,
    pub cloudflare_workers_safe: bool,
    pub restrictions: Seq<Seq<char>>,
}

#[verifier::ext_equal]
pub ghost struct WasiUsageView {
    pub uses_wasi: bool,
    pub wasi_version: Option<Seq<char>>,
    pub required_capabilities: Seq<Seq<char>>,
}

#[verifier::ext_equal]
pub ghost struct SecurityAnalysisView {
    pub capabilities: Seq<CapabilityView>,
    pub vulnerabilities: Seq<VulnerabilityView>,
    pub sandbox_compatibility: SandboxCompatibilityView,
    pub wasi_usage: WasiUsageView,
}

#[verifier::ext_equal]
pub ghost struct CompatibilityStatusView {
    pub compatible: bool,
    pub issues: Seq<Seq<char>>,
    pub required_features: Seq<Seq<char>>,
}

#[verifier::ext_equal]
pub ghost struct CompatibilityMatrixView {
    pub wasmtime: CompatibilityStatusView,
    pub wasmer: CompatibilityStatusView,
    pub browser: CompatibilityStatusView,
    pub node_js: CompatibilityStatusView,
    pub deno: CompatibilityStatusView,
    pub cloudflare_workers: CompatibilityStatusView,
    pub detected_language: Option<Seq<char>>,
}

#[verifier::ext_equal]
pub ghost struct OptimizationSuggestionView {
    pub category: Seq<char>,
    pub description: Seq<char>,
    pub potential_savings: Option<Seq<char>>,
}

#[verifier::ext_equal]
pub ghost struct ModuleSummaryView {
    pub size_bytes: u32,
    pub function_count: u32,
    pub import_count: u32,
    pub export_count: u32,
    pub has_memory: bool,
    pub has_start_function: bool,
    pub uses_wasi: bool,
    pub risk_level: RiskLevel,
    pub estimated_language: Option<Seq<char>>,
}

pub open spec fn strings_seq_view(v: Seq<String>) -> Seq<Seq<char>> {
    v.map_values(|x: String| x@)
}

pub open spec fn caps_view(v: Seq<Capability>) -> Seq<CapabilityView> {
    v.map_values(|x: Capability| x@)
}

pub open spec fn vulns_view(v: Seq<Vulnerability>) -> Seq<VulnerabilityView> {
    v.map_values(|x: Vulnerability| x@)
}

impl View for Capability {
    type V = CapabilityView;

    open spec fn view(&self) -> CapabilityView {
        CapabilityView {
            name: self.name@,
            description: self.description@,
            risk_level: self.risk_level,
            evidence: strings_seq_view(self.evidence@),
        }
    }
}

impl View for Vulnerability {
    type V = VulnerabilityView;

    open spec fn view(&self) -> VulnerabilityView {
        VulnerabilityView {
            id: self.id@,
            description: self.description@,
            severity: self.severity,
            location: self.location@,
        }
    }
}

impl View for SandboxCompatibility {
    type V = SandboxCompatibilityView;

    open spec fn view(&self) -> SandboxCompatibilityView {
        SandboxCompatibilityView {
            browser_safe: self.browser_safe,
            node_safe: self.node_safe,
            cloudflare_workers_safe: self.cloudflare_workers_safe,
            restrictions: strings_seq_view(self.restrictions@),
        }
    }
}

impl View for WasiUsage {
    type V = WasiUsageView;

    open spec fn view(&self) -> WasiUsageView {
        WasiUsageView {
            uses_wasi: self.uses_wasi,
            wasi_version: crate::types::view_of_opt_string(self.wasi_version),
            required_capabilities: strings_seq_view(self.required_capabilities@),
        }
    }
}

impl View for SecurityAnalysis {
    type V = SecurityAnalysisView;

    open spec fn view(&self) -> SecurityAnalysisView {
        SecurityAnalysisView {
            capabilities: caps_view(self.capabilities@),
            vulnerabilities: vulns_view(self.vulnerabilities@),
            sandbox_compatibility: self.sandbox_compatibility@,
            wasi_usage: self.wasi_usage@,
        }
    }
}

impl View for CompatibilityStatus {
    type V = CompatibilityStatusView;

    open spec fn view(&self) -> CompatibilityStatusView {
        CompatibilityStatusView {
            compatible: self.compatible,
            issues: strings_seq_view(self.issues@),
            required_features: strings_seq_view(self.required_features@),
        }
    }
}

impl View for CompatibilityMatrix {
    type V = CompatibilityMatrixView;

    open spec fn view(&self) -> CompatibilityMatrixView {
        CompatibilityMatrixView {
            wasmtime: self.wasmtime@,
            wasmer: self.wasmer@,
            browser: self.browser@,
            node_js: self.node_js@,
            deno: self.deno@,
            cloudflare_workers: self.cloudflare_workers@,
            detected_language: crate::types::view_of_opt_string(self.detected_language),
        }
    }
}

impl View for OptimizationSuggestion {
    type V = OptimizationSuggestionView;

    open spec fn view(&self) -> OptimizationSuggestionView {
        OptimizationSuggestionView {
            category: self.category@,
            description: self.description@,
            potential_savings: crate::types::view_of_opt_string(self.potential_savings),
        }
    }
}

impl View for ModuleSummary {
    type V = ModuleSummaryView;

    open spec fn view(&self) -> ModuleSummaryView {
        ModuleSummaryView {
            size_bytes: self.size_bytes,
            function_count: self.function_count,
            import_count: self.import_count,
            export_count: self.export_count,
            has_memory: self.has_memory,
            has_start_function: self.has_start_function,
            uses_wasi: self.uses_wasi,
            risk_level: self.risk_level,
            estimated_language: crate::types::view_of_opt_string(self.estimated_language),
        }
    }
}

} // verus!
