// The downstream analyzers: security, compatibility, the summary, and the
// memory reports.

use wasm_inspector::analyzer::{summarize, ModuleAnalyzer};
use wasm_inspector::analysis::RiskLevel;
use wasm_inspector::memory::MemoryAnalyzer;
use wasm_inspector::parser::{decode, WasmParser};
use wasm_inspector::security::SecurityAnalyzer;
use wasm_inspector::strings::{str_contains, str_contains_ci, str_starts_with};

fn header() -> Vec<u8> {
    vec![0x00, 0x61, 0x73, 0x6d, 0x01, 0x00, 0x00, 0x00]
}

fn section(id: u8, payload: &[u8]) -> Vec<u8> {
    assert!(payload.len() < 128);
    let mut out = vec![id, payload.len() as u8];
    out.extend_from_slice(payload);
    out
}

fn module_with(sections: &[Vec<u8>]) -> Vec<u8> {
    let mut bytes = header();
    for s in sections {
        bytes.extend_from_slice(s);
    }
    bytes
}

const TYPE_SECTION_1: [u8; 7] = [0x01, 0x05, 0x01, 0x60, 0x00, 0x01, 0x7f];

fn tiny_body() -> Vec<u8> {
    vec![0x04, 0x00, 0x41, 0x2a, 0x0b]
}

/// A module with one import `wasi_snapshot_preview1::fd_read`, one defined
/// function, and an export of the defined function as `_start`.
fn wasi_module() -> Vec<u8> {
    let import_payload: &[u8] = &[
        0x01, // one import
        0x16, // module name length 22
        0x77, 0x61, 0x73, 0x69, 0x5f, 0x73, 0x6e, 0x61, 0x70, 0x73, 0x68, 0x6f, 0x74, 0x5f, 0x70,
        0x72, 0x65, 0x76, 0x69, 0x65, 0x77, 0x31, // "wasi_snapshot_preview1"
        0x07, 0x66, 0x64, 0x5f, 0x72, 0x65, 0x61, 0x64, // "fd_read"
        0x00, 0x00, // function kind, type 0
    ];
    module_with(&[
        TYPE_SECTION_1.to_vec(),
        section(2, import_payload),
        section(3, &[0x01, 0x00]),
        section(7, &[0x01, 0x06, 0x5f, 0x73, 0x74, 0x61, 0x72, 0x74, 0x00, 0x01]),
        section(10, &[&[0x01u8][..], &tiny_body()[..]].concat()),
    ])
}

fn minimal_module() -> Vec<u8> {
    module_with(&[
        TYPE_SECTION_1.to_vec(),
        section(3, &[0x01, 0x00]),
        section(7, &[0x01, 0x04, 0x6d, 0x61, 0x69, 0x6e, 0x00, 0x00]),
        section(10, &[&[0x01u8][..], &tiny_body()[..]].concat()),
    ])
}

#[test]
fn test_minimal_wasm_analysis() {
    let bytes = minimal_module();
    let module_info = decode(&bytes).unwrap();
    assert_eq!(module_info.version, 1);
    assert_eq!(module_info.functions.len(), 1, "Incorrect number of defined functions");
    assert_eq!(module_info.exports.len(), 1, "Incorrect number of exports");
    assert_eq!(module_info.imports.len(), 0, "Incorrect number of imports");
    assert_eq!(module_info.exports[0].name, "main");
    assert_eq!(module_info.functions[0].index, 0, "Function index in defined list mismatch");
    assert!(!module_info.functions[0].is_imported);
    assert!(module_info.functions[0].is_exported);

    let analyzer = ModuleAnalyzer::new(module_info, &bytes);
    let security = analyzer.analyze_security();
    assert!(security.capabilities.is_empty(), "Capabilities should be empty for minimal WASM");
    assert!(
        security.vulnerabilities.is_empty(),
        "Vulnerabilities should be empty for minimal WASM"
    );
    assert!(!security.wasi_usage.uses_wasi, "WASI usage should be false for minimal WASM");
    assert!(security.sandbox_compatibility.browser_safe, "Sandbox browser safety mismatch");

    let compatibility = analyzer.analyze_compatibility();
    assert!(compatibility.browser.compatible, "Browser compatibility mismatch");
    assert!(compatibility.node_js.compatible, "Node.js compatibility mismatch");
    assert!(compatibility.wasmtime.compatible, "Wasmtime compatibility mismatch");
    assert_eq!(compatibility.detected_language.as_deref(), Some("C/C++"));
}

#[test]
fn test_quick_analysis() {
    let bytes = minimal_module();
    let module_info = decode(&bytes).unwrap();
    let analyzer = ModuleAnalyzer::new(module_info, &bytes);
    let security = analyzer.analyze_security();
    let compatibility = analyzer.analyze_compatibility();
    let size = analyzer.calculate_module_size();
    let module_info = decode(&bytes).unwrap();
    let summary = summarize(&module_info, &security, &compatibility, size);
    assert_eq!(summary.function_count, 1, "Summary function count mismatch");
    assert_eq!(summary.import_count, 0, "Summary import count mismatch");
    assert_eq!(summary.export_count, 1, "Summary export count mismatch");
    assert!(!summary.has_memory, "Summary memory presence mismatch");
    assert!(!summary.has_start_function, "Summary start function presence mismatch");
    assert!(!summary.uses_wasi, "Summary WASI usage mismatch");
    assert!(matches!(summary.risk_level, RiskLevel::Low), "Summary risk level mismatch");
}

#[test]
fn test_wasi_detection() {
    let bytes = wasi_module();
    let module_info = decode(&bytes).unwrap();
    assert_eq!(module_info.imports.len(), 1, "WASI WASM import count mismatch");
    assert_eq!(module_info.functions.len(), 1, "WASI WASM defined function count mismatch");
    assert_eq!(module_info.exports.len(), 1, "WASI WASM export count mismatch");
    assert_eq!(module_info.imports[0].module, "wasi_snapshot_preview1");
    assert_eq!(module_info.imports[0].name, "fd_read");

    let analyzer = SecurityAnalyzer::new(&module_info);
    let security = analyzer.analyze();
    assert!(security.wasi_usage.uses_wasi, "WASI usage not detected");
    assert_eq!(security.wasi_usage.wasi_version.as_deref(), Some("Preview 1"));
    let caps = &security.wasi_usage.required_capabilities;
    assert!(
        caps.iter().any(
            |c| c.contains("file") || c.contains("filesystem") || c.contains("fd_"),
        ),
        "Required WASI file capabilities not detected. Actual: {:?}",
        caps
    );
    assert!(
        security.capabilities.iter().any(|c| c.name == "File System Access"),
        "General File System Access capability not detected"
    );
    assert!(!security.sandbox_compatibility.browser_safe, "Sandbox browser safety should be false");
    assert!(security.sandbox_compatibility.node_safe, "Sandbox Node.js safety should be true");

    let bytes2 = wasi_module();
    let module_info2 = decode(&bytes2).unwrap();
    let manalyzer = ModuleAnalyzer::new(module_info2, &bytes2);
    let compatibility = manalyzer.analyze_compatibility();
    assert!(!compatibility.browser.compatible, "Browser compatibility should be false");
    assert!(compatibility.node_js.compatible, "Node.js compatibility should be true");
    assert!(compatibility.wasmtime.compatible, "Wasmtime compatibility should be true");
}

#[test]
fn test_analyzer_components() {
    let minimal_bytes = header();
    let parser_result = WasmParser::new(&minimal_bytes);
    assert!(parser_result.is_ok(), "Parser::new should handle minimal WASM");
    let parser = parser_result.unwrap();
    let module_info = parser.parse().unwrap();
    assert_eq!(module_info.version, 1);
    let analyzer = ModuleAnalyzer::new(module_info, &minimal_bytes);
    let graph = analyzer.build_call_graph();
    assert!(graph.nodes.is_empty());
}

#[test]
fn test_suspicious_import_vulnerability() {
    // An import whose name contains "eval" yields the suspicious-import
    // vulnerability; comparison ignores ASCII case.
    let import_payload: &[u8] = &[
        0x01, 0x03, 0x65, 0x6e, 0x76, // "env"
        0x04, 0x45, 0x76, 0x61, 0x6c, // "Eval"
        0x00, 0x00,
    ];
    let bytes = module_with(&[TYPE_SECTION_1.to_vec(), section(2, import_payload)]);
    let module_info = decode(&bytes).unwrap();
    let analyzer = SecurityAnalyzer::new(&module_info);
    let security = analyzer.analyze();
    assert_eq!(security.vulnerabilities.len(), 1);
    let v = &security.vulnerabilities[0];
    assert_eq!(v.id, "SUSPICIOUS_IMPORT");
    assert_eq!(v.description, "Suspicious import function: Eval");
    assert_eq!(v.location, "Import: env::Eval");
    assert!(matches!(v.severity, RiskLevel::High));
}

#[test]
fn test_unbounded_memory_vulnerability() {
    let bytes = module_with(&[section(5, &[0x01, 0x00, 0x01])]);
    let module_info = decode(&bytes).unwrap();
    let analyzer = SecurityAnalyzer::new(&module_info);
    let security = analyzer.analyze();
    assert!(security.vulnerabilities.iter().any(|v| v.id == "UNBOUNDED_MEMORY"));
}

#[test]
fn test_memory_analyzer() {
    // One function whose body stores a constant: an offset-4 store of 4
    // bytes shows up in the extracted operation table.
    let body: &[u8] = &[0x0b, 0x00, 0x41, 0x00, 0x41, 0x2a, 0x36, 0x02, 0x04, 0x41, 0x2a, 0x0b];
    let bytes = module_with(&[
        TYPE_SECTION_1.to_vec(),
        section(5, &[0x01, 0x00, 0x01]),
        section(3, &[0x01, 0x00]),
        section(10, &[&[0x01u8][..], body].concat()),
    ]);
    let module_info = decode(&bytes).unwrap();
    let analyzer = MemoryAnalyzer::new(&module_info, &bytes);
    let ops = analyzer.extract_memory_operations().unwrap();
    assert_eq!(ops.len(), 1);
    assert_eq!(ops[0].0, 0);
    assert_eq!(ops[0].1.len(), 1);
    assert_eq!(ops[0].1[0].offset, Some(4));
    assert_eq!(ops[0].1[0].size, Some(4));
    let layout = analyzer.analyze_memory_layout(&ops);
    assert_eq!(layout.total_initial_size, 65536);
    assert_eq!(layout.total_max_size, None);
    assert!(!layout.heap_estimation.uses_dynamic_allocation);
    assert_eq!(layout.stack_estimation.estimated_max_depth, 0);
}

#[test]
fn test_memory_usage_estimate() {
    // Two pages of memory and a function with four declared i64 locals.
    let body: &[u8] = &[0x06, 0x01, 0x04, 0x7e, 0x41, 0x2a, 0x0b];
    let bytes = module_with(&[
        TYPE_SECTION_1.to_vec(),
        section(5, &[0x01, 0x01, 0x02, 0x04]),
        section(3, &[0x01, 0x00]),
        section(10, &[&[0x01u8][..], body].concat()),
    ]);
    let module_info = decode(&bytes).unwrap();
    let analyzer = ModuleAnalyzer::new(module_info, &bytes);
    let usage = analyzer.estimate_memory_usage();
    assert_eq!(usage.initial_memory_kb, 128);
    assert_eq!(usage.max_memory_kb, Some(256));
    // Four 8-byte locals are 32 bytes: under one KiB.
    assert_eq!(usage.stack_usage_estimate_kb, 0);
}

#[test]
fn test_optimization_suggestions() {
    // A module with dead code and an unbounded memory yields the matching
    // suggestions.
    let bytes = module_with(&[
        TYPE_SECTION_1.to_vec(),
        section(5, &[0x01, 0x00, 0x01]),
        section(3, &[0x02, 0x00, 0x00]),
        section(7, &[0x01, 0x01, 0x61, 0x00, 0x00]),
        section(10, &[&[0x02u8][..], &tiny_body()[..], &tiny_body()[..]].concat()),
    ]);
    let module_info = decode(&bytes).unwrap();
    let analyzer = ModuleAnalyzer::new(module_info, &bytes);
    let graph = analyzer.build_call_graph();
    let suggestions = analyzer.generate_optimization_suggestions(&graph);
    assert_eq!(suggestions.len(), 2);
    assert_eq!(suggestions[0].category, "Dead Code");
    assert_eq!(
        suggestions[0].description,
        "Found 1 unreachable functions (potential dead code)"
    );
    assert_eq!(suggestions[1].category, "Memory");
}

#[test]
fn test_text_matching() {
    assert!(str_contains("wasi_snapshot_preview1", "snapshot"));
    assert!(!str_contains("abc", "abd"));
    assert!(str_contains("", ""));
    assert!(str_contains_ci("MemEncryptBlock", "encrypt"));
    assert!(!str_contains_ci("clear", "encrypt"));
    assert!(str_starts_with("wasi_unstable", "wasi"));
    assert!(!str_starts_with("was", "wasi"));
}

#[test]
fn test_language_detection_rust() {
    // A custom section named "name" marks a Rust-style build.
    let bytes = module_with(&[section(0, &[0x04, 0x6e, 0x61, 0x6d, 0x65])]);
    let module_info = decode(&bytes).unwrap();
    let analyzer = ModuleAnalyzer::new(module_info, &bytes);
    assert_eq!(analyzer.detect_source_language().as_deref(), Some("Rust"));
}

#[test]
fn test_allocation_patterns() {
    // A body that grows memory and a static data segment yield the dynamic
    // growth and static allocation patterns, and the optimization notes
    // include the missing memory ceiling.
    let body: &[u8] = &[0x07, 0x00, 0x41, 0x01, 0x40, 0x00, 0x1a, 0x0b];
    let bytes = module_with(&[
        TYPE_SECTION_1.to_vec(),
        section(5, &[0x01, 0x00, 0x01]),
        section(3, &[0x01, 0x00]),
        section(10, &[&[0x01u8][..], body].concat()),
        section(11, &[0x01, 0x00, 0x41, 0x00, 0x0b, 0x02, 0x61, 0x62]),
    ]);
    let module_info = decode(&bytes).unwrap();
    let analyzer = MemoryAnalyzer::new(&module_info, &bytes);
    let ops = analyzer.extract_memory_operations().unwrap();
    let patterns = analyzer.analyze_allocation_patterns(&ops);
    assert_eq!(patterns.len(), 2);
    assert!(matches!(
        patterns[0].pattern_type,
        wasm_inspector::memory::AllocationType::DynamicGrowth
    ));
    assert_eq!(patterns[0].functions_involved, vec![0]);
    assert!(matches!(
        patterns[1].pattern_type,
        wasm_inspector::memory::AllocationType::StaticAllocation
    ));
    assert_eq!(patterns[1].average_size, 2);
    let opts = analyzer.identify_optimizations(&patterns);
    assert_eq!(opts.len(), 1);
    assert!(matches!(
        opts[0].optimization_type,
        wasm_inspector::memory::OptimizationType::SetMemoryLimits
    ));
    let heap = analyzer.analyze_heap_usage(&ops);
    assert!(heap.uses_dynamic_allocation);
    assert_eq!(heap.estimated_heap_usage, 32768);
}
