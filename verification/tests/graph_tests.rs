// The call graph: nodes, edges, entry points and their fallback, and
// dead-code detection.

use wasm_inspector::graph::{build_call_graph, CallGraphBuilder};
use wasm_inspector::parser::decode;
use wasm_inspector::types::{Export, ExportKind, Function, Import, ImportKind, ModuleInfo};

fn header() -> Vec<u8> {
    vec![0x00, 0x61, 0x73, 0x6d, 0x01, 0x00, 0x00, 0x00]
}

fn section(id: u8, payload: &[u8]) -> Vec<u8> {
    assert!(payload.len() < 128);
    let mut out = vec![id, payload.len() as u8];
    out.extend_from_slice(payload);
    out
}

fn module_with(sections: &[Vec<u8>]) -> Vec<u8> {
    let mut bytes = header();
    for s in sections {
        bytes.extend_from_slice(s);
    }
    bytes
}

const TYPE_SECTION_1: [u8; 7] = [0x01, 0x05, 0x01, 0x60, 0x00, 0x01, 0x7f];

fn tiny_body() -> Vec<u8> {
    vec![0x04, 0x00, 0x41, 0x2a, 0x0b]
}

#[test]
fn test_dead_code_detection() {
    // Function A (index 0) is exported and calls nothing; function B
    // (index 1) is defined, never called, never exported.
    let bytes = module_with(&[
        TYPE_SECTION_1.to_vec(),
        section(3, &[0x02, 0x00, 0x00]),
        section(7, &[0x01, 0x01, 0x61, 0x00, 0x00]), // export "a" -> func 0
        section(10, &[&[0x02u8][..], &tiny_body()[..], &tiny_body()[..]].concat()),
    ]);
    let m = decode(&bytes).unwrap();
    let g = build_call_graph(&m);
    assert_eq!(g.entry_points, vec![0]);
    assert_eq!(g.unreachable_functions, vec![1]);
    assert_eq!(g.nodes.len(), 2);
    assert!(g.nodes[0].is_exported);
    assert!(!g.nodes[1].is_exported);
    assert!(g.edges.is_empty());
}

#[test]
fn test_entry_point_fallback() {
    // Zero exports, no start function, exactly one defined function: the
    // fallback entry point is that function.
    let bytes = module_with(&[
        TYPE_SECTION_1.to_vec(),
        section(3, &[0x01, 0x00]),
        section(10, &[&[0x01u8][..], &tiny_body()[..]].concat()),
    ]);
    let m = decode(&bytes).unwrap();
    let g = build_call_graph(&m);
    assert_eq!(g.entry_points, vec![0]);
    assert!(g.unreachable_functions.is_empty());
}

#[test]
fn test_edges_count_call_sites() {
    // The first function calls the second twice and the third once; edges
    // are deduplicated with call-site counts and sorted.
    let caller_body: &[u8] = &[0x08, 0x00, 0x10, 0x01, 0x10, 0x02, 0x10, 0x01, 0x0b];
    let bytes = module_with(&[
        TYPE_SECTION_1.to_vec(),
        section(3, &[0x03, 0x00, 0x00, 0x00]),
        section(7, &[0x01, 0x01, 0x61, 0x00, 0x00]),
        section(
            10,
            &[&[0x03u8][..], caller_body, &tiny_body()[..], &tiny_body()[..]].concat(),
        ),
    ]);
    let m = decode(&bytes).unwrap();
    let g = build_call_graph(&m);
    assert_eq!(g.edges.len(), 2);
    assert_eq!((g.edges[0].from, g.edges[0].to, g.edges[0].call_sites), (0, 1, 2));
    assert_eq!((g.edges[1].from, g.edges[1].to, g.edges[1].call_sites), (0, 2, 1));
    // Everything is reachable from the exported entry.
    assert!(g.unreachable_functions.is_empty());
    // Inbound call-site tallies.
    assert_eq!(g.nodes[1].call_count, 2);
    assert_eq!(g.nodes[2].call_count, 1);
}

#[test]
fn test_import_nodes_are_reachable() {
    // An imported function is unconditionally reachable and keeps its
    // import-derived name; a defined function that only the import range
    // precedes is numbered after it.
    let import_payload: &[u8] = &[
        0x01, 0x03, 0x65, 0x6e, 0x76, 0x01, 0x66, 0x00, 0x00,
    ];
    let bytes = module_with(&[
        TYPE_SECTION_1.to_vec(),
        section(2, import_payload),
        section(3, &[0x01, 0x00]),
        section(7, &[0x01, 0x04, 0x6d, 0x61, 0x69, 0x6e, 0x00, 0x01]),
        section(10, &[&[0x01u8][..], &tiny_body()[..]].concat()),
    ]);
    let m = decode(&bytes).unwrap();
    let g = build_call_graph(&m);
    assert_eq!(g.nodes.len(), 2);
    assert_eq!(g.nodes[0].function_index, 0);
    assert!(g.nodes[0].is_imported);
    assert_eq!(g.nodes[0].name.as_deref(), Some("env::f (import)"));
    assert_eq!(g.nodes[1].function_index, 1);
    assert!(!g.nodes[1].is_imported);
    assert_eq!(g.entry_points, vec![1]);
    assert!(g.unreachable_functions.is_empty());
}

#[test]
fn test_defensive_nodes_for_unknown_callees() {
    // A call fact naming an index beyond every declared entity still gets a
    // node instead of failing the build.
    let caller_body: &[u8] = &[0x04, 0x00, 0x10, 0x09, 0x0b];
    let bytes = module_with(&[
        TYPE_SECTION_1.to_vec(),
        section(3, &[0x01, 0x00]),
        section(7, &[0x01, 0x01, 0x61, 0x00, 0x00]),
        section(10, &[&[0x01u8][..], caller_body].concat()),
    ]);
    let m = decode(&bytes).unwrap();
    let g = build_call_graph(&m);
    assert_eq!(g.nodes.len(), 2);
    assert_eq!(g.nodes[1].function_index, 9);
    assert_eq!(g.nodes[1].name.as_deref(), Some("func_9 (implicit_callee)"));
    // The phantom callee is reached through the exported caller.
    assert!(g.unreachable_functions.is_empty());
}

#[test]
fn test_start_function_is_entry_point() {
    let bytes = module_with(&[
        TYPE_SECTION_1.to_vec(),
        section(3, &[0x02, 0x00, 0x00]),
        section(8, &[0x01]),
        section(10, &[&[0x02u8][..], &tiny_body()[..], &tiny_body()[..]].concat()),
    ]);
    let m = decode(&bytes).unwrap();
    let g = build_call_graph(&m);
    assert_eq!(g.entry_points, vec![1]);
    assert_eq!(g.unreachable_functions, vec![0]);
}

#[test]
fn test_builder_wrapper() {
    let bytes = header();
    let m = decode(&bytes).unwrap();
    let mut builder = CallGraphBuilder::new(&m);
    let g = builder.build();
    assert!(g.nodes.is_empty());
    assert!(g.edges.is_empty());
    assert!(g.entry_points.is_empty());
    assert!(g.unreachable_functions.is_empty());
}

#[test]
fn test_reachability_is_transitive() {
    // a -> b -> c, all unexported except a; nothing is dead.  A fourth
    // function d stays unreachable.
    let call1: &[u8] = &[0x04, 0x00, 0x10, 0x01, 0x0b];
    let call2: &[u8] = &[0x04, 0x00, 0x10, 0x02, 0x0b];
    let bytes = module_with(&[
        TYPE_SECTION_1.to_vec(),
        section(3, &[0x04, 0x00, 0x00, 0x00, 0x00]),
        section(7, &[0x01, 0x01, 0x61, 0x00, 0x00]),
        section(
            10,
            &[&[0x04u8][..], call1, call2, &tiny_body()[..], &tiny_body()[..]].concat(),
        ),
    ]);
    let m = decode(&bytes).unwrap();
    let g = build_call_graph(&m);
    assert_eq!(g.unreachable_functions, vec![3]);
}

#[test]
fn test_import_entry_point_reaches_callee() {
    // The reachability walk is a plain forward closure from the entry
    // points: even when the only entry point is an imported function, a call
    // fact out of it reaches its callee.  Such a fact cannot come from a
    // decoded body, so the representation is built by hand.
    let m = ModuleInfo {
        version: 1,
        imports: vec![Import {
            module: String::from("env"),
            name: String::from("f"),
            kind: ImportKind::Function { type_index: 0 },
            index: 0,
        }],
        exports: vec![Export {
            name: String::from("f"),
            kind: ExportKind::Function,
            index: 0,
        }],
        functions: vec![Function {
            index: 1,
            type_index: 0,
            locals: Vec::new(),
            body_size: 3,
            is_imported: false,
            is_exported: false,
            name: None,
        }],
        memory: None,
        tables: Vec::new(),
        globals: Vec::new(),
        data_segments: Vec::new(),
        element_segments: Vec::new(),
        start_function: None,
        custom_sections: Vec::new(),
        function_call_instructions: vec![(0, 1)],
        type_signatures: Vec::new(),
    };
    let g = build_call_graph(&m);
    assert_eq!(g.entry_points, vec![0]);
    assert!(g.unreachable_functions.is_empty());
}

#[test]
fn test_unreachable_holds_only_defined_functions() {
    // A dead defined function that calls a dangling index: the dangling
    // callee gets a defensive node but never counts as dead code, because it
    // is not a defined function.
    let a_body: &[u8] = &[0x04, 0x00, 0x10, 0x09, 0x0b];
    let bytes = module_with(&[
        TYPE_SECTION_1.to_vec(),
        section(3, &[0x02, 0x00, 0x00]),
        section(7, &[0x01, 0x01, 0x61, 0x00, 0x00]), // export "a" -> func 0
        section(10, &[&[0x02u8][..], &tiny_body()[..], a_body].concat()),
    ]);
    let m = decode(&bytes).unwrap();
    let g = build_call_graph(&m);
    // Function 1 is dead and calls dangling index 9; 9 appears as a node but
    // not among the dead-code candidates.
    assert_eq!(g.nodes.len(), 3);
    assert_eq!(g.nodes[2].function_index, 9);
    assert_eq!(g.unreachable_functions, vec![1]);
}
