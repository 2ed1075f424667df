// Decoding: the fixed header, section framing, index unification, the
// metadata backfill, and the rejection of malformed input.

use std::time::Instant;
use wasm_inspector::parser::{decode, WasmParser};
use wasm_inspector::types::{DecodeError, ExportKind, ImportKind};

fn header() -> Vec<u8> {
    vec![0x00, 0x61, 0x73, 0x6d, 0x01, 0x00, 0x00, 0x00]
}

/// One section with a single-byte size prefix; payloads stay under 128 bytes.
fn section(id: u8, payload: &[u8]) -> Vec<u8> {
    assert!(payload.len() < 128);
    let mut out = vec![id, payload.len() as u8];
    out.extend_from_slice(payload);
    out
}

/// A module with one `()->i32` type, `n` defined functions of that type, the
/// given export and code sections appended.
fn module_with(sections: &[Vec<u8>]) -> Vec<u8> {
    let mut bytes = header();
    for s in sections {
        bytes.extend_from_slice(s);
    }
    bytes
}

const TYPE_SECTION_1: [u8; 7] = [0x01, 0x05, 0x01, 0x60, 0x00, 0x01, 0x7f];

fn tiny_body() -> Vec<u8> {
    // body size 4: no locals, i32.const 42, end
    vec![0x04, 0x00, 0x41, 0x2a, 0x0b]
}

#[test]
fn test_invalid_wasm() {
    let invalid_bytes = &[0x00, 0x00, 0x00, 0x00];
    let result = decode(invalid_bytes);
    assert!(result.is_err());
}

#[test]
fn test_empty_wasm() {
    let empty_bytes = &[];
    let result = decode(empty_bytes);
    assert!(result.is_err());
}

#[test]
fn test_magic_number_validation() {
    // Valid magic number but truncated
    let truncated_wasm = &[0x00, 0x61, 0x73, 0x6d];
    let result = decode(truncated_wasm);
    assert!(result.is_err());
}

#[test]
fn test_wrong_magic_number() {
    let wrong_magic = &[0xFF, 0xFF, 0xFF, 0xFF, 0x01, 0x00, 0x00, 0x00];
    let result = decode(wrong_magic);
    assert!(result.is_err());
}

#[test]
fn test_basic_module_structure() {
    // A truly minimal module: just magic + version.
    let minimal_wasm = header();
    let analysis = decode(&minimal_wasm).unwrap();
    assert_eq!(analysis.version, 1);
    assert_eq!(analysis.functions.len(), 0);
    assert_eq!(analysis.imports.len(), 0);
    assert_eq!(analysis.exports.len(), 0);
    assert!(analysis.memory.is_none());
    assert!(analysis.tables.is_empty());
    assert!(analysis.globals.is_empty());
    assert!(analysis.data_segments.is_empty());
    assert!(analysis.element_segments.is_empty());
    assert!(analysis.start_function.is_none());
    assert!(analysis.custom_sections.is_empty());
    assert!(analysis.function_call_instructions.is_empty());
    assert!(analysis.type_signatures.is_empty());
}

#[test]
fn test_basic_error_handling() {
    let test_cases: Vec<(Vec<u8>, &str)> = vec![
        (vec![], "empty input"),
        (vec![0x00, 0x61, 0x73], "incomplete magic"),
        (vec![0xFF, 0xFF, 0xFF, 0xFF], "wrong magic"),
        (
            vec![0x00, 0x61, 0x73, 0x6d, 0x01, 0x00, 0x00, 0x00, 0xEE],
            "valid header, invalid section id",
        ),
    ];
    for (i, (test_case, desc)) in test_cases.iter().enumerate() {
        let result = decode(test_case);
        assert!(
            result.is_err(),
            "Test case {} ('{}') should fail but didn't. Result: {:?}",
            i,
            desc,
            result
        );
    }
}

#[test]
fn test_error_kinds() {
    // Wrong magic and truncated headers map to their own kinds.
    assert_eq!(decode(&[0xFF, 0xFF, 0xFF, 0xFF]).unwrap_err(), DecodeError::BadMagic);
    assert_eq!(decode(&[0x00, 0x61, 0x73]).unwrap_err(), DecodeError::Truncated);
    assert_eq!(
        decode(&[0x00, 0x61, 0x73, 0x6d, 0x02, 0x00, 0x00, 0x00]).unwrap_err(),
        DecodeError::BadVersion
    );
    // A section whose declared size runs past the buffer.
    let mut bytes = header();
    bytes.extend_from_slice(&[0x01, 0x7f]);
    assert_eq!(decode(&bytes).unwrap_err(), DecodeError::Truncated);
    // A type section whose count disagrees with its content.
    let mut bytes = header();
    bytes.extend_from_slice(&section(1, &[0x02, 0x60, 0x00, 0x00]));
    assert!(decode(&bytes).is_err());
    // A code entry without a declared function.
    let mut bytes = header();
    bytes.extend_from_slice(&section(10, &[0x01, 0x02, 0x00, 0x0b]));
    assert_eq!(decode(&bytes).unwrap_err(), DecodeError::DanglingIndex);
}

#[test]
fn test_unknown_sections_are_skipped() {
    // An unrecognized section id with a well-formed size never fails the
    // decode.
    let mut bytes = header();
    bytes.extend_from_slice(&section(0x30, &[0xde, 0xad, 0xbe, 0xef]));
    let m = decode(&bytes).unwrap();
    assert_eq!(m.version, 1);
    assert!(m.functions.is_empty());
}

#[test]
fn test_minimal_module_with_one_function() {
    // One type, one defined function exported as "main".
    let bytes = module_with(&[
        TYPE_SECTION_1.to_vec(),
        section(3, &[0x01, 0x00]),
        section(7, &[0x01, 0x04, 0x6d, 0x61, 0x69, 0x6e, 0x00, 0x00]),
        section(10, &[&[0x01u8][..], &tiny_body()[..]].concat()),
    ]);
    let m = decode(&bytes).unwrap();
    assert_eq!(m.version, 1);
    assert_eq!(m.functions.len(), 1);
    assert_eq!(m.exports.len(), 1);
    assert_eq!(m.imports.len(), 0);
    let export = &m.exports[0];
    assert_eq!(export.name, "main");
    assert!(matches!(export.kind, ExportKind::Function));
    let function = &m.functions[0];
    assert_eq!(function.index, 0);
    assert!(!function.is_imported);
    assert!(function.is_exported);
    assert_eq!(function.name.as_deref(), Some("main"));
    assert_eq!(function.body_size, 3);
    assert_eq!(m.type_signatures.len(), 1);
    assert_eq!(m.type_signatures[0], "()->(i32)");
}

#[test]
fn test_import_then_defined_numbering() {
    // One function-kind import followed by one defined function: the import
    // takes global index zero, the defined function global index one, and
    // exporting index one resolves to the defined function.
    let import_payload: &[u8] = &[
        0x01, // one import
        0x03, 0x65, 0x6e, 0x76, // module "env"
        0x01, 0x66, // name "f"
        0x00, 0x00, // function kind, type index 0
    ];
    let bytes = module_with(&[
        TYPE_SECTION_1.to_vec(),
        section(2, import_payload),
        section(3, &[0x01, 0x00]),
        section(7, &[0x01, 0x04, 0x6d, 0x61, 0x69, 0x6e, 0x00, 0x01]),
        section(10, &[&[0x01u8][..], &tiny_body()[..]].concat()),
    ]);
    let m = decode(&bytes).unwrap();
    assert_eq!(m.imports.len(), 1);
    assert_eq!(m.imports[0].module, "env");
    assert_eq!(m.imports[0].name, "f");
    assert!(matches!(m.imports[0].kind, ImportKind::Function { type_index: 0 }));
    assert_eq!(m.functions.len(), 1);
    assert_eq!(m.functions[0].index, 1);
    assert!(m.functions[0].is_exported);
    assert_eq!(m.functions[0].name.as_deref(), Some("main"));
}

#[test]
fn test_call_facts_are_recorded() {
    // Two defined functions; the first calls the second twice.
    let caller_body: &[u8] = &[0x06, 0x00, 0x10, 0x01, 0x10, 0x01, 0x0b];
    let bytes = module_with(&[
        TYPE_SECTION_1.to_vec(),
        section(3, &[0x02, 0x00, 0x00]),
        section(10, &[&[0x02u8][..], caller_body, &tiny_body()[..]].concat()),
    ]);
    let m = decode(&bytes).unwrap();
    assert_eq!(m.functions.len(), 2);
    assert_eq!(m.function_call_instructions, vec![(0, 1), (0, 1)]);
}

#[test]
fn test_memory_table_global_sections() {
    let bytes = module_with(&[
        section(5, &[0x01, 0x01, 0x02, 0x10]), // memory: min 2, max 16
        section(4, &[0x01, 0x70, 0x00, 0x05]), // table: funcref, min 5
        section(6, &[0x01, 0x7f, 0x01, 0x41, 0x00, 0x0b]), // one mutable i32 global
    ]);
    let m = decode(&bytes).unwrap();
    let mem = m.memory.unwrap();
    assert_eq!(mem.initial, 2);
    assert_eq!(mem.maximum, Some(16));
    assert!(!mem.shared);
    assert_eq!(m.tables.len(), 1);
    assert_eq!(m.tables[0].table_type.element_type, "funcref");
    assert_eq!(m.tables[0].table_type.initial, 5);
    assert_eq!(m.globals.len(), 1);
    assert_eq!(m.globals[0].global_type.value_type, "i32");
    assert!(m.globals[0].global_type.mutable);
}

#[test]
fn test_data_segment_offsets() {
    // Active data segment with offset expression `i32.const 7`.
    let bytes = module_with(&[
        section(5, &[0x01, 0x00, 0x01]),
        section(11, &[0x01, 0x00, 0x41, 0x07, 0x0b, 0x03, 0x61, 0x62, 0x63]),
    ]);
    let m = decode(&bytes).unwrap();
    assert_eq!(m.data_segments.len(), 1);
    let d = &m.data_segments[0];
    assert_eq!(d.index, 0);
    assert_eq!(d.memory_index, 0);
    assert_eq!(d.offset, Some(7));
    assert_eq!(d.size, 3);
    assert!(!d.is_passive);
}

#[test]
fn test_unresolved_data_offset_is_absent() {
    // An active data segment whose offset expression is not a single pushed
    // constant keeps an unresolved (absent) offset; a passive segment has
    // none either.
    let bytes = module_with(&[
        section(5, &[0x01, 0x00, 0x01]),
        section(6, &[0x01, 0x7f, 0x00, 0x41, 0x00, 0x0b]),
        section(
            11,
            &[
                0x02, // two segments
                0x00, 0x23, 0x00, 0x0b, 0x01, 0x61, // active, offset global.get 0, "a"
                0x01, 0x01, 0x62, // passive, "b"
            ],
        ),
    ]);
    let m = decode(&bytes).unwrap();
    assert_eq!(m.data_segments.len(), 2);
    assert_eq!(m.data_segments[0].offset, None);
    assert!(!m.data_segments[0].is_passive);
    assert_eq!(m.data_segments[1].offset, None);
    assert!(m.data_segments[1].is_passive);
}

#[test]
fn test_element_segment_offsets() {
    // Active element segment, table 0, offset `i32.const 3`, two entries.
    let bytes = module_with(&[
        TYPE_SECTION_1.to_vec(),
        section(4, &[0x01, 0x70, 0x00, 0x05]),
        section(3, &[0x02, 0x00, 0x00]),
        section(9, &[0x01, 0x00, 0x41, 0x03, 0x0b, 0x02, 0x00, 0x01]),
        section(10, &[&[0x02u8][..], &tiny_body()[..], &tiny_body()[..]].concat()),
    ]);
    let m = decode(&bytes).unwrap();
    assert_eq!(m.element_segments.len(), 1);
    let e = &m.element_segments[0];
    assert_eq!(e.table_index, Some(0));
    assert_eq!(e.offset, Some(3));
    assert_eq!(e.element_count, 2);
    assert!(!e.is_passive);
}

#[test]
fn test_unresolved_offset_is_absent() {
    // An offset expression that is not a single pushed constant resolves to
    // nothing rather than failing the decode (a global.get based offset).
    let bytes = module_with(&[
        TYPE_SECTION_1.to_vec(),
        section(4, &[0x01, 0x70, 0x00, 0x05]),
        section(3, &[0x01, 0x00]),
        section(9, &[0x01, 0x00, 0x23, 0x00, 0x0b, 0x01, 0x00]),
        section(10, &[&[0x01u8][..], &tiny_body()[..]].concat()),
    ]);
    let m = decode(&bytes).unwrap();
    assert_eq!(m.element_segments.len(), 1);
    assert_eq!(m.element_segments[0].offset, None);
}

#[test]
fn test_start_section_and_custom_section() {
    let bytes = module_with(&[
        TYPE_SECTION_1.to_vec(),
        section(3, &[0x01, 0x00]),
        section(8, &[0x00]),
        section(0, &[0x03, 0x61, 0x62, 0x63, 0xff, 0xfe]), // custom "abc", 2 bytes
        section(10, &[&[0x01u8][..], &tiny_body()[..]].concat()),
    ]);
    let m = decode(&bytes).unwrap();
    assert_eq!(m.start_function, Some(0));
    assert_eq!(m.custom_sections.len(), 1);
    assert_eq!(m.custom_sections[0].name, "abc");
    assert_eq!(m.custom_sections[0].size, 2);
}

#[test]
fn test_name_section_resolves_names() {
    // Custom section "name", function-name subsection mapping index 0 to
    // "fancy".
    let name_payload: &[u8] = &[
        0x04, 0x6e, 0x61, 0x6d, 0x65, // "name"
        0x01, 0x08, // subsection id 1, 8 bytes
        0x01, // one entry
        0x00, 0x05, 0x66, 0x61, 0x6e, 0x63, 0x79, // 0 -> "fancy"
    ];
    let bytes = module_with(&[
        TYPE_SECTION_1.to_vec(),
        section(3, &[0x01, 0x00]),
        section(10, &[&[0x01u8][..], &tiny_body()[..]].concat()),
        section(0, name_payload),
    ]);
    let m = decode(&bytes).unwrap();
    assert_eq!(m.functions[0].name.as_deref(), Some("fancy"));
    assert_eq!(m.custom_sections.len(), 1);
    assert_eq!(m.custom_sections[0].name, "name");
}

#[test]
fn test_decode_is_deterministic() {
    let bytes = module_with(&[
        TYPE_SECTION_1.to_vec(),
        section(3, &[0x01, 0x00]),
        section(7, &[0x01, 0x04, 0x6d, 0x61, 0x69, 0x6e, 0x00, 0x00]),
        section(10, &[&[0x01u8][..], &tiny_body()[..]].concat()),
    ]);
    let a = decode(&bytes).unwrap();
    let b = decode(&bytes).unwrap();
    assert_eq!(format!("{:?}", a), format!("{:?}", b));
}

#[test]
fn test_parser_wrapper() {
    let parser = WasmParser::new(&header()).unwrap();
    let m = parser.parse().unwrap();
    assert_eq!(m.version, 1);
}

#[test]
fn test_analysis_performance_on_invalid_input() {
    let invalid_large_input = vec![0u8; 10_000];
    let start = Instant::now();
    let result = decode(&invalid_large_input);
    let duration = start.elapsed();
    assert!(
        duration.as_millis() < 1000,
        "Analysis of invalid input should complete within 1 second, took: {:?}",
        duration
    );
    assert!(result.is_err(), "Should reject invalid input. Result: {:?}", result);
}

#[test]
fn test_analysis_performance_on_minimal_valid_input() {
    let minimal_valid_wasm = vec![0x00, 0x61, 0x73, 0x6d, 0x01, 0x00, 0x00, 0x00];
    let start = Instant::now();
    let result = decode(&minimal_valid_wasm);
    let duration = start.elapsed();
    assert!(
        duration.as_millis() < 1000,
        "Analysis of minimal valid input should complete within 1 second, took: {:?}",
        duration
    );
    assert!(result.is_ok());
}
