//! The large-input strategies.

use treon_rust_backend::{ParseStrategy, RustJSONValue, StreamingParser, TreonError, scan_top_level, strategy_for};

#[test]
fn test_streaming_parser_creation() {
    let parser = StreamingParser::new();
    assert_eq!(parser.max_initial_depth, 3);
    assert_eq!(parser.max_initial_children, 100);
    assert_eq!(parser.chunk_size, 1024 * 1024);
}

#[test]
fn test_streaming_parser_custom_settings() {
    let parser = StreamingParser::with_settings(5, 200, 2048);
    assert_eq!(parser.max_initial_depth, 5);
    assert_eq!(parser.max_initial_children, 200);
    assert_eq!(parser.chunk_size, 2048);
}

#[test]
fn strategy_switches_above_one_hundred_mib() {
    assert_eq!(strategy_for(100 * 1024 * 1024), ParseStrategy::Direct);
    assert_eq!(strategy_for(100 * 1024 * 1024 + 1), ParseStrategy::StructuralEstimate);
    assert_eq!(strategy_for(0), ParseStrategy::Direct);
}

#[test]
fn scan_counts_complete_top_level_entries() {
    let s = scan_top_level(b"[1,2,3,");
    assert_eq!(s.root, 2);
    assert_eq!(s.entries, 3);
    assert_eq!(s.consumed, 7);
    assert!(!s.closed);
}

#[test]
fn scan_ignores_separators_inside_strings_and_nesting() {
    let s = scan_top_level(br#"["a,]b\"", {"x": [1, 2]}]"#);
    assert_eq!(s.root, 2);
    assert!(s.closed);
    assert_eq!(s.entries, 2);
}

#[test]
fn estimate_extrapolates_chunk_density() {
    let parser = StreamingParser::new();
    let root = parser.parse_structure_only(b"[1,2,3,", 700).unwrap();
    assert_eq!(root.value, RustJSONValue::Array);
    assert!(!root.fully_loaded);
    assert!(root.metadata.streamed);
    assert_eq!(root.metadata.size_bytes, 700);
    assert_eq!(root.children.len(), 100);
    assert_eq!(root.metadata.descendant_count, 100);
    let first = &root.children[0];
    assert_eq!(first.key, "0");
    assert_eq!(first.path, "$[0]");
    assert_eq!(first.metadata.depth, 1);
    assert_eq!(first.metadata.descendant_count, 3);
    assert!(first.metadata.streamed);
    assert!(!first.fully_loaded);
    assert_eq!(root.children[99].path, "$[99]");
}

#[test]
fn estimate_of_a_closed_chunk_is_exact() {
    let parser = StreamingParser::new();
    let root = parser.parse_structure_only(br#"{"a": 1, "b": [1, 2]}"#, 1000).unwrap();
    assert_eq!(root.value, RustJSONValue::Object);
    assert_eq!(root.children.len(), 2);
    assert_eq!(root.children[1].key, "1");
    assert_eq!(root.children[1].path, "$[~1]");
    assert_eq!(root.children[1].metadata.descendant_count, 1);
}

#[test]
fn estimate_of_an_empty_container_has_no_children() {
    let root = StreamingParser::new().parse_structure_only(b"  {}", 1000).unwrap();
    assert_eq!(root.children.len(), 0);
    assert_eq!(root.metadata.descendant_count, 0);
}

#[test]
fn estimate_rejects_a_chunk_that_cannot_begin_json() {
    let err = StreamingParser::new().parse_structure_only(b"  @", 1000).unwrap_err();
    assert!(matches!(err, TreonError::JsonParsing(_)));
}

#[test]
fn estimate_of_a_string_document_is_a_childless_root() {
    let root = StreamingParser::new().parse_structure_only(b" \"abc", 1000).unwrap();
    assert_eq!(root.value, RustJSONValue::String(String::new()));
    assert!(root.children.is_empty());
    assert!(!root.fully_loaded);
    assert!(root.metadata.streamed);
    assert_eq!(root.metadata.size_bytes, 1000);
    assert_eq!(root.path, "$");
}

#[test]
fn estimate_reads_the_kind_of_a_scalar_document() {
    let parser = StreamingParser::new();
    assert_eq!(parser.parse_structure_only(b"-12", 9).unwrap().value, RustJSONValue::Number(0));
    assert_eq!(parser.parse_structure_only(b"tr", 9).unwrap().value, RustJSONValue::Boolean(true));
    assert_eq!(parser.parse_structure_only(b"f", 9).unwrap().value, RustJSONValue::Boolean(false));
    assert_eq!(parser.parse_structure_only(b"nu", 9).unwrap().value, RustJSONValue::Null);
}

#[test]
fn estimate_of_a_blank_or_empty_chunk_is_a_childless_root() {
    let parser = StreamingParser::new();
    let blank = parser.parse_structure_only(b" \n\t ", 500).unwrap();
    assert_eq!(blank.value, RustJSONValue::Null);
    assert!(blank.children.is_empty());
    assert!(!blank.fully_loaded);
    let empty = StreamingParser::with_settings(3, 100, 0).parse_structure_only(b"", 500).unwrap();
    assert!(empty.children.is_empty());
    assert!(empty.metadata.streamed);
}

#[test]
fn medium_strategy_marks_nodes_streamed_and_caps_them() {
    let parser = StreamingParser::with_settings(1, 2, 1024);
    let root = parser.parse_medium_data(b"[[1], 2, 3, 4]").unwrap();
    assert!(root.metadata.streamed);
    assert_eq!(root.children.len(), 3);
    assert_eq!(root.children[0].value, RustJSONValue::Array);
    assert_eq!(root.children[0].children.len(), 0);
    assert_eq!(root.children[2].key, "... and 2 more");
    assert_eq!(root.metadata.descendant_count, 3);
}

#[test]
fn medium_strategy_reports_parse_failures() {
    let err = StreamingParser::new().parse_medium_data(b"[1, 2").unwrap_err();
    assert!(matches!(err, TreonError::JsonParsing(_)));
}
