//! The direct strategy and the bounded materializer.

use treon_rust_backend::{
    Limits, ParsedValue, RustJSONNode, RustJSONValue, TreonError, convert_json_to_tree_limited, decimal_string,
    effective_max_depth, per_container_cap, process_json_data_with_depth,
};

fn all_nodes<'a>(n: &'a RustJSONNode, out: &mut Vec<&'a RustJSONNode>) {
    out.push(n);
    for c in &n.children {
        all_nodes(c, out);
    }
}

fn array_of(n: usize) -> String {
    let mut s = String::from("[");
    for i in 0..n {
        if i > 0 {
            s.push(',');
        }
        s.push_str(&i.to_string());
    }
    s.push(']');
    s
}

#[test]
fn empty_object_is_one_fully_loaded_node() {
    let tree = process_json_data_with_depth(b"{}", 0).unwrap();
    assert_eq!(tree.total_nodes, 1);
    assert_eq!(tree.root.value, RustJSONValue::Object);
    assert_eq!(tree.root.children.len(), 0);
    assert!(tree.root.fully_loaded);
    assert_eq!(tree.root.path, "$");
    assert_eq!(tree.root.key, "");
    assert_eq!(tree.total_size_bytes, 2);
    assert!(!tree.stats.used_streaming);
}

#[test]
fn small_array_has_root_and_four_leaves() {
    let tree = process_json_data_with_depth(br#"[1,2,3,"x"]"#, 0).unwrap();
    assert_eq!(tree.total_nodes, 5);
    assert_eq!(tree.root.value, RustJSONValue::Array);
    assert_eq!(tree.root.metadata.descendant_count, 4);
    assert_eq!(tree.root.children[0].value, RustJSONValue::Number(1.0f64.to_bits()));
    assert_eq!(tree.root.children[3].value, RustJSONValue::String("x".to_string()));
    assert_eq!(tree.root.children[3].key, "3");
    assert_eq!(tree.root.children[3].path, "$[3]");
    assert!(tree.root.fully_loaded);
}

#[test]
fn unterminated_input_is_a_parse_failure() {
    let err = process_json_data_with_depth(br#"{"key": "value""#, 0).unwrap_err();
    assert!(matches!(err, TreonError::JsonParsing(_)));
}

#[test]
fn valid_input_yields_at_least_one_node() {
    for input in [&b"null"[..], b"\"s\"", b"[]", b"{\"a\": [1, {\"b\": false}]}"] {
        let tree = process_json_data_with_depth(input, 0).unwrap();
        assert!(tree.total_nodes >= 1);
        let mut nodes = Vec::new();
        all_nodes(&tree.root, &mut nodes);
        assert_eq!(nodes.len(), tree.total_nodes);
    }
}

#[test]
fn deep_nesting_stops_at_the_limit_with_a_leaf() {
    let data = br#"{"a":{"a":{"a":{"a":{"a":{"a":1}}}}}}"#;
    let tree = process_json_data_with_depth(data, 3).unwrap();
    let mut node = &tree.root;
    for _ in 0..3 {
        assert_eq!(node.children.len(), 1);
        node = &node.children[0];
    }
    assert_eq!(node.metadata.depth, 3);
    assert_eq!(node.value, RustJSONValue::Object);
    assert!(node.children.is_empty());
    assert!(!node.fully_loaded);
    assert_eq!(node.path, "$.a.a.a");
    assert!(!tree.root.fully_loaded);
    assert_eq!(tree.total_nodes, 4);
}

#[test]
fn children_sit_one_level_below_their_parent() {
    let tree = process_json_data_with_depth(br#"{"a": [1, {"b": [true, null]}], "c": {}}"#, 0).unwrap();
    let mut nodes = Vec::new();
    all_nodes(&tree.root, &mut nodes);
    for n in &nodes {
        for c in &n.children {
            assert_eq!(c.metadata.depth, n.metadata.depth + 1);
        }
        assert!(n.metadata.depth <= 5);
    }
}

#[test]
fn paths_are_unique() {
    let tree = process_json_data_with_depth(br#"{"a": [1, {"b": [true, null]}], "c": {"a": 2}, "d": [[0], [0]]}"#, 0).unwrap();
    let mut nodes = Vec::new();
    all_nodes(&tree.root, &mut nodes);
    let mut paths: Vec<&str> = nodes.iter().map(|n| n.path.as_str()).collect();
    let before = paths.len();
    paths.sort();
    paths.dedup();
    assert_eq!(paths.len(), before);
    assert!(paths.contains(&"$.d[1][0]"));
}

#[test]
fn oversized_array_ends_in_one_placeholder() {
    let data = array_of(1500);
    let tree = process_json_data_with_depth(data.as_bytes(), 0).unwrap();
    let root = &tree.root;
    assert_eq!(root.children.len(), 101);
    assert!(!root.fully_loaded);
    let last = root.children.last().unwrap();
    assert_eq!(last.key, "... and 1400 more");
    assert_eq!(last.path, "$[more]");
    assert_eq!(last.value, RustJSONValue::Array);
    assert_eq!(last.metadata.descendant_count, 1400);
    assert_eq!(last.metadata.depth, 1);
    assert!(!last.fully_loaded);
    assert_eq!(root.children[99].key, "99");
    assert_eq!(tree.total_nodes, 102);
    assert_eq!(root.metadata.descendant_count, 101);
}

#[test]
fn very_large_array_loads_fifty_entries() {
    let data = array_of(10001);
    let tree = process_json_data_with_depth(data.as_bytes(), 0).unwrap();
    assert_eq!(tree.root.children.len(), 51);
    assert_eq!(tree.root.children[50].key, "... and 9951 more");
}

#[test]
fn thousand_entries_are_all_loaded() {
    let data = array_of(1000);
    let tree = process_json_data_with_depth(data.as_bytes(), 0).unwrap();
    assert_eq!(tree.root.children.len(), 1000);
    assert!(tree.root.fully_loaded);
    assert_eq!(tree.total_nodes, 1001);
}

#[test]
fn depth_limit_clears_fully_loaded_upwards() {
    let tree = process_json_data_with_depth(br#"{"x": 1, "a": {"b": {"c": 1}}}"#, 2).unwrap();
    let a = &tree.root.children[1];
    let b = &a.children[0];
    assert!(tree.root.children[0].fully_loaded);
    assert_eq!(b.metadata.depth, 2);
    assert_eq!(b.value, RustJSONValue::Object);
    assert!(b.children.is_empty());
    assert!(!b.fully_loaded);
    assert!(!a.fully_loaded);
    assert!(!tree.root.fully_loaded);
}

#[test]
fn member_order_is_kept() {
    let tree = process_json_data_with_depth(br#"{"z": 1, "a": 2, "m": 3}"#, 0).unwrap();
    let keys: Vec<&str> = tree.root.children.iter().map(|c| c.key.as_str()).collect();
    assert_eq!(keys, vec!["z", "a", "m"]);
    assert_eq!(tree.root.children[0].path, "$.z");
}

#[test]
fn scalars_are_kept_verbatim() {
    let tree = process_json_data_with_depth(br#"[-42, 3.5, true, null, "t"]"#, 0).unwrap();
    let c = &tree.root.children;
    assert_eq!(c[0].value, RustJSONValue::Number((-42.0f64).to_bits()));
    assert_eq!(c[1].value, RustJSONValue::Number(3.5f64.to_bits()));
    assert_eq!(c[2].value, RustJSONValue::Boolean(true));
    assert_eq!(c[3].value, RustJSONValue::Null);
    assert_eq!(c[4].value, RustJSONValue::String("t".to_string()));
}

#[test]
fn policy_defaults_by_size() {
    let mib = 1024 * 1024;
    assert_eq!(effective_max_depth(10, 0), 5);
    assert_eq!(effective_max_depth(50 * mib, 0), 5);
    assert_eq!(effective_max_depth(50 * mib + 1, 0), 4);
    assert_eq!(effective_max_depth(100 * mib + 1, 0), 3);
    assert_eq!(effective_max_depth(200 * mib + 1, 0), 2);
}

#[test]
fn policy_caps_requested_depth_by_size() {
    let mib = 1024 * 1024;
    assert_eq!(effective_max_depth(10, 40), 40);
    assert_eq!(effective_max_depth(50 * mib + 1, 40), 7);
    assert_eq!(effective_max_depth(100 * mib + 1, 40), 5);
    assert_eq!(effective_max_depth(200 * mib + 1, 40), 3);
    assert_eq!(effective_max_depth(200 * mib + 1, 2), 2);
}

#[test]
fn per_container_caps() {
    assert_eq!(per_container_cap(0), 0);
    assert_eq!(per_container_cap(1000), 1000);
    assert_eq!(per_container_cap(1001), 100);
    assert_eq!(per_container_cap(10000), 100);
    assert_eq!(per_container_cap(10001), 50);
}

#[test]
fn decimal_rendering() {
    assert_eq!(decimal_string(0), "0");
    assert_eq!(decimal_string(7), "7");
    assert_eq!(decimal_string(10), "10");
    assert_eq!(decimal_string(12345), "12345");
    assert_eq!(decimal_string(usize::MAX), usize::MAX.to_string());
}

#[test]
fn materializer_on_a_built_value() {
    let value = ParsedValue::Object(vec![
        ("k".to_string(), ParsedValue::Array(vec![ParsedValue::Bool(false), ParsedValue::Null])),
        ("s".to_string(), ParsedValue::String("v".to_string())),
    ]);
    let lim = Limits { max_depth: 5, max_children: 1, streamed: false };
    let node = convert_json_to_tree_limited(&value, "root".to_string(), "$".to_string(), 0, lim).unwrap();
    assert_eq!(node.key, "root");
    assert_eq!(node.children.len(), 2);
    assert_eq!(node.children[0].key, "k");
    assert_eq!(node.children[0].children.len(), 2);
    assert_eq!(node.children[0].children[0].value, RustJSONValue::Boolean(false));
    assert_eq!(node.children[0].children[1].key, "... and 1 more");
    assert_eq!(node.children[0].children[1].path, "$.k[more]");
    assert_eq!(node.children[1].key, "... and 1 more");
    assert_eq!(node.metadata.descendant_count, 4);
}

#[test]
fn find_returns_the_node_at_a_path() {
    let tree = process_json_data_with_depth(br#"{"a": [1, {"b": "x"}], "c": null}"#, 0).unwrap();
    let b = tree.find("$.a[1].b").unwrap();
    assert_eq!(b.value, RustJSONValue::String("x".to_string()));
    assert_eq!(b.metadata.depth, 3);
    assert_eq!(tree.find("$").unwrap().path, "$");
    assert_eq!(tree.find("$.c").unwrap().value, RustJSONValue::Null);
    assert!(tree.find("$.missing").is_none());
    assert!(tree.find("$.a[2]").is_none());
}

#[test]
fn nodes_at_depth_slices_in_depth_first_order() {
    let tree = process_json_data_with_depth(br#"{"a": [1, {"b": "x"}], "c": null}"#, 0).unwrap();
    let ones: Vec<&str> = tree.nodes_at_depth(1).iter().map(|n| n.path.as_str()).collect();
    assert_eq!(ones, vec!["$.a", "$.c"]);
    let twos: Vec<&str> = tree.nodes_at_depth(2).iter().map(|n| n.path.as_str()).collect();
    assert_eq!(twos, vec!["$.a[0]", "$.a[1]"]);
    assert_eq!(tree.nodes_at_depth(0).len(), 1);
    assert!(tree.nodes_at_depth(9).is_empty());
}

#[test]
fn dotted_member_names_do_not_collide() {
    let tree = process_json_data_with_depth(br#"{"a.b":1,"a":{"b":2}}"#, 0).unwrap();
    assert_eq!(tree.total_nodes, 4);
    assert_eq!(tree.root.children[0].key, "a.b");
    assert_eq!(tree.root.children[0].path, "$.a\\u002eb");
    assert_eq!(tree.root.children[1].children[0].path, "$.a.b");
    assert_eq!(tree.find("$.a.b").unwrap().value, RustJSONValue::Number(2.0f64.to_bits()));
}

#[test]
fn brackets_and_backslashes_in_names_are_escaped() {
    let tree = process_json_data_with_depth(br#"{"x[0]":1,"x":[2],"p\\q":3}"#, 0).unwrap();
    assert_eq!(tree.root.children[0].path, "$.x\\u005b0]");
    assert_eq!(tree.root.children[1].children[0].path, "$.x[0]");
    assert_eq!(tree.root.children[2].key, "p\\q");
    assert_eq!(tree.root.children[2].path, "$.p\\u005cq");
}

#[test]
fn cloned_tree_is_equal() {
    let tree = process_json_data_with_depth(br#"{"a": [1, {"b": "x"}]}"#, 0).unwrap();
    let copy = tree.clone();
    assert_eq!(copy, tree);
    assert_eq!(tree.root.clone(), tree.root);
}
