//! Bounded JSON-to-tree materialization.
//!
//! A JSON document is parsed into a [`value::ParsedValue`], then converted into a
//! tree whose depth and per-container breadth are capped by a size-based policy.
//! Oversized containers end in a truncation placeholder, and nodes beyond the
//! depth limit are kept as childless leaves. Inputs past a size threshold can be
//! estimated from a leading chunk instead of being parsed whole.

pub mod error;
pub mod text;
pub mod value;
pub mod node;
pub mod materialize;
pub mod parse;
pub mod clock;
pub mod policy;
pub mod process;
pub mod laws;
pub mod tree_builder;
pub mod json_processor;
pub mod streaming_parser;
pub mod query;

pub use error::{Result, TreonError};
pub use json_processor::{JSONProcessor, finish_within};
pub use materialize::{Limits, convert_json_to_tree_limited, convert_json_value, per_container_cap};
pub use node::{RustJSONNode, RustJSONTree, RustJSONValue, RustNodeMetadata, RustProcessingStats};
pub use policy::effective_max_depth;
pub use process::process_json_data_with_depth;
pub use streaming_parser::{ParseStrategy, ScanState, StreamingParser, scan_top_level, strategy_for};
pub use text::decimal_string;
pub use tree_builder::{JSONNode, JSONTree, JSONValue, NodeMetadata, TreeBuilder};
pub use value::ParsedValue;
