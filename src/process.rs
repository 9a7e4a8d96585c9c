//! The direct strategy: parse the whole input, then materialize it under the
//! size-based policy, timing both phases.

use vstd::prelude::*;
use vstd::string::*;
use crate::clock::elapsed_millis;
use crate::error::{Result, TreonError};
use crate::materialize::{Limits, convert_json_to_tree_limited, mat_count, materializes};
use crate::node::{RustJSONTree, RustProcessingStats};
use crate::parse::{json_document, parse_document, parse_error_text};
use crate::policy::{effective_max_depth, effective_max_depth_spec};

verus! {

/// The caps of a direct run over `len` bytes with the caller's `requested`
/// depth (zero for none): the policy's depth, no extra breadth cap.
pub open spec fn direct_limits(len: nat, requested: nat) -> Limits {
    Limits {
        max_depth: effective_max_depth_spec(len, requested) as usize,
        max_children: usize::MAX,
        streamed: false,
    }
}

/// The address of the root.
pub open spec fn root_path() -> Seq<char> {
    seq!['$']
}

/// The parse failure for a parser diagnostic.
pub(crate) fn parse_failure(e: &serde_json::Error) -> (r: TreonError)
    ensures
        r is JsonParsing,
{
    let detail = parse_error_text(e);
    let mut msg = String::from_str("JSON parsing failed: ");
    msg.append(detail.as_str());
    TreonError::JsonParsing(msg)
}

/// Parses `data` and materializes it with the depth that the policy grants for
/// its size and the caller's `max_depth` (zero for none).
///
/// Malformed input gives a parse failure and no tree. Well-formed input gives
/// the materialization of its document, with `total_nodes` the number of nodes
/// allocated, unless that number does not fit in a `usize` (a memory error).
pub fn process_json_data_with_depth(data: &[u8], max_depth: usize) -> (r: Result<RustJSONTree>)
    ensures
        json_document(data@) is None ==> (r matches Err(e) && e is JsonParsing),
        json_document(data@) matches Some(v) ==> {
            let lim = direct_limits(data@.len(), max_depth as nat);
            &&& r is Ok <==> mat_count(v, 0, lim) <= usize::MAX
            &&& r matches Err(e) ==> e is MemoryError
            &&& r matches Ok(t) ==> {
                &&& materializes(t.root, v, Seq::empty(), root_path(), 0, lim)
                &&& t.total_nodes == mat_count(v, 0, lim)
                &&& t.total_size_bytes == data@.len()
                &&& !t.stats.used_streaming
                &&& t.stats.streaming_chunks == 0
                &&& t.stats.peak_memory_bytes == 0
            }
        },
        r matches Ok(t) ==> t.total_nodes >= 1,
{
    let start = std::time::Instant::now();
    let parsed = match parse_document(data) {
        Ok(v) => v,
        Err(e) => {
            return Err(parse_failure(&e));
        },
    };
    let parsing_time_ms = elapsed_millis(&start);
    let lim = Limits {
        max_depth: effective_max_depth(data.len(), max_depth),
        max_children: usize::MAX,
        streamed: false,
    };
    let tree_start = std::time::Instant::now();
    proof {
        reveal_strlit("$");
        assert("$"@ =~= root_path());
    }
    let root = convert_json_to_tree_limited(&parsed, String::new(), String::from_str("$"), 0, lim)?;
    let tree_building_time_ms = elapsed_millis(&tree_start);
    let total_nodes = root.metadata.descendant_count + 1;
    Ok(
        RustJSONTree {
            root,
            total_nodes,
            total_size_bytes: data.len(),
            stats: RustProcessingStats {
                processing_time_ms: elapsed_millis(&start),
                parsing_time_ms,
                tree_building_time_ms,
                peak_memory_bytes: 0,
                used_streaming: false,
                streaming_chunks: 0,
            },
        },
    )
}

} // verus!
