//! The configured entry point: a size ceiling checked before parsing, the
//! builder's caps, and a soft time budget checked after building.

use vstd::prelude::*;
use vstd::string::*;
use crate::clock::elapsed_millis;
use crate::error::{Result, TreonError};
use crate::materialize::mat_count;
use crate::parse::json_document;
use crate::process::root_path;
use crate::text::decimal_string;
use crate::tree_builder::{JSONTree, TreeBuilder, builder_limits, builds, deepest};

verus! {

/// Settings of a processing run.
pub struct JSONProcessor {
    pub tree_builder: TreeBuilder,
    pub max_file_size: usize,
    pub timeout_seconds: u64,
}

/// A byte count as a message: "<n> bytes (max: <m> bytes)".
fn size_message(prefix: &str, n: usize, max: usize) -> String {
    let mut msg = String::from_str(prefix);
    let count = decimal_string(n);
    msg.append(count.as_str());
    msg.append(" bytes (max: ");
    let limit = decimal_string(max);
    msg.append(limit.as_str());
    msg.append(" bytes)");
    msg
}

/// Keeps a finished `tree` when `elapsed_ms` milliseconds, in whole seconds, do
/// not exceed `timeout_seconds`; otherwise discards it for a timeout.
pub fn finish_within(tree: JSONTree, elapsed_ms: u64, timeout_seconds: u64) -> (r: Result<JSONTree>)
    ensures
        elapsed_ms / 1000 <= timeout_seconds ==> r == Ok::<JSONTree, TreonError>(tree),
        elapsed_ms / 1000 > timeout_seconds ==> (r matches Err(e) && e is Timeout),
{
    if elapsed_ms / 1000 > timeout_seconds {
        let mut msg = String::from_str("Processing took too long: ");
        let ms = decimal_string(elapsed_ms as usize);
        msg.append(ms.as_str());
        msg.append(" ms");
        return Err(TreonError::Timeout(msg));
    }
    Ok(tree)
}

impl JSONProcessor {
    /// A 1 GiB ceiling, a 30 s budget, and a builder with depth 50 and a budget
    /// of 50 000 nodes.
    pub fn new() -> (r: JSONProcessor)
        ensures
            r.max_file_size == 1024 * 1024 * 1024,
            r.timeout_seconds == 30,
            r.tree_builder.max_depth == 50,
            r.tree_builder.max_nodes == 50_000,
    {
        JSONProcessor {
            tree_builder: TreeBuilder::new().with_max_depth(50).with_max_nodes(50_000),
            max_file_size: 1024 * 1024 * 1024,
            timeout_seconds: 30,
        }
    }

    /// The same processor with the size ceiling set to `size` bytes.
    pub fn with_max_file_size(self, size: usize) -> (r: JSONProcessor)
        ensures
            r.max_file_size == size,
            r.timeout_seconds == self.timeout_seconds,
            r.tree_builder == self.tree_builder,
    {
        JSONProcessor { max_file_size: size, ..self }
    }

    /// The same processor with the time budget set to `seconds`.
    pub fn with_timeout(self, seconds: u64) -> (r: JSONProcessor)
        ensures
            r.max_file_size == self.max_file_size,
            r.timeout_seconds == seconds,
            r.tree_builder == self.tree_builder,
    {
        JSONProcessor { timeout_seconds: seconds, ..self }
    }

    /// Whether an input of `len` bytes is within the size ceiling.
    pub fn accepts_size(&self, len: u64) -> (r: bool)
        ensures
            r == (len <= self.max_file_size),
    {
        len <= self.max_file_size as u64
    }

    /// Builds the tree of `data`. Input over the ceiling is rejected before it
    /// is parsed; malformed input is a parse failure; otherwise the tree is the
    /// builder's, unless its node count does not fit in a `usize` or the run
    /// overran its time budget.
    pub fn process_data(&self, data: &[u8]) -> (r: Result<JSONTree>)
        ensures
            data@.len() > self.max_file_size ==> (r matches Err(e) && e is InvalidInput),
            data@.len() <= self.max_file_size ==> {
                &&& json_document(data@) is None ==> (r matches Err(e) && e is JsonParsing)
                &&& json_document(data@) matches Some(v) ==> {
                    let lim = builder_limits(self.tree_builder, data@.len());
                    &&& mat_count(v, 0, lim) > usize::MAX ==> (r matches Err(e) && e is MemoryError)
                    &&& (r matches Err(e) && e is MemoryError) ==> mat_count(v, 0, lim) > usize::MAX
                    &&& r matches Err(e) ==> (e is MemoryError || e is Timeout)
                    &&& r matches Ok(t) ==> {
                        &&& builds(t.root, v, None, root_path(), 0, lim)
                        &&& t.total_nodes == mat_count(v, 0, lim)
                        &&& t.max_depth == deepest(t.root)
                        &&& t.total_size_bytes == data@.len()
                    }
                }
            },
            r matches Ok(t) ==> t.total_nodes >= 1,
    {
        let start = std::time::Instant::now();
        if data.len() > self.max_file_size {
            let msg = size_message("Data too large: ", data.len(), self.max_file_size);
            return Err(TreonError::InvalidInput(msg));
        }
        let tree = self.tree_builder.build_from_data(data)?;
        let elapsed = elapsed_millis(&start);
        finish_within(tree, elapsed, self.timeout_seconds)
    }
}

impl Default for JSONProcessor {
    fn default() -> (r: JSONProcessor)
        ensures
            r.max_file_size == 1024 * 1024 * 1024,
            r.timeout_seconds == 30,
            r.tree_builder.max_depth == 50,
            r.tree_builder.max_nodes == 50_000,
    {
        JSONProcessor::new()
    }
}

} // verus!
