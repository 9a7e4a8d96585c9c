//! The materialized tree: nodes, their metadata, and the statistics of a run.

use vstd::prelude::*;

verus! {

/// What a node holds: a scalar verbatim, or the marker of a container whose
/// entries are its children. A number is the bit pattern of an IEEE-754 double.
#[derive(Debug, Clone, PartialEq)]
pub enum RustJSONValue {
    String(String),
    Number(u64),
    Boolean(bool),
    Null,
    Object,
    Array,
}

/// Per-node bookkeeping. `descendant_count` counts the nodes below this one,
/// except on a truncation placeholder, where it is the number of entries the
/// placeholder stands for.
#[derive(Debug, Clone, PartialEq)]
pub struct RustNodeMetadata {
    pub size_bytes: usize,
    pub depth: usize,
    pub descendant_count: usize,
    pub streamed: bool,
    pub processing_time_ms: u64,
}

/// One JSON value at one place of the document.
#[derive(Debug, PartialEq)]
pub struct RustJSONNode {
    pub key: String,
    pub path: String,
    pub value: RustJSONValue,
    pub children: Vec<RustJSONNode>,
    pub expanded: bool,
    pub fully_loaded: bool,
    pub metadata: RustNodeMetadata,
}

/// Timings and flags of one materialization.
#[derive(Debug, Clone, PartialEq)]
pub struct RustProcessingStats {
    pub processing_time_ms: u64,
    pub parsing_time_ms: u64,
    pub tree_building_time_ms: u64,
    pub peak_memory_bytes: usize,
    pub used_streaming: bool,
    pub streaming_chunks: usize,
}

/// A complete materialization: the root, the number of nodes allocated, and the
/// input's length in bytes.
#[derive(Debug, PartialEq)]
pub struct RustJSONTree {
    pub root: RustJSONNode,
    pub total_nodes: usize,
    pub total_size_bytes: usize,
    pub stats: RustProcessingStats,
}

/// `c` holds the same fields as `n`, and its children are copies of `n`'s.
pub open spec fn copies(c: RustJSONNode, n: RustJSONNode) -> bool
    decreases n,
{
    &&& c.key == n.key
    &&& c.path == n.path
    &&& c.value == n.value
    &&& c.expanded == n.expanded
    &&& c.fully_loaded == n.fully_loaded
    &&& c.metadata == n.metadata
    &&& c.children@.len() == n.children@.len()
    &&& forall|i: int| 0 <= i < n.children@.len() ==> copies(#[trigger] c.children@[i], n.children@[i])
}

/// A deep copy of the tree under `n`.
fn copy_node(n: &RustJSONNode) -> (r: RustJSONNode)
    ensures
        copies(r, *n),
    decreases n,
{
    let mut children: Vec<RustJSONNode> = Vec::new();
    let mut i: usize = 0;
    while i < n.children.len()
        invariant
            i <= n.children@.len(),
            children@.len() == i,
            forall|j: int| 0 <= j < i ==> copies(#[trigger] children@[j], n.children@[j]),
        decreases n.children@.len() - i,
    {
        proof {
            assert(decreases_to!(*n => n.children));
            assert(decreases_to!(n.children => n.children@));
        }
        children.push(copy_node(&n.children[i]));
        i = i + 1;
    }
    RustJSONNode {
        key: n.key.clone(),
        path: n.path.clone(),
        value: copy_value(&n.value),
        children,
        expanded: n.expanded,
        fully_loaded: n.fully_loaded,
        metadata: RustNodeMetadata {
            size_bytes: n.metadata.size_bytes,
            depth: n.metadata.depth,
            descendant_count: n.metadata.descendant_count,
            streamed: n.metadata.streamed,
            processing_time_ms: n.metadata.processing_time_ms,
        },
    }
}

fn copy_value(v: &RustJSONValue) -> (r: RustJSONValue)
    ensures
        r == *v,
{
    match v {
        RustJSONValue::String(s) => RustJSONValue::String(s.clone()),
        RustJSONValue::Number(x) => RustJSONValue::Number(*x),
        RustJSONValue::Boolean(b) => RustJSONValue::Boolean(*b),
        RustJSONValue::Null => RustJSONValue::Null,
        RustJSONValue::Object => RustJSONValue::Object,
        RustJSONValue::Array => RustJSONValue::Array,
    }
}

impl Clone for RustJSONNode {
    fn clone(&self) -> RustJSONNode {
        copy_node(self)
    }
}

impl Clone for RustJSONTree {
    fn clone(&self) -> RustJSONTree {
        RustJSONTree {
            root: copy_node(&self.root),
            total_nodes: self.total_nodes,
            total_size_bytes: self.total_size_bytes,
            stats: self.stats.clone(),
        }
    }
}

} // verus!
