//! The builder API: trees of [`JSONNode`] with a configurable depth and node
//! budget, produced by the bounded materializer and then converted node by node.

use vstd::prelude::*;
use vstd::string::*;
use crate::error::Result;
use crate::materialize::{Limits, convert_json_to_tree_limited, kids_count, mat_count, materializes, container_cap, is_truncation};
use crate::node::{RustJSONNode, RustJSONValue};
use crate::parse::{json_document, parse_document};
use crate::policy::{effective_max_depth, effective_max_depth_spec};
use crate::process::{parse_failure, root_path};
use crate::value::ParsedValue;

verus! {

/// A node value of the builder API; see [`RustJSONValue`].
#[derive(Debug, Clone, PartialEq)]
pub enum JSONValue {
    String(String),
    Number(u64),
    Boolean(bool),
    Null,
    Object,
    Array,
}

/// Per-node bookkeeping of the builder API.
#[derive(Debug, Clone, PartialEq)]
pub struct NodeMetadata {
    pub depth: usize,
    pub child_count: usize,
    pub size_bytes: usize,
    pub is_expanded: bool,
}

/// A node of the builder API. The root has no key.
#[derive(Debug)]
pub struct JSONNode {
    pub key: Option<String>,
    pub value: JSONValue,
    pub children: Vec<JSONNode>,
    pub path: String,
    pub metadata: NodeMetadata,
}

/// The number of nodes in the tree under `n`, `n` included.
pub open spec fn node_count(n: JSONNode) -> nat
    decreases n,
{
    1 + forest_count(n.children@)
}

/// The number of nodes in the trees of `s`.
pub open spec fn forest_count(s: Seq<JSONNode>) -> nat
    decreases s,
{
    if s.len() == 0 {
        0
    } else {
        forest_count(s.subrange(0, s.len() - 1)) + node_count(s[s.len() - 1])
    }
}

/// The depth recorded by the deepest leaf under `n`: its own depth if it has no
/// children, the largest among its children's otherwise.
pub open spec fn deepest(n: JSONNode) -> nat
    decreases n,
{
    if n.children@.len() == 0 {
        n.metadata.depth as nat
    } else {
        forest_deepest(n.children@)
    }
}

/// The largest [`deepest`] among the trees of `s` (zero if there are none).
pub open spec fn forest_deepest(s: Seq<JSONNode>) -> nat
    decreases s,
{
    if s.len() == 0 {
        0
    } else {
        let a = forest_deepest(s.subrange(0, s.len() - 1));
        let b = deepest(s[s.len() - 1]);
        if a >= b {
            a
        } else {
            b
        }
    }
}

proof fn lemma_forest_count_prefix(s: Seq<JSONNode>, k: int)
    requires
        0 <= k <= s.len(),
    ensures
        forest_count(s.subrange(0, k)) <= forest_count(s),
    decreases s.len() - k,
{
    if k < s.len() {
        lemma_forest_count_prefix(s, k + 1);
        let t = s.subrange(0, k + 1);
        assert(t.subrange(0, k) =~= s.subrange(0, k));
    } else {
        assert(s.subrange(0, k) =~= s);
    }
}

impl JSONNode {
    /// A childless node at `depth`.
    pub fn new(key: Option<String>, value: JSONValue, path: String, depth: usize) -> (r: JSONNode)
        ensures
            r.key == key,
            r.value == value,
            r.path == path,
            r.children@.len() == 0,
            r.metadata == (NodeMetadata { depth, child_count: 0, size_bytes: 0, is_expanded: false }),
    {
        JSONNode {
            key,
            value,
            children: Vec::new(),
            path,
            metadata: NodeMetadata { depth, child_count: 0, size_bytes: 0, is_expanded: false },
        }
    }

    /// A childless node standing for `child_count` entries that were not loaded.
    pub fn placeholder(key: String, path: String, value: JSONValue, child_count: usize) -> (r: JSONNode)
        ensures
            r.key == Some(key),
            r.value == value,
            r.path == path,
            r.children@.len() == 0,
            r.metadata == (NodeMetadata { depth: 0, child_count, size_bytes: 0, is_expanded: false }),
    {
        JSONNode {
            key: Some(key),
            value,
            children: Vec::new(),
            path,
            metadata: NodeMetadata { depth: 0, child_count, size_bytes: 0, is_expanded: false },
        }
    }

    /// Appends `child` and records the new number of children.
    pub fn add_child(&mut self, child: JSONNode)
        ensures
            final(self).children@ == old(self).children@.push(child),
            final(self).metadata.child_count == final(self).children@.len(),
            final(self).metadata.depth == old(self).metadata.depth,
            final(self).metadata.size_bytes == old(self).metadata.size_bytes,
            final(self).metadata.is_expanded == old(self).metadata.is_expanded,
            final(self).key == old(self).key,
            final(self).value == old(self).value,
            final(self).path == old(self).path,
    {
        self.children.push(child);
        self.metadata.child_count = self.children.len();
    }

    /// The number of nodes in this tree, this one included.
    pub fn total_nodes(&self) -> (r: usize)
        requires
            node_count(*self) <= usize::MAX,
        ensures
            r == node_count(*self),
        decreases self,
    {
        let mut total: usize = 1;
        let mut i: usize = 0;
        while i < self.children.len()
            invariant
                i <= self.children@.len(),
                node_count(*self) <= usize::MAX,
                total == 1 + forest_count(self.children@.subrange(0, i as int)),
            decreases self.children@.len() - i,
        {
            let ghost s = self.children@;
            proof {
                lemma_forest_count_prefix(s, i + 1);
                assert(s.subrange(0, i + 1).subrange(0, i as int) =~= s.subrange(0, i as int));
                assert(decreases_to!(*self => self.children));
                assert(decreases_to!(self.children => self.children@));
            }
            let c = self.children[i].total_nodes();
            total = total + c;
            i = i + 1;
        }
        proof {
            assert(self.children@.subrange(0, i as int) =~= self.children@);
        }
        total
    }

    /// The depth of the deepest leaf; see [`deepest`].
    pub fn max_depth(&self) -> (r: usize)
        ensures
            r == deepest(*self),
        decreases self,
    {
        if self.children.len() == 0 {
            return self.metadata.depth;
        }
        let mut best: usize = 0;
        let mut i: usize = 0;
        while i < self.children.len()
            invariant
                i <= self.children@.len(),
                best == forest_deepest(self.children@.subrange(0, i as int)),
            decreases self.children@.len() - i,
        {
            let ghost s = self.children@;
            proof {
                assert(s.subrange(0, i + 1).subrange(0, i as int) =~= s.subrange(0, i as int));
                assert(decreases_to!(*self => self.children));
                assert(decreases_to!(self.children => self.children@));
            }
            let d = self.children[i].max_depth();
            if d > best {
                best = d;
            }
            i = i + 1;
        }
        proof {
            assert(self.children@.subrange(0, i as int) =~= self.children@);
        }
        best
    }
}

/// `c` holds the same fields as `n`, and its children are copies of `n`'s.
pub open spec fn builder_copies(c: JSONNode, n: JSONNode) -> bool
    decreases n,
{
    &&& c.key == n.key
    &&& c.value == n.value
    &&& c.path == n.path
    &&& c.metadata == n.metadata
    &&& c.children@.len() == n.children@.len()
    &&& forall|i: int| 0 <= i < n.children@.len() ==> builder_copies(#[trigger] c.children@[i], n.children@[i])
}

fn copy_builder_value(v: &JSONValue) -> (r: JSONValue)
    ensures
        r == *v,
{
    match v {
        JSONValue::String(s) => JSONValue::String(s.clone()),
        JSONValue::Number(x) => JSONValue::Number(*x),
        JSONValue::Boolean(b) => JSONValue::Boolean(*b),
        JSONValue::Null => JSONValue::Null,
        JSONValue::Object => JSONValue::Object,
        JSONValue::Array => JSONValue::Array,
    }
}

/// A deep copy of the tree under `n`.
fn copy_builder_node(n: &JSONNode) -> (r: JSONNode)
    ensures
        builder_copies(r, *n),
    decreases n,
{
    let mut children: Vec<JSONNode> = Vec::new();
    let mut i: usize = 0;
    while i < n.children.len()
        invariant
            i <= n.children@.len(),
            children@.len() == i,
            forall|j: int| 0 <= j < i ==> builder_copies(#[trigger] children@[j], n.children@[j]),
        decreases n.children@.len() - i,
    {
        proof {
            assert(decreases_to!(*n => n.children));
            assert(decreases_to!(n.children => n.children@));
        }
        children.push(copy_builder_node(&n.children[i]));
        i = i + 1;
    }
    let key = match &n.key {
        Some(k) => Some(k.clone()),
        None => None,
    };
    JSONNode {
        key,
        value: copy_builder_value(&n.value),
        children,
        path: n.path.clone(),
        metadata: NodeMetadata {
            depth: n.metadata.depth,
            child_count: n.metadata.child_count,
            size_bytes: n.metadata.size_bytes,
            is_expanded: n.metadata.is_expanded,
        },
    }
}

impl Clone for JSONNode {
    fn clone(&self) -> JSONNode {
        copy_builder_node(self)
    }
}

/// A tree of the builder API with its node count and deepest depth.
#[derive(Debug)]
pub struct JSONTree {
    pub root: JSONNode,
    pub total_nodes: usize,
    pub max_depth: usize,
    pub total_size_bytes: usize,
}

impl Clone for JSONTree {
    fn clone(&self) -> JSONTree {
        JSONTree {
            root: copy_builder_node(&self.root),
            total_nodes: self.total_nodes,
            max_depth: self.max_depth,
            total_size_bytes: self.total_size_bytes,
        }
    }
}

impl JSONTree {
    /// Wraps `root`, counting its nodes and finding its deepest leaf. The input
    /// size is not known here and is recorded as zero.
    pub fn new(root: JSONNode) -> (r: JSONTree)
        requires
            node_count(root) <= usize::MAX,
        ensures
            r.root == root,
            r.total_nodes == node_count(root),
            r.max_depth == deepest(root),
            r.total_size_bytes == 0,
    {
        let total_nodes = root.total_nodes();
        let max_depth = root.max_depth();
        JSONTree { root, total_nodes, max_depth, total_size_bytes: 0 }
    }
}

/// `j` is the builder-API image of the node value `r`.
pub open spec fn value_corresponds(j: JSONValue, r: RustJSONValue) -> bool {
    match r {
        RustJSONValue::String(t) => j matches JSONValue::String(u) && u@ == t@,
        RustJSONValue::Number(x) => j == JSONValue::Number(x),
        RustJSONValue::Boolean(b) => j == JSONValue::Boolean(b),
        RustJSONValue::Null => j is Null,
        RustJSONValue::Object => j is Object,
        RustJSONValue::Array => j is Array,
    }
}

/// `j` is the builder-API image of the tree under `r`, with `key` as its own
/// key: same paths, values and depths, and each child keyed by its label.
pub open spec fn converted(j: JSONNode, r: RustJSONNode, key: Option<String>) -> bool
    decreases r,
{
    &&& j.key == key
    &&& j.path@ == r.path@
    &&& value_corresponds(j.value, r.value)
    &&& j.metadata.depth == r.metadata.depth
    &&& j.metadata.child_count == r.children@.len()
    &&& j.metadata.size_bytes == r.metadata.size_bytes
    &&& !j.metadata.is_expanded
    &&& j.children@.len() == r.children@.len()
    &&& forall|i: int|
        0 <= i < r.children@.len() ==> converted(
            #[trigger] j.children@[i],
            r.children@[i],
            Some(r.children@[i].key),
        )
}

fn to_builder_value(r: &RustJSONValue) -> (j: JSONValue)
    ensures
        value_corresponds(j, *r),
{
    match r {
        RustJSONValue::String(t) => JSONValue::String(t.clone()),
        RustJSONValue::Number(x) => JSONValue::Number(*x),
        RustJSONValue::Boolean(b) => JSONValue::Boolean(*b),
        RustJSONValue::Null => JSONValue::Null,
        RustJSONValue::Object => JSONValue::Object,
        RustJSONValue::Array => JSONValue::Array,
    }
}

/// Converts the tree under `r` into the builder API, keying its root `key`.
fn to_builder_node(r: &RustJSONNode, key: Option<String>) -> (j: JSONNode)
    ensures
        converted(j, *r, key),
    decreases r,
{
    let mut children: Vec<JSONNode> = Vec::new();
    let mut i: usize = 0;
    while i < r.children.len()
        invariant
            i <= r.children@.len(),
            children@.len() == i,
            forall|k: int|
                0 <= k < i ==> converted(#[trigger] children@[k], r.children@[k], Some(r.children@[k].key)),
        decreases r.children@.len() - i,
    {
        proof {
            assert(decreases_to!(*r => r.children));
            assert(decreases_to!(r.children => r.children@));
        }
        let child = &r.children[i];
        let c = to_builder_node(child, Some(child.key.clone()));
        children.push(c);
        i = i + 1;
    }
    let child_count = children.len();
    JSONNode {
        key,
        value: to_builder_value(&r.value),
        children,
        path: r.path.clone(),
        metadata: NodeMetadata {
            depth: r.metadata.depth,
            child_count,
            size_bytes: r.metadata.size_bytes,
            is_expanded: false,
        },
    }
}

/// The image of a materialization has as many nodes as the materialization
/// allocated.
proof fn lemma_converted_count(
    j: JSONNode,
    r: RustJSONNode,
    key: Option<String>,
    v: ParsedValue,
    rkey: Seq<char>,
    path: Seq<char>,
    depth: nat,
    lim: Limits,
)
    requires
        converted(j, r, key),
        materializes(r, v, rkey, path, depth, lim),
    ensures
        node_count(j) == mat_count(v, depth, lim),
    decreases v, v.child_len() + 1,
{
    let s = j.children@;
    assert(node_count(j) == 1 + forest_count(s));
    if depth >= lim.max_depth {
        assert(s.len() == 0);
        assert(forest_count(s) == 0);
    } else {
        let len = v.child_len();
        let cap = container_cap(len, lim.max_children as nat);
        lemma_converted_prefix(j, r, v, path, depth, lim, cap);
        if len > cap {
            assert(is_truncation(r.children@[cap as int], v, path, depth + 1, (len - cap) as nat, lim));
            let p = s[cap as int];
            assert(converted(p, r.children@[cap as int], Some(r.children@[cap as int].key)));
            assert(p.children@.len() == 0);
            assert(forest_count(p.children@) == 0);
            assert(node_count(p) == 1 + forest_count(p.children@));
            assert(s.subrange(0, s.len() - 1) =~= s.subrange(0, cap as int));
            assert(forest_count(s) == forest_count(s.subrange(0, s.len() - 1)) + node_count(s[s.len() - 1]));
        } else {
            assert(s.subrange(0, cap as int) =~= s);
        }
    }
}

proof fn lemma_converted_prefix(
    j: JSONNode,
    r: RustJSONNode,
    v: ParsedValue,
    path: Seq<char>,
    depth: nat,
    lim: Limits,
    k: nat,
)
    requires
        converted(j, r, j.key),
        depth < lim.max_depth,
        k <= container_cap(v.child_len(), lim.max_children as nat),
        forall|i: int|
            0 <= i < container_cap(v.child_len(), lim.max_children as nat) ==> materializes(
                #[trigger] r.children@[i],
                v.child(i),
                v.child_key(i),
                path + v.child_segment(i),
                depth + 1,
                lim,
            ),
        r.children@.len() >= container_cap(v.child_len(), lim.max_children as nat),
        container_cap(v.child_len(), lim.max_children as nat) <= v.child_len(),
    ensures
        forest_count(j.children@.subrange(0, k as int)) == kids_count(v, k, depth + 1, lim),
    decreases v, k,
{
    if k > 0 {
        let s = j.children@;
        let i = k - 1;
        lemma_converted_prefix(j, r, v, path, depth, lim, (k - 1) as nat);
        assert(s.subrange(0, k as int).subrange(0, i) =~= s.subrange(0, i));
        assert(materializes(
            r.children@[i],
            v.child(i),
            v.child_key(i),
            path + v.child_segment(i),
            depth + 1,
            lim,
        ));
        assert(converted(s[i], r.children@[i], Some(r.children@[i].key)));
        crate::value::lemma_child_decreases(v, i);
        lemma_converted_count(
            s[i],
            r.children@[i],
            Some(r.children@[i].key),
            v.child(i),
            v.child_key(i),
            path + v.child_segment(i),
            depth + 1,
            lim,
        );
    }
}

/// The caps and budgets for building trees.
pub struct TreeBuilder {
    pub max_depth: usize,
    pub max_nodes: usize,
}

/// The caps of a builder run over `len` bytes: the policy's depth for the
/// builder's requested depth, and a tenth of its node budget per container.
pub open spec fn builder_limits(b: TreeBuilder, len: nat) -> Limits {
    Limits {
        max_depth: effective_max_depth_spec(len, b.max_depth as nat) as usize,
        max_children: (b.max_nodes / 10) as usize,
        streamed: false,
    }
}

/// `j` is the builder-API image of the materialization of `v`.
pub open spec fn builds(j: JSONNode, v: ParsedValue, key: Option<String>, path: Seq<char>, depth: nat, lim: Limits) -> bool {
    exists|r: RustJSONNode|
        #[trigger] materializes(r, v, label_of(key), path, depth, lim) && converted(j, r, key)
}

/// The label a node of the core tree carries for a builder key: the key, or
/// nothing for the root.
pub open spec fn label_of(key: Option<String>) -> Seq<char> {
    match key {
        Some(k) => k@,
        None => Seq::empty(),
    }
}

impl TreeBuilder {
    /// Depth 100 and a budget of 100 000 nodes.
    pub fn new() -> (r: TreeBuilder)
        ensures
            r.max_depth == 100,
            r.max_nodes == 100_000,
    {
        TreeBuilder { max_depth: 100, max_nodes: 100_000 }
    }

    /// The same builder with the requested depth set to `depth`.
    pub fn with_max_depth(self, depth: usize) -> (r: TreeBuilder)
        ensures
            r.max_depth == depth,
            r.max_nodes == self.max_nodes,
    {
        TreeBuilder { max_depth: depth, max_nodes: self.max_nodes }
    }

    /// The same builder with the node budget set to `nodes`.
    pub fn with_max_nodes(self, nodes: usize) -> (r: TreeBuilder)
        ensures
            r.max_depth == self.max_depth,
            r.max_nodes == nodes,
    {
        TreeBuilder { max_depth: self.max_depth, max_nodes: nodes }
    }

    fn limits(&self, len: usize) -> (r: Limits)
        ensures
            r == builder_limits(*self, len as nat),
    {
        Limits { max_depth: effective_max_depth(len, self.max_depth), max_children: self.max_nodes / 10, streamed: false }
    }

    /// Materializes `value` under `key` and `path` at `depth` and converts the
    /// result. Fails, with a memory error, exactly when the number of nodes
    /// would not fit in a `usize`.
    fn convert_json_value_to_node(
        &self,
        value: &ParsedValue,
        key: Option<String>,
        path: String,
        depth: usize,
        lim: Limits,
    ) -> (r: Result<JSONNode>)
        ensures
            r is Ok <==> mat_count(*value, depth as nat, lim) <= usize::MAX,
            r matches Ok(j) ==> builds(j, *value, key, path@, depth as nat, lim) && node_count(j) == mat_count(
                *value,
                depth as nat,
                lim,
            ),
            r matches Err(e) ==> e is MemoryError,
    {
        let label = match &key {
            Some(k) => k.clone(),
            None => String::new(),
        };
        let ghost rkey = label@;
        let ghost p = path@;
        let node = convert_json_to_tree_limited(value, label, path, depth, lim)?;
        let j = to_builder_node(&node, key);
        proof {
            assert(label_of(key) == rkey);
            assert(materializes(node, *value, rkey, p, depth as nat, lim));
            lemma_converted_count(j, node, key, *value, rkey, p, depth as nat, lim);
        }
        Ok(j)
    }

    /// Parses `data` and builds its tree under [`builder_limits`]. Malformed
    /// input gives a parse failure; well-formed input gives the image of its
    /// materialization, with the input's length recorded, unless the node count
    /// does not fit in a `usize`. A requested depth of zero asks for no depth:
    /// the policy's default for the input's size applies, as it does to any
    /// requested depth.
    pub fn build_from_data(&self, data: &[u8]) -> (r: Result<JSONTree>)
        ensures
            json_document(data@) is None ==> (r matches Err(e) && e is JsonParsing),
            json_document(data@) matches Some(v) ==> {
                let lim = builder_limits(*self, data@.len());
                &&& r is Ok <==> mat_count(v, 0, lim) <= usize::MAX
                &&& r matches Err(e) ==> e is MemoryError
                &&& r matches Ok(t) ==> {
                    &&& builds(t.root, v, None, root_path(), 0, lim)
                    &&& t.total_nodes == mat_count(v, 0, lim)
                    &&& t.max_depth == deepest(t.root)
                    &&& t.total_size_bytes == data@.len()
                }
            },
    {
        let parsed = match parse_document(data) {
            Ok(v) => v,
            Err(e) => {
                return Err(parse_failure(&e));
            },
        };
        let lim = self.limits(data.len());
        proof {
            reveal_strlit("$");
            assert("$"@ =~= root_path());
        }
        let root = self.convert_json_value_to_node(&parsed, None, String::from_str("$"), 0, lim)?;
        let mut tree = JSONTree::new(root);
        tree.total_size_bytes = data.len();
        Ok(tree)
    }

    /// A stand-in tree for a file that is not read: an object root with one
    /// member, `filename`, holding the path's final component (or `unknown`).
    pub fn build_from_file(&self, file_path: &str) -> (r: Result<JSONTree>)
        ensures
            r matches Ok(t) && {
                let root = t.root;
                let child = root.children@[0];
                &&& root.key is None
                &&& root.value is Object
                &&& root.path@ == "$"@
                &&& root.metadata.depth == 0
                &&& root.children@.len() == 1
                &&& child.key matches Some(k) && k@ == "filename"@
                &&& child.value matches JSONValue::String(s) && s@ == match file_name_of(file_path@) {
                    Some(n) => n,
                    None => "unknown"@,
                }
                &&& child.path@ == "$.filename"@
                &&& child.metadata.depth == 1
                &&& child.children@.len() == 0
                &&& t.total_nodes == 2
                &&& t.max_depth == 1
            },
    {
        let mut root = JSONNode::new(None, JSONValue::Object, String::from_str("$"), 0);
        let name = match final_component(file_path) {
            Some(n) => n,
            None => String::from_str("unknown"),
        };
        let child = JSONNode::new(
            Some(String::from_str("filename")),
            JSONValue::String(name),
            String::from_str("$.filename"),
            1,
        );
        root.add_child(child);
        proof {
            let s = root.children@;
            assert(s.subrange(0, 0) =~= Seq::<JSONNode>::empty());
            assert(s.subrange(0, s.len() - 1) =~= Seq::<JSONNode>::empty());
            assert(forest_count(Seq::<JSONNode>::empty()) == 0);
            assert(node_count(s[0]) == 1 + forest_count(s[0].children@));
            assert(forest_count(s[0].children@) == 0);
            assert(forest_count(s) == forest_count(s.subrange(0, s.len() - 1)) + node_count(s[s.len() - 1]));
            assert(deepest(s[0]) == 1);
            assert(forest_deepest(Seq::<JSONNode>::empty()) == 0);
            assert(forest_deepest(s) == 1);
        }
        Ok(JSONTree::new(root))
    }
}

/// The final component of a path, if it has one that is valid UTF-8.
pub uninterp spec fn file_name_of(path: Seq<char>) -> Option<Seq<char>>;

/// Relies on `std::path::Path::file_name`: the last component of the path
/// (none for a path that ends in `..` or is a root), read as UTF-8.
#[verifier::external_body]
fn final_component(path: &str) -> (r: Option<String>)
    ensures
        r matches Some(s) ==> file_name_of(path@) == Some(s@),
        r is None ==> file_name_of(path@) is None,
{
    std::path::Path::new(path).file_name().and_then(|n| n.to_str()).map(|n| n.to_string())
}

impl Default for TreeBuilder {
    fn default() -> (r: TreeBuilder)
        ensures
            r.max_depth == 100,
            r.max_nodes == 100_000,
    {
        TreeBuilder::new()
    }
}

} // verus!
