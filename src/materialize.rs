//! The bounded tree materializer: one parsed value in, one capped node tree out.

use vstd::prelude::*;
use vstd::string::*;
use crate::error::{Result, TreonError};
use crate::node::{RustJSONNode, RustJSONValue, RustNodeMetadata};
use crate::text::{decimal, decimal_string, escape_name_string};
use crate::value::{ParsedValue, lemma_child_decreases};

verus! {

/// The caps of one run: the depth at which recursion stops, a cap on the
/// entries loaded from any one container (on top of the size-based one), and
/// whether the nodes are marked as streamed.
#[derive(Clone, Copy, Debug, PartialEq, Eq, Structural)]
pub struct Limits {
    pub max_depth: usize,
    pub max_children: usize,
    pub streamed: bool,
}

/// How many entries of a container with `n` entries are loaded: 50 above ten
/// thousand, 100 above one thousand, all of them otherwise.
pub open spec fn per_container_cap_spec(n: nat) -> nat {
    if n > 10000 {
        50
    } else if n > 1000 {
        100
    } else {
        n
    }
}

/// The size-based cap, further bounded by `max_children`.
pub open spec fn container_cap(n: nat, max_children: nat) -> nat {
    let c = per_container_cap_spec(n);
    if c <= max_children {
        c
    } else {
        max_children
    }
}

/// The entries loaded from a container with `n` entries.
pub fn per_container_cap(n: usize) -> (r: usize)
    ensures
        r == per_container_cap_spec(n as nat),
{
    if n > 10000 {
        50
    } else if n > 1000 {
        100
    } else {
        n
    }
}

/// Whether a node value is the one a parsed value yields: scalars verbatim,
/// containers as their marker.
pub open spec fn value_marks(r: RustJSONValue, v: ParsedValue) -> bool {
    match v {
        ParsedValue::Null => r is Null,
        ParsedValue::Bool(b) => r == RustJSONValue::Boolean(b),
        ParsedValue::Number(x) => r == RustJSONValue::Number(x),
        ParsedValue::String(s) => r matches RustJSONValue::String(t) && t@ == s@,
        ParsedValue::Array(_) => r is Array,
        ParsedValue::Object(_) => r is Object,
    }
}

/// The number of nodes that materializing `v` at `depth` allocates.
pub open spec fn mat_count(v: ParsedValue, depth: nat, lim: Limits) -> nat
    decreases v, v.child_len() + 1,
{
    if depth >= lim.max_depth {
        1
    } else {
        let len = v.child_len();
        let cap = container_cap(len, lim.max_children as nat);
        1 + kids_count(v, cap, depth + 1, lim) + if len > cap {
            1nat
        } else {
            0nat
        }
    }
}

/// The nodes allocated for the first `n` entries of `v`, each at `depth`.
pub open spec fn kids_count(v: ParsedValue, n: nat, depth: nat, lim: Limits) -> nat
    decreases v, n,
{
    if n == 0 || n > v.child_len() {
        0
    } else {
        kids_count(v, (n - 1) as nat, depth, lim) + mat_count(v.child(n - 1), depth, lim)
    }
}

/// The label of a truncation placeholder standing for `remaining` entries.
pub open spec fn more_key(remaining: nat) -> Seq<char> {
    seq!['.', '.', '.', ' ', 'a', 'n', 'd', ' '] + decimal(remaining) + seq![' ', 'm', 'o', 'r', 'e']
}

/// What a truncation placeholder appends to its container's path; no real
/// entry's segment is equal to it.
pub open spec fn more_segment() -> Seq<char> {
    seq!['[', 'm', 'o', 'r', 'e', ']']
}

/// `p` is the placeholder that closes a truncated container `v` at `path`,
/// standing for the `remaining` entries that were not loaded.
pub open spec fn is_truncation(
    p: RustJSONNode,
    v: ParsedValue,
    path: Seq<char>,
    depth: nat,
    remaining: nat,
    lim: Limits,
) -> bool {
    &&& p.key@ == more_key(remaining)
    &&& p.path@ == path + more_segment()
    &&& value_marks(p.value, v)
    &&& p.children@.len() == 0
    &&& !p.fully_loaded
    &&& !p.expanded
    &&& p.metadata.depth == depth
    &&& p.metadata.descendant_count == remaining
    &&& p.metadata.size_bytes == 0
    &&& p.metadata.streamed == lim.streamed
    &&& p.metadata.processing_time_ms == 0
}

/// `n` is the materialization of `v` under `key` and `path` at `depth`.
///
/// At or beyond the depth limit it is a childless leaf that is not fully
/// loaded. Otherwise its children are the materializations of the first `cap`
/// entries in source order, followed, when entries were left out, by one
/// truncation placeholder. It is fully loaded when nothing was left out at or
/// below it.
pub open spec fn materializes(
    n: RustJSONNode,
    v: ParsedValue,
    key: Seq<char>,
    path: Seq<char>,
    depth: nat,
    lim: Limits,
) -> bool
    decreases v,
{
    &&& n.key@ == key
    &&& n.path@ == path
    &&& value_marks(n.value, v)
    &&& !n.expanded
    &&& n.metadata.depth == depth
    &&& n.metadata.size_bytes == 0
    &&& n.metadata.streamed == lim.streamed
    &&& n.metadata.processing_time_ms == 0
    &&& n.metadata.descendant_count + 1 == mat_count(v, depth, lim)
    &&& if depth >= lim.max_depth {
        &&& n.children@.len() == 0
        &&& !n.fully_loaded
    } else {
        let len = v.child_len();
        let cap = container_cap(len, lim.max_children as nat);
        &&& n.children@.len() == if len > cap {
            cap + 1
        } else {
            cap
        }
        &&& forall|i: int|
            0 <= i < cap ==> materializes(
                #[trigger] n.children@[i],
                v.child(i),
                v.child_key(i),
                path + v.child_segment(i),
                depth + 1,
                lim,
            )
        &&& len > cap ==> is_truncation(n.children@[cap as int], v, path, depth + 1, (len - cap) as nat, lim)
        &&& n.fully_loaded == (len <= cap && forall|i: int|
            0 <= i < cap ==> (#[trigger] n.children@[i]).fully_loaded)
    }
}

/// Counting the first `a` entries never gives more than counting the first `b`.
pub proof fn lemma_kids_count_monotone(v: ParsedValue, a: nat, b: nat, depth: nat, lim: Limits)
    requires
        a <= b <= v.child_len(),
    ensures
        kids_count(v, a, depth, lim) <= kids_count(v, b, depth, lim),
    decreases b,
{
    if a < b {
        lemma_kids_count_monotone(v, a, (b - 1) as nat, depth, lim);
    }
}

/// The node value of a parsed value: a scalar verbatim, a container's marker.
pub fn convert_json_value(v: &ParsedValue) -> (r: RustJSONValue)
    ensures
        value_marks(r, *v),
{
    match v {
        ParsedValue::Null => RustJSONValue::Null,
        ParsedValue::Bool(b) => RustJSONValue::Boolean(*b),
        ParsedValue::Number(x) => RustJSONValue::Number(*x),
        ParsedValue::String(s) => RustJSONValue::String(s.clone()),
        ParsedValue::Array(_) => RustJSONValue::Array,
        ParsedValue::Object(_) => RustJSONValue::Object,
    }
}

fn entry_count(v: &ParsedValue) -> (r: usize)
    ensures
        r == v.child_len(),
{
    match v {
        ParsedValue::Array(a) => a.len(),
        ParsedValue::Object(o) => o.len(),
        _ => 0,
    }
}

fn entry_value(v: &ParsedValue, i: usize) -> (r: &ParsedValue)
    requires
        i < v.child_len(),
    ensures
        *r == v.child(i as int),
{
    match v {
        ParsedValue::Array(a) => &a[i],
        ParsedValue::Object(o) => &o[i].1,
        _ => v,
    }
}

/// The key of entry `i` and the segment it appends to the container's path.
fn entry_label(v: &ParsedValue, i: usize) -> (r: (String, String))
    requires
        i < v.child_len(),
    ensures
        r.0@ == v.child_key(i as int),
        r.1@ == v.child_segment(i as int),
{
    proof {
        reveal_strlit(".");
        reveal_strlit("[");
        reveal_strlit("]");
    }
    match v {
        ParsedValue::Object(o) => {
            let k = o[i].0.clone();
            let escaped = escape_name_string(k.as_str());
            let mut seg = String::from_str(".");
            seg.append(escaped.as_str());
            (k, seg)
        },
        _ => {
            let k = decimal_string(i);
            let mut seg = String::from_str("[");
            seg.append(k.as_str());
            seg.append("]");
            (k, seg)
        },
    }
}

/// The truncation placeholder for a container `v` at `path` whose entries from
/// the cap onwards, `remaining` of them, were left out.
fn truncation_node(v: &ParsedValue, path: &String, depth: usize, remaining: usize, lim: Limits) -> (r: RustJSONNode)
    ensures
        is_truncation(r, *v, path@, depth as nat, remaining as nat, lim),
{
    proof {
        reveal_strlit("... and ");
        reveal_strlit(" more");
        reveal_strlit("[more]");
        assert("... and "@ =~= seq!['.', '.', '.', ' ', 'a', 'n', 'd', ' ']);
        assert(" more"@ =~= seq![' ', 'm', 'o', 'r', 'e']);
        assert("[more]"@ =~= more_segment());
    }
    let mut key = String::from_str("... and ");
    let count = decimal_string(remaining);
    key.append(count.as_str());
    key.append(" more");
    let mut p = path.clone();
    p.append("[more]");
    RustJSONNode {
        key,
        path: p,
        value: convert_json_value(v),
        children: Vec::new(),
        expanded: false,
        fully_loaded: false,
        metadata: RustNodeMetadata {
            size_bytes: 0,
            depth,
            descendant_count: remaining,
            streamed: lim.streamed,
            processing_time_ms: 0,
        },
    }
}

/// Materializes `value` under `key` and `path` at `depth`. Fails, with a memory
/// error, exactly when the number of nodes would not fit in a `usize`.
pub fn convert_json_to_tree_limited(
    value: &ParsedValue,
    key: String,
    path: String,
    depth: usize,
    lim: Limits,
) -> (r: Result<RustJSONNode>)
    ensures
        r is Ok <==> mat_count(*value, depth as nat, lim) <= usize::MAX as nat,
        r matches Ok(n) ==> materializes(n, *value, key@, path@, depth as nat, lim),
        r matches Err(e) ==> e is MemoryError,
    decreases value,
{
    let rust_value = convert_json_value(value);
    if depth >= lim.max_depth {
        return Ok(
            RustJSONNode {
                key,
                path,
                value: rust_value,
                children: Vec::new(),
                expanded: false,
                fully_loaded: false,
                metadata: RustNodeMetadata {
                    size_bytes: 0,
                    depth,
                    descendant_count: 0,
                    streamed: lim.streamed,
                    processing_time_ms: 0,
                },
            },
        );
    }
    let len = entry_count(value);
    let size_cap = per_container_cap(len);
    let cap = if size_cap <= lim.max_children {
        size_cap
    } else {
        lim.max_children
    };
    let ghost v = *value;
    let ghost d = (depth + 1) as nat;
    let mut children: Vec<RustJSONNode> = Vec::new();
    let mut count: usize = 0;
    let mut complete = true;
    let mut i: usize = 0;
    while i < cap
        invariant
            cap == container_cap(len as nat, lim.max_children as nat),
            len == v.child_len(),
            v == *value,
            d == depth + 1,
            depth < lim.max_depth,
            i <= cap <= len,
            children@.len() == i,
            count as nat == kids_count(v, i as nat, d, lim),
            forall|j: int|
                0 <= j < i ==> materializes(
                    #[trigger] children@[j],
                    v.child(j),
                    v.child_key(j),
                    path@ + v.child_segment(j),
                    d,
                    lim,
                ),
            complete == forall|j: int| 0 <= j < i ==> (#[trigger] children@[j]).fully_loaded,
        decreases cap - i,
    {
        let (child_key, segment) = entry_label(value, i);
        let mut child_path = path.clone();
        child_path.append(segment.as_str());
        let child_value = entry_value(value, i);
        proof {
            lemma_child_decreases(v, i as int);
            lemma_kids_count_monotone(v, (i + 1) as nat, cap as nat, d, lim);
        }
        let child = match convert_json_to_tree_limited(child_value, child_key, child_path, depth + 1, lim) {
            Ok(c) => c,
            Err(e) => {
                return Err(e);
            },
        };
        let weight = child.metadata.descendant_count + 1;
        count = match count.checked_add(weight) {
            Some(c) => c,
            None => {
                return Err(TreonError::memory_error("too many nodes to count"));
            },
        };
        let ghost before = children@;
        let ghost was_complete = complete;
        complete = complete && child.fully_loaded;
        children.push(child);
        i = i + 1;
        proof {
            assert(children@[i - 1] == child);
            assert(forall|j: int| 0 <= j < i - 1 ==> children@[j] == before[j]);
            if complete {
                assert forall|j: int| 0 <= j < i implies (#[trigger] children@[j]).fully_loaded by {
                    if j < i - 1 {
                        assert(children@[j] == before[j]);
                    }
                }
            } else if was_complete {
                assert(!children@[i - 1].fully_loaded);
            } else {
                let k = choose|k: int| 0 <= k < i - 1 && !(#[trigger] before[k]).fully_loaded;
                assert(children@[k] == before[k]);
            }
        }
    }
    if len > cap {
        count = match count.checked_add(1) {
            Some(c) => c,
            None => {
                return Err(TreonError::memory_error("too many nodes to count"));
            },
        };
        let placeholder = truncation_node(value, &path, depth + 1, len - cap, lim);
        children.push(placeholder);
        complete = false;
    }
    if count == usize::MAX {
        return Err(TreonError::memory_error("too many nodes to count"));
    }
    Ok(
        RustJSONNode {
            key,
            path,
            value: rust_value,
            children,
            expanded: false,
            fully_loaded: complete,
            metadata: RustNodeMetadata {
                size_bytes: 0,
                depth,
                descendant_count: count,
                streamed: lim.streamed,
                processing_time_ms: 0,
            },
        },
    )
}

} // verus!
