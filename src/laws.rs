//! Properties that hold of every tree the materializer produces.

use vstd::prelude::*;
use crate::materialize::{Limits, container_cap, is_truncation, kids_count, mat_count, materializes, more_segment};
use crate::node::RustJSONNode;
use crate::policy::effective_max_depth_spec;
use crate::process::{direct_limits, root_path};
use crate::value::ParsedValue;

verus! {

/// The node reached from `n` by following the child indices in `a`, if every
/// index is in range.
pub open spec fn node_at(n: RustJSONNode, a: Seq<int>) -> Option<RustJSONNode>
    decreases a.len(),
{
    if a.len() == 0 {
        Some(n)
    } else if 0 <= a[0] < n.children@.len() {
        node_at(n.children@[a[0]], a.drop_first())
    } else {
        None
    }
}

/// The depths below a materialized node: a node reached by `a` is `a.len()`
/// levels deeper, its children are one level deeper still, and no node goes
/// beyond the depth limit (or the starting depth, if that is larger).
pub proof fn lemma_depths(
    n: RustJSONNode,
    v: ParsedValue,
    key: Seq<char>,
    path: Seq<char>,
    depth: nat,
    lim: Limits,
    a: Seq<int>,
)
    requires
        materializes(n, v, key, path, depth, lim),
        node_at(n, a) is Some,
    ensures
        ({
            let m = node_at(n, a)->0;
            &&& m.metadata.depth == depth + a.len()
            &&& forall|i: int|
                0 <= i < m.children@.len() ==> (#[trigger] m.children@[i]).metadata.depth
                    == m.metadata.depth + 1
            &&& (m.metadata.depth <= lim.max_depth || m.metadata.depth == depth)
        }),
    decreases a.len(),
{
    let len = v.child_len();
    let cap = container_cap(len, lim.max_children as nat);
    if a.len() == 0 {
        if depth < lim.max_depth {
            assert forall|i: int| 0 <= i < n.children@.len() implies (#[trigger] n.children@[i]).metadata.depth
                == n.metadata.depth + 1 by {
                if i < cap {
                    assert(materializes(
                        n.children@[i],
                        v.child(i),
                        v.child_key(i),
                        path + v.child_segment(i),
                        depth + 1,
                        lim,
                    ));
                } else {
                    assert(is_truncation(n.children@[cap as int], v, path, depth + 1, (len - cap) as nat, lim));
                }
            }
        }
    } else {
        let i = a[0];
        let rest = a.drop_first();
        assert(depth < lim.max_depth);
        if i < cap {
            assert(materializes(
                n.children@[i],
                v.child(i),
                v.child_key(i),
                path + v.child_segment(i),
                depth + 1,
                lim,
            ));
            lemma_depths(n.children@[i], v.child(i), v.child_key(i), path + v.child_segment(i), depth + 1, lim, rest);
        } else {
            let p = n.children@[i];
            assert(i == cap);
            assert(is_truncation(p, v, path, depth + 1, (len - cap) as nat, lim));
            assert(rest.len() == 0);
        }
    }
}

/// Every child is exactly one level below its parent, in every tree the
/// materializer produces.
pub proof fn law_child_depth(root: RustJSONNode, v: ParsedValue, lim: Limits, a: Seq<int>, i: int)
    requires
        materializes(root, v, Seq::empty(), root_path(), 0, lim),
        node_at(root, a) is Some,
        0 <= i < node_at(root, a)->0.children@.len(),
    ensures
        node_at(root, a)->0.children@[i].metadata.depth == node_at(root, a)->0.metadata.depth + 1,
{
    lemma_depths(root, v, Seq::empty(), root_path(), 0, lim, a);
}

/// No node of a direct run over `len` bytes with requested depth `requested`
/// lies deeper than the depth the policy selects for them.
pub proof fn law_depth_within_policy(
    root: RustJSONNode,
    v: ParsedValue,
    len: nat,
    requested: nat,
    a: Seq<int>,
)
    requires
        len <= usize::MAX,
        requested <= usize::MAX,
        materializes(root, v, Seq::empty(), root_path(), 0, direct_limits(len, requested)),
        node_at(root, a) is Some,
    ensures
        node_at(root, a)->0.metadata.depth <= effective_max_depth_spec(len, requested),
{
    lemma_depths(root, v, Seq::empty(), root_path(), 0, direct_limits(len, requested), a);
}

/// A container with more entries than its cap gets exactly one truncation
/// placeholder, as its last child, and is not fully loaded: every child before
/// it is the materialization of an entry, at an address other than the
/// placeholder's.
pub proof fn law_truncation_placeholder(
    n: RustJSONNode,
    v: ParsedValue,
    key: Seq<char>,
    path: Seq<char>,
    depth: nat,
    lim: Limits,
)
    requires
        materializes(n, v, key, path, depth, lim),
        depth < lim.max_depth,
        v.child_len() > container_cap(v.child_len(), lim.max_children as nat),
    ensures
        ({
            let len = v.child_len();
            let cap = container_cap(len, lim.max_children as nat);
            &&& n.children@.len() == cap + 1
            &&& is_truncation(n.children@.last(), v, path, depth + 1, (len - cap) as nat, lim)
            &&& !n.fully_loaded
            &&& forall|i: int|
                0 <= i < cap ==> {
                    &&& materializes(
                        #[trigger] n.children@[i],
                        v.child(i),
                        v.child_key(i),
                        path + v.child_segment(i),
                        depth + 1,
                        lim,
                    )
                    &&& n.children@[i].path@ != n.children@.last().path@
                }
        }),
{
    let len = v.child_len();
    let cap = container_cap(len, lim.max_children as nat);
    assert forall|i: int| 0 <= i < cap implies #[trigger] n.children@[i].path@ != n.children@.last().path@ by {
        assert(materializes(
            n.children@[i],
            v.child(i),
            v.child_key(i),
            path + v.child_segment(i),
            depth + 1,
            lim,
        ));
        lemma_segment_not_more(v, i);
        let seg = v.child_segment(i);
        if n.children@[i].path@ == n.children@.last().path@ {
            assert((path + seg).skip(path.len() as int) =~= seg);
            assert((path + more_segment()).skip(path.len() as int) =~= more_segment());
        }
    }
}

/// No entry's segment is the placeholder's.
pub proof fn lemma_segment_not_more(v: ParsedValue, i: int)
    requires
        0 <= i,
    ensures
        v.child_segment(i) != more_segment(),
{
    crate::text::lemma_decimal_digits(i as nat);
    if !(v is Object) {
        let seg = v.child_segment(i);
        if seg == more_segment() {
            assert(seg[1] == crate::text::decimal(i as nat)[0]);
            assert(seg[1] == 'm');
        }
    } else {
        assert(v.child_segment(i)[0] == '.');
    }
}

/// `v` is `levels` objects nested one in another, each with a single member.
pub open spec fn nested_chain(v: ParsedValue, levels: nat) -> bool
    decreases levels,
{
    if levels == 0 {
        true
    } else {
        &&& v is Object
        &&& v.child_len() == 1
        &&& nested_chain(v.child(0), (levels - 1) as nat)
    }
}

/// The address that takes the first child `k` times.
pub open spec fn first_children(k: nat) -> Seq<int> {
    Seq::new(k, |i: int| 0int)
}

proof fn lemma_chain_bottom(
    n: RustJSONNode,
    v: ParsedValue,
    key: Seq<char>,
    path: Seq<char>,
    depth: nat,
    lim: Limits,
    levels: nat,
)
    requires
        materializes(n, v, key, path, depth, lim),
        nested_chain(v, levels),
        lim.max_children >= 1,
        depth <= lim.max_depth,
        lim.max_depth < depth + levels,
    ensures
        ({
            let a = first_children((lim.max_depth - depth) as nat);
            &&& node_at(n, a) is Some
            &&& node_at(n, a)->0.metadata.depth == lim.max_depth
            &&& node_at(n, a)->0.children@.len() == 0
            &&& node_at(n, a)->0.value is Object
            &&& !node_at(n, a)->0.fully_loaded
        }),
    decreases lim.max_depth - depth,
{
    let a = first_children((lim.max_depth - depth) as nat);
    if depth < lim.max_depth {
        assert(container_cap(1, lim.max_children as nat) == 1);
        let c = n.children@[0];
        assert(materializes(c, v.child(0), v.child_key(0), path + v.child_segment(0), depth + 1, lim));
        lemma_chain_bottom(c, v.child(0), v.child_key(0), path + v.child_segment(0), depth + 1, lim, (levels - 1) as nat);
        assert(a.drop_first() =~= first_children((lim.max_depth - (depth + 1)) as nat));
    } else {
        assert(a.len() == 0);
    }
}

/// Materializing `levels` nested objects with a depth limit below `levels`
/// yields a tree whose deepest node lies exactly at the limit, and that node is
/// a childless leaf of the object kind, not fully loaded.
pub proof fn law_deep_nesting(root: RustJSONNode, v: ParsedValue, lim: Limits, levels: nat, b: Seq<int>)
    requires
        materializes(root, v, Seq::empty(), root_path(), 0, lim),
        nested_chain(v, levels),
        lim.max_children >= 1,
        lim.max_depth < levels,
    ensures
        ({
            let a = first_children(lim.max_depth as nat);
            &&& node_at(root, a) is Some
            &&& node_at(root, a)->0.metadata.depth == lim.max_depth
            &&& node_at(root, a)->0.children@.len() == 0
            &&& node_at(root, a)->0.value is Object
            &&& !node_at(root, a)->0.fully_loaded
        }),
        node_at(root, b) is Some ==> node_at(root, b)->0.metadata.depth <= lim.max_depth,
{
    lemma_chain_bottom(root, v, Seq::empty(), root_path(), 0, lim, levels);
    if node_at(root, b) is Some {
        lemma_depths(root, v, Seq::empty(), root_path(), 0, lim, b);
    }
}

pub open spec fn is_separator(c: char) -> bool {
    c == '.' || c == '['
}

pub open spec fn free_of_separators(s: Seq<char>) -> bool {
    forall|i: int| 0 <= i < s.len() ==> !is_separator(#[trigger] s[i])
}

/// A path segment: a separator followed by text free of separators.
pub open spec fn is_segment(s: Seq<char>) -> bool {
    s.len() >= 1 && is_separator(s[0]) && free_of_separators(s.drop_first())
}

/// What may follow a segment in a path: nothing, or another segment.
pub open spec fn is_tail(r: Seq<char>) -> bool {
    r.len() == 0 || is_separator(r[0])
}

/// A path splits into segments in one way only.
proof fn lemma_segments_decode(s1: Seq<char>, r1: Seq<char>, s2: Seq<char>, r2: Seq<char>)
    requires
        is_segment(s1),
        is_segment(s2),
        is_tail(r1),
        is_tail(r2),
        s1 + r1 == s2 + r2,
    ensures
        s1 == s2,
{
    let x = s1 + r1;
    if s1.len() < s2.len() {
        let p = s1.len() as int;
        assert(s2.drop_first()[p - 1] == s2[p]);
        assert(x[p] == s2[p]);
        if r1.len() == 0 {
            assert(x.len() == p);
        } else {
            assert(x[p] == r1[0]);
        }
    } else if s2.len() < s1.len() {
        let p = s2.len() as int;
        assert(s1.drop_first()[p - 1] == s1[p]);
        assert(x[p] == s1[p]);
        if r2.len() == 0 {
            assert(x.len() == p);
        } else {
            assert((s2 + r2)[p] == r2[0]);
        }
    } else {
        assert(s1 =~= x.subrange(0, s1.len() as int));
        assert(s2 =~= (s2 + r2).subrange(0, s2.len() as int));
    }
}

/// The segment that child `i` of the materialization of `v` adds to the path.
pub open spec fn child_step(v: ParsedValue, lim: Limits, i: int) -> Seq<char> {
    if i < container_cap(v.child_len(), lim.max_children as nat) {
        v.child_segment(i)
    } else {
        more_segment()
    }
}

proof fn lemma_step_is_segment(v: ParsedValue, lim: Limits, i: int)
    requires
        0 <= i <= v.child_len(),
    ensures
        is_segment(child_step(v, lim, i)),
{
    let s = child_step(v, lim, i);
    if i < container_cap(v.child_len(), lim.max_children as nat) {
        if let ParsedValue::Object(o) = v {
            crate::text::lemma_escape_plain(o@[i].0@);
            assert(s.drop_first() =~= crate::text::escape_name(o@[i].0@));
        } else {
            crate::text::lemma_decimal_digits(i as nat);
            let d = crate::text::decimal(i as nat);
            assert(s.drop_first() =~= d + seq![']']);
            assert forall|k: int| 0 <= k < s.drop_first().len() implies !is_separator(#[trigger] s.drop_first()[k]) by {
                if k < d.len() {
                    assert(s.drop_first()[k] == d[k]);
                }
            }
        }
    } else {
        assert(s.drop_first() =~= seq!['m', 'o', 'r', 'e', ']']);
    }
}

/// Siblings add different segments.
proof fn lemma_steps_differ(v: ParsedValue, lim: Limits, i: int, j: int)
    requires
        v.wf(),
        0 <= i < j <= container_cap(v.child_len(), lim.max_children as nat),
        container_cap(v.child_len(), lim.max_children as nat) <= v.child_len(),
    ensures
        child_step(v, lim, i) != child_step(v, lim, j),
{
    let cap = container_cap(v.child_len(), lim.max_children as nat);
    lemma_segment_not_more(v, i);
    if j < cap {
        let si = v.child_segment(i);
        let sj = v.child_segment(j);
        if si == sj {
            if let ParsedValue::Object(o) = v {
                assert(si.drop_first() =~= crate::text::escape_name(o@[i].0@));
                assert(sj.drop_first() =~= crate::text::escape_name(o@[j].0@));
                crate::text::lemma_escape_injective(o@[i].0@, o@[j].0@);
            } else {
                let di = crate::text::decimal(i as nat);
                let dj = crate::text::decimal(j as nat);
                assert(si.subrange(1, si.len() - 1) =~= di);
                assert(sj.subrange(1, sj.len() - 1) =~= dj);
                crate::text::lemma_decimal_injective(i as nat, j as nat);
            }
        }
    }
}

/// The path of a node reached through child `a[0]` starts with the parent's
/// path and that child's segment, and whatever follows is a sequence of
/// segments.
proof fn lemma_path_split(
    n: RustJSONNode,
    v: ParsedValue,
    key: Seq<char>,
    path: Seq<char>,
    depth: nat,
    lim: Limits,
    a: Seq<int>,
)
    requires
        materializes(n, v, key, path, depth, lim),
        node_at(n, a) is Some,
    ensures
        a.len() == 0 ==> node_at(n, a)->0.path@ == path,
        a.len() > 0 ==> ({
            let p = node_at(n, a)->0.path@;
            let s = child_step(v, lim, a[0]);
            &&& 0 <= a[0] <= v.child_len()
            &&& p.len() >= (path.len() + s.len()) as int
            &&& p.subrange(0, (path.len() + s.len()) as int) == path + s
            &&& is_tail(p.skip((path.len() + s.len()) as int))
        }),
    decreases a.len(),
{
    if a.len() > 0 {
        let len = v.child_len();
        let cap = container_cap(len, lim.max_children as nat);
        let i = a[0];
        let rest = a.drop_first();
        let s = child_step(v, lim, i);
        let p = node_at(n, a)->0.path@;
        if i < cap {
            let c = n.children@[i];
            let cpath = path + v.child_segment(i);
            assert(materializes(c, v.child(i), v.child_key(i), cpath, depth + 1, lim));
            lemma_path_split(c, v.child(i), v.child_key(i), cpath, depth + 1, lim, rest);
            if rest.len() == 0 {
                assert(p =~= cpath);
                assert(p.subrange(0, (path.len() + s.len()) as int) =~= path + s);
            } else {
                let s2 = child_step(v.child(i), lim, rest[0]);
                assert(p.subrange(0, cpath.len() as int) == cpath);
                assert(p.subrange(0, (path.len() + s.len()) as int) =~= p.subrange(0, cpath.len() as int));
                assert(p.skip((path.len() + s.len()) as int).subrange(0, s2.len() as int) =~= p.subrange(
                    cpath.len() as int,
                    (cpath.len() + s2.len()) as int,
                ));
                assert(p.subrange(cpath.len() as int, (cpath.len() + s2.len()) as int) =~= p.subrange(
                    0,
                    (cpath.len() + s2.len()) as int,
                ).skip(cpath.len() as int));
                assert((cpath + s2).skip(cpath.len() as int) =~= s2);
                lemma_step_starts_with_separator(v.child(i), lim, rest[0]);
                assert(p.skip((path.len() + s.len()) as int)[0] == s2[0]);
            }
        } else {
            assert(i == cap);
            assert(is_truncation(n.children@[i], v, path, depth + 1, (len - cap) as nat, lim));
            assert(rest.len() == 0);
            assert(p =~= path + more_segment());
            assert(p.subrange(0, (path.len() + s.len()) as int) =~= path + s);
        }
    }
}

proof fn lemma_step_starts_with_separator(v: ParsedValue, lim: Limits, i: int)
    ensures
        child_step(v, lim, i).len() >= 1,
        is_separator(child_step(v, lim, i)[0]),
{
}

/// Below any materialized node, not just the root, no two nodes share a path.
pub proof fn lemma_paths_distinct(
    n: RustJSONNode,
    v: ParsedValue,
    key: Seq<char>,
    path: Seq<char>,
    depth: nat,
    lim: Limits,
    a: Seq<int>,
    b: Seq<int>,
)
    requires
        materializes(n, v, key, path, depth, lim),
        v.wf(),
        node_at(n, a) is Some,
        node_at(n, b) is Some,
        a != b,
    ensures
        node_at(n, a)->0.path@ != node_at(n, b)->0.path@,
    decreases a.len() + b.len(),
{
    let pa = node_at(n, a)->0.path@;
    let pb = node_at(n, b)->0.path@;
    lemma_path_split(n, v, key, path, depth, lim, a);
    lemma_path_split(n, v, key, path, depth, lim, b);
    if a.len() == 0 || b.len() == 0 {
        if a.len() == 0 && b.len() == 0 {
            assert(a =~= b);
        } else if a.len() == 0 {
            lemma_step_starts_with_separator(v, lim, b[0]);
            assert(pb.len() > pa.len());
        } else {
            lemma_step_starts_with_separator(v, lim, a[0]);
            assert(pa.len() > pb.len());
        }
    } else {
        let len = v.child_len();
        let cap = container_cap(len, lim.max_children as nat);
        assert(depth < lim.max_depth);
        let i = a[0];
        let j = b[0];
        if i == j {
            if a.drop_first() == b.drop_first() {
                assert(a =~= seq![i] + a.drop_first());
                assert(b =~= seq![j] + b.drop_first());
            }
            if i < cap {
                let c = n.children@[i];
                let cpath = path + v.child_segment(i);
                assert(materializes(c, v.child(i), v.child_key(i), cpath, depth + 1, lim));
                assert(v.child(i).wf());
                assert(node_at(n, a) == node_at(c, a.drop_first()));
                assert(node_at(n, b) == node_at(c, b.drop_first()));
                lemma_paths_distinct(
                    c,
                    v.child(i),
                    v.child_key(i),
                    cpath,
                    depth + 1,
                    lim,
                    a.drop_first(),
                    b.drop_first(),
                );
            } else {
                assert(i == cap);
                assert(is_truncation(n.children@[i], v, path, depth + 1, (len - cap) as nat, lim));
                assert(n.children@[i].children@.len() == 0);
                assert(node_at(n, a) == node_at(n.children@[i], a.drop_first()));
                assert(node_at(n, b) == node_at(n.children@[i], b.drop_first()));
                assert(a.drop_first().len() == 0 && b.drop_first().len() == 0);
                assert(a =~= b);
            }
        } else if pa == pb {
            let si = child_step(v, lim, i);
            let sj = child_step(v, lim, j);
            lemma_step_is_segment(v, lim, i);
            lemma_step_is_segment(v, lim, j);
            let ra = pa.skip((path.len() + si.len()) as int);
            let rb = pb.skip((path.len() + sj.len()) as int);
            assert(pa.skip(path.len() as int) =~= si + ra) by {
                assert(pa.subrange(0, (path.len() + si.len()) as int).skip(path.len() as int) =~= si);
            }
            assert(pb.skip(path.len() as int) =~= sj + rb) by {
                assert(pb.subrange(0, (path.len() + sj.len()) as int).skip(path.len() as int) =~= sj);
            }
            lemma_segments_decode(si, ra, sj, rb);
            if i < j {
                lemma_steps_differ(v, lim, i, j);
            } else {
                lemma_steps_differ(v, lim, j, i);
            }
        }
    }
}

/// Every node's path is unique within its tree: member names are escaped, so a
/// path splits into segments in one way only.
pub proof fn law_paths_unique(root: RustJSONNode, v: ParsedValue, lim: Limits, a: Seq<int>, b: Seq<int>)
    requires
        materializes(root, v, Seq::empty(), root_path(), 0, lim),
        v.wf(),
        node_at(root, a) is Some,
        node_at(root, b) is Some,
        a != b,
    ensures
        node_at(root, a)->0.path@ != node_at(root, b)->0.path@,
{
    lemma_paths_distinct(root, v, Seq::empty(), root_path(), 0, lim, a, b);
}

/// The number of nodes in the tree under `n`, `n` included.
pub open spec fn tree_size(n: RustJSONNode) -> nat
    decreases n,
{
    1 + forest_size(n.children@)
}

/// The number of nodes in the trees of `s`.
pub open spec fn forest_size(s: Seq<RustJSONNode>) -> nat
    decreases s,
{
    if s.len() == 0 {
        0
    } else {
        forest_size(s.subrange(0, s.len() - 1)) + tree_size(s[s.len() - 1])
    }
}

proof fn lemma_forest_size_prefix(
    n: RustJSONNode,
    v: ParsedValue,
    path: Seq<char>,
    depth: nat,
    lim: Limits,
    k: nat,
)
    requires
        depth < lim.max_depth,
        k <= container_cap(v.child_len(), lim.max_children as nat),
        container_cap(v.child_len(), lim.max_children as nat) <= v.child_len(),
        n.children@.len() >= container_cap(v.child_len(), lim.max_children as nat),
        forall|i: int|
            0 <= i < container_cap(v.child_len(), lim.max_children as nat) ==> materializes(
                #[trigger] n.children@[i],
                v.child(i),
                v.child_key(i),
                path + v.child_segment(i),
                depth + 1,
                lim,
            ),
    ensures
        forest_size(n.children@.subrange(0, k as int)) == kids_count(v, k, depth + 1, lim),
    decreases v, k,
{
    if k > 0 {
        let s = n.children@;
        let i = k - 1;
        lemma_forest_size_prefix(n, v, path, depth, lim, (k - 1) as nat);
        assert(s.subrange(0, k as int).subrange(0, i) =~= s.subrange(0, i));
        assert(materializes(s[i], v.child(i), v.child_key(i), path + v.child_segment(i), depth + 1, lim));
        crate::value::lemma_child_decreases(v, i);
        law_node_count(s[i], v.child(i), v.child_key(i), path + v.child_segment(i), depth + 1, lim);
    }
}

/// A materialized tree holds exactly as many nodes as the materializer counted,
/// so a tree's `total_nodes` is the number of nodes it actually holds and each
/// node's `descendant_count` is the number of nodes below it.
pub proof fn law_node_count(
    n: RustJSONNode,
    v: ParsedValue,
    key: Seq<char>,
    path: Seq<char>,
    depth: nat,
    lim: Limits,
)
    requires
        materializes(n, v, key, path, depth, lim),
    ensures
        tree_size(n) == mat_count(v, depth, lim),
        tree_size(n) == n.metadata.descendant_count + 1,
    decreases v, v.child_len() + 1,
{
    let s = n.children@;
    assert(tree_size(n) == 1 + forest_size(s));
    if depth >= lim.max_depth {
        assert(forest_size(s) == 0);
    } else {
        let len = v.child_len();
        let cap = container_cap(len, lim.max_children as nat);
        lemma_forest_size_prefix(n, v, path, depth, lim, cap);
        if len > cap {
            let p = s[cap as int];
            assert(is_truncation(p, v, path, depth + 1, (len - cap) as nat, lim));
            assert(forest_size(p.children@) == 0);
            assert(tree_size(p) == 1 + forest_size(p.children@));
            assert(s.subrange(0, s.len() - 1) =~= s.subrange(0, cap as int));
            assert(forest_size(s) == forest_size(s.subrange(0, s.len() - 1)) + tree_size(s[s.len() - 1]));
        } else {
            assert(s.subrange(0, cap as int) =~= s);
        }
    }
}

} // verus!
