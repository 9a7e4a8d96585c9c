//! Read-only queries over a finished tree: lookup by path and slicing by depth.

use vstd::prelude::*;
use vstd::string::*;
use crate::node::{RustJSONNode, RustJSONTree};

verus! {

/// The first node, in depth-first order, under `n` (`n` included) whose path
/// is `p`.
pub open spec fn first_with_path(n: RustJSONNode, p: Seq<char>) -> Option<RustJSONNode>
    decreases n,
{
    if n.path@ == p {
        Some(n)
    } else {
        forest_first_with_path(n.children@, p)
    }
}

/// The first node, in depth-first order, in the trees of `s` whose path is `p`.
pub open spec fn forest_first_with_path(s: Seq<RustJSONNode>, p: Seq<char>) -> Option<RustJSONNode>
    decreases s,
{
    if s.len() == 0 {
        None
    } else {
        match first_with_path(s[0], p) {
            Some(m) => Some(m),
            None => forest_first_with_path(s.subrange(1, s.len() as int), p),
        }
    }
}

/// The nodes under `n` (`n` included) whose depth is `d`, in depth-first order.
pub open spec fn depth_slice(n: RustJSONNode, d: nat) -> Seq<RustJSONNode>
    decreases n,
{
    (if n.metadata.depth == d {
        seq![n]
    } else {
        Seq::empty()
    }) + forest_depth_slice(n.children@, d)
}

/// The nodes in the trees of `s` whose depth is `d`, in depth-first order.
pub open spec fn forest_depth_slice(s: Seq<RustJSONNode>, d: nat) -> Seq<RustJSONNode>
    decreases s,
{
    if s.len() == 0 {
        Seq::empty()
    } else {
        forest_depth_slice(s.subrange(0, s.len() - 1), d) + depth_slice(s[s.len() - 1], d)
    }
}

fn find_in<'a>(n: &'a RustJSONNode, target: &String) -> (r: Option<&'a RustJSONNode>)
    ensures
        match r {
            Some(m) => first_with_path(*n, target@) == Some(*m),
            None => first_with_path(*n, target@) is None,
        },
    decreases n,
{
    if n.path == *target {
        return Some(n);
    }
    proof {
        assert(n.children@.subrange(0, n.children@.len() as int) =~= n.children@);
    }
    let mut i: usize = 0;
    while i < n.children.len()
        invariant
            i <= n.children@.len(),
            n.path@ != target@,
            forest_first_with_path(n.children@, target@) == forest_first_with_path(
                n.children@.subrange(i as int, n.children@.len() as int),
                target@,
            ),
        decreases n.children@.len() - i,
    {
        let ghost s = n.children@.subrange(i as int, n.children@.len() as int);
        proof {
            assert(decreases_to!(*n => n.children));
            assert(decreases_to!(n.children => n.children@));
            assert(s[0] == n.children@[i as int]);
            assert(s.subrange(1, s.len() as int) =~= n.children@.subrange(i + 1, n.children@.len() as int));
        }
        match find_in(&n.children[i], target) {
            Some(m) => {
                return Some(m);
            },
            None => {},
        }
        i = i + 1;
    }
    proof {
        assert(n.children@.subrange(i as int, n.children@.len() as int).len() == 0);
    }
    None
}

/// The nodes that a sequence of references points to.
pub open spec fn targets(s: Seq<&RustJSONNode>) -> Seq<RustJSONNode> {
    s.map_values(|m: &RustJSONNode| *m)
}

proof fn lemma_targets_push(s: Seq<&RustJSONNode>, m: &RustJSONNode)
    ensures
        targets(s.push(m)) == targets(s) + seq![*m],
{
    assert(targets(s.push(m)) =~= targets(s) + seq![*m]);
}

fn collect_at_depth<'a>(n: &'a RustJSONNode, d: usize, out: &mut Vec<&'a RustJSONNode>)
    ensures
        targets(final(out)@) == targets(old(out)@) + depth_slice(*n, d as nat),
    decreases n,
{
    let ghost before = out@;
    if n.metadata.depth == d {
        out.push(n);
        proof {
            lemma_targets_push(before, n);
        }
    }
    let ghost start = targets(before) + (if n.metadata.depth == d {
        seq![*n]
    } else {
        Seq::empty()
    });
    proof {
        assert(targets(out@) =~= start);
    }
    let mut i: usize = 0;
    while i < n.children.len()
        invariant
            i <= n.children@.len(),
            targets(out@) == start + forest_depth_slice(n.children@.subrange(0, i as int), d as nat),
        decreases n.children@.len() - i,
    {
        let ghost s = n.children@.subrange(0, i + 1);
        proof {
            assert(decreases_to!(*n => n.children));
            assert(decreases_to!(n.children => n.children@));
            assert(s.subrange(0, i as int) =~= n.children@.subrange(0, i as int));
            assert(s[i as int] == n.children@[i as int]);
        }
        collect_at_depth(&n.children[i], d, out);
        proof {
            assert(targets(out@) =~= start + forest_depth_slice(s, d as nat));
        }
        i = i + 1;
    }
    proof {
        assert(n.children@.subrange(0, i as int) =~= n.children@);
    }
}

impl RustJSONTree {
    /// The first node in depth-first order whose path is `path`, if any.
    pub fn find(&self, path: &str) -> (r: Option<&RustJSONNode>)
        ensures
            match r {
                Some(m) => first_with_path(self.root, path@) == Some(*m),
                None => first_with_path(self.root, path@) is None,
            },
    {
        let target = String::from_str(path);
        find_in(&self.root, &target)
    }

    /// Every node whose depth is `d`, in depth-first order; empty when `d` is
    /// deeper than the tree.
    pub fn nodes_at_depth(&self, d: usize) -> (r: Vec<&RustJSONNode>)
        ensures
            targets(r@) == depth_slice(self.root, d as nat),
    {
        let mut out: Vec<&RustJSONNode> = Vec::new();
        proof {
            assert(targets(out@) =~= Seq::<RustJSONNode>::empty());
        }
        collect_at_depth(&self.root, d, &mut out);
        proof {
            assert(targets(out@) =~= depth_slice(self.root, d as nat));
        }
        out
    }
}

} // verus!
