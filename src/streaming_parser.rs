//! The strategies for large inputs: a direct parse with tighter caps, and, past
//! a size threshold, a structural estimate made from a leading chunk alone.

use vstd::prelude::*;
use vstd::string::*;
use crate::error::{Result, TreonError};
use crate::materialize::{Limits, convert_json_to_tree_limited, mat_count, materializes};
use crate::node::{RustJSONNode, RustJSONValue, RustNodeMetadata};
use crate::parse::{json_document, parse_document};
use crate::policy::MIB;
use crate::process::{parse_failure, root_path};
use crate::text::{decimal, decimal_string};
use crate::value::ParsedValue;

verus! {

/// Inputs above this many bytes are estimated rather than parsed.
pub const LARGE_FILE_THRESHOLD: usize = 100 * MIB;

/// How an input is turned into a tree.
#[derive(Clone, Copy, Debug, PartialEq, Eq, Structural)]
pub enum ParseStrategy {
    /// Parse everything and materialize it.
    Direct,
    /// Read a leading chunk and extrapolate the top-level shape.
    StructuralEstimate,
}

/// The strategy for an input of `file_size` bytes.
pub fn strategy_for(file_size: usize) -> (r: ParseStrategy)
    ensures
        r == (if file_size > LARGE_FILE_THRESHOLD {
            ParseStrategy::StructuralEstimate
        } else {
            ParseStrategy::Direct
        }),
{
    if file_size > LARGE_FILE_THRESHOLD {
        ParseStrategy::StructuralEstimate
    } else {
        ParseStrategy::Direct
    }
}

/// What a scan of a leading chunk has learnt so far. `root` is the kind of
/// the document as its first byte other than whitespace shows it: 0 while
/// there is none, 1 object, 2 array, 3 string, 4 number, 5 `true`, 6 `false`,
/// 7 `null`, and 8 for a byte that cannot begin JSON; `level` counts the
/// brackets open outside strings; `entries` counts the top-level entries known
/// to be complete and `consumed` is the offset just past the last one.
#[derive(Clone, Copy, Debug, PartialEq, Eq, Structural)]
pub struct ScanState {
    pub root: u8,
    pub level: usize,
    pub in_string: bool,
    pub escaped: bool,
    pub pending: bool,
    pub entries: usize,
    pub consumed: usize,
    pub closed: bool,
}

pub open spec fn is_space(c: u8) -> bool {
    c == 0x20 || c == 0x09 || c == 0x0a || c == 0x0d
}

/// The kind of a document whose first byte other than whitespace is `c`, when
/// that byte does not open a container.
pub open spec fn scalar_kind(c: u8) -> u8 {
    if c == 0x22 {
        3
    } else if c == 0x2d || (0x30 <= c && c <= 0x39) {
        4
    } else if c == 0x74 {
        5
    } else if c == 0x66 {
        6
    } else if c == 0x6e {
        7
    } else {
        8
    }
}

fn scalar_kind_of(c: u8) -> (r: u8)
    ensures
        r == scalar_kind(c),
{
    if c == 0x22 {
        3
    } else if c == 0x2d || (0x30 <= c && c <= 0x39) {
        4
    } else if c == 0x74 {
        5
    } else if c == 0x66 {
        6
    } else if c == 0x6e {
        7
    } else {
        8
    }
}

pub open spec fn scan_start() -> ScanState {
    ScanState {
        root: 0,
        level: 0,
        in_string: false,
        escaped: false,
        pending: false,
        entries: 0,
        consumed: 0,
        closed: false,
    }
}

/// The scan after reading byte `c` at offset `i`.
pub open spec fn scan_step(s: ScanState, c: u8, i: nat) -> ScanState {
    if s.closed {
        s
    } else if s.in_string {
        if s.escaped {
            ScanState { escaped: false, ..s }
        } else if c == 0x5c {
            ScanState { escaped: true, ..s }
        } else if c == 0x22 {
            ScanState { in_string: false, ..s }
        } else {
            s
        }
    } else if s.level == 0 {
        if is_space(c) {
            s
        } else if c == 0x7b {
            ScanState { root: 1, level: 1, ..s }
        } else if c == 0x5b {
            ScanState { root: 2, level: 1, ..s }
        } else {
            ScanState { root: scalar_kind(c), closed: true, ..s }
        }
    } else if c == 0x22 {
        ScanState { in_string: true, pending: s.pending || s.level == 1, ..s }
    } else if c == 0x7b || c == 0x5b {
        ScanState { level: (s.level + 1) as usize, pending: s.pending || s.level == 1, ..s }
    } else if c == 0x7d || c == 0x5d {
        if s.level == 1 {
            ScanState {
                level: 0,
                closed: true,
                entries: if s.pending {
                    (s.entries + 1) as usize
                } else {
                    s.entries
                },
                consumed: if s.pending {
                    (i + 1) as usize
                } else {
                    s.consumed
                },
                ..s
            }
        } else {
            ScanState { level: (s.level - 1) as usize, ..s }
        }
    } else if c == 0x2c && s.level == 1 {
        ScanState { entries: (s.entries + 1) as usize, consumed: (i + 1) as usize, pending: false, ..s }
    } else if s.level == 1 && !is_space(c) {
        ScanState { pending: true, ..s }
    } else {
        s
    }
}

/// The scan after the first `n` bytes of `b`.
pub open spec fn scan_prefix(b: Seq<u8>, n: nat) -> ScanState
    decreases n,
{
    if n == 0 {
        scan_start()
    } else {
        scan_step(scan_prefix(b, (n - 1) as nat), b[n - 1], (n - 1) as nat)
    }
}

/// The counters of a scan never run ahead of the bytes read.
pub open spec fn scan_bounded(s: ScanState, n: nat) -> bool {
    s.level <= n && s.entries <= s.consumed && s.consumed <= n
}

proof fn lemma_scan_bounded(b: Seq<u8>, n: nat)
    requires
        n <= b.len(),
        b.len() <= usize::MAX,
    ensures
        scan_bounded(scan_prefix(b, n), n),
    decreases n,
{
    if n > 0 {
        lemma_scan_bounded(b, (n - 1) as nat);
    }
}

fn scan_byte(s: ScanState, c: u8, i: usize) -> (r: ScanState)
    requires
        scan_bounded(s, i as nat),
        i < usize::MAX,
    ensures
        r == scan_step(s, c, i as nat),
{
    if s.closed {
        s
    } else if s.in_string {
        if s.escaped {
            ScanState { escaped: false, ..s }
        } else if c == 0x5c {
            ScanState { escaped: true, ..s }
        } else if c == 0x22 {
            ScanState { in_string: false, ..s }
        } else {
            s
        }
    } else if s.level == 0 {
        if c == 0x20 || c == 0x09 || c == 0x0a || c == 0x0d {
            s
        } else if c == 0x7b {
            ScanState { root: 1, level: 1, ..s }
        } else if c == 0x5b {
            ScanState { root: 2, level: 1, ..s }
        } else {
            ScanState { root: scalar_kind_of(c), closed: true, ..s }
        }
    } else if c == 0x22 {
        ScanState { in_string: true, pending: s.pending || s.level == 1, ..s }
    } else if c == 0x7b || c == 0x5b {
        ScanState { level: s.level + 1, pending: s.pending || s.level == 1, ..s }
    } else if c == 0x7d || c == 0x5d {
        if s.level == 1 {
            ScanState {
                level: 0,
                closed: true,
                entries: if s.pending {
                    s.entries + 1
                } else {
                    s.entries
                },
                consumed: if s.pending {
                    i + 1
                } else {
                    s.consumed
                },
                ..s
            }
        } else {
            ScanState { level: s.level - 1, ..s }
        }
    } else if c == 0x2c && s.level == 1 {
        ScanState { entries: s.entries + 1, consumed: i + 1, pending: false, ..s }
    } else if s.level == 1 && !(c == 0x20 || c == 0x09 || c == 0x0a || c == 0x0d) {
        ScanState { pending: true, ..s }
    } else {
        s
    }
}

/// Scans `buffer` for the root container and its complete top-level entries.
pub fn scan_top_level(buffer: &[u8]) -> (r: ScanState)
    ensures
        r == scan_prefix(buffer@, buffer@.len()),
        scan_bounded(r, buffer@.len()),
{
    let mut s = ScanState {
        root: 0,
        level: 0,
        in_string: false,
        escaped: false,
        pending: false,
        entries: 0,
        consumed: 0,
        closed: false,
    };
    let mut i: usize = 0;
    while i < buffer.len()
        invariant
            i <= buffer@.len(),
            s == scan_prefix(buffer@, i as nat),
        decreases buffer@.len() - i,
    {
        proof {
            lemma_scan_bounded(buffer@, i as nat);
        }
        s = scan_byte(s, buffer[i], i);
        i = i + 1;
    }
    proof {
        lemma_scan_bounded(buffer@, i as nat);
    }
    s
}

/// The number of top-level entries a scan suggests for a whole input of
/// `total` bytes: exact when the root closed within the chunk; otherwise the
/// chunk's bytes per complete entry, extrapolated over `total`; at least one
/// when an entry has begun.
pub open spec fn estimate_entries(s: ScanState, total: nat) -> nat {
    if s.closed {
        s.entries as nat
    } else if s.entries == 0 {
        if s.pending {
            1
        } else {
            0
        }
    } else {
        total / (s.consumed as nat / s.entries as nat)
    }
}

/// Whether `v` is the provisional value of a root of kind `s.root`: a
/// container's marker, an empty string, the number zero, the boolean the
/// first byte spells, or null when the chunk holds only whitespace.
pub open spec fn marks_root(v: RustJSONValue, s: ScanState) -> bool {
    if s.root == 1 {
        v is Object
    } else if s.root == 2 {
        v is Array
    } else if s.root == 3 {
        v matches RustJSONValue::String(t) && t@.len() == 0
    } else if s.root == 4 {
        v == RustJSONValue::Number(0)
    } else if s.root == 5 {
        v == RustJSONValue::Boolean(true)
    } else if s.root == 6 {
        v == RustJSONValue::Boolean(false)
    } else {
        v is Null
    }
}

/// How an estimated child's address opens: `[` under an array, whose entry `i`
/// it stands for, and `[~` under an object, whose member names are not read,
/// so that no real member's address is taken.
pub open spec fn estimate_opening(s: ScanState) -> Seq<char> {
    if s.root == 1 {
        seq!['[', '~']
    } else {
        seq!['[']
    }
}

/// `n` is the structural estimate for a chunk whose scan is `s`, of an input of
/// `total` bytes, with at most `max_children` placeholder children. The root is
/// not fully loaded and records the input's size; each child `i` is a
/// placeholder at `$[i]` (`$[~i]` under an object) standing for an equal share
/// of the estimated entries;
/// every node is marked as streamed. A root that is not a container has no
/// children.
pub open spec fn estimates(n: RustJSONNode, s: ScanState, total: nat, max_children: nat) -> bool {
    let est = estimate_entries(s, total);
    let k = if est <= max_children {
        est
    } else {
        max_children
    };
    &&& n.key@ == Seq::<char>::empty()
    &&& n.path@ == root_path()
    &&& marks_root(n.value, s)
    &&& !n.fully_loaded
    &&& !n.expanded
    &&& n.metadata == (RustNodeMetadata {
        size_bytes: total as usize,
        depth: 0,
        descendant_count: k as usize,
        streamed: true,
        processing_time_ms: 0,
    })
    &&& n.children@.len() == k
    &&& forall|i: int|
        0 <= i < k ==> {
            let c = #[trigger] n.children@[i];
            &&& c.key@ == decimal(i as nat)
            &&& c.path@ == root_path() + estimate_opening(s) + decimal(i as nat) + seq![']']
            &&& marks_root(c.value, s)
            &&& c.children@.len() == 0
            &&& !c.fully_loaded
            &&& !c.expanded
            &&& c.metadata == (RustNodeMetadata {
                size_bytes: 0,
                depth: 1,
                descendant_count: (est / k) as usize,
                streamed: true,
                processing_time_ms: 0,
            })
        }
}

/// Settings of the large-input strategies.
pub struct StreamingParser {
    /// The depth to which a direct parse materializes.
    pub max_initial_depth: usize,
    /// The entries loaded from any one container, and the most placeholder
    /// children an estimate creates.
    pub max_initial_children: usize,
    /// How many leading bytes an estimate reads.
    pub chunk_size: usize,
}

/// The caps of a direct parse by `p`.
pub open spec fn streaming_limits(p: StreamingParser) -> Limits {
    Limits { max_depth: p.max_initial_depth, max_children: p.max_initial_children, streamed: true }
}

fn marker_of(s: ScanState) -> (r: RustJSONValue)
    ensures
        marks_root(r, s),
{
    if s.root == 1 {
        RustJSONValue::Object
    } else if s.root == 2 {
        RustJSONValue::Array
    } else if s.root == 3 {
        RustJSONValue::String(String::new())
    } else if s.root == 4 {
        RustJSONValue::Number(0)
    } else if s.root == 5 {
        RustJSONValue::Boolean(true)
    } else if s.root == 6 {
        RustJSONValue::Boolean(false)
    } else {
        RustJSONValue::Null
    }
}

impl StreamingParser {
    /// Depth 3, 100 children per container, 1 MiB chunks.
    pub fn new() -> (r: StreamingParser)
        ensures
            r.max_initial_depth == 3,
            r.max_initial_children == 100,
            r.chunk_size == MIB,
    {
        StreamingParser { max_initial_depth: 3, max_initial_children: 100, chunk_size: MIB }
    }

    /// A parser with the given settings.
    pub fn with_settings(max_depth: usize, max_children: usize, chunk_size: usize) -> (r: StreamingParser)
        ensures
            r.max_initial_depth == max_depth,
            r.max_initial_children == max_children,
            r.chunk_size == chunk_size,
    {
        StreamingParser { max_initial_depth: max_depth, max_initial_children: max_children, chunk_size }
    }

    /// Materializes `value` under this parser's caps, marking every node as
    /// streamed. Fails, with a memory error, exactly when the number of nodes
    /// would not fit in a `usize`.
    pub fn build_streaming_tree(&self, value: &ParsedValue, key: String, path: String, depth: usize) -> (r: Result<
        RustJSONNode,
    >)
        ensures
            r is Ok <==> mat_count(*value, depth as nat, streaming_limits(*self)) <= usize::MAX,
            r matches Ok(n) ==> materializes(n, *value, key@, path@, depth as nat, streaming_limits(*self)),
            r matches Err(e) ==> e is MemoryError,
    {
        let lim = Limits {
            max_depth: self.max_initial_depth,
            max_children: self.max_initial_children,
            streamed: true,
        };
        convert_json_to_tree_limited(value, key, path, depth, lim)
    }

    /// The direct strategy on a whole input held in memory.
    pub fn parse_medium_data(&self, data: &[u8]) -> (r: Result<RustJSONNode>)
        ensures
            json_document(data@) is None ==> (r matches Err(e) && e is JsonParsing),
            json_document(data@) matches Some(v) ==> {
                &&& r is Ok <==> mat_count(v, 0, streaming_limits(*self)) <= usize::MAX
                &&& r matches Ok(n) ==> materializes(n, v, Seq::empty(), root_path(), 0, streaming_limits(*self))
                &&& r matches Err(e) ==> e is MemoryError
            },
    {
        let parsed = match parse_document(data) {
            Ok(v) => v,
            Err(e) => {
                return Err(parse_failure(&e));
            },
        };
        proof {
            reveal_strlit("$");
            assert("$"@ =~= root_path());
        }
        self.build_streaming_tree(&parsed, String::new(), String::from_str("$"), 0)
    }

    /// The structural estimate for an input of `total_size` bytes whose leading
    /// chunk is `buffer`. Fails with a parse failure only when the chunk's
    /// first byte other than whitespace cannot begin a JSON document.
    pub fn parse_structure_only(&self, buffer: &[u8], total_size: usize) -> (r: Result<RustJSONNode>)
        ensures
            scan_prefix(buffer@, buffer@.len()).root == 8 ==> (r matches Err(e) && e is JsonParsing),
            scan_prefix(buffer@, buffer@.len()).root != 8 ==> (r matches Ok(n) && estimates(
                n,
                scan_prefix(buffer@, buffer@.len()),
                total_size as nat,
                self.max_initial_children as nat,
            )),
    {
        let s = scan_top_level(buffer);
        if s.root == 8 {
            return Err(TreonError::json_parsing("the input does not begin with a JSON value"));
        }
        let est: usize = if s.closed {
            s.entries
        } else if s.entries == 0 {
            if s.pending {
                1
            } else {
                0
            }
        } else {
            proof {
                assert(s.consumed / s.entries >= 1) by (nonlinear_arith)
                    requires
                        s.entries > 0,
                        s.consumed >= s.entries,
                ;
            }
            total_size / (s.consumed / s.entries)
        };
        let k = if est <= self.max_initial_children {
            est
        } else {
            self.max_initial_children
        };
        proof {
            reveal_strlit("[");
            reveal_strlit("]");
            reveal_strlit("$");
            assert("$"@ =~= root_path());
            assert("["@ =~= seq!['[']);
            assert("]"@ =~= seq![']']);
        }
        let mut children: Vec<RustJSONNode> = Vec::new();
        let mut i: usize = 0;
        while i < k
            invariant
                i <= k,
                k >= 1 ==> est >= 1,
                est == estimate_entries(s, total_size as nat),
                k == (if est <= self.max_initial_children {
                    est
                } else {
                    self.max_initial_children
                }),
                children@.len() == i,
                forall|j: int|
                    0 <= j < i ==> {
                        let c = #[trigger] children@[j];
                        &&& c.key@ == decimal(j as nat)
                        &&& c.path@ == root_path() + estimate_opening(s) + decimal(j as nat) + seq![']']
                        &&& marks_root(c.value, s)
                        &&& c.children@.len() == 0
                        &&& !c.fully_loaded
                        &&& !c.expanded
                        &&& c.metadata == (RustNodeMetadata {
                            size_bytes: 0,
                            depth: 1,
                            descendant_count: (est / k) as usize,
                            streamed: true,
                            processing_time_ms: 0,
                        })
                    },
            decreases k - i,
        {
            proof {
                reveal_strlit("[");
                reveal_strlit("]");
                reveal_strlit("$");
                assert("$"@ =~= root_path());
                assert("["@ =~= seq!['[']);
                assert("]"@ =~= seq![']']);
                reveal_strlit("~");
                assert("["@ + "~"@ =~= seq!['[', '~']);
            }
            let key = decimal_string(i);
            let mut path = String::from_str("$");
            path.append("[");
            if s.root == 1 {
                path.append("~");
            }
            path.append(key.as_str());
            path.append("]");
            let child = RustJSONNode {
                key,
                path,
                value: marker_of(s),
                children: Vec::new(),
                expanded: false,
                fully_loaded: false,
                metadata: RustNodeMetadata {
                    size_bytes: 0,
                    depth: 1,
                    descendant_count: est / k,
                    streamed: true,
                    processing_time_ms: 0,
                },
            };
            let ghost before = children@;
            children.push(child);
            proof {
                assert(forall|j: int| 0 <= j < i ==> children@[j] == before[j]);
                assert(children@[i as int].path@ =~= root_path() + estimate_opening(s) + decimal(i as nat) + seq![']']);
            }
            i = i + 1;
        }
        Ok(
            RustJSONNode {
                key: String::new(),
                path: String::from_str("$"),
                value: marker_of(s),
                children,
                expanded: false,
                fully_loaded: false,
                metadata: RustNodeMetadata {
                    size_bytes: total_size,
                    depth: 0,
                    descendant_count: k,
                    streamed: true,
                    processing_time_ms: 0,
                },
            },
        )
    }
}

impl Default for StreamingParser {
    fn default() -> (r: StreamingParser)
        ensures
            r.max_initial_depth == 3,
            r.max_initial_children == 100,
            r.chunk_size == MIB,
    {
        StreamingParser::new()
    }
}

} // verus!
