//! The canonical parsed JSON value that the rest of the library consumes.

use vstd::prelude::*;
use crate::text::{decimal, escape_name};

verus! {

/// One JSON value as the parser produced it. Numbers hold the bit pattern of the
/// nearest IEEE-754 double; object members keep their source order.
#[derive(Debug)]
pub enum ParsedValue {
    Null,
    Bool(bool),
    Number(u64),
    String(String),
    Array(Vec<ParsedValue>),
    Object(Vec<(String, ParsedValue)>),
}

impl ParsedValue {
    /// The number of immediate entries (zero for a scalar).
    pub open spec fn child_len(self) -> nat {
        match self {
            ParsedValue::Array(a) => a@.len(),
            ParsedValue::Object(o) => o@.len(),
            _ => 0,
        }
    }

    /// The value of entry `i`.
    pub open spec fn child(self, i: int) -> ParsedValue {
        match self {
            ParsedValue::Array(a) => a@[i],
            ParsedValue::Object(o) => o@[i].1,
            _ => self,
        }
    }

    /// The label of entry `i`: the member name, or the index in decimal.
    pub open spec fn child_key(self, i: int) -> Seq<char> {
        match self {
            ParsedValue::Object(o) => o@[i].0@,
            _ => decimal(i as nat),
        }
    }

    /// What entry `i` appends to its container's path: `.name`, with '.', '['
    /// and '\' in the name escaped, or `[index]`.
    pub open spec fn child_segment(self, i: int) -> Seq<char> {
        match self {
            ParsedValue::Object(o) => seq!['.'] + escape_name(o@[i].0@),
            _ => seq!['['] + decimal(i as nat) + seq![']'],
        }
    }

    /// Member names of this object, if it is one, are pairwise distinct.
    pub open spec fn keys_distinct(self) -> bool {
        self matches ParsedValue::Object(o) ==> forall|i: int, j: int|
            0 <= i < j < o@.len() ==> #[trigger] o@[i].0@ != #[trigger] o@[j].0@
    }

    /// Well-formed: member names are distinct in every object of the value.
    pub open spec fn wf(self) -> bool
        decreases self,
    {
        &&& self.keys_distinct()
        &&& forall|i: int| 0 <= i < self.child_len() ==> (#[trigger] self.child(i)).wf()
    }
}

/// Each entry of a container is smaller than the container.
pub proof fn lemma_child_decreases(v: ParsedValue, i: int)
    requires
        0 <= i < v.child_len(),
    ensures
        decreases_to!(v => v.child(i)),
{
    match v {
        ParsedValue::Array(a) => {
            assert(decreases_to!(v => a));
            assert(decreases_to!(a => a@));
            assert(decreases_to!(a@ => a@[i]));
        },
        ParsedValue::Object(o) => {
            assert(decreases_to!(v => o));
            assert(decreases_to!(o => o@));
            assert(decreases_to!(o@ => o@[i]));
            assert(decreases_to!(o@[i] => o@[i].1));
        },
        _ => {},
    }
}

} // verus!
