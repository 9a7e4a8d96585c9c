//! Decimal rendering of indices and counts, and the facts about it that path
//! uniqueness rests on.

use vstd::prelude::*;
use vstd::string::*;
use vstd::std_specs::iter::IteratorSpec;

verus! {

/// The ASCII digit for `d` (`d < 10`).
pub open spec fn digit_char(d: nat) -> char {
    if d == 0 {
        '0'
    } else if d == 1 {
        '1'
    } else if d == 2 {
        '2'
    } else if d == 3 {
        '3'
    } else if d == 4 {
        '4'
    } else if d == 5 {
        '5'
    } else if d == 6 {
        '6'
    } else if d == 7 {
        '7'
    } else if d == 8 {
        '8'
    } else {
        '9'
    }
}

pub open spec fn is_digit(c: char) -> bool {
    '0' <= c && c <= '9'
}

/// The decimal notation of `n`, without leading zeros.
pub open spec fn decimal(n: nat) -> Seq<char>
    decreases n,
{
    if n < 10 {
        seq![digit_char(n)]
    } else {
        decimal(n / 10).push(digit_char(n % 10))
    }
}

fn digit_str(d: usize) -> (r: &'static str)
    requires
        d < 10,
    ensures
        r@ == seq![digit_char(d as nat)],
{
    proof {
        reveal_strlit("0");
        reveal_strlit("1");
        reveal_strlit("2");
        reveal_strlit("3");
        reveal_strlit("4");
        reveal_strlit("5");
        reveal_strlit("6");
        reveal_strlit("7");
        reveal_strlit("8");
        reveal_strlit("9");
    }
    if d == 0 {
        "0"
    } else if d == 1 {
        "1"
    } else if d == 2 {
        "2"
    } else if d == 3 {
        "3"
    } else if d == 4 {
        "4"
    } else if d == 5 {
        "5"
    } else if d == 6 {
        "6"
    } else if d == 7 {
        "7"
    } else if d == 8 {
        "8"
    } else {
        assert(seq!['9'] =~= "9"@);
        "9"
    }
}

/// Renders `n` in decimal.
pub fn decimal_string(n: usize) -> (r: String)
    ensures
        r@ == decimal(n as nat),
    decreases n,
{
    if n < 10 {
        String::from_str(digit_str(n))
    } else {
        let mut s = decimal_string(n / 10);
        s.append(digit_str(n % 10));
        s
    }
}

/// Every character of a decimal notation is a digit, and there is at least one.
pub proof fn lemma_decimal_digits(n: nat)
    ensures
        decimal(n).len() >= 1,
        forall|i: int| 0 <= i < decimal(n).len() ==> is_digit(#[trigger] decimal(n)[i]),
        n >= 10 ==> decimal(n).len() >= 2,
    decreases n,
{
    if n >= 10 {
        lemma_decimal_digits(n / 10);
    }
}

/// Distinct numbers have distinct notations.
pub proof fn lemma_decimal_injective(a: nat, b: nat)
    requires
        decimal(a) == decimal(b),
    ensures
        a == b,
    decreases a,
{
    lemma_decimal_digits(a);
    lemma_decimal_digits(b);
    if a >= 10 && b >= 10 {
        let da = decimal(a);
        assert(da == decimal(a / 10).push(digit_char(a % 10)));
        assert(decimal(b) == decimal(b / 10).push(digit_char(b % 10)));
        assert(da.drop_last() =~= decimal(a / 10));
        assert(decimal(b).drop_last() =~= decimal(b / 10));
        lemma_decimal_injective(a / 10, b / 10);
        assert(da.last() == digit_char(a % 10));
        assert(decimal(b).last() == digit_char(b % 10));
        assert(a % 10 == b % 10);
    } else if a < 10 && b < 10 {
        assert(decimal(a)[0] == digit_char(a));
        assert(decimal(b)[0] == digit_char(b));
    }
}

/// How a character of a member name appears in a path: '.', '[' and '\' as
/// the escapes `\u002e`, `\u005b` and `\u005c`, anything else as itself.
pub open spec fn escape_char(c: char) -> Seq<char> {
    if c == '.' {
        seq!['\\', 'u', '0', '0', '2', 'e']
    } else if c == '[' {
        seq!['\\', 'u', '0', '0', '5', 'b']
    } else if c == '\\' {
        seq!['\\', 'u', '0', '0', '5', 'c']
    } else {
        seq![c]
    }
}

/// A member name as it appears in a path: each character escaped in turn.
pub open spec fn escape_name(s: Seq<char>) -> Seq<char>
    decreases s.len(),
{
    if s.len() == 0 {
        Seq::empty()
    } else {
        escape_char(s[0]) + escape_name(s.drop_first())
    }
}

/// Escaping a concatenation escapes each part.
pub proof fn lemma_escape_append(a: Seq<char>, b: Seq<char>)
    ensures
        escape_name(a + b) == escape_name(a) + escape_name(b),
    decreases a.len(),
{
    if a.len() == 0 {
        assert(a + b =~= b);
    } else {
        assert((a + b).drop_first() =~= a.drop_first() + b);
        lemma_escape_append(a.drop_first(), b);
        assert(escape_name(a + b) =~= escape_name(a) + escape_name(b));
    }
}

/// An escaped name holds neither '.' nor '['.
pub proof fn lemma_escape_plain(s: Seq<char>)
    ensures
        forall|i: int|
            0 <= i < escape_name(s).len() ==> #[trigger] escape_name(s)[i] != '.' && escape_name(s)[i] != '[',
    decreases s.len(),
{
    if s.len() > 0 {
        lemma_escape_plain(s.drop_first());
        let e = escape_char(s[0]);
        let r = escape_name(s.drop_first());
        assert forall|i: int| 0 <= i < escape_name(s).len() implies #[trigger] escape_name(s)[i] != '.'
            && escape_name(s)[i] != '[' by {
            if i >= e.len() {
                assert(escape_name(s)[i] == r[i - e.len()]);
            }
        }
    }
}

/// Distinct names have distinct escapes.
pub proof fn lemma_escape_injective(a: Seq<char>, b: Seq<char>)
    requires
        escape_name(a) == escape_name(b),
    ensures
        a == b,
    decreases a.len(),
{
    let e = escape_name(a);
    if a.len() == 0 {
        if b.len() > 0 {
            assert(escape_name(b).len() >= escape_char(b[0]).len());
        }
        assert(a =~= b);
    } else if b.len() == 0 {
        assert(escape_name(a).len() >= escape_char(a[0]).len());
    } else {
        let ca = escape_char(a[0]);
        let cb = escape_char(b[0]);
        let ra = escape_name(a.drop_first());
        let rb = escape_name(b.drop_first());
        assert(e[0] == ca[0]);
        assert(e == cb + rb);
        assert(e[0] == cb[0]);
        if ca.len() == 1 && cb.len() == 1 {
            assert(ra =~= e.skip(1));
            assert(rb =~= e.skip(1));
        } else if ca.len() == 6 && cb.len() == 6 {
            assert(e[5] == ca[5]);
            assert((cb + rb)[5] == cb[5]);
            assert(ra =~= e.skip(6));
            assert(rb =~= (cb + rb).skip(6));
        } else if ca.len() == 1 {
            assert(cb[0] == '\\');
        } else {
            assert(ca[0] == '\\');
        }
        assert(a[0] == b[0]);
        lemma_escape_injective(a.drop_first(), b.drop_first());
        assert(a =~= seq![a[0]] + a.drop_first());
        assert(b =~= seq![b[0]] + b.drop_first());
    }
}

/// Relies on `String::push`: appends one character.
#[verifier::external_body]
fn push_char(s: &mut String, c: char)
    ensures
        final(s)@ == old(s)@.push(c),
{
    s.push(c)
}

fn append_escaped(out: &mut String, c: char)
    ensures
        final(out)@ == old(out)@ + escape_char(c),
{
    proof {
        reveal_strlit("\\u002e");
        reveal_strlit("\\u005b");
        reveal_strlit("\\u005c");
        assert("\\u002e"@ =~= escape_char('.'));
        assert("\\u005b"@ =~= escape_char('['));
        assert("\\u005c"@ =~= escape_char('\\'));
    }
    if c == '.' {
        out.append("\\u002e");
    } else if c == '[' {
        out.append("\\u005b");
    } else if c == '\\' {
        out.append("\\u005c");
    } else {
        push_char(out, c);
        proof {
            assert(out@ =~= old(out)@ + escape_char(c));
        }
    }
}

/// Escapes a member name for use in a path; see [`escape_name`].
pub fn escape_name_string(name: &str) -> (r: String)
    ensures
        r@ == escape_name(name@),
{
    broadcast use vstd::string::group_string_axioms;

    let ghost n = name@;
    let mut it = name.chars();
    let mut out = String::new();
    let ghost mut k: int = 0;
    loop
        invariant
            0 <= k <= n.len(),
            it.remaining() == n.skip(k),
            it.obeys_prophetic_iter_laws(),
            out@ == escape_name(n.take(k)),
        ensures
            out@ == escape_name(n),
        decreases n.len() - k,
    {
        match it.next() {
            Some(c) => {
                proof {
                    assert(n.skip(k).len() > 0);
                    assert(c == n[k]);
                }
                append_escaped(&mut out, c);
                proof {
                    let t = n.take(k);
                    assert(n.take(k + 1) =~= t + seq![c]);
                    lemma_escape_append(t, seq![c]);
                    assert(seq![c].drop_first() =~= Seq::<char>::empty());
                    assert(escape_name(seq![c]) =~= escape_char(c) + escape_name(seq![c].drop_first()));
                    assert(escape_name(seq![c]) =~= escape_char(c));
                    assert(n.skip(k).drop_first() =~= n.skip(k + 1));
                    k = k + 1;
                }
            },
            None => {
                proof {
                    assert(n.skip(k).len() == 0);
                    assert(n.take(k) =~= n);
                }
                break;
            },
        }
    }
    out
}

} // verus!
