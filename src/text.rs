//! Text helpers: literal containment and decimal rendering.
use vstd::prelude::*;
use vstd::std_specs::iter::IteratorSpec;
use vstd::string::StringExecFns;

verus! {

/// `q` occurs in `line` starting at position `i`.
pub open spec fn occurs_at(line: Seq<char>, q: Seq<char>, i: int) -> bool {
    0 <= i && i + q.len() <= line.len() && line.subrange(i, i + q.len()) == q
}

/// `line` holds `q` as a contiguous run of characters (case-sensitive; the empty
/// query is held by every line).
pub open spec fn contains(line: Seq<char>, q: Seq<char>) -> bool {
    exists|i: int| occurs_at(line, q, i)
}

/// The characters of `s`, in order.
pub fn chars_of(s: &str) -> (r: Vec<char>)
    ensures
        r@ == s@,
{
    broadcast use vstd::string::group_string_axioms;

    let mut it = s.chars();
    let mut r: Vec<char> = Vec::new();
    loop
        invariant
            it.obeys_prophetic_iter_laws(),
            it.decrease() is Some,
            r@ + it.remaining() == s@,
        decreases it.decrease()->0,
    {
        match it.next() {
            Some(c) => {
                r.push(c);
                assert(r@ + it.remaining() =~= s@);
            },
            None => {
                assert(r@ =~= s@);
                return r;
            },
        }
    }
}

fn occurs_at_exec(line: &Vec<char>, q: &Vec<char>, i: usize) -> (r: bool)
    requires
        i + q@.len() <= line@.len(),
    ensures
        r == occurs_at(line@, q@, i as int),
{
    let n = line.len();
    let mut j: usize = 0;
    while j < q.len()
        invariant
            n == line@.len(),
            i + q@.len() <= line@.len(),
            j <= q@.len(),
            forall|k: int| 0 <= k < j ==> line@[i + k] == q@[k],
        decreases q@.len() - j,
    {
        if line[i + j] != q[j] {
            assert(line@.subrange(i as int, i + q@.len())[j as int] != q@[j as int]);
            return false;
        }
        j += 1;
    }
    assert(line@.subrange(i as int, i + q@.len()) =~= q@);
    true
}

/// Literal, case-sensitive containment of `q` in `line`.
pub fn contains_str(line: &str, q: &str) -> (r: bool)
    ensures
        r == contains(line@, q@),
{
    let l = chars_of(line);
    let p = chars_of(q);
    if p.len() > l.len() {
        return false;
    }
    let last = l.len() - p.len();
    let mut i: usize = 0;
    loop
        invariant
            i <= last,
            last == l@.len() - p@.len(),
            l@ == line@,
            p@ == q@,
            forall|k: int| 0 <= k < i ==> !occurs_at(l@, p@, k),
        decreases last - i,
    {
        if occurs_at_exec(&l, &p, i) {
            return true;
        }
        if i == last {
            assert forall|k: int| !occurs_at(l@, p@, k) by {
                if 0 <= k <= i {
                }
            }
            return false;
        }
        i += 1;
    }
}

/// The ten decimal digits, in order.
pub open spec fn digit_chars() -> Seq<char> {
    seq!['0', '1', '2', '3', '4', '5', '6', '7', '8', '9']
}

/// The decimal rendering of `n`, most significant digit first, without leading zeros.
pub open spec fn decimal(n: nat) -> Seq<char>
    decreases n,
{
    if n < 10 {
        seq![digit_chars()[n as int]]
    } else {
        decimal(n / 10).push(digit_chars()[(n % 10) as int])
    }
}

fn digit_str(d: u64) -> (r: &'static str)
    requires
        d < 10,
    ensures
        r@ == seq![digit_chars()[d as int]],
{
    proof {
        reveal_strlit("0");
        reveal_strlit("1");
        reveal_strlit("2");
        reveal_strlit("3");
        reveal_strlit("4");
        reveal_strlit("5");
        reveal_strlit("6");
        reveal_strlit("7");
        reveal_strlit("8");
        reveal_strlit("9");
    }
    let r = if d == 0 {
        "0"
    } else if d == 1 {
        "1"
    } else if d == 2 {
        "2"
    } else if d == 3 {
        "3"
    } else if d == 4 {
        "4"
    } else if d == 5 {
        "5"
    } else if d == 6 {
        "6"
    } else if d == 7 {
        "7"
    } else if d == 8 {
        "8"
    } else {
        "9"
    };
    assert(r@ =~= seq![digit_chars()[d as int]]);
    r
}

/// Renders `n` in decimal.
pub fn decimal_string(n: u64) -> (r: String)
    ensures
        r@ == decimal(n as nat),
    decreases n,
{
    if n < 10 {
        String::from_str(digit_str(n))
    } else {
        let mut s = decimal_string(n / 10);
        s.append(digit_str(n % 10));
        s
    }
}

} // verus!
