//! Small verified operations on text that the rest of the library shares.

use vstd::prelude::*;

verus! {

/// Compares two strings character by character.
pub fn str_equals(a: &str, b: &str) -> (r: bool)
    ensures
        r == (a@ == b@),
{
    let n = a.unicode_len();
    let m = b.unicode_len();
    if n != m {
        return false;
    }
    let mut i: usize = 0;
    while i < n
        invariant
            n == a@.len(),
            m == b@.len(),
            n == m,
            i <= n,
            a@.subrange(0, i as int) =~= b@.subrange(0, i as int),
        decreases n - i,
    {
        if a.get_char(i) != b.get_char(i) {
            assert(a@[i as int] != b@[i as int]);
            return false;
        }
        assert(a@.subrange(0, i + 1) =~= a@.subrange(0, i as int).push(a@[i as int]));
        assert(b@.subrange(0, i + 1) =~= b@.subrange(0, i as int).push(b@[i as int]));
        i = i + 1;
    }
    assert(a@ =~= a@.subrange(0, n as int));
    assert(b@ =~= b@.subrange(0, n as int));
    true
}

/// A fresh string that holds the characters of `s`.
pub fn owned(s: &str) -> (r: String)
    ensures
        r@ == s@,
{
    String::from_str(s)
}

/// The concatenation of two strings.
pub fn concat(a: &str, b: &str) -> (r: String)
    ensures
        r@ == a@ + b@,
{
    let mut r = String::from_str(a);
    r.append(b);
    r
}

/// The decimal digit that stands for `d`.
pub open spec fn digit_char(d: nat) -> char {
    if d == 0 { '0' }
    else if d == 1 { '1' }
    else if d == 2 { '2' }
    else if d == 3 { '3' }
    else if d == 4 { '4' }
    else if d == 5 { '5' }
    else if d == 6 { '6' }
    else if d == 7 { '7' }
    else if d == 8 { '8' }
    else { '9' }
}

/// The decimal notation of `n`, without leading zeros.
pub open spec fn decimal(n: nat) -> Seq<char>
    decreases n,
{
    if n < 10 {
        seq![digit_char(n)]
    } else {
        decimal(n / 10).push(digit_char(n % 10))
    }
}

fn digit_str(d: u64) -> (r: &'static str)
    requires
        d < 10,
    ensures
        r@ == seq![digit_char(d as nat)],
{
    proof {
        reveal_strlit("0");
        reveal_strlit("1");
        reveal_strlit("2");
        reveal_strlit("3");
        reveal_strlit("4");
        reveal_strlit("5");
        reveal_strlit("6");
        reveal_strlit("7");
        reveal_strlit("8");
        reveal_strlit("9");
    }
    if d == 0 { assert("0"@ =~= seq!['0']); "0" }
    else if d == 1 { assert("1"@ =~= seq!['1']); "1" }
    else if d == 2 { assert("2"@ =~= seq!['2']); "2" }
    else if d == 3 { assert("3"@ =~= seq!['3']); "3" }
    else if d == 4 { assert("4"@ =~= seq!['4']); "4" }
    else if d == 5 { assert("5"@ =~= seq!['5']); "5" }
    else if d == 6 { assert("6"@ =~= seq!['6']); "6" }
    else if d == 7 { assert("7"@ =~= seq!['7']); "7" }
    else if d == 8 { assert("8"@ =~= seq!['8']); "8" }
    else { assert("9"@ =~= seq!['9']); "9" }
}

/// Writes `n` in decimal.
pub fn to_decimal(n: u64) -> (r: String)
    ensures
        r@ == decimal(n as nat),
    decreases n,
{
    if n < 10 {
        owned(digit_str(n))
    } else {
        let mut r = to_decimal(n / 10);
        r.append(digit_str(n % 10));
        r
    }
}

} // verus!

verus! {

/// The segments of a path read up to its end: those closed by a `/`, and
/// the segment still open.
pub open spec fn split_path(s: Seq<char>) -> (Seq<Seq<char>>, Seq<char>)
    decreases s.len(),
{
    if s.len() == 0 {
        (Seq::empty(), Seq::empty())
    } else {
        let (done, cur) = split_path(s.drop_last());
        if s.last() == '/' {
            (if cur.len() > 0 { done.push(cur) } else { done }, Seq::empty())
        } else {
            (done, cur.push(s.last()))
        }
    }
}

/// The non-empty segments of a slash-separated path, in order.
pub open spec fn path_segments_of(s: Seq<char>) -> Seq<Seq<char>> {
    let (done, cur) = split_path(s);
    if cur.len() > 0 { done.push(cur) } else { done }
}

/// The views of a list of strings.
pub open spec fn views(v: Seq<String>) -> Seq<Seq<char>> {
    v.map_values(|x: String| x@)
}

/// Splits a path at each `/`, leaving out empty segments.
pub fn path_segments(path: &str) -> (r: Vec<String>)
    ensures
        views(r@) == path_segments_of(path@),
{
    let n = path.unicode_len();
    let mut done: Vec<String> = Vec::new();
    let mut cur = String::new();
    let mut open = false;
    let mut i: usize = 0;
    while i < n
        invariant
            n == path@.len(),
            i <= n,
            open == (cur@.len() > 0),
            (views(done@), cur@) == split_path(path@.subrange(0, i as int)),
        decreases n - i,
    {
        let c = path.get_char(i);
        proof {
            let s = path@.subrange(0, i + 1);
            assert(s.drop_last() =~= path@.subrange(0, i as int));
            assert(s.last() == c);
        }
        if c == '/' {
            if open {
                let ghost before = done@;
                done.push(cur);
                proof {
                    assert(views(done@) =~= views(before).push(cur@));
                }
            }
            cur = String::new();
            open = false;
        } else {
            let ch = path.substring_char(i, i + 1);
            assert(ch@ =~= seq![c]) by {
                assert(ch@ == path@.subrange(i as int, i + 1));
            }
            cur.append(ch);
            open = true;
        }
        i = i + 1;
    }
    assert(path@.subrange(0, n as int) =~= path@);
    if open {
        let ghost before = done@;
        done.push(cur);
        proof {
            assert(views(done@) =~= views(before).push(cur@));
        }
    }
    done
}

} // verus!

verus! {

/// A path made of a directory and an entry in it.
pub open spec fn joined(base: Seq<char>, entry: Seq<char>) -> Seq<char> {
    base + "/"@ + entry
}

/// Appends an entry to a directory path.
pub fn join_path(base: &str, entry: &str) -> (r: String)
    ensures
        r@ == joined(base@, entry@),
{
    let a = concat(base, "/");
    concat(a.as_str(), entry)
}

/// A copy of an optional string.
pub fn copy_opt_string(s: &Option<String>) -> (r: Option<String>)
    ensures
        r matches Some(x) ==> s matches Some(y) && x@ == y@,
        r is None <==> s is None,
{
    match s {
        Some(x) => Some(x.clone()),
        None => None,
    }
}

/// A copy of a byte vector.
pub fn copy_bytes(v: &Vec<u8>) -> (r: Vec<u8>)
    ensures
        r@ == v@,
{
    let mut r: Vec<u8> = Vec::new();
    let mut i: usize = 0;
    while i < v.len()
        invariant
            i <= v@.len(),
            r@ == v@.subrange(0, i as int),
        decreases v@.len() - i,
    {
        r.push(v[i]);
        i = i + 1;
        assert(r@ =~= v@.subrange(0, i as int));
    }
    assert(v@ =~= v@.subrange(0, v@.len() as int));
    r
}

} // verus!
