//! The text form in which the configuration is stored, and reading it back.
//!
//! Each value is written as a token: its length in decimal, a colon, and its
//! characters. A token can hold any text, so no character needs escaping.

use vstd::prelude::*;
use crate::config::{Directories, GlobalConfig, LookupEntry, NodeRecord};
use crate::lifecycle::{opt_bytes, opt_view};
use crate::text::{decimal, digit_char, owned, to_decimal};

verus! {

/// A value written as a token: its length, a colon, its characters.
pub open spec fn token(s: Seq<char>) -> Seq<char> {
    decimal(s.len()) + ":"@ + s
}

/// The value of a decimal digit.
pub open spec fn digit_value(c: char) -> Option<nat> {
    if c == '0' { Some(0) }
    else if c == '1' { Some(1) }
    else if c == '2' { Some(2) }
    else if c == '3' { Some(3) }
    else if c == '4' { Some(4) }
    else if c == '5' { Some(5) }
    else if c == '6' { Some(6) }
    else if c == '7' { Some(7) }
    else if c == '8' { Some(8) }
    else if c == '9' { Some(9) }
    else { None }
}

/// Whether every character is a decimal digit.
pub open spec fn all_digits(ds: Seq<char>) -> bool {
    forall|i: int| 0 <= i < ds.len() ==> (#[trigger] digit_value(ds[i])) is Some
}

/// The number that a run of digits writes.
pub open spec fn value_of(ds: Seq<char>) -> nat
    decreases ds.len(),
{
    if ds.len() == 0 {
        0
    } else {
        value_of(ds.drop_last()) * 10 + match digit_value(ds.last()) {
            Some(d) => d,
            None => 0,
        }
    }
}

proof fn lemma_digit_round_trip(d: nat)
    requires
        d < 10,
    ensures
        digit_value(digit_char(d)) == Some(d),
{
}

proof fn lemma_decimal_digits(n: nat)
    ensures
        all_digits(decimal(n)),
        decimal(n).len() >= 1,
        value_of(decimal(n)) == n,
    decreases n,
{
    if n < 10 {
        lemma_digit_round_trip(n);
        assert(decimal(n).drop_last() =~= Seq::<char>::empty());
        assert(value_of(Seq::<char>::empty()) == 0);
        assert(decimal(n).last() == digit_char(n));
        assert(value_of(decimal(n)) == value_of(decimal(n).drop_last()) * 10 + n);
    } else {
        lemma_decimal_digits(n / 10);
        lemma_digit_round_trip(n % 10);
        let ds = decimal(n);
        assert(ds.drop_last() =~= decimal(n / 10));
        assert forall|i: int| 0 <= i < ds.len() implies (#[trigger] digit_value(ds[i])) is Some by {
            if i < ds.len() - 1 {
                assert(ds[i] == decimal(n / 10)[i]);
            }
        }
        assert(ds.last() == digit_char(n % 10));
        assert(value_of(ds) == value_of(decimal(n / 10)) * 10 + n % 10);
        assert(n == (n / 10) * 10 + n % 10) by (nonlinear_arith);
    }
}

proof fn lemma_value_prefix(ds: Seq<char>, k: int)
    requires
        0 <= k <= ds.len(),
    ensures
        value_of(ds.take(k)) <= value_of(ds),
    decreases ds.len(),
{
    if k < ds.len() {
        lemma_value_prefix(ds.drop_last(), k);
        assert(ds.drop_last().take(k) =~= ds.take(k));
        assert(value_of(ds.drop_last()) <= value_of(ds.drop_last()) * 10) by (nonlinear_arith);
    } else {
        assert(ds.take(k) =~= ds);
    }
}

/// Appends a value as a token.
pub fn push_token(out: &mut String, s: &str)
    ensures
        final(out)@ == old(out)@ + token(s@),
{
    let n = s.unicode_len();
    let len = to_decimal(n as u64);
    out.append(len.as_str());
    out.append(":");
    out.append(s);
    proof {
        reveal_strlit(":");
    }
    assert(final(out)@ =~= old(out)@ + token(s@));
}

/// The length of the run of digits that `t` starts with.
pub open spec fn digit_run(t: Seq<char>) -> nat
    decreases t.len(),
{
    if t.len() == 0 || digit_value(t[0]) is None {
        0
    } else {
        1 + digit_run(t.skip(1))
    }
}

/// The token that `t` starts with, and how many characters it takes: a
/// non-empty run of digits, a colon, and as many characters as the digits
/// say.
#[verifier::opaque]
pub open spec fn token_at(t: Seq<char>) -> Option<(Seq<char>, nat)> {
    let k = digit_run(t);
    if k == 0 || k >= t.len() || t[k as int] != ':' {
        None
    } else {
        let v = value_of(t.take(k as int));
        if k + 1 + v > t.len() {
            None
        } else {
            Some((t.subrange(k + 1 as int, (k + 1 + v) as int), k + 1 + v))
        }
    }
}

proof fn lemma_digit_run_bounds(t: Seq<char>)
    ensures
        digit_run(t) <= t.len(),
        forall|j: int| 0 <= j < digit_run(t) ==> (#[trigger] digit_value(t[j])) is Some,
        digit_run(t) < t.len() ==> digit_value(t[digit_run(t) as int]) is None,
    decreases t.len(),
{
    if t.len() > 0 && digit_value(t[0]) is Some {
        lemma_digit_run_bounds(t.skip(1));
        assert forall|j: int| 0 <= j < digit_run(t) implies (#[trigger] digit_value(t[j])) is Some by {
            if j > 0 {
                assert(t[j] == t.skip(1)[j - 1]);
            }
        }
        if digit_run(t) < t.len() {
            assert(t[digit_run(t) as int] == t.skip(1)[digit_run(t.skip(1)) as int]);
        }
    }
}

proof fn lemma_digit_run_of(ds: Seq<char>, x: Seq<char>)
    requires
        all_digits(ds),
        x.len() > 0,
        digit_value(x[0]) is None,
    ensures
        digit_run(ds + x) == ds.len(),
    decreases ds.len(),
{
    if ds.len() == 0 {
        assert((ds + x)[0] == x[0]);
    } else {
        assert((ds + x)[0] == ds[0]);
        assert((ds + x).skip(1) =~= ds.skip(1) + x);
        assert(all_digits(ds.skip(1))) by {
            assert forall|i: int| 0 <= i < ds.skip(1).len() implies (#[trigger] digit_value(ds.skip(1)[i])) is Some by {
                assert(ds.skip(1)[i] == ds[i + 1]);
            }
        }
        lemma_digit_run_of(ds.skip(1), x);
    }
}

/// A token that was written is read back, whatever follows it.
pub proof fn lemma_token_round_trip(s: Seq<char>, rest: Seq<char>)
    ensures
        token_at(token(s) + rest) == Some((s, token(s).len())),
{
    reveal(token_at);
    let ds = decimal(s.len());
    lemma_decimal_digits(s.len());
    let t = token(s) + rest;
    assert(t =~= ds + (":"@ + s + rest));
    reveal_strlit(":");
    lemma_digit_run_of(ds, ":"@ + s + rest);
    let k = ds.len();
    assert(t[k as int] == ':');
    assert(t.take(k as int) =~= ds);
    assert(t.subrange(k + 1 as int, (k + 1 + s.len()) as int) =~= s);
}

fn digit_of(c: char) -> (r: Option<usize>)
    ensures
        match digit_value(c) {
            Some(d) => r == Some(d as usize),
            None => r is None,
        },
{
    if c == '0' { Some(0) }
    else if c == '1' { Some(1) }
    else if c == '2' { Some(2) }
    else if c == '3' { Some(3) }
    else if c == '4' { Some(4) }
    else if c == '5' { Some(5) }
    else if c == '6' { Some(6) }
    else if c == '7' { Some(7) }
    else if c == '8' { Some(8) }
    else if c == '9' { Some(9) }
    else { None }
}

/// Reads the token that starts at `pos`: its value, and the position after it.
pub fn read_token(text: &str, pos: usize) -> (r: Option<(String, usize)>)
    requires
        pos <= text@.len(),
    ensures
        match token_at(text@.skip(pos as int)) {
            Some((s, k)) => r matches Some((t, next)) && t@ == s && next == pos + k,
            None => r is None,
        },
        r matches Some((_, next)) ==> pos <= next <= text@.len(),
{
    let n = text.unicode_len();
    let ghost t = text@.skip(pos as int);
    proof {
        reveal(token_at);
        lemma_digit_run_bounds(t);
    }
    let mut i: usize = pos;
    let mut v: usize = 0;
    let mut digit: Option<usize> = if i < n { digit_of(text.get_char(i)) } else { None };
    while digit.is_some()
        invariant
            n == text@.len(),
            pos <= i <= n,
            t == text@.skip(pos as int),
            i - pos <= digit_run(t),
            v == value_of(t.take(i - pos)),
            v <= n,
            i < n ==> digit == (match digit_value(text@[i as int]) {
                Some(d) => Some(d as usize),
                None => None::<usize>,
            }),
            i == n ==> digit is None,
            forall|j: int| 0 <= j < digit_run(t) ==> (#[trigger] digit_value(t[j])) is Some,
            digit_run(t) < t.len() ==> digit_value(t[digit_run(t) as int]) is None,
            digit_run(t) <= t.len(),
        decreases n - i,
    {
        let d = match digit {
            Some(d) => d,
            None => 0,
        };
        proof {
        reveal(token_at);
            assert(t[i - pos] == text@[i as int]);
            if i - pos == digit_run(t) {
                assert(false);
            }
            assert(t.take(i - pos + 1).drop_last() =~= t.take(i - pos));
            assert(t.take(i - pos + 1).last() == text@[i as int]);
            lemma_value_prefix(t.take(digit_run(t) as int), i - pos + 1);
            assert(t.take(digit_run(t) as int).take(i - pos + 1) =~= t.take(i - pos + 1));
        }
        if v > n / 10 {
            proof {
        reveal(token_at);
                assert(value_of(t.take(i - pos + 1)) == v * 10 + d);
                assert(v * 10 + d > n) by (nonlinear_arith)
                    requires v > n / 10, d >= 0;
                assert(token_at(t) is None);
            }
            return None;
        }
        let w = v * 10;
        if d > n - w {
            proof {
        reveal(token_at);
                assert(value_of(t.take(i - pos + 1)) == v * 10 + d);
                assert(token_at(t) is None);
            }
            return None;
        }
        v = w + d;
        i = i + 1;
        digit = if i < n { digit_of(text.get_char(i)) } else { None };
    }
    proof {
        reveal(token_at);
        if i - pos < digit_run(t) {
            assert(t[i - pos] == text@[i as int]);
        }
        assert(i - pos == digit_run(t));
    }
    if i == pos || i >= n {
        proof {
            reveal(token_at);
        }
        return None;
    }
    assert(t[i - pos] == text@[i as int]);
    if text.get_char(i) != ':' {
        proof {
            reveal(token_at);
        }
        return None;
    }
    if v > n - i - 1 {
        proof {
            reveal(token_at);
        }
        return None;
    }
    let start = i + 1;
    let end = start + v;
    let value = text.substring_char(start, end);
    proof {
        reveal(token_at);
        assert(value@ =~= t.subrange(i - pos + 1, i - pos + 1 + v));
    }
    Some((owned(value), end))
}

/// A number written as a token of its decimal digits.
pub open spec fn num_text(v: nat) -> Seq<char> {
    token(decimal(v))
}

/// The number that `t` starts with, if it is at most `max`, and how many
/// characters it takes.
#[verifier::opaque]
pub open spec fn number_at(t: Seq<char>, max: nat) -> Option<(nat, nat)> {
    match token_at(t) {
        Some((s, k)) => if s.len() > 0 && all_digits(s) && value_of(s) <= max {
            Some((value_of(s), k))
        } else {
            None
        },
        None => None,
    }
}

proof fn lemma_number_round_trip(v: nat, max: nat, rest: Seq<char>)
    requires
        v <= max,
    ensures
        number_at(num_text(v) + rest, max) == Some((v, num_text(v).len())),
{
    reveal(number_at);
    lemma_token_round_trip(decimal(v), rest);
    lemma_decimal_digits(v);
}

/// Reads a number of at most `max` digits' worth from a string of digits.
fn parse_number(s: &str, max: u64) -> (r: Option<u64>)
    ensures
        if s@.len() > 0 && all_digits(s@) && value_of(s@) <= max as nat {
            r == Some(value_of(s@) as u64)
        } else {
            r is None
        },
{
    let n = s.unicode_len();
    if n == 0 {
        return None;
    }
    let mut v: u64 = 0;
    let mut i: usize = 0;
    while i < n
        invariant
            n == s@.len(),
            i <= n,
            all_digits(s@.take(i as int)),
            v as nat == value_of(s@.take(i as int)),
            v <= max,
        decreases n - i,
    {
        proof {
            assert(s@.take(i + 1).drop_last() =~= s@.take(i as int));
            assert(s@.take(i + 1).last() == s@[i as int]);
            lemma_value_prefix(s@, i + 1);
        }
        let d = match digit_of(s.get_char(i)) {
            Some(d) => d as u64,
            None => {
                proof {
                    assert(digit_value(s@[i as int]) is None);
                }
                return None;
            },
        };
        if d > max || v > (max - d) / 10 {
            proof {
                assert(v * 10 + d > max) by (nonlinear_arith)
                    requires d > max || v > (max - d) / 10, v >= 0;
                assert(value_of(s@.take(i + 1)) == v * 10 + d);
            }
            return None;
        }
        proof {
            assert(v * 10 + d <= max) by (nonlinear_arith)
                requires v <= (max - d) / 10, d <= max;
        }
        v = v * 10 + d;
        i = i + 1;
        proof {
            assert forall|j: int| 0 <= j < i implies (#[trigger] digit_value(s@.take(i as int)[j])) is Some by {
                if j < i - 1 {
                    assert(s@.take(i as int)[j] == s@.take(i - 1)[j]);
                }
            }
        }
    }
    assert(s@.take(n as int) =~= s@);
    Some(v)
}

/// Reads the number that starts at `pos`, if it is at most `max`.
fn read_number(text: &str, pos: usize, max: u64) -> (r: Option<(u64, usize)>)
    requires
        pos <= text@.len(),
    ensures
        match number_at(text@.skip(pos as int), max as nat) {
            Some((v, k)) => r matches Some((x, next)) && x == v && next == pos + k,
            None => r is None,
        },
        r matches Some((_, next)) ==> pos <= next <= text@.len(),
        r matches Some((x, _)) ==> x <= max,
{
    proof {
        reveal(number_at);
    }
    match read_token(text, pos) {
        Some((s, next)) => match parse_number(s.as_str(), max) {
            Some(v) => Some((v, next)),
            None => None,
        },
        None => None,
    }
}

/// An optional text: a flag, then the text where there is one.
pub open spec fn opt_text(o: Option<Seq<char>>) -> Seq<char> {
    match o {
        None => num_text(0),
        Some(s) => num_text(1) + token(s),
    }
}

/// The optional text that `t` starts with, and how many characters it takes.
pub open spec fn opt_at(t: Seq<char>) -> Option<(Option<Seq<char>>, nat)> {
    match number_at(t, 1) {
        Some((f, k)) => if f == 0 {
            Some((None, k))
        } else {
            match token_at(t.skip(k as int)) {
                Some((s, k2)) => Some((Some(s), k + k2)),
                None => None,
            }
        },
        None => None,
    }
}

proof fn lemma_opt_round_trip(o: Option<Seq<char>>, rest: Seq<char>)
    ensures
        opt_at(opt_text(o) + rest) == Some((o, opt_text(o).len())),
{
    match o {
        None => lemma_number_round_trip(0, 1, rest),
        Some(s) => {
            lemma_number_round_trip(1, 1, token(s) + rest);
            assert(opt_text(o) + rest =~= num_text(1) + (token(s) + rest));
            assert((opt_text(o) + rest).skip(num_text(1).len() as int) =~= token(s) + rest);
            lemma_token_round_trip(s, rest);
        },
    }
}

fn read_opt(text: &str, pos: usize) -> (r: Option<(Option<String>, usize)>)
    requires
        pos <= text@.len(),
    ensures
        match opt_at(text@.skip(pos as int)) {
            Some((o, k)) => r matches Some((x, next)) && opt_view(x) == o && next == pos + k,
            None => r is None,
        },
        r matches Some((_, next)) ==> pos <= next <= text@.len(),
{
    let (flag, next) = match read_number(text, pos, 1) {
        Some(p) => p,
        None => return None,
    };
    if flag == 0 {
        return Some((None, next));
    }
    proof {
        assert(text@.skip(pos as int).skip((next - pos) as int) =~= text@.skip(next as int));
    }
    match read_token(text, next) {
        Some((s, after)) => Some((Some(s), after)),
        None => None,
    }
}

/// An optional process id: a flag, then its magnitude, the flag telling its
/// sign.
pub open spec fn pid_text(p: Option<i32>) -> Seq<char> {
    match p {
        None => num_text(0),
        Some(v) => if v >= 0 {
            num_text(1) + num_text(v as nat)
        } else {
            num_text(2) + num_text((-v) as nat)
        },
    }
}

/// The optional process id that `t` starts with, and how many characters it
/// takes.
pub open spec fn pid_at(t: Seq<char>) -> Option<(Option<i32>, nat)> {
    match number_at(t, 2) {
        Some((f, k)) => if f == 0 {
            Some((None, k))
        } else if f == 1 {
            match number_at(t.skip(k as int), 2147483647) {
                Some((v, k2)) => Some((Some(v as i32), k + k2)),
                None => None,
            }
        } else {
            match number_at(t.skip(k as int), 2147483648) {
                Some((v, k2)) => Some((Some((-v) as i32), k + k2)),
                None => None,
            }
        },
        None => None,
    }
}

proof fn lemma_pid_round_trip(p: Option<i32>, rest: Seq<char>)
    ensures
        pid_at(pid_text(p) + rest) == Some((p, pid_text(p).len())),
{
    match p {
        None => lemma_number_round_trip(0, 2, rest),
        Some(v) => {
            if v >= 0 {
                lemma_number_round_trip(1, 2, num_text(v as nat) + rest);
                assert(pid_text(p) + rest =~= num_text(1) + (num_text(v as nat) + rest));
                assert((pid_text(p) + rest).skip(num_text(1).len() as int) =~= num_text(v as nat) + rest);
                lemma_number_round_trip(v as nat, 2147483647, rest);
            } else {
                lemma_number_round_trip(2, 2, num_text((-v) as nat) + rest);
                assert(pid_text(p) + rest =~= num_text(2) + (num_text((-v) as nat) + rest));
                assert((pid_text(p) + rest).skip(num_text(2).len() as int) =~= num_text((-v) as nat) + rest);
                lemma_number_round_trip((-v) as nat, 2147483648, rest);
            }
        },
    }
}

fn read_pid(text: &str, pos: usize) -> (r: Option<(Option<i32>, usize)>)
    requires
        pos <= text@.len(),
    ensures
        match pid_at(text@.skip(pos as int)) {
            Some((p, k)) => r matches Some((x, next)) && x == p && next == pos + k,
            None => r is None,
        },
        r matches Some((_, next)) ==> pos <= next <= text@.len(),
{
    let (flag, next) = match read_number(text, pos, 2) {
        Some(p) => p,
        None => return None,
    };
    if flag == 0 {
        return Some((None, next));
    }
    proof {
        assert(text@.skip(pos as int).skip((next - pos) as int) =~= text@.skip(next as int));
    }
    if flag == 1 {
        match read_number(text, next, 2147483647) {
            Some((v, after)) => Some((Some(v as i32), after)),
            None => None,
        }
    } else {
        match read_number(text, next, 2147483648) {
            Some((v, after)) => {
                let m: i64 = -(v as i64);
                Some((Some(m as i32), after))
            },
            None => None,
        }
    }
}

proof fn lemma_skip_skip(t: Seq<char>, a: int, b: int)
    requires
        0 <= a,
        0 <= b,
        a + b <= t.len(),
    ensures
        t.skip(a).skip(b) == t.skip(a + b),
{
    assert(t.skip(a).skip(b) =~= t.skip(a + b));
}

proof fn lemma_skip_front(a: Seq<char>, b: Seq<char>)
    ensures
        (a + b).skip(a.len() as int) == b,
{
    assert((a + b).skip(a.len() as int) =~= b);
}

/// What the store keeps of a node record.
pub open spec fn record_view(n: NodeRecord) -> (Seq<char>, Seq<char>, u16, Option<i32>, u8, Option<Seq<char>>) {
    (n.name@, n.addr@, n.port, n.pid, n.verbose, opt_view(n.state_dir))
}

/// A node record written as text.
pub open spec fn node_text(n: NodeRecord) -> Seq<char> {
    token(n.name@) + addr_tail_text(n)
}

/// The fields of a node record after its name, written as text.
pub open spec fn addr_tail_text(n: NodeRecord) -> Seq<char> {
    token(n.addr@) + port_tail_text(n)
}

/// The fields of a node record after its address, written as text.
pub open spec fn port_tail_text(n: NodeRecord) -> Seq<char> {
    num_text(n.port as nat) + pid_tail_text(n)
}

/// The fields of a node record after its port, written as text.
pub open spec fn pid_tail_text(n: NodeRecord) -> Seq<char> {
    pid_text(n.pid) + verbose_tail_text(n)
}

/// The last fields of a node record, written as text.
pub open spec fn verbose_tail_text(n: NodeRecord) -> Seq<char> {
    num_text(n.verbose as nat) + opt_text(opt_view(n.state_dir))
}

/// The verbosity and state directory that `t` starts with.
pub open spec fn verbose_tail_at(t: Seq<char>) -> Option<((u8, Option<Seq<char>>), nat)> {
    match number_at(t, 255) {
        None => None,
        Some((v, k1)) => match opt_at(t.skip(k1 as int)) {
            None => None,
            Some((d, k2)) => Some(((v as u8, d), k1 + k2)),
        },
    }
}

/// The fields from the process id on that `t` starts with.
pub open spec fn pid_tail_at(t: Seq<char>) -> Option<((Option<i32>, u8, Option<Seq<char>>), nat)> {
    match pid_at(t) {
        None => None,
        Some((p, k1)) => match verbose_tail_at(t.skip(k1 as int)) {
            None => None,
            Some((f, k2)) => Some(((p, f.0, f.1), k1 + k2)),
        },
    }
}

/// The fields from the port on that `t` starts with.
pub open spec fn port_tail_at(t: Seq<char>) -> Option<((u16, Option<i32>, u8, Option<Seq<char>>), nat)> {
    match number_at(t, 65535) {
        None => None,
        Some((port, k1)) => match pid_tail_at(t.skip(k1 as int)) {
            None => None,
            Some((f, k2)) => Some(((port as u16, f.0, f.1, f.2), k1 + k2)),
        },
    }
}

/// The fields from the address on that `t` starts with.
pub open spec fn addr_tail_at(t: Seq<char>) -> Option<((Seq<char>, u16, Option<i32>, u8, Option<Seq<char>>), nat)> {
    match token_at(t) {
        None => None,
        Some((addr, k1)) => match port_tail_at(t.skip(k1 as int)) {
            None => None,
            Some((f, k2)) => Some(((addr, f.0, f.1, f.2, f.3), k1 + k2)),
        },
    }
}

/// The node record that `t` starts with, and how many characters it takes.
#[verifier::opaque]
pub open spec fn node_at(t: Seq<char>) -> Option<((Seq<char>, Seq<char>, u16, Option<i32>, u8, Option<Seq<char>>), nat)> {
    match token_at(t) {
        None => None,
        Some((name, k1)) => match addr_tail_at(t.skip(k1 as int)) {
            None => None,
            Some((f, k2)) => Some(((name, f.0, f.1, f.2, f.3, f.4), k1 + k2)),
        },
    }
}

proof fn lemma_verbose_tail(n: NodeRecord, rest: Seq<char>)
    ensures
        verbose_tail_at(verbose_tail_text(n) + rest) == Some(
            ((n.verbose, opt_view(n.state_dir)), verbose_tail_text(n).len()),
        ),
{
    let a = num_text(n.verbose as nat);
    let b = opt_text(opt_view(n.state_dir)) + rest;
    assert(verbose_tail_text(n) + rest =~= a + b);
    lemma_number_round_trip(n.verbose as nat, 255, b);
    lemma_skip_front(a, b);
    lemma_opt_round_trip(opt_view(n.state_dir), rest);
}

proof fn lemma_pid_tail(n: NodeRecord, rest: Seq<char>)
    ensures
        pid_tail_at(pid_tail_text(n) + rest) == Some(
            ((n.pid, n.verbose, opt_view(n.state_dir)), pid_tail_text(n).len()),
        ),
{
    let a = pid_text(n.pid);
    let b = verbose_tail_text(n) + rest;
    assert(pid_tail_text(n) + rest =~= a + b);
    lemma_pid_round_trip(n.pid, b);
    lemma_skip_front(a, b);
    lemma_verbose_tail(n, rest);
}

proof fn lemma_port_tail(n: NodeRecord, rest: Seq<char>)
    ensures
        port_tail_at(port_tail_text(n) + rest) == Some(
            ((n.port, n.pid, n.verbose, opt_view(n.state_dir)), port_tail_text(n).len()),
        ),
{
    let a = num_text(n.port as nat);
    let b = pid_tail_text(n) + rest;
    assert(port_tail_text(n) + rest =~= a + b);
    lemma_number_round_trip(n.port as nat, 65535, b);
    lemma_skip_front(a, b);
    lemma_pid_tail(n, rest);
}

proof fn lemma_addr_tail(n: NodeRecord, rest: Seq<char>)
    ensures
        addr_tail_at(addr_tail_text(n) + rest) == Some(
            ((n.addr@, n.port, n.pid, n.verbose, opt_view(n.state_dir)), addr_tail_text(n).len()),
        ),
{
    let a = token(n.addr@);
    let b = port_tail_text(n) + rest;
    assert(addr_tail_text(n) + rest =~= a + b);
    lemma_token_round_trip(n.addr@, b);
    lemma_skip_front(a, b);
    lemma_port_tail(n, rest);
}

proof fn lemma_node_round_trip(n: NodeRecord, rest: Seq<char>)
    ensures
        node_at(node_text(n) + rest) == Some((record_view(n), node_text(n).len())),
{
    reveal(node_at);
    let a = token(n.name@);
    let b = addr_tail_text(n) + rest;
    assert(node_text(n) + rest =~= a + b);
    lemma_token_round_trip(n.name@, b);
    lemma_skip_front(a, b);
    lemma_addr_tail(n, rest);
}

fn read_verbose_tail(text: &str, pos: usize) -> (r: Option<(u8, Option<String>, usize)>)
    requires
        pos <= text@.len(),
    ensures
        match verbose_tail_at(text@.skip(pos as int)) {
            Some((f, k)) => r matches Some((v, d, next)) && v == f.0 && opt_view(d) == f.1 && next == pos + k,
            None => r is None,
        },
        r matches Some((_, _, next)) ==> pos <= next <= text@.len(),
{
    let (v, p1) = match read_number(text, pos, 255) {
        Some(x) => x,
        None => return None,
    };
    proof { lemma_skip_skip(text@, pos as int, p1 - pos); }
    match read_opt(text, p1) {
        Some((d, p2)) => Some((v as u8, d, p2)),
        None => None,
    }
}

fn read_pid_tail(text: &str, pos: usize) -> (r: Option<(Option<i32>, u8, Option<String>, usize)>)
    requires
        pos <= text@.len(),
    ensures
        match pid_tail_at(text@.skip(pos as int)) {
            Some((f, k)) => r matches Some((p, v, d, next)) && p == f.0 && v == f.1 && opt_view(d) == f.2
                && next == pos + k,
            None => r is None,
        },
        r matches Some((_, _, _, next)) ==> pos <= next <= text@.len(),
{
    let (p, p1) = match read_pid(text, pos) {
        Some(x) => x,
        None => return None,
    };
    proof { lemma_skip_skip(text@, pos as int, p1 - pos); }
    match read_verbose_tail(text, p1) {
        Some((v, d, p2)) => Some((p, v, d, p2)),
        None => None,
    }
}

fn read_port_tail(text: &str, pos: usize) -> (r: Option<(u16, Option<i32>, u8, Option<String>, usize)>)
    requires
        pos <= text@.len(),
    ensures
        match port_tail_at(text@.skip(pos as int)) {
            Some((f, k)) => r matches Some((port, p, v, d, next)) && port == f.0 && p == f.1 && v == f.2
                && opt_view(d) == f.3 && next == pos + k,
            None => r is None,
        },
        r matches Some((_, _, _, _, next)) ==> pos <= next <= text@.len(),
{
    let (port, p1) = match read_number(text, pos, 65535) {
        Some(x) => x,
        None => return None,
    };
    proof { lemma_skip_skip(text@, pos as int, p1 - pos); }
    match read_pid_tail(text, p1) {
        Some((p, v, d, p2)) => Some((port as u16, p, v, d, p2)),
        None => None,
    }
}

fn read_node(text: &str, pos: usize) -> (r: Option<(NodeRecord, usize)>)
    requires
        pos <= text@.len(),
    ensures
        match node_at(text@.skip(pos as int)) {
            Some((v, k)) => r matches Some((n, next)) && record_view(n) == v && next == pos + k,
            None => r is None,
        },
        r matches Some((_, next)) ==> pos <= next <= text@.len(),
{
    proof {
        reveal(node_at);
    }
    let (name, p1) = match read_token(text, pos) {
        Some(x) => x,
        None => return None,
    };
    proof { lemma_skip_skip(text@, pos as int, p1 - pos); }
    let (addr, p2) = match read_token(text, p1) {
        Some(x) => x,
        None => return None,
    };
    proof {
        lemma_skip_skip(text@, p1 as int, p2 - p1);
        lemma_skip_skip(text@, pos as int, p1 - pos);
        assert(text@.skip(pos as int).skip(p1 - pos) == text@.skip(p1 as int));
        assert(text@.skip(p1 as int).skip(p2 - p1) == text@.skip(p2 as int));
    }
    match read_port_tail(text, p2) {
        Some((port, pid, verbose, state_dir, p3)) => Some(
            (NodeRecord { name, addr, port, pid, verbose, state_dir }, p3),
        ),
        None => None,
    }
}

/// Node records written one after another.
pub open spec fn nodes_text(ns: Seq<NodeRecord>) -> Seq<char>
    decreases ns.len(),
{
    if ns.len() == 0 {
        Seq::empty()
    } else {
        nodes_text(ns.drop_last()) + node_text(ns.last())
    }
}

/// The `k` node records that `t` starts with.
pub open spec fn nodes_at(t: Seq<char>, k: nat) -> Option<(Seq<(Seq<char>, Seq<char>, u16, Option<i32>, u8, Option<Seq<char>>)>, nat)>
    decreases k,
{
    if k == 0 {
        Some((Seq::empty(), 0))
    } else {
        match nodes_at(t, (k - 1) as nat) {
            None => None,
            Some((vs, used)) => if used > t.len() {
                None
            } else {
                match node_at(t.skip(used as int)) {
                    None => None,
                    Some((v, l)) => Some((vs.push(v), used + l)),
                }
            },
        }
    }
}

/// What the store keeps of each node record.
pub open spec fn record_views(ns: Seq<NodeRecord>) -> Seq<(Seq<char>, Seq<char>, u16, Option<i32>, u8, Option<Seq<char>>)> {
    ns.map_values(|n: NodeRecord| record_view(n))
}

proof fn lemma_nodes_round_trip(ns: Seq<NodeRecord>, rest: Seq<char>)
    ensures
        nodes_at(nodes_text(ns) + rest, ns.len()) == Some((record_views(ns), nodes_text(ns).len())),
    decreases ns.len(),
{
    if ns.len() == 0 {
        assert(record_views(ns) =~= Seq::empty());
    } else {
        let init = ns.drop_last();
        let tail = node_text(ns.last()) + rest;
        assert(nodes_text(ns) + rest =~= nodes_text(init) + tail);
        lemma_nodes_round_trip(init, tail);
        lemma_skip_front(nodes_text(init), tail);
        lemma_node_round_trip(ns.last(), rest);
        assert(record_views(ns) =~= record_views(init).push(record_view(ns.last())));
    }
}

/// The platform directories, where there are any, written as text.
pub open spec fn dirs_text(d: Option<(Seq<char>, Seq<char>)>) -> Seq<char> {
    match d {
        None => num_text(0),
        Some(p) => num_text(1) + (token(p.0) + token(p.1)),
    }
}

/// The platform directories that `t` starts with.
pub open spec fn dirs_at(t: Seq<char>) -> Option<(Option<(Seq<char>, Seq<char>)>, nat)> {
    match number_at(t, 1) {
        None => None,
        Some((f, k1)) => if f == 0 {
            Some((None, k1))
        } else {
            match token_at(t.skip(k1 as int)) {
                None => None,
                Some((a, k2)) => match token_at(t.skip(k1 as int).skip(k2 as int)) {
                    None => None,
                    Some((b, k3)) => Some((Some((a, b)), k1 + k2 + k3)),
                },
            }
        },
    }
}

proof fn lemma_dirs_round_trip(d: Option<(Seq<char>, Seq<char>)>, rest: Seq<char>)
    ensures
        dirs_at(dirs_text(d) + rest) == Some((d, dirs_text(d).len())),
{
    match d {
        None => lemma_number_round_trip(0, 1, rest),
        Some(p) => {
            let a = num_text(1);
            let b = token(p.0) + (token(p.1) + rest);
            assert(dirs_text(d) + rest =~= a + b);
            lemma_number_round_trip(1, 1, b);
            lemma_skip_front(a, b);
            lemma_token_round_trip(p.0, token(p.1) + rest);
            lemma_skip_front(token(p.0), token(p.1) + rest);
            lemma_token_round_trip(p.1, rest);
        },
    }
}

/// Bytes written one number after another.
pub open spec fn bytes_text(b: Seq<u8>) -> Seq<char>
    decreases b.len(),
{
    if b.len() == 0 {
        Seq::empty()
    } else {
        bytes_text(b.drop_last()) + num_text(b.last() as nat)
    }
}

/// The `k` bytes that `t` starts with.
pub open spec fn bytes_at(t: Seq<char>, k: nat) -> Option<(Seq<u8>, nat)>
    decreases k,
{
    if k == 0 {
        Some((Seq::empty(), 0))
    } else {
        match bytes_at(t, (k - 1) as nat) {
            None => None,
            Some((bs, used)) => if used > t.len() {
                None
            } else {
                match number_at(t.skip(used as int), 255) {
                    None => None,
                    Some((v, l)) => Some((bs.push(v as u8), used + l)),
                }
            },
        }
    }
}

proof fn lemma_bytes_round_trip(b: Seq<u8>, rest: Seq<char>)
    ensures
        bytes_at(bytes_text(b) + rest, b.len()) == Some((b, bytes_text(b).len())),
    decreases b.len(),
{
    if b.len() == 0 {
        assert(b =~= Seq::<u8>::empty());
    } else {
        let init = b.drop_last();
        let tail = num_text(b.last() as nat) + rest;
        assert(bytes_text(b) + rest =~= bytes_text(init) + tail);
        lemma_bytes_round_trip(init, tail);
        lemma_skip_front(bytes_text(init), tail);
        lemma_number_round_trip(b.last() as nat, 255, rest);
        assert(b =~= init.push(b.last()));
    }
}

/// An optional identity, written as a flag, its length and its bytes.
pub open spec fn identity_text(o: Option<Seq<u8>>) -> Seq<char> {
    match o {
        None => num_text(0),
        Some(b) => num_text(1) + (num_text(b.len()) + bytes_text(b)),
    }
}

/// The optional identity that `t` starts with.
pub open spec fn identity_at(t: Seq<char>) -> Option<(Option<Seq<u8>>, nat)> {
    match number_at(t, 1) {
        None => None,
        Some((f, k1)) => if f == 0 {
            Some((None, k1))
        } else {
            match number_at(t.skip(k1 as int), 18446744073709551615) {
                None => None,
                Some((n, k2)) => match bytes_at(t.skip(k1 as int).skip(k2 as int), n) {
                    None => None,
                    Some((b, k3)) => Some((Some(b), k1 + k2 + k3)),
                },
            }
        },
    }
}

proof fn lemma_identity_round_trip(o: Option<Seq<u8>>, rest: Seq<char>)
    requires
        o matches Some(b) ==> b.len() <= 18446744073709551615,
    ensures
        identity_at(identity_text(o) + rest) == Some((o, identity_text(o).len())),
{
    match o {
        None => lemma_number_round_trip(0, 1, rest),
        Some(b) => {
            let a = num_text(1);
            let c = num_text(b.len()) + (bytes_text(b) + rest);
            assert(identity_text(o) + rest =~= a + c);
            lemma_number_round_trip(1, 1, c);
            lemma_skip_front(a, c);
            lemma_number_round_trip(b.len(), 18446744073709551615, bytes_text(b) + rest);
            lemma_skip_front(num_text(b.len()), bytes_text(b) + rest);
            lemma_bytes_round_trip(b, rest);
        },
    }
}

/// What the store keeps of the platform directories.
pub open spec fn dirs_view(d: Option<Directories>) -> Option<(Seq<char>, Seq<char>)> {
    match d {
        None => None,
        Some(x) => Some((x.config_dir@, x.data_local_dir@)),
    }
}

/// The default vault path and identity, written as text.
pub open spec fn vault_tail_text(c: GlobalConfig) -> Seq<char> {
    opt_text(opt_view(c.default_vault_path)) + identity_text(opt_bytes(c.default_identity))
}

/// The platform directories and what follows them, written as text.
pub open spec fn dirs_tail_text(c: GlobalConfig) -> Seq<char> {
    dirs_text(dirs_view(c.directories)) + vault_tail_text(c)
}

/// The default node and what follows it, written as text.
pub open spec fn default_tail_text(c: GlobalConfig) -> Seq<char> {
    opt_text(opt_view(c.default)) + dirs_tail_text(c)
}

/// The configuration written as text: the number of nodes, each node, the
/// default node, the platform directories, the default vault path and the
/// default identity. The lookup table is not written: it follows from the
/// nodes.
pub open spec fn config_text(c: GlobalConfig) -> Seq<char> {
    num_text(c.nodes@.len()) + (nodes_text(c.nodes@) + default_tail_text(c))
}

/// The default vault path and identity that `t` starts with.
pub open spec fn vault_tail_at(t: Seq<char>) -> Option<((Option<Seq<char>>, Option<Seq<u8>>), nat)> {
    match opt_at(t) {
        None => None,
        Some((v, k1)) => match identity_at(t.skip(k1 as int)) {
            None => None,
            Some((i, k2)) => Some(((v, i), k1 + k2)),
        },
    }
}

/// The platform directories and what follows them, that `t` starts with.
pub open spec fn dirs_tail_at(t: Seq<char>) -> Option<((Option<(Seq<char>, Seq<char>)>, Option<Seq<char>>, Option<Seq<u8>>), nat)> {
    match dirs_at(t) {
        None => None,
        Some((d, k1)) => match vault_tail_at(t.skip(k1 as int)) {
            None => None,
            Some((f, k2)) => Some(((d, f.0, f.1), k1 + k2)),
        },
    }
}

/// The default node and what follows it, that `t` starts with.
pub open spec fn default_tail_at(t: Seq<char>) -> Option<((Option<Seq<char>>, Option<(Seq<char>, Seq<char>)>, Option<Seq<char>>, Option<Seq<u8>>), nat)> {
    match opt_at(t) {
        None => None,
        Some((d, k1)) => match dirs_tail_at(t.skip(k1 as int)) {
            None => None,
            Some((f, k2)) => Some(((d, f.0, f.1, f.2), k1 + k2)),
        },
    }
}

/// What the store keeps of a configuration.
pub open spec fn config_view(c: GlobalConfig) -> (
    Seq<(Seq<char>, Seq<char>, u16, Option<i32>, u8, Option<Seq<char>>)>,
    Option<Seq<char>>,
    Option<(Seq<char>, Seq<char>)>,
    Option<Seq<char>>,
    Option<Seq<u8>>,
) {
    (
        record_views(c.nodes@),
        opt_view(c.default),
        dirs_view(c.directories),
        opt_view(c.default_vault_path),
        opt_bytes(c.default_identity),
    )
}

/// The configuration that the whole of `t` writes.
pub open spec fn config_at(t: Seq<char>) -> Option<(
    Seq<(Seq<char>, Seq<char>, u16, Option<i32>, u8, Option<Seq<char>>)>,
    Option<Seq<char>>,
    Option<(Seq<char>, Seq<char>)>,
    Option<Seq<char>>,
    Option<Seq<u8>>,
)> {
    match number_at(t, 18446744073709551615) {
        None => None,
        Some((count, k1)) => match nodes_at(t.skip(k1 as int), count) {
            None => None,
            Some((vs, k2)) => if k2 > t.len() - k1 {
                None
            } else {
                match default_tail_at(t.skip(k1 as int).skip(k2 as int)) {
                    None => None,
                    Some((f, k3)) => if k1 + k2 + k3 == t.len() {
                        Some((vs, f.0, f.1, f.2, f.3))
                    } else {
                        None
                    },
                }
            },
        },
    }
}

/// Whether a stored configuration can be taken up: node names are distinct,
/// and a default is set once there is a node.
pub open spec fn stored_wf(
    v: (
        Seq<(Seq<char>, Seq<char>, u16, Option<i32>, u8, Option<Seq<char>>)>,
        Option<Seq<char>>,
        Option<(Seq<char>, Seq<char>)>,
        Option<Seq<char>>,
        Option<Seq<u8>>,
    ),
) -> bool {
    &&& forall|i: int, j: int| 0 <= i < j < v.0.len() ==> (#[trigger] v.0[i]).0 != (#[trigger] v.0[j]).0
    &&& v.0.len() > 0 ==> v.1 is Some
}

proof fn lemma_nodes_text_len(ns: Seq<NodeRecord>)
    ensures
        nodes_text(ns).len() >= ns.len(),
    decreases ns.len(),
{
    if ns.len() > 0 {
        lemma_nodes_text_len(ns.drop_last());
        reveal(token_at);
        assert(node_text(ns.last()).len() >= 1);
    }
}

/// What was stored is what is read back: the text of a configuration reads
/// back as that configuration, with its node records in order, its default
/// node, directories, default vault path and default identity; and it can
/// be taken up again.
pub proof fn lemma_config_round_trip(c: GlobalConfig)
    requires
        c.wf(),
        c.nodes@.len() <= usize::MAX,
        c.default_identity matches Some(b) ==> b@.len() <= usize::MAX,
    ensures
        config_at(config_text(c)) == Some(config_view(c)),
        stored_wf(config_view(c)),
{
    let t = config_text(c);
    let a = num_text(c.nodes@.len());
    let b = nodes_text(c.nodes@) + default_tail_text(c);
    lemma_number_round_trip(c.nodes@.len(), 18446744073709551615, b);
    lemma_skip_front(a, b);
    lemma_nodes_round_trip(c.nodes@, default_tail_text(c));
    lemma_skip_front(nodes_text(c.nodes@), default_tail_text(c));
    let d = default_tail_text(c);
    lemma_opt_round_trip(opt_view(c.default), dirs_tail_text(c));
    lemma_skip_front(opt_text(opt_view(c.default)), dirs_tail_text(c));
    lemma_dirs_round_trip(dirs_view(c.directories), vault_tail_text(c));
    lemma_skip_front(dirs_text(dirs_view(c.directories)), vault_tail_text(c));
    lemma_opt_round_trip(opt_view(c.default_vault_path), identity_text(opt_bytes(c.default_identity)));
    lemma_skip_front(opt_text(opt_view(c.default_vault_path)), identity_text(opt_bytes(c.default_identity)));
    assert(identity_text(opt_bytes(c.default_identity)) =~= identity_text(opt_bytes(c.default_identity)) + Seq::<char>::empty());
    lemma_identity_round_trip(opt_bytes(c.default_identity), Seq::empty());
    assert(t.len() == a.len() + nodes_text(c.nodes@).len() + d.len());
    let vs = record_views(c.nodes@);
    assert forall|i: int, j: int| 0 <= i < j < vs.len() implies (#[trigger] vs[i]).0 != (#[trigger] vs[j]).0 by {
        assert(c.nodes@[i].name@ != c.nodes@[j].name@);
    }
}

fn push_number(out: &mut String, v: u64)
    ensures
        final(out)@ == old(out)@ + num_text(v as nat),
{
    let digits = to_decimal(v);
    push_token(out, digits.as_str());
}

fn push_opt(out: &mut String, o: &Option<String>)
    ensures
        final(out)@ == old(out)@ + opt_text(opt_view(*o)),
{
    match o {
        None => push_number(out, 0),
        Some(s) => {
            push_number(out, 1);
            push_token(out, s.as_str());
            assert(final(out)@ =~= old(out)@ + opt_text(opt_view(*o)));
        },
    }
}

fn push_pid(out: &mut String, p: Option<i32>)
    ensures
        final(out)@ == old(out)@ + pid_text(p),
{
    match p {
        None => push_number(out, 0),
        Some(v) => {
            if v >= 0 {
                push_number(out, 1);
                push_number(out, v as u64);
            } else {
                push_number(out, 2);
                let m: i64 = -(v as i64);
                push_number(out, m as u64);
            }
            assert(final(out)@ =~= old(out)@ + pid_text(p));
        },
    }
}

fn push_node(out: &mut String, n: &NodeRecord)
    ensures
        final(out)@ == old(out)@ + node_text(*n),
{
    push_token(out, n.name.as_str());
    push_token(out, n.addr.as_str());
    push_number(out, n.port as u64);
    push_pid(out, n.pid);
    push_number(out, n.verbose as u64);
    push_opt(out, &n.state_dir);
    assert(final(out)@ =~= old(out)@ + node_text(*n));
}

fn push_nodes(out: &mut String, nodes: &Vec<NodeRecord>)
    ensures
        final(out)@ == old(out)@ + nodes_text(nodes@),
{
    let mut i: usize = 0;
    while i < nodes.len()
        invariant
            i <= nodes@.len(),
            out@ == old(out)@ + nodes_text(nodes@.take(i as int)),
        decreases nodes@.len() - i,
    {
        let ghost before = out@;
        push_node(out, &nodes[i]);
        proof {
            assert(nodes@.take(i + 1).drop_last() =~= nodes@.take(i as int));
            assert(nodes@.take(i + 1).last() == nodes@[i as int]);
            assert(out@ =~= old(out)@ + nodes_text(nodes@.take(i + 1)));
        }
        i = i + 1;
    }
    assert(nodes@.take(nodes@.len() as int) =~= nodes@);
}

fn push_dirs(out: &mut String, d: &Option<Directories>)
    ensures
        final(out)@ == old(out)@ + dirs_text(dirs_view(*d)),
{
    match d {
        None => push_number(out, 0),
        Some(x) => {
            push_number(out, 1);
            push_token(out, x.config_dir.as_str());
            push_token(out, x.data_local_dir.as_str());
            assert(final(out)@ =~= old(out)@ + dirs_text(dirs_view(*d)));
        },
    }
}

fn push_identity(out: &mut String, o: &Option<Vec<u8>>)
    ensures
        final(out)@ == old(out)@ + identity_text(opt_bytes(*o)),
{
    match o {
        None => push_number(out, 0),
        Some(b) => {
            push_number(out, 1);
            push_number(out, b.len() as u64);
            let ghost before = out@;
            let mut j: usize = 0;
            while j < b.len()
                invariant
                    j <= b@.len(),
                    out@ == before + bytes_text(b@.take(j as int)),
                decreases b@.len() - j,
            {
                push_number(out, b[j] as u64);
                proof {
                    assert(b@.take(j + 1).drop_last() =~= b@.take(j as int));
                    assert(b@.take(j + 1).last() == b@[j as int]);
                    assert(out@ =~= before + bytes_text(b@.take(j + 1)));
                }
                j = j + 1;
            }
            assert(b@.take(b@.len() as int) =~= b@);
            assert(final(out)@ =~= old(out)@ + identity_text(opt_bytes(*o)));
        },
    }
}

proof fn lemma_regroup(a: Seq<char>, b: Seq<char>, c: Seq<char>, d: Seq<char>, e: Seq<char>, f: Seq<char>)
    ensures
        a + b + c + d + e + f == a + (b + (c + (d + (e + f)))),
{
    assert(a + b + c + d + e + f =~= a + (b + (c + (d + (e + f)))));
}

/// The text in which a configuration is stored.
pub fn encode_config(c: &GlobalConfig) -> (r: String)
    ensures
        r@ == config_text(*c),
{
    let mut out = String::new();
    push_number(&mut out, c.nodes.len() as u64);
    push_nodes(&mut out, &c.nodes);
    push_opt(&mut out, &c.default);
    push_dirs(&mut out, &c.directories);
    push_opt(&mut out, &c.default_vault_path);
    push_identity(&mut out, &c.default_identity);
    proof {
        let a = num_text(c.nodes@.len());
        let b = nodes_text(c.nodes@);
        let d = opt_text(opt_view(c.default));
        let e = dirs_text(dirs_view(c.directories));
        let f = opt_text(opt_view(c.default_vault_path));
        let g = identity_text(opt_bytes(c.default_identity));
        assert(Seq::<char>::empty() + a =~= a);
        lemma_regroup(a, b, d, e, f, g);
    }
    out
}

proof fn lemma_nodes_stop(t: Seq<char>, k: nat, k2: nat)
    requires
        k <= k2,
        nodes_at(t, k) is None,
    ensures
        nodes_at(t, k2) is None,
    decreases k2 - k,
{
    if k2 > k {
        lemma_nodes_stop(t, k, (k2 - 1) as nat);
    }
}

proof fn lemma_bytes_stop(t: Seq<char>, k: nat, k2: nat)
    requires
        k <= k2,
        bytes_at(t, k) is None,
    ensures
        bytes_at(t, k2) is None,
    decreases k2 - k,
{
    if k2 > k {
        lemma_bytes_stop(t, k, (k2 - 1) as nat);
    }
}

fn read_nodes(text: &str, pos: usize, count: u64) -> (r: Option<(Vec<NodeRecord>, usize)>)
    requires
        pos <= text@.len(),
    ensures
        match nodes_at(text@.skip(pos as int), count as nat) {
            Some((vs, k)) => r matches Some((ns, next)) && record_views(ns@) == vs && next == pos + k,
            None => r is None,
        },
        r matches Some((_, next)) ==> pos <= next <= text@.len(),
{
    let ghost t = text@.skip(pos as int);
    let mut out: Vec<NodeRecord> = Vec::new();
    let mut p: usize = pos;
    let mut i: u64 = 0;
    assert(record_views(out@) =~= Seq::empty());
    while i < count
        invariant
            pos <= p <= text@.len(),
            i <= count,
            t == text@.skip(pos as int),
            nodes_at(t, i as nat) == Some((record_views(out@), (p - pos) as nat)),
        decreases count - i,
    {
        proof {
            lemma_skip_skip(text@, pos as int, p - pos);
        }
        match read_node(text, p) {
            Some((n, next)) => {
                let ghost before = out@;
                out.push(n);
                proof {
                    assert(record_views(out@) =~= record_views(before).push(record_view(n)));
                }
                p = next;
                i = i + 1;
            },
            None => {
                proof {
                    lemma_nodes_stop(t, (i + 1) as nat, count as nat);
                }
                return None;
            },
        }
    }
    Some((out, p))
}

fn read_bytes(text: &str, pos: usize, count: u64) -> (r: Option<(Vec<u8>, usize)>)
    requires
        pos <= text@.len(),
    ensures
        match bytes_at(text@.skip(pos as int), count as nat) {
            Some((bs, k)) => r matches Some((b, next)) && b@ == bs && next == pos + k,
            None => r is None,
        },
        r matches Some((_, next)) ==> pos <= next <= text@.len(),
{
    let ghost t = text@.skip(pos as int);
    let mut out: Vec<u8> = Vec::new();
    let mut p: usize = pos;
    let mut i: u64 = 0;
    assert(out@ =~= Seq::<u8>::empty());
    while i < count
        invariant
            pos <= p <= text@.len(),
            i <= count,
            t == text@.skip(pos as int),
            bytes_at(t, i as nat) == Some((out@, (p - pos) as nat)),
        decreases count - i,
    {
        proof {
            lemma_skip_skip(text@, pos as int, p - pos);
        }
        match read_number(text, p, 255) {
            Some((v, next)) => {
                out.push(v as u8);
                p = next;
                i = i + 1;
            },
            None => {
                proof {
                    lemma_bytes_stop(t, (i + 1) as nat, count as nat);
                }
                return None;
            },
        }
    }
    Some((out, p))
}

fn read_dirs(text: &str, pos: usize) -> (r: Option<(Option<Directories>, usize)>)
    requires
        pos <= text@.len(),
    ensures
        match dirs_at(text@.skip(pos as int)) {
            Some((d, k)) => r matches Some((x, next)) && dirs_view(x) == d && next == pos + k,
            None => r is None,
        },
        r matches Some((_, next)) ==> pos <= next <= text@.len(),
{
    let (flag, p1) = match read_number(text, pos, 1) {
        Some(x) => x,
        None => return None,
    };
    if flag == 0 {
        return Some((None, p1));
    }
    proof { lemma_skip_skip(text@, pos as int, p1 - pos); }
    let (config_dir, p2) = match read_token(text, p1) {
        Some(x) => x,
        None => return None,
    };
    proof {
        lemma_skip_skip(text@, p1 as int, p2 - p1);
        assert(text@.skip(pos as int).skip(p1 - pos) == text@.skip(p1 as int));
        assert(text@.skip(p1 as int).skip(p2 - p1) == text@.skip(p2 as int));
    }
    match read_token(text, p2) {
        Some((data_local_dir, p3)) => Some((Some(Directories { config_dir, data_local_dir }), p3)),
        None => None,
    }
}

fn read_identity(text: &str, pos: usize) -> (r: Option<(Option<Vec<u8>>, usize)>)
    requires
        pos <= text@.len(),
    ensures
        match identity_at(text@.skip(pos as int)) {
            Some((o, k)) => r matches Some((x, next)) && opt_bytes(x) == o && next == pos + k,
            None => r is None,
        },
        r matches Some((_, next)) ==> pos <= next <= text@.len(),
{
    let (flag, p1) = match read_number(text, pos, 1) {
        Some(x) => x,
        None => return None,
    };
    if flag == 0 {
        return Some((None, p1));
    }
    proof { lemma_skip_skip(text@, pos as int, p1 - pos); }
    let (count, p2) = match read_number(text, p1, 18446744073709551615) {
        Some(x) => x,
        None => return None,
    };
    proof {
        lemma_skip_skip(text@, p1 as int, p2 - p1);
        assert(text@.skip(pos as int).skip(p1 - pos) == text@.skip(p1 as int));
        assert(text@.skip(p1 as int).skip(p2 - p1) == text@.skip(p2 as int));
    }
    match read_bytes(text, p2, count) {
        Some((b, p3)) => Some((Some(b), p3)),
        None => None,
    }
}

fn read_vault_tail(text: &str, pos: usize) -> (r: Option<(Option<String>, Option<Vec<u8>>, usize)>)
    requires
        pos <= text@.len(),
    ensures
        match vault_tail_at(text@.skip(pos as int)) {
            Some((f, k)) => r matches Some((v, i, next)) && opt_view(v) == f.0 && opt_bytes(i) == f.1
                && next == pos + k,
            None => r is None,
        },
        r matches Some((_, _, next)) ==> pos <= next <= text@.len(),
{
    let (vault, p1) = match read_opt(text, pos) {
        Some(x) => x,
        None => return None,
    };
    proof { lemma_skip_skip(text@, pos as int, p1 - pos); }
    match read_identity(text, p1) {
        Some((identity, p2)) => Some((vault, identity, p2)),
        None => None,
    }
}

fn read_dirs_tail(text: &str, pos: usize) -> (r: Option<(Option<Directories>, Option<String>, Option<Vec<u8>>, usize)>)
    requires
        pos <= text@.len(),
    ensures
        match dirs_tail_at(text@.skip(pos as int)) {
            Some((f, k)) => r matches Some((d, v, i, next)) && dirs_view(d) == f.0 && opt_view(v) == f.1
                && opt_bytes(i) == f.2 && next == pos + k,
            None => r is None,
        },
        r matches Some((_, _, _, next)) ==> pos <= next <= text@.len(),
{
    let (dirs, p1) = match read_dirs(text, pos) {
        Some(x) => x,
        None => return None,
    };
    proof { lemma_skip_skip(text@, pos as int, p1 - pos); }
    match read_vault_tail(text, p1) {
        Some((vault, identity, p2)) => Some((dirs, vault, identity, p2)),
        None => None,
    }
}

fn read_default_tail(text: &str, pos: usize) -> (r: Option<(Option<String>, Option<Directories>, Option<String>, Option<Vec<u8>>, usize)>)
    requires
        pos <= text@.len(),
    ensures
        match default_tail_at(text@.skip(pos as int)) {
            Some((f, k)) => r matches Some((df, d, v, i, next)) && opt_view(df) == f.0 && dirs_view(d) == f.1
                && opt_view(v) == f.2 && opt_bytes(i) == f.3 && next == pos + k,
            None => r is None,
        },
        r matches Some((_, _, _, _, next)) ==> pos <= next <= text@.len(),
{
    let (default, p1) = match read_opt(text, pos) {
        Some(x) => x,
        None => return None,
    };
    proof { lemma_skip_skip(text@, pos as int, p1 - pos); }
    match read_dirs_tail(text, p1) {
        Some((dirs, vault, identity, p2)) => Some((default, dirs, vault, identity, p2)),
        None => None,
    }
}

fn names_distinct(nodes: &Vec<NodeRecord>) -> (r: bool)
    ensures
        r == (forall|i: int, j: int|
            0 <= i < j < nodes@.len() ==> #[trigger] nodes@[i].name@ != #[trigger] nodes@[j].name@),
{
    let mut j: usize = 0;
    while j < nodes.len()
        invariant
            j <= nodes@.len(),
            forall|a: int, b: int| 0 <= a < b < j ==> #[trigger] nodes@[a].name@ != #[trigger] nodes@[b].name@,
        decreases nodes@.len() - j,
    {
        let mut i: usize = 0;
        while i < j
            invariant
                i <= j < nodes@.len(),
                forall|a: int, b: int| 0 <= a < b < j ==> #[trigger] nodes@[a].name@ != #[trigger] nodes@[b].name@,
                forall|a: int| 0 <= a < i ==> #[trigger] nodes@[a].name@ != nodes@[j as int].name@,
            decreases j - i,
        {
            if crate::text::str_equals(nodes[i].name.as_str(), nodes[j].name.as_str()) {
                return false;
            }
            i = i + 1;
        }
        j = j + 1;
    }
    true
}

/// Reads a configuration back from its stored text. The result, where there
/// is one, is well formed and is what the text writes, with the lookup table
/// rebuilt from the nodes; a text that writes a configuration that can be
/// taken up always gives one.
pub fn decode_config(text: &str) -> (r: Option<GlobalConfig>)
    ensures
        r matches Some(c) ==> c.wf() && config_at(text@) == Some(config_view(c)),
        config_at(text@) is Some && stored_wf(config_at(text@)->0) ==> r is Some,
{
    assert(text@.skip(0) =~= text@);
    let n = text.unicode_len();
    let (count, p1) = match read_number(text, 0, 18446744073709551615) {
        Some(x) => x,
        None => return None,
    };
    let (nodes, p2) = match read_nodes(text, p1, count) {
        Some(x) => x,
        None => return None,
    };
    proof {
        lemma_skip_skip(text@, p1 as int, p2 - p1);
    }
    let (default, directories, default_vault_path, default_identity, p3) = match read_default_tail(text, p2) {
        Some(x) => x,
        None => return None,
    };
    if p3 != n {
        return None;
    }
    let ghost view = (
        record_views(nodes@),
        opt_view(default),
        dirs_view(directories),
        opt_view(default_vault_path),
        opt_bytes(default_identity),
    );
    assert(config_at(text@) == Some(view));
    if !names_distinct(&nodes) {
        proof {
            assert(!stored_wf(view)) by {
                let (i, j) = choose|i: int, j: int|
                    0 <= i < j < nodes@.len() && nodes@[i].name@ == nodes@[j].name@;
                assert(view.0[i].0 == nodes@[i].name@);
                assert(view.0[j].0 == nodes@[j].name@);
            }
        }
        return None;
    }
    if nodes.len() > 0 && default.is_none() {
        return None;
    }
    let mut lookup: Vec<LookupEntry> = Vec::new();
    let mut i: usize = 0;
    while i < nodes.len()
        invariant
            i <= nodes@.len(),
            lookup@.len() == i,
            forall|k: int|
                0 <= k < i ==> (#[trigger] lookup@[k]).name@ == nodes@[k].name@ && lookup@[k].addr@
                    == nodes@[k].addr@,
        decreases nodes@.len() - i,
    {
        lookup.push(LookupEntry { name: nodes[i].name.clone(), addr: nodes[i].addr.clone() });
        i = i + 1;
    }
    Some(GlobalConfig { nodes, default, lookup, directories, default_vault_path, default_identity })
}

} // verus!
