//! The line and column of a load error, read from the parser's message
//! (`Error at <line>:<column>: ...`).

use vstd::prelude::*;

verus! {

/// `c` is a decimal digit.
pub open spec fn is_digit(c: char) -> bool {
    '0' <= c <= '9'
}

/// The value of the digit `c`.
pub open spec fn digit_value(c: char) -> nat {
    (c as int - '0' as int) as nat
}

/// The first index at or after `i` that does not hold a digit.
pub open spec fn digit_run(s: Seq<char>, i: int) -> int
    decreases s.len() - i,
{
    if i < 0 || i >= s.len() || !is_digit(s[i]) {
        i
    } else {
        digit_run(s, i + 1)
    }
}

/// The number that a run of digits writes.
pub open spec fn value_of(s: Seq<char>) -> nat
    decreases s.len(),
{
    if s.len() == 0 {
        0
    } else {
        value_of(s.drop_last()) * 10 + digit_value(s.last())
    }
}

/// The text before the position in a parser's message.
pub open spec fn position_prefix() -> Seq<char> {
    "Error at "@
}

/// The line and column that `text` names: it starts with the prefix, then
/// digits, a colon, digits, and then ends or goes on after a colon.
pub open spec fn position_in(text: Seq<char>) -> Option<(nat, nat)> {
    let a0 = position_prefix().len() as int;
    if text.len() >= a0 && text.take(a0) == position_prefix() {
        let a1 = digit_run(text, a0);
        if a1 > a0 && a1 < text.len() && text[a1] == ':' {
            let b0 = a1 + 1;
            let b1 = digit_run(text, b0);
            if b1 > b0 && (b1 == text.len() || text[b1] == ':') {
                Some((value_of(text.subrange(a0, a1)), value_of(text.subrange(b0, b1))))
            } else {
                None
            }
        } else {
            None
        }
    } else {
        None
    }
}

proof fn lemma_value_grows(s: Seq<char>, k: int, m: int)
    requires
        0 <= k <= m <= s.len(),
    ensures
        value_of(s.take(k)) <= value_of(s.take(m)),
    decreases m - k,
{
    if k < m {
        lemma_value_grows(s, k, m - 1);
        assert(s.take(m).drop_last() =~= s.take(m - 1));
    }
}

fn is_digit_char(c: char) -> (r: bool)
    ensures
        r == is_digit(c),
{
    '0' <= c && c <= '9'
}

fn digits_end(s: &str, n: usize, i: usize) -> (j: usize)
    requires
        n == s@.len(),
        i <= n,
    ensures
        j as int == digit_run(s@, i as int),
        i <= j <= n,
{
    let mut j = i;
    while j < n && is_digit_char(s.get_char(j))
        invariant
            n == s@.len(),
            i <= j <= n,
            digit_run(s@, i as int) == digit_run(s@, j as int),
        decreases n - j,
    {
        j = j + 1;
    }
    j
}

fn number(s: &str, from: usize, to: usize) -> (r: Option<u64>)
    requires
        from <= to <= s@.len(),
        forall|k: int| from <= k < to ==> is_digit(s@[k]),
    ensures
        value_of(s@.subrange(from as int, to as int)) <= u64::MAX ==> r == Some(
            value_of(s@.subrange(from as int, to as int)) as u64,
        ),
        value_of(s@.subrange(from as int, to as int)) > u64::MAX ==> r is None,
{
    let ghost d = s@.subrange(from as int, to as int);
    let mut v: u64 = 0;
    let mut k = from;
    while k < to
        invariant
            from <= k <= to <= s@.len(),
            d == s@.subrange(from as int, to as int),
            forall|i: int| from <= i < to ==> is_digit(s@[i]),
            v == value_of(d.take(k - from)),
        decreases to - k,
    {
        let c = s.get_char(k);
        let dv = (c as u32 - '0' as u32) as u64;
        proof {
            assert(d.take(k - from + 1).drop_last() =~= d.take(k - from));
            assert(d.take(k - from + 1).last() == c);
        }
        if v > (u64::MAX - dv) / 10 {
            proof {
                assert(value_of(d.take(k - from + 1)) > u64::MAX) by (nonlinear_arith)
                    requires
                        value_of(d.take(k - from + 1)) == v * 10 + dv,
                        v > (u64::MAX - dv) / 10,
                        dv <= 9,
                ;
                lemma_value_grows(d, k - from + 1, d.len() as int);
                assert(d.take(d.len() as int) =~= d);
            }
            return None;
        }
        proof {
            assert(v * 10 + dv <= u64::MAX) by (nonlinear_arith)
                requires
                    v <= (u64::MAX - dv) / 10,
                    dv <= 9,
            ;
        }
        v = v * 10 + dv;
        k = k + 1;
    }
    assert(d.take(to - from) =~= d);
    Some(v)
}

/// The line and column that a parser's error message names, when it names
/// them in numbers that fit.
pub fn error_position(text: &str) -> (r: Option<(u64, u64)>)
    ensures
        r == match position_in(text@) {
            Some((l, c)) => if l <= u64::MAX && c <= u64::MAX {
                Some((l as u64, c as u64))
            } else {
                None
            },
            None => None,
        },
{
    proof {
        reveal_strlit("Error at ");
    }
    let n = text.unicode_len();
    if n < 9 {
        return None;
    }
    let head = String::from_str(text.substring_char(0, 9));
    let prefix = String::from_str("Error at ");
    if !(head == prefix) {
        proof {
            assert(text@.take(9) =~= head@);
        }
        return None;
    }
    assert(text@.take(9) =~= position_prefix());
    let a1 = digits_end(text, n, 9);
    if !(a1 > 9 && a1 < n && text.get_char(a1) == ':') {
        return None;
    }
    let b1 = digits_end(text, n, a1 + 1);
    if !(b1 > a1 + 1 && (b1 == n || text.get_char(b1) == ':')) {
        return None;
    }
    proof {
        lemma_run_digits(text@, 9, a1 as int);
        lemma_run_digits(text@, a1 as int + 1, b1 as int);
    }
    let line = number(text, 9, a1);
    let column = number(text, a1 + 1, b1);
    match (line, column) {
        (Some(l), Some(c)) => Some((l, c)),
        _ => None,
    }
}

proof fn lemma_run_digits(s: Seq<char>, i: int, j: int)
    requires
        0 <= i <= s.len(),
        j == digit_run(s, i),
    ensures
        forall|k: int| i <= k < j ==> is_digit(s[k]),
    decreases s.len() - i,
{
    if i < s.len() && is_digit(s[i]) {
        lemma_run_digits(s, i + 1, j);
    }
}

} // verus!
