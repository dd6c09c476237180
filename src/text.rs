//! Plain text building blocks: decimal numbers, padding and fills.

use vstd::prelude::*;

verus! {

/// The character that stands for a decimal digit.
pub open spec fn digit_char(d: nat) -> char {
    if d == 0 { '0' }
    else if d == 1 { '1' }
    else if d == 2 { '2' }
    else if d == 3 { '3' }
    else if d == 4 { '4' }
    else if d == 5 { '5' }
    else if d == 6 { '6' }
    else if d == 7 { '7' }
    else if d == 8 { '8' }
    else { '9' }
}

/// The decimal representation of `n`, most significant digit first.
pub open spec fn digits(n: nat) -> Seq<char>
    decreases n,
{
    if n < 10 {
        seq![digit_char(n)]
    } else {
        digits(n / 10).push(digit_char(n % 10))
    }
}

/// `n` copies of the character `c`.
pub open spec fn repeat(c: char, n: nat) -> Seq<char> {
    Seq::new(n, |i: int| c)
}

/// `n` spaces.
pub open spec fn spaces(n: nat) -> Seq<char> {
    repeat(' ', n)
}

/// Subtraction that stops at zero.
pub open spec fn sat_sub(a: nat, b: nat) -> nat {
    if a >= b { (a - b) as nat } else { 0 }
}

/// `s` followed by copies of `c` up to `width` characters; `s` itself when
/// it is already that long.
pub open spec fn pad_right(s: Seq<char>, c: char, width: nat) -> Seq<char> {
    s + repeat(c, sat_sub(width, s.len()))
}

/// Spaces before `s` up to `width` characters.
pub open spec fn pad_left(s: Seq<char>, width: nat) -> Seq<char> {
    spaces(sat_sub(width, s.len())) + s
}

/// A `path:line:column` annotation.
pub open spec fn location(path: Seq<char>, line: nat, column: nat) -> Seq<char> {
    path + seq![':'] + digits(line) + seq![':'] + digits(column)
}

fn digit_str(d: u64) -> (r: &'static str)
    requires
        d < 10,
    ensures
        r@ == seq![digit_char(d as nat)],
{
    proof {
        reveal_strlit("0");
        reveal_strlit("1");
        reveal_strlit("2");
        reveal_strlit("3");
        reveal_strlit("4");
        reveal_strlit("5");
        reveal_strlit("6");
        reveal_strlit("7");
        reveal_strlit("8");
        reveal_strlit("9");
    }
    if d == 0 { "0" }
    else if d == 1 { "1" }
    else if d == 2 { "2" }
    else if d == 3 { "3" }
    else if d == 4 { "4" }
    else if d == 5 { "5" }
    else if d == 6 { "6" }
    else if d == 7 { "7" }
    else if d == 8 { "8" }
    else { "9" }
}

/// The decimal representation of `n`.
pub fn decimal(n: u64) -> (r: String)
    ensures
        r@ == digits(n as nat),
    decreases n,
{
    if n < 10 {
        String::from_str(digit_str(n))
    } else {
        let mut s = decimal(n / 10);
        s.append(digit_str(n % 10));
        s
    }
}

/// `s` followed by copies of the one-character string `c` up to `width`
/// characters.
pub fn pad_right_with(s: &str, c: &str, width: usize) -> (r: String)
    requires
        c@.len() == 1,
    ensures
        r@ == pad_right(s@, c@[0], width as nat),
{
    let mut r = String::from_str(s);
    let n = s.unicode_len();
    let mut i: usize = n;
    while i < width
        invariant
            c@.len() == 1,
            n == s@.len(),
            n <= i,
            i <= width || i == n,
            r@ == s@ + repeat(c@[0], (i - n) as nat),
        decreases width - i,
    {
        r.append(c);
        assert(r@ =~= s@ + repeat(c@[0], (i + 1 - n) as nat));
        i = i + 1;
    }
    assert((i - n) as nat == sat_sub(width as nat, s@.len()));
    assert(r@ =~= pad_right(s@, c@[0], width as nat));
    r
}

/// `n` spaces.
pub fn space_string(n: usize) -> (r: String)
    ensures
        r@ == spaces(n as nat),
{
    proof {
        reveal_strlit(" ");
    }
    let r = pad_right_with("", " ", n);
    proof {
        reveal_strlit("");
        assert(r@ =~= spaces(n as nat));
    }
    r
}

/// Spaces before `s` up to `width` characters.
pub fn pad_left_spaces(s: &str, width: usize) -> (r: String)
    ensures
        r@ == pad_left(s@, width as nat),
{
    let n = s.unicode_len();
    let pad: usize = if width > n { width - n } else { 0 };
    let mut r = space_string(pad);
    r.append(s);
    r
}

/// The annotation `path:line:column`.
pub fn location_string(path: &str, line: u64, column: u64) -> (r: String)
    ensures
        r@ == location(path@, line as nat, column as nat),
{
    proof {
        reveal_strlit(":");
    }
    let mut r = String::from_str(path);
    r.append(":");
    let l = decimal(line);
    r.append(l.as_str());
    r.append(":");
    let c = decimal(column);
    r.append(c.as_str());
    r
}

} // verus!
