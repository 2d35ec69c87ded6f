//! Text renderings of configuration values: decimal integers, booleans and
//! `#rrggbb` colours, each stated as a spec function and proved.

use vstd::prelude::*;

verus! {

/// Appending a character to a `String` extends its characters by that one.
pub assume_specification[ std::string::String::push ](s: &mut std::string::String, ch: char)
    ensures
        final(s)@ == old(s)@.push(ch),
;

/// The character of a digit below sixteen, lower-case for ten and above.
pub open spec fn digit_char(d: nat) -> char {
    if d == 0 { '0' }
    else if d == 1 { '1' }
    else if d == 2 { '2' }
    else if d == 3 { '3' }
    else if d == 4 { '4' }
    else if d == 5 { '5' }
    else if d == 6 { '6' }
    else if d == 7 { '7' }
    else if d == 8 { '8' }
    else if d == 9 { '9' }
    else if d == 10 { 'a' }
    else if d == 11 { 'b' }
    else if d == 12 { 'c' }
    else if d == 13 { 'd' }
    else if d == 14 { 'e' }
    else { 'f' }
}

/// The digits of `n` in base `b` (2 <= b <= 16), most significant first,
/// without leading zeros; zero is the single digit `0`.
pub open spec fn digits(n: nat, b: nat) -> Seq<char>
    decreases n,
{
    if b < 2 || n < b {
        seq![digit_char(n)]
    } else {
        proof {
            vstd::arithmetic::div_mod::lemma_div_decreases(n as int, b as int);
        }
        digits(n / b, b).push(digit_char(n % b))
    }
}

/// The decimal text of an integer, with a leading `-` when it is negative.
pub open spec fn int_text(v: int) -> Seq<char> {
    if v < 0 {
        seq!['-'] + digits((-v) as nat, 10)
    } else {
        digits(v as nat, 10)
    }
}

/// `k` copies of the character `0`.
pub open spec fn zeros(k: nat) -> Seq<char> {
    Seq::new(k, |i: int| '0')
}

/// A colour as `#` followed by its lower-case hexadecimal digits, padded
/// with zeros to at least six of them.
pub open spec fn color_text(v: u32) -> Seq<char> {
    let h = digits(v as nat, 16);
    let pad: nat = if h.len() < 6 { (6 - h.len()) as nat } else { 0 };
    seq!['#'] + zeros(pad) + h
}

/// The text of a boolean.
pub open spec fn bool_text(b: bool) -> Seq<char> {
    if b { "true"@ } else { "false"@ }
}

fn digit_to_char(d: u64) -> (c: char)
    requires
        d < 16,
    ensures
        c == digit_char(d as nat),
{
    if d == 0 { '0' }
    else if d == 1 { '1' }
    else if d == 2 { '2' }
    else if d == 3 { '3' }
    else if d == 4 { '4' }
    else if d == 5 { '5' }
    else if d == 6 { '6' }
    else if d == 7 { '7' }
    else if d == 8 { '8' }
    else if d == 9 { '9' }
    else if d == 10 { 'a' }
    else if d == 11 { 'b' }
    else if d == 12 { 'c' }
    else if d == 13 { 'd' }
    else if d == 14 { 'e' }
    else { 'f' }
}

/// Appends the base-`b` digits of `n` to `s`.
pub fn push_digits(s: &mut String, n: u64, b: u64)
    requires
        2 <= b <= 16,
    ensures
        final(s)@ == old(s)@ + digits(n as nat, b as nat),
    decreases n,
{
    if n < b {
        digit_to_char_push(s, n);
        assert(digits(n as nat, b as nat) == seq![digit_char(n as nat)]);
    } else {
        proof {
            vstd::arithmetic::div_mod::lemma_div_decreases(n as int, b as int);
        }
        push_digits(s, n / b, b);
        let d: u64 = n % b;
        digit_to_char_push(s, d);
        assert(digits(n as nat, b as nat) == digits((n / b) as nat, b as nat).push(
            digit_char((n % b) as nat),
        ));
    }
}

fn digit_to_char_push(s: &mut String, d: u64)
    requires
        d < 16,
    ensures
        final(s)@ == old(s)@.push(digit_char(d as nat)),
{
    let c = digit_to_char(d);
    s.push(c);
}

/// The number of hexadecimal digits of `n`.
fn hex_digit_count(n: u32) -> (c: u64)
    ensures
        c == digits(n as nat, 16).len(),
    decreases n,
{
    if n < 16 {
        1
    } else {
        let c: u64 = hex_digit_count(n / 16);
        proof {
            lemma_hex_len_bound((n / 16) as nat);
        }
        c + 1
    }
}

proof fn lemma_hex_len_bound(n: nat)
    ensures
        digits(n, 16).len() <= n + 1,
    decreases n,
{
    if n >= 16 {
        lemma_hex_len_bound(n / 16);
    }
}

/// The decimal text of `v`.
pub fn int_to_text(v: i64) -> (s: String)
    ensures
        s@ == int_text(v as int),
{
    let mut s = String::new();
    if v < 0 {
        s.push('-');
        let mag: u64 = (0 - (v as i128)) as u64;
        push_digits(&mut s, mag, 10);
    } else {
        push_digits(&mut s, v as u64, 10);
    }
    s
}

/// The `#rrggbb` text of a colour.
pub fn color_to_text(v: u32) -> (s: String)
    ensures
        s@ == color_text(v),
{
    let mut s = String::new();
    s.push('#');
    let n: u64 = hex_digit_count(v);
    let mut k: u64 = n;
    while k < 6
        invariant
            n <= k <= 6 || (n > 6 && k == n),
            s@ == seq!['#'] + zeros((k - n) as nat),
        decreases 6 - k,
    {
        s.push('0');
        k = k + 1;
        assert(zeros((k - n) as nat) == zeros((k - 1 - n) as nat).push('0'));
    }
    push_digits(&mut s, v as u64, 16);
    s
}

/// The text of a boolean.
pub fn bool_to_text(b: bool) -> (s: String)
    ensures
        s@ == bool_text(b),
{
    if b {
        "true".to_owned()
    } else {
        "false".to_owned()
    }
}

} // verus!
