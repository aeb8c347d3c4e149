use vstd::prelude::*;

verus! {

/// The decimal digit character of `d` (for `d < 10`).
pub open spec fn digit_char(d: nat) -> char {
    if d == 0 { '0' }
    else if d == 1 { '1' }
    else if d == 2 { '2' }
    else if d == 3 { '3' }
    else if d == 4 { '4' }
    else if d == 5 { '5' }
    else if d == 6 { '6' }
    else if d == 7 { '7' }
    else if d == 8 { '8' }
    else { '9' }
}

/// The decimal notation of a natural number, without leading zeros.
pub open spec fn nat_text(n: nat) -> Seq<char>
    decreases n,
{
    if n < 10 {
        seq![digit_char(n)]
    } else {
        nat_text(n / 10) + seq![digit_char(n % 10)]
    }
}

/// The decimal notation of an integer, with a leading `-` when it is negative.
pub open spec fn int_text(i: int) -> Seq<char> {
    if i < 0 {
        seq!['-'] + nat_text((-i) as nat)
    } else {
        nat_text(i as nat)
    }
}

/// What Rust's `Debug` formatting writes for a string: the quoted, escaped text.
pub uninterp spec fn debug_quoted(s: Seq<char>) -> Seq<char>;

/// Whether Unicode's `Uppercase` property holds of a character outside ASCII.
pub uninterp spec fn non_ascii_uppercase(c: char) -> bool;

/// Whether `char::is_uppercase` holds of `c` (Unicode's `Uppercase` property):
/// in ASCII exactly `A` to `Z` have it.
pub open spec fn is_uppercase_char(c: char) -> bool {
    if (c as u32) < 128 { 'A' <= c <= 'Z' } else { non_ascii_uppercase(c) }
}

/// `char::is_uppercase`.
#[verifier::external_body]
pub fn char_is_uppercase(c: char) -> (r: bool)
    ensures
        r == is_uppercase_char(c),
        (c as u32) >= 128 ==> r == non_ascii_uppercase(c),
{
    c.is_uppercase()
}

/// `String::push`: appends one character.
#[verifier::external_body]
pub fn push_char(s: &mut String, c: char)
    ensures
        final(s)@ == old(s)@.push(c),
{
    s.push(c);
}

/// `str`'s `==`: equal exactly when the two hold the same characters.
#[verifier::external_body]
pub fn text_eq(a: &str, b: &str) -> (r: bool)
    ensures
        r == (a@ == b@),
{
    a == b
}

/// `format!("{:?}", s)` on a string slice: Rust's quoted `Debug` rendering of it.
#[verifier::external_body]
fn debug_text_of(s: &str) -> (r: String)
    ensures
        r@ == debug_quoted(s@),
{
    format!("{:?}", s)
}

/// A new string holding the characters of `s`.
pub fn text(s: &str) -> (r: String)
    ensures
        r@ == s@,
{
    s.to_owned()
}

/// Appends `t` to `s`.
pub fn append(s: &mut String, t: &str)
    ensures
        final(s)@ == old(s)@ + t@,
{
    s.append(t);
}

/// Appends the quoted `Debug` rendering of `t` to `s`.
pub fn append_debug(s: &mut String, t: &str)
    ensures
        final(s)@ == old(s)@ + debug_quoted(t@),
{
    let d = debug_text_of(t);
    s.append(d.as_str());
}

fn digit(d: u64) -> (c: char)
    requires
        d < 10,
    ensures
        c == digit_char(d as nat),
{
    if d == 0 { '0' }
    else if d == 1 { '1' }
    else if d == 2 { '2' }
    else if d == 3 { '3' }
    else if d == 4 { '4' }
    else if d == 5 { '5' }
    else if d == 6 { '6' }
    else if d == 7 { '7' }
    else if d == 8 { '8' }
    else { '9' }
}

/// Appends the decimal notation of `n` to `s`.
pub fn append_nat(s: &mut String, n: u64)
    ensures
        final(s)@ == old(s)@ + nat_text(n as nat),
    decreases n,
{
    if n >= 10 {
        append_nat(s, n / 10);
    }
    let c = digit(n % 10);
    push_char(s, c);
    assert(s@ =~= old(s)@ + nat_text(n as nat));
}

/// Appends the decimal notation of `i` to `s`.
pub fn append_int(s: &mut String, i: i64)
    ensures
        final(s)@ == old(s)@ + int_text(i as int),
{
    if i < 0 {
        push_char(s, '-');
        let m: i128 = -(i as i128);
        let mag: u64 = m as u64;
        append_nat(s, mag);
        assert(s@ =~= old(s)@ + int_text(i as int));
    } else {
        append_nat(s, i as u64);
    }
}

} // verus!
