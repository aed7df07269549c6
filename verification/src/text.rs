//! Character-level text utilities: moving between strings and character
//! vectors, comparing strings, and rendering integers.

use vstd::prelude::*;
use vstd::string::StrSliceExecFns;

verus! {

/// Relies on `str::chars`: the characters of a string slice, in order.
#[verifier::external_body]
pub fn str_to_chars(s: &str) -> (r: Vec<char>)
    ensures
        r@ == s@,
{
    s.chars().collect()
}

/// Relies on `String::from_iter` over characters: the string whose
/// characters are exactly the vector's.
#[verifier::external_body]
pub fn chars_to_string(v: &Vec<char>) -> (r: String)
    ensures
        r@ == v@,
{
    v.iter().collect()
}

/// Whether two string slices hold the same characters.
pub fn str_eq(a: &str, b: &str) -> (r: bool)
    ensures
        r == (a@ == b@),
{
    let la = a.unicode_len();
    let lb = b.unicode_len();
    if la != lb {
        return false;
    }
    let mut i: usize = 0;
    while i < la
        invariant
            la == a@.len(),
            la == b@.len(),
            i <= la,
            forall|j: int| 0 <= j < i ==> a@[j] == b@[j],
        decreases la - i,
    {
        if a.get_char(i) != b.get_char(i) {
            return false;
        }
        i = i + 1;
    }
    proof {
        assert(a@ =~= b@);
    }
    true
}

/// The character for one decimal digit.
pub open spec fn digit_char(d: int) -> char {
    if d == 0 {
        '0'
    } else if d == 1 {
        '1'
    } else if d == 2 {
        '2'
    } else if d == 3 {
        '3'
    } else if d == 4 {
        '4'
    } else if d == 5 {
        '5'
    } else if d == 6 {
        '6'
    } else if d == 7 {
        '7'
    } else if d == 8 {
        '8'
    } else {
        '9'
    }
}

/// The decimal rendering of a nonnegative number, most significant digit
/// first.
pub open spec fn dec_digits(x: int) -> Seq<char>
    decreases x,
{
    if x < 10 {
        seq![digit_char(x)]
    } else {
        dec_digits(x / 10).push(digit_char(x % 10))
    }
}

fn digit_to_char(d: u64) -> (c: char)
    requires
        d < 10,
    ensures
        c == digit_char(d as int),
{
    if d == 0 {
        '0'
    } else if d == 1 {
        '1'
    } else if d == 2 {
        '2'
    } else if d == 3 {
        '3'
    } else if d == 4 {
        '4'
    } else if d == 5 {
        '5'
    } else if d == 6 {
        '6'
    } else if d == 7 {
        '7'
    } else if d == 8 {
        '8'
    } else {
        '9'
    }
}

/// Append the decimal digits of `x` to `out`.
fn push_dec(x: u64, out: &mut Vec<char>)
    ensures
        final(out)@ == old(out)@ + dec_digits(x as int),
    decreases x,
{
    if x < 10 {
        out.push(digit_to_char(x));
        assert(final(out)@ =~= old(out)@ + dec_digits(x as int));
    } else {
        push_dec(x / 10, out);
        out.push(digit_to_char(x % 10));
        assert(final(out)@ =~= old(out)@ + dec_digits(x as int));
    }
}

/// Render a number in decimal.
pub fn fmt_u64(x: u64) -> (s: String)
    ensures
        s@ == dec_digits(x as int),
{
    let mut v: Vec<char> = Vec::new();
    push_dec(x, &mut v);
    assert(v@ =~= dec_digits(x as int));
    chars_to_string(&v)
}

/// The decimal rendering of a signed number: a minus sign for a negative
/// value, then the digits of its magnitude.
pub open spec fn dec_digits_signed(x: int) -> Seq<char> {
    if x < 0 {
        seq!['-'] + dec_digits(-x)
    } else {
        dec_digits(x)
    }
}

/// Render a signed number in decimal.
pub fn fmt_i64(x: i64) -> (s: String)
    ensures
        s@ == dec_digits_signed(x as int),
{
    if x >= 0 {
        let r = fmt_u64(x as u64);
        r
    } else {
        let mag: u64 = (x as i128 * -1) as u64;
        assert(mag == -(x as int)) by (bit_vector)
            requires
                x < 0 && mag == (x as i128 * -1) as u64,
        ;
        let mut v: Vec<char> = Vec::new();
        v.push('-');
        push_dec(mag, &mut v);
        assert(v@ =~= dec_digits_signed(x as int));
        chars_to_string(&v)
    }
}

} // verus!
