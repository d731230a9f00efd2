//! Character-level string utilities shared by the codec modules.
//!
//! Contracts over strings are stated on their views (`Seq<char>`); these
//! helpers move between `String`/`&str` and `Vec<char>` so that the rest of
//! the crate can do fully verified character processing.

use vstd::prelude::*;
use vstd::string::*;
use vstd::utf8::*;

verus! {

broadcast use vstd::string::group_string_axioms;

/// The scalar value of `c` with an ASCII capital letter folded to lower case.
pub open spec fn lower_u32(c: char) -> u32 {
    if 65 <= c as u32 && c as u32 <= 90 {
        (c as u32 + 32) as u32
    } else {
        c as u32
    }
}

/// Case-insensitive (ASCII) equality of two character sequences.
pub open spec fn eq_ignore_ascii_case(a: Seq<char>, b: Seq<char>) -> bool {
    a.len() == b.len() && forall|i: int| 0 <= i < a.len() ==> lower_u32(a[i]) == lower_u32(b[i])
}

/// The scalar value of `c` with an ASCII capital letter folded to lower case.
pub fn lower_val(c: char) -> (r: u32)
    ensures
        r == lower_u32(c),
{
    proof {
        vstd::utf8::char_is_scalar(c);
    }
    let u = c as u32;
    if 65 <= u && u <= 90 {
        u + 32
    } else {
        u
    }
}

/// Case-insensitive (ASCII) comparison of two character vectors.
pub fn chars_eq_ignore_ascii_case(a: &Vec<char>, b: &Vec<char>) -> (r: bool)
    ensures
        r == eq_ignore_ascii_case(a@, b@),
{
    if a.len() != b.len() {
        return false;
    }
    let n = a.len();
    let mut i: usize = 0;
    while i < n
        invariant
            i <= n,
            n == a@.len() == b@.len(),
            forall|j: int| 0 <= j < i ==> lower_u32(a@[j]) == lower_u32(b@[j]),
        decreases n - i,
    {
        if lower_val(a[i]) != lower_val(b[i]) {
            return false;
        }
        i += 1;
    }
    true
}

/// Collect the characters of a string slice into a vector.
pub fn to_chars(s: &str) -> (r: Vec<char>)
    ensures
        r@ == s@,
{
    let n = s.unicode_len();
    let mut r: Vec<char> = Vec::new();
    let mut i: usize = 0;
    while i < n
        invariant
            i <= n,
            n == s@.len(),
            r@ == s@.take(i as int),
        decreases n - i,
    {
        r.push(s.get_char(i));
        assert(r@ =~= s@.take(i + 1));
        i += 1;
    }
    assert(r@ =~= s@);
    r
}

/// The decimal digit character for `n < 10`.
pub open spec fn dec_digit(n: u32) -> char
    recommends
        n < 10,
{
    (('0' as u32) + n) as char
}

/// The decimal representation of `n`, most significant digit first and
/// without leading zeroes (`0` itself is a single digit).
pub open spec fn dec_rep(n: nat) -> Seq<char>
    decreases n,
{
    if n < 10 {
        seq![dec_digit(n as u32)]
    } else {
        dec_rep(n / 10).push(dec_digit((n % 10) as u32))
    }
}

/// Append the decimal representation of `m` to `out`.
pub fn push_dec_u16(out: &mut Vec<char>, m: u16)
    ensures
        final(out)@ == old(out)@ + dec_rep(m as nat),
    decreases m,
{
    if m < 10 {
        out.push((48 + m as u8) as char);
        assert(final(out)@ =~= old(out)@ + dec_rep(m as nat));
    } else {
        push_dec_u16(out, m / 10);
        out.push((48 + (m % 10) as u8) as char);
        assert(final(out)@ =~= old(out)@ + dec_rep(m as nat));
    }
}

/// Character equality of two string slices.
pub fn str_eq(a: &str, b: &str) -> (r: bool)
    ensures
        r == (a@ == b@),
{
    let sa = String::from_str(a);
    let sb = String::from_str(b);
    sa.eq(&sb)
}

/// Relies on `String: FromIterator<char>`: collecting characters yields the
/// string with exactly those characters.
#[verifier::external_body]
pub fn chars_to_string(v: &Vec<char>) -> (r: String)
    ensures
        r@ == v@,
{
    v.iter().collect()
}

/// Relies on `String::from_utf8`: it succeeds exactly on valid UTF-8 input
/// and decodes it.
#[verifier::external_body]
pub fn string_from_utf8(v: &[u8]) -> (r: Option<String>)
    ensures
        r is Some <==> valid_utf8(v@),
        r matches Some(s) ==> s@ == decode_utf8(v@),
{
    match std::str::from_utf8(v) {
        Ok(s) => Some(s.to_string()),
        Err(_) => None,
    }
}

/// What `String::from_utf8_lossy` yields on arbitrary bytes: a function of
/// the bytes alone (invalid sequences become replacement characters).
pub uninterp spec fn utf8_lossy_of(v: Seq<u8>) -> Seq<char>;

/// Relies on `String::from_utf8_lossy`: valid UTF-8 decodes exactly; any
/// input yields a string that depends on the bytes alone.
#[verifier::external_body]
pub fn string_from_utf8_lossy(v: &[u8]) -> (r: String)
    ensures
        r@ == utf8_lossy_of(v@),
        valid_utf8(v@) ==> r@ == decode_utf8(v@),
{
    String::from_utf8_lossy(v).into_owned()
}

} // verus!
