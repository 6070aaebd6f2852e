//! Text helpers shared by the rest of the runtime: comparison of string
//! slices and decimal rendering of integers.

use vstd::prelude::*;
use vstd::string::StringSliceAdditionalSpecFns;

verus! {

/// Compares two string slices scalar value by scalar value.
pub fn str_equal(a: &str, b: &str) -> (equal: bool)
    ensures
        equal == (a@ == b@),
{
    broadcast use vstd::utf8::encode_utf8_decode_utf8;

    let x = a.as_bytes();
    let y = b.as_bytes();
    if x.len() != y.len() {
        return false;
    }
    let mut i: usize = 0;
    while i < x.len()
        invariant
            x.len() == y.len(),
            i <= x.len(),
            forall|j: int| 0 <= j < i ==> x@[j] == y@[j],
            x@ == a.spec_bytes(),
            y@ == b.spec_bytes(),
        decreases x.len() - i,
    {
        if x[i] != y[i] {
            return false;
        }
        i += 1;
    }
    assert(x@ =~= y@);
    assert(vstd::utf8::decode_utf8(vstd::utf8::encode_utf8(a@)) == a@);
    assert(vstd::utf8::decode_utf8(vstd::utf8::encode_utf8(b@)) == b@);
    true
}

/// The character that stands for a single decimal digit.
pub open spec fn digit_char(d: int) -> char
    recommends
        0 <= d < 10,
{
    if d == 0 {
        '0'
    } else if d == 1 {
        '1'
    } else if d == 2 {
        '2'
    } else if d == 3 {
        '3'
    } else if d == 4 {
        '4'
    } else if d == 5 {
        '5'
    } else if d == 6 {
        '6'
    } else if d == 7 {
        '7'
    } else if d == 8 {
        '8'
    } else {
        '9'
    }
}

/// Decimal digits of a natural number, most significant first, without
/// leading zeros.
pub open spec fn decimal_nat(n: nat) -> Seq<char>
    decreases n,
{
    if n < 10 {
        seq![digit_char(n as int)]
    } else {
        decimal_nat(n / 10).push(digit_char((n % 10) as int))
    }
}

/// Decimal rendering of an integer: a minus sign, if negative, then the
/// digits of its magnitude.
pub open spec fn decimal_int(i: int) -> Seq<char> {
    if i < 0 {
        seq!['-'] + decimal_nat((-i) as nat)
    } else {
        decimal_nat(i as nat)
    }
}

/// `String::push` of the standard library: appends one scalar value to the
/// end of the string and leaves what was there before untouched.
#[verifier::external_body]
pub(crate) fn push_char(s: &mut String, c: char)
    ensures
        final(s)@ == old(s)@.push(c),
{
    s.push(c);
}

fn digit_to_char(d: u64) -> (c: char)
    requires
        d < 10,
    ensures
        c == digit_char(d as int),
{
    if d == 0 {
        '0'
    } else if d == 1 {
        '1'
    } else if d == 2 {
        '2'
    } else if d == 3 {
        '3'
    } else if d == 4 {
        '4'
    } else if d == 5 {
        '5'
    } else if d == 6 {
        '6'
    } else if d == 7 {
        '7'
    } else if d == 8 {
        '8'
    } else {
        '9'
    }
}

/// Appends the decimal digits of `n` to `out`.
pub fn push_decimal_u64(out: &mut String, n: u64)
    ensures
        final(out)@ == old(out)@ + decimal_nat(n as nat),
    decreases n,
{
    if n < 10 {
        push_char(out, digit_to_char(n));
        assert(old(out)@.push(digit_char(n as int)) =~= old(out)@ + decimal_nat(n as nat));
    } else {
        push_decimal_u64(out, n / 10);
        push_char(out, digit_to_char(n % 10));
        assert((old(out)@ + decimal_nat((n / 10) as nat)).push(digit_char((n % 10) as int))
            =~= old(out)@ + decimal_nat(n as nat));
    }
}

/// Appends the decimal rendering of `i` to `out`.
pub fn push_decimal_i64(out: &mut String, i: i64)
    ensures
        final(out)@ == old(out)@ + decimal_int(i as int),
{
    if i < 0 {
        push_char(out, '-');
        // The magnitude of the smallest i64 does not fit in an i64, but it
        // fits in a u64.
        let magnitude: u64 = if i == i64::MIN {
            9223372036854775808u64
        } else {
            (-i) as u64
        };
        push_decimal_u64(out, magnitude);
        assert(old(out)@.push('-') + decimal_nat(magnitude as nat) =~= old(out)@ + decimal_int(
            i as int,
        ));
    } else {
        push_decimal_u64(out, i as u64);
    }
}

} // verus!
