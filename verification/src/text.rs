//! Small text-building helpers shared by the URL and route code.

use vstd::prelude::*;

verus! {

/// Relies on `String::push_str`: appends the characters of `t` to `s`.
#[verifier::external_body]
pub(crate) fn push_str(s: &mut String, t: &str)
    ensures
        final(s)@ == old(s)@ + t@,
{
    s.push_str(t);
}

/// Relies on `String::push`: appends the character `c` to `s`.
#[verifier::external_body]
pub(crate) fn push_char(s: &mut String, c: char)
    ensures
        final(s)@ == old(s)@.push(c),
{
    s.push(c);
}

/// Whether two string slices hold the same characters.
pub fn str_eq(a: &str, b: &str) -> (r: bool)
    ensures
        r == (a@ == b@),
{
    let an = a.unicode_len();
    let bn = b.unicode_len();
    if an != bn {
        return false;
    }
    let mut i: usize = 0;
    while i < an
        invariant
            an == a@.len(),
            bn == b@.len(),
            an == bn,
            i <= an,
            forall|k: int| 0 <= k < i ==> a@[k] == b@[k],
        decreases an - i,
    {
        if a.get_char(i) != b.get_char(i) {
            return false;
        }
        i = i + 1;
    }
    proof {
        assert(a@ =~= b@);
    }
    true
}

/// The decimal digit `n` as a character, for `n < 10`.
pub open spec fn decimal_digit(n: int) -> char
    recommends
        0 <= n < 10,
{
    ((n + 0x30) as u8) as char
}

/// The decimal representation of `n`, most significant digit first.
pub open spec fn decimal_of(n: nat) -> Seq<char>
    decreases n,
{
    if n < 10 {
        seq![decimal_digit(n as int)]
    } else {
        decimal_of(n / 10).push(decimal_digit((n % 10) as int))
    }
}

/// Appends the decimal representation of `n` to `out`.
pub fn push_decimal(n: u32, out: &mut String)
    ensures
        final(out)@ == old(out)@ + decimal_of(n as nat),
    decreases n,
{
    if n < 10 {
        let d: u8 = (n as u8) + 0x30;
        push_char(out, d as char);
        proof {
            assert(old(out)@ + decimal_of(n as nat) =~= old(out)@.push(decimal_digit(n as int)));
        }
    } else {
        push_decimal(n / 10, out);
        let d: u8 = ((n % 10) as u8) + 0x30;
        push_char(out, d as char);
        proof {
            assert(old(out)@ + decimal_of(n as nat) =~= (old(out)@ + decimal_of(
                (n / 10) as nat,
            )).push(decimal_digit((n % 10) as int)));
        }
    }
}

/// The decimal representation of `n` as a fresh string.
pub fn u32_string(n: u32) -> (r: String)
    ensures
        r@ == decimal_of(n as nat),
{
    let mut out = String::new();
    push_decimal(n, &mut out);
    proof {
        assert(out@ =~= decimal_of(n as nat));
    }
    out
}

} // verus!
