//! Decimal rendering of unsigned integers, used wherever a number has to
//! appear inside a URL or a message string.

use vstd::prelude::*;
use vstd::string::*;

verus! {

/// The character for one decimal digit value.
pub open spec fn digit_char(d: int) -> char {
    if d == 0 {
        '0'
    } else if d == 1 {
        '1'
    } else if d == 2 {
        '2'
    } else if d == 3 {
        '3'
    } else if d == 4 {
        '4'
    } else if d == 5 {
        '5'
    } else if d == 6 {
        '6'
    } else if d == 7 {
        '7'
    } else if d == 8 {
        '8'
    } else {
        '9'
    }
}

/// The usual decimal spelling of `n`: most significant digit first, no
/// leading zeroes (`0` itself is spelled `"0"`).
pub open spec fn dec_digits(n: nat) -> Seq<char>
    decreases n,
{
    if n < 10 {
        seq![digit_char(n as int)]
    } else {
        dec_digits(n / 10) + seq![digit_char((n % 10) as int)]
    }
}

/// Appends the single digit `d` to `s`.
fn append_digit(s: &mut String, d: u64)
    requires
        d < 10,
    ensures
        final(s)@ == old(s)@ + seq![digit_char(d as int)],
{
    proof {
        reveal_strlit("0");
        reveal_strlit("1");
        reveal_strlit("2");
        reveal_strlit("3");
        reveal_strlit("4");
        reveal_strlit("5");
        reveal_strlit("6");
        reveal_strlit("7");
        reveal_strlit("8");
        reveal_strlit("9");
    }
    if d == 0 {
        s.append("0");
    } else if d == 1 {
        s.append("1");
    } else if d == 2 {
        s.append("2");
    } else if d == 3 {
        s.append("3");
    } else if d == 4 {
        s.append("4");
    } else if d == 5 {
        s.append("5");
    } else if d == 6 {
        s.append("6");
    } else if d == 7 {
        s.append("7");
    } else if d == 8 {
        s.append("8");
    } else {
        s.append("9");
    }
}

/// Appends the decimal spelling of `n` to `s`.
pub fn append_u64(s: &mut String, n: u64)
    ensures
        final(s)@ == old(s)@ + dec_digits(n as nat),
{
    let mut digits: Vec<u64> = Vec::new();
    let mut x: u64 = n;
    if x == 0 {
        append_digit(s, 0);
        return ;
    }
    while x > 0
        invariant
            x > 0 ==> dec_digits(n as nat) == dec_digits(x as nat) + digits@.reverse().map_values(
                |d: u64| digit_char(d as int),
            ),
            x == 0 ==> digits@.len() > 0 && dec_digits(n as nat) == digits@.reverse().map_values(
                |d: u64| digit_char(d as int),
            ),
            forall|i: int| 0 <= i < digits@.len() ==> digits@[i] < 10,
        decreases x,
    {
        let ghost pre = digits@;
        let d: u64 = x % 10;
        digits.push(d);
        let ghost oldx = x as nat;
        x = x / 10;
        proof {
            assert(digits@ == pre.push(d));
            assert(digits@.reverse() =~= seq![d] + pre.reverse());
            assert(digits@.reverse().map_values(|dd: u64| digit_char(dd as int)) =~= seq![
                digit_char(d as int),
            ] + pre.reverse().map_values(|dd: u64| digit_char(dd as int)));
            if oldx >= 10 {
                assert(dec_digits(oldx) == dec_digits(oldx / 10) + seq![
                    digit_char((oldx % 10) as int),
                ]);
            }
        }
    }
    let ghost rendered = digits@.reverse().map_values(|d: u64| digit_char(d as int));
    let mut i: usize = digits.len();
    while i > 0
        invariant
            i <= digits@.len(),
            forall|k: int| 0 <= k < digits@.len() ==> digits@[k] < 10,
            rendered == digits@.reverse().map_values(|d: u64| digit_char(d as int)),
            rendered.len() == digits@.len(),
            s@ == old(s)@ + rendered.take(digits@.len() - i),
        decreases i,
    {
        i = i - 1;
        let d: u64 = digits[i];
        append_digit(s, d);
        proof {
            let len = digits@.len() as int;
            assert(rendered[len - 1 - i] == digit_char(digits@[i as int] as int));
            assert(rendered.take(len - i) =~= rendered.take(len - i - 1) + seq![
                rendered[len - 1 - i],
            ]);
        }
    }
    proof {
        assert(s@ == old(s)@ + rendered.take(digits@.len() as int));
        assert(rendered.take(digits@.len() as int) =~= rendered);
    }
}

/// The decimal spelling of `n` as a fresh string.
pub fn u64_to_string(n: u64) -> (r: String)
    ensures
        r@ == dec_digits(n as nat),
{
    let mut s = String::new();
    append_u64(&mut s, n);
    proof {
        assert(s@ =~= dec_digits(n as nat));
    }
    s
}

} // verus!
