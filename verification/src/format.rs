//! Numbers as text: decimal digits, and padding to a width.
use crate::text::push_char;
use vstd::prelude::*;
use vstd::string::StringExecFns;

verus! {

/// The decimal digits of `n`.
pub open spec fn decimal(n: nat) -> Seq<char>
    decreases n,
{
    if n < 10 {
        seq![digit(n)]
    } else {
        decimal(n / 10).push(digit(n % 10))
    }
}

/// The character of the digit `d`.
pub open spec fn digit(d: nat) -> char {
    (('0' as u8) + d) as u8 as char
}

/// Appends the decimal digits of `n` to `s`.
pub fn push_decimal(s: &mut String, n: u64)
    ensures
        final(s)@ == old(s)@ + decimal(n as nat),
{
    let mut digits: Vec<char> = Vec::new();
    let mut rest = n;
    while rest >= 10
        invariant
            decimal(n as nat) == decimal(rest as nat) + digits@.reverse(),
        decreases rest,
    {
        let d = (rest % 10) as u8;
        let c = (48u8 + d) as char;
        proof {
            let ghost before = digits@;
            assert(decimal(rest as nat) == decimal((rest / 10) as nat).push(
                digit((rest % 10) as nat),
            ));
            assert(before.push(c).reverse() =~= seq![c] + before.reverse());
            assert(decimal((rest / 10) as nat).push(c) + before.reverse() =~= decimal(
                (rest / 10) as nat,
            ) + (seq![c] + before.reverse()));
        }
        digits.push(c);
        rest = rest / 10;
    }
    let first = (48u8 + (rest as u8)) as char;
    push_char(s, first);
    assert(decimal(rest as nat) =~= seq![first]);
    let mut i = digits.len();
    while i > 0
        invariant
            i <= digits@.len(),
            s@ == old(s)@ + seq![first] + digits@.reverse().take(digits@.len() - i),
        decreases i,
    {
        i -= 1;
        push_char(s, digits[i]);
        proof {
            let r = digits@.reverse();
            let k = digits@.len() - i;
            assert(r.take(k) =~= r.take(k - 1).push(digits@[i as int]));
            assert(old(s)@ + seq![first] + r.take(k - 1).push(digits@[i as int]) =~= (old(s)@
                + seq![first] + r.take(k - 1)).push(digits@[i as int]));
        }
    }
    proof {
        let r = digits@.reverse();
        assert(r.take(digits@.len() as int) =~= r);
        assert(old(s)@ + seq![first] + r =~= old(s)@ + (seq![first] + r));
    }
}

/// `s` with blanks before it where it is shorter than `width`.
pub open spec fn padded(s: Seq<char>, width: nat) -> Seq<char> {
    if s.len() >= width {
        s
    } else {
        Seq::new((width - s.len()) as nat, |i: int| ' ') + s
    }
}

/// Appends the decimal digits of `n`, with blanks before them where they
/// are fewer than `width`.
pub fn push_padded_decimal(s: &mut String, n: u64, width: usize)
    ensures
        final(s)@ == old(s)@ + padded(decimal(n as nat), width as nat),
{
    let mut digits = String::new();
    push_decimal(&mut digits, n);
    assert(digits@ =~= decimal(n as nat));
    let len = digits.as_str().unicode_len();
    let mut i = len;
    while i < width
        invariant
            len <= i,
            i < width ==> s@ == old(s)@ + Seq::new((i - len) as nat, |k: int| ' '),
            len >= width ==> s@ == old(s)@,
            i >= width && len < width ==> s@ == old(s)@ + Seq::new(
                (width - len) as nat,
                |k: int| ' ',
            ),
        decreases width - i,
    {
        push_char(s, ' ');
        i += 1;
        assert(Seq::new((i - len) as nat, |k: int| ' ') =~= Seq::new(
            (i - 1 - len) as nat,
            |k: int| ' ',
        ).push(' '));
    }
    proof {
        if len < width {
            assert(s@ == old(s)@ + Seq::new((width - len) as nat, |k: int| ' '));
        } else {
            assert(old(s)@ + Seq::new(0nat, |k: int| ' ') =~= old(s)@);
        }
    }
    s.append(digits.as_str());
    assert(s@ =~= old(s)@ + padded(decimal(n as nat), width as nat));
}

} // verus!
