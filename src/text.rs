//! Decimal and binary renderings of integers for diagnostic text.

use vstd::prelude::*;
use vstd::string::StringExecFns;

use crate::bits::bit_set;

verus! {

/// The character of the decimal digit `d`.
pub open spec fn digit_char(d: int) -> char {
    if d == 0 {
        '0'
    } else if d == 1 {
        '1'
    } else if d == 2 {
        '2'
    } else if d == 3 {
        '3'
    } else if d == 4 {
        '4'
    } else if d == 5 {
        '5'
    } else if d == 6 {
        '6'
    } else if d == 7 {
        '7'
    } else if d == 8 {
        '8'
    } else {
        '9'
    }
}

/// `n` in decimal, without leading zeros.
pub open spec fn decimal(n: nat) -> Seq<char>
    decreases n,
{
    if n < 10 {
        seq![digit_char(n as int)]
    } else {
        decimal(n / 10) + seq![digit_char((n % 10) as int)]
    }
}

/// The 64 bits of `w`, bit 0 first, as `0` and `1`.
pub open spec fn bits_text(w: u64) -> Seq<char> {
    Seq::new(64, |i: int| if bit_set(w, i) { '1' } else { '0' })
}

fn digit_str(d: usize) -> (r: &'static str)
    requires
        d < 10,
    ensures
        r@ == seq![digit_char(d as int)],
{
    proof {
        reveal_strlit("0");
        reveal_strlit("1");
        reveal_strlit("2");
        reveal_strlit("3");
        reveal_strlit("4");
        reveal_strlit("5");
        reveal_strlit("6");
        reveal_strlit("7");
        reveal_strlit("8");
        reveal_strlit("9");
    }
    if d == 0 {
        "0"
    } else if d == 1 {
        "1"
    } else if d == 2 {
        "2"
    } else if d == 3 {
        "3"
    } else if d == 4 {
        "4"
    } else if d == 5 {
        "5"
    } else if d == 6 {
        "6"
    } else if d == 7 {
        "7"
    } else if d == 8 {
        "8"
    } else {
        "9"
    }
}

/// Appends `n` in decimal.
pub fn push_decimal(out: &mut String, n: usize)
    ensures
        final(out)@ == old(out)@ + decimal(n as nat),
    decreases n,
{
    if n >= 10 {
        push_decimal(out, n / 10);
    }
    out.append(digit_str(n % 10));
    proof {
        if n >= 10 {
            assert(final(out)@ =~= old(out)@ + decimal(n as nat));
        }
    }
}

/// Appends the 64 bits of `w`, bit 0 first.
pub fn push_bits(out: &mut String, w: u64)
    ensures
        final(out)@ == old(out)@ + bits_text(w),
{
    let ghost start = out@;
    let mut i: u64 = 0;
    while i < 64
        invariant
            i <= 64,
            out@ == start + bits_text(w).subrange(0, i as int),
        decreases 64 - i,
    {
        proof {
            reveal_strlit("0");
            reveal_strlit("1");
        }
        if (w >> i) & 1 == 1 {
            out.append("1");
        } else {
            out.append("0");
        }
        assert(out@ =~= start + bits_text(w).subrange(0, i + 1));
        i += 1;
    }
    assert(bits_text(w).subrange(0, 64) =~= bits_text(w));
}

} // verus!
