//! What semihosting computes before it traps to the host: the text of a
//! 64-bit value in hexadecimal. The traps themselves are instructions of the
//! target and happen outside the library.

use vstd::prelude::*;

verus! {

/// Semihosting: the debug channel to the host that a simulator provides.
pub struct Semihosting;

/// The ASCII lower-case hexadecimal digit for `n`, below 16.
pub open spec fn hex_digit(n: int) -> u8 {
    if n < 10 {
        (48 + n) as u8
    } else {
        (97 + n - 10) as u8
    }
}

/// Nibble `i` of `h`, counted from the most significant one.
pub open spec fn nibble(h: u64, i: int) -> int {
    ((h >> ((60 - 4 * i) as u64)) & 0xfu64) as int
}

fn hexn(n: u64) -> (r: u8)
    requires
        n < 16,
    ensures
        r == hex_digit(n as int),
{
    if n < 10 {
        n as u8 + 48
    } else {
        n as u8 - 10 + 97
    }
}

impl Semihosting {
    /// `h` as `0x` and sixteen lower-case hexadecimal digits, the most
    /// significant first, ended with a NUL for the host's string call.
    pub fn dbg_hex_text(h: u64) -> (r: Vec<u8>)
        ensures
            r@.len() == 19,
            r@[0] == 48,
            r@[1] == 120,
            forall|i: int| 0 <= i < 16 ==> #[trigger] r@[2 + i] == hex_digit(nibble(h, i)),
            r@[18] == 0,
    {
        let mut r: Vec<u8> = Vec::new();
        r.push(48);
        // 'x'
        r.push(120);
        let mut i: u64 = 0;
        while i < 16
            invariant
                i <= 16,
                r@.len() == 2 + i,
                r@[0] == 48,
                r@[1] == 120,
                forall|j: int| 0 <= j < i ==> #[trigger] r@[2 + j] == hex_digit(nibble(h, j)),
            decreases 16 - i,
        {
            let shift = 60 - 4 * i;
            let n = (h >> shift) & 0xf;
            assert(n < 16) by (bit_vector)
                requires
                    n == (h >> shift) & 0xf,
            ;
            r.push(hexn(n));
            i += 1;
        }
        r.push(0);
        r
    }
}

} // verus!
